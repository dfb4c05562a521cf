//! Diagnostics: what is wrong with the order of the tokens of a stylesheet,
//! with the line and column of each finding.

use vstd::prelude::*;
use crate::lexer::{lemma_lex_ends_with_eof, lex, token_views, Lexer, Token, TokenView};
use crate::number::{decimal_text, push_decimal};
use crate::text::{
    byte_offset, byte_offset_of, chars_of, find_sub, find_text, lines, push_text, split_lines,
    string_of, texts,
};

verus! {

/// One finding: a token that the wrong token follows.
#[derive(Debug, PartialEq, Eq)]
pub struct SyntaxError {
    /// The line of the token, counted from 1.
    pub line: usize,
    /// Where the token's text begins in its line, counted in bytes from 0.
    pub column: usize,
    /// What is wrong.
    pub error: &'static str,
    /// The text of the line.
    pub value: String,
}

/// A finding as a mathematical value.
pub ghost struct SyntaxErrorView {
    pub line: usize,
    pub column: int,
    pub error: Seq<char>,
    pub value: Seq<char>,
}

impl View for SyntaxError {
    type V = SyntaxErrorView;

    open spec fn view(&self) -> SyntaxErrorView {
        SyntaxErrorView {
            line: self.line,
            column: self.column as int,
            error: self.error@,
            value: self.value@,
        }
    }
}

impl SyntaxErrorView {
    /// How a finding is shown: what is wrong, then line and column, then the
    /// text of the line.
    pub open spec fn message(self) -> Seq<char> {
        "error: "@ + self.error + "\n "@ + decimal_text(self.line as nat) + ":"@ + decimal_text(
            self.column as nat,
        ) + " | "@ + self.value
    }
}

impl SyntaxError {
    /// How the finding is shown.
    pub fn message(&self) -> (r: String)
        ensures
            r@ == self@.message(),
    {
        let mut out: Vec<char> = Vec::new();
        push_text(&mut out, "error: ");
        push_text(&mut out, self.error);
        push_text(&mut out, "\n ");
        push_decimal(self.line, &mut out);
        push_text(&mut out, ":");
        push_decimal(self.column, &mut out);
        push_text(&mut out, " | ");
        push_text(&mut out, self.value.as_str());
        assert(out@ =~= self@.message());
        string_of(out.as_slice())
    }
}

/// The findings of a sequence, as mathematical values.
pub open spec fn error_views(v: Seq<SyntaxError>) -> Seq<SyntaxErrorView> {
    v.map_values(|e: SyntaxError| e@)
}

/// Where `needle` begins in line number `line` of `lines`, counted in bytes
/// of UTF-8, and that line's text. The column is 0 when the line does not
/// hold `needle`; column and text are 0 and empty when there is no such line.
pub open spec fn locate(all: Seq<Seq<char>>, line: usize, needle: Seq<char>) -> (int, Seq<char>) {
    if 1 <= line <= all.len() {
        let found = find_sub(all[line - 1], needle);
        (
            if found is Some {
                byte_offset(all[line - 1], found->0) as int
            } else {
                0
            },
            all[line - 1],
        )
    } else {
        (0, Seq::<char>::empty())
    }
}

/// The finding at `line` about `needle`, with the message `error`.
pub open spec fn finding(
    all: Seq<Seq<char>>,
    line: usize,
    needle: Seq<char>,
    error: Seq<char>,
) -> SyntaxErrorView {
    SyntaxErrorView {
        line,
        column: locate(all, line, needle).0,
        error,
        value: locate(all, line, needle).1,
    }
}

/// What is wrong with `token` given the token that follows it, if anything:
///
/// - a selector wants `{` or another selector next;
/// - a property wants `:`, a `:` wants a value, a value wants `;`;
/// - a `;` wants a property or `}`;
/// - and each of them wants some token to follow.
pub open spec fn diagnosis(
    token: TokenView,
    next: Option<TokenView>,
    all: Seq<Seq<char>>,
) -> Option<SyntaxErrorView> {
    match token {
        TokenView::Selector { value, line } => match next {
            Some(TokenView::BlockOpen { .. }) | Some(TokenView::Selector { .. }) => None,
            Some(_) => Some(finding(all, line, value, "Expecting { after selector"@)),
            None => Some(finding(all, line, value, "Unexpected EOF"@)),
        },
        TokenView::Property { value, line } => match next {
            Some(TokenView::Colon { .. }) => None,
            Some(_) => Some(finding(all, line, value, "Unexpected token after property"@)),
            None => Some(finding(all, line, value, "Unexpected EOF"@)),
        },
        TokenView::Value { value, line } => match next {
            Some(TokenView::Semicolon { .. }) => None,
            Some(_) => Some(finding(all, line, value, "Expecting ; after value"@)),
            None => Some(finding(all, line, value, "Unexpected EOF"@)),
        },
        TokenView::Semicolon { line } => match next {
            Some(TokenView::BlockClose { .. }) | Some(TokenView::Property { .. }) => None,
            Some(_) => Some(finding(all, line, seq![';'], "Expecting property or } after ;"@)),
            None => Some(finding(all, line, seq![';'], "Unexpected EOF"@)),
        },
        TokenView::Colon { line } => match next {
            Some(TokenView::Value { .. }) => None,
            Some(_) => Some(finding(all, line, seq![':'], "Expecting value after :"@)),
            None => Some(finding(all, line, seq![':'], "Unexpected EOF"@)),
        },
        _ => None,
    }
}

/// The token after index `i`, if there is one.
pub open spec fn token_after(tokens: Seq<TokenView>, i: int) -> Option<TokenView> {
    if 0 <= i + 1 < tokens.len() {
        Some(tokens[i + 1])
    } else {
        None
    }
}

/// The findings about the first `n` tokens, in the order of the tokens.
pub open spec fn findings_upto(tokens: Seq<TokenView>, all: Seq<Seq<char>>, n: int) -> Seq<
    SyntaxErrorView,
>
    decreases n,
{
    if n <= 0 || n > tokens.len() {
        Seq::<SyntaxErrorView>::empty()
    } else {
        let d = diagnosis(tokens[n - 1], token_after(tokens, n - 1), all);
        if d is Some {
            findings_upto(tokens, all, n - 1).push(d->0)
        } else {
            findings_upto(tokens, all, n - 1)
        }
    }
}

/// The findings about `tokens`, read against the lines of `input`.
pub open spec fn findings(tokens: Seq<TokenView>, input: Seq<char>) -> Seq<SyntaxErrorView> {
    findings_upto(tokens, lines(input), tokens.len() as int)
}

/// Whether a finding says that the tokens ended too early.
pub open spec fn ends_early(e: SyntaxErrorView) -> bool {
    e.error == "Unexpected EOF"@
}

proof fn lemma_diagnosis_with_a_follower(token: TokenView, next: TokenView, all: Seq<Seq<char>>)
    ensures
        diagnosis(token, Some(next), all) matches Some(e) ==> !ends_early(e),
{
    reveal_strlit("Unexpected EOF");
    reveal_strlit("Expecting { after selector");
    reveal_strlit("Unexpected token after property");
    reveal_strlit("Expecting ; after value");
    reveal_strlit("Expecting property or } after ;");
    reveal_strlit("Expecting value after :");
    let d = diagnosis(token, Some(next), all);
    if d is Some {
        assert(d->0.error.len() != "Unexpected EOF"@.len());
    }
}

proof fn lemma_findings_upto_have_a_follower(tokens: Seq<TokenView>, all: Seq<Seq<char>>, n: int)
    requires
        tokens.len() > 0,
        tokens.last() == TokenView::EOF,
        0 <= n <= tokens.len(),
    ensures
        forall|i: int|
            0 <= i < findings_upto(tokens, all, n).len() ==> !ends_early(
                #[trigger] findings_upto(tokens, all, n)[i],
            ),
    decreases n,
{
    if n > 0 {
        lemma_findings_upto_have_a_follower(tokens, all, n - 1);
        if n < tokens.len() {
            lemma_diagnosis_with_a_follower(tokens[n - 1], tokens[n], all);
        }
        let before = findings_upto(tokens, all, n - 1);
        let now = findings_upto(tokens, all, n);
        assert forall|i: int| 0 <= i < now.len() implies !ends_early(#[trigger] now[i]) by {
            if i < before.len() {
                assert(now[i] == before[i]);
            }
        }
    }
}

/// In a token stream that ends with the end-of-input token every other token
/// has a follower: no finding says that the tokens ended too early.
pub proof fn lemma_findings_have_a_follower(tokens: Seq<TokenView>, input: Seq<char>)
    requires
        tokens.len() > 0,
        tokens.last() == TokenView::EOF,
    ensures
        forall|i: int|
            0 <= i < findings(tokens, input).len() ==> !ends_early(
                #[trigger] findings(tokens, input)[i],
            ),
{
    lemma_findings_upto_have_a_follower(tokens, lines(input), tokens.len() as int);
}

/// Where `m` begins in line number `line` of `lines`, and that line's text.
pub fn find_line_with_value<'a>(all: &'a [String], line: usize, m: &str) -> (r: (usize, &'a str))
    ensures
        r.0 as int == locate(texts(all@), line, m@).0,
        r.1@ == locate(texts(all@), line, m@).1,
{
    if line < 1 || line > all.len() {
        proof {
            reveal_strlit("");
        }
        return (0, "");
    }
    let text: &'a str = all[line - 1].as_str();
    let hay = chars_of(text);
    let needle = chars_of(m);
    let col = match find_text(hay.as_slice(), needle.as_slice()) {
        Some(c) => byte_offset_of(hay.as_slice(), c),
        None => 0,
    };
    (col, text)
}

/// Builds the finding about `needle` at `line`.
fn report(all: &[String], line: usize, needle: &str, error: &'static str) -> (e: SyntaxError)
    ensures
        e@ == finding(texts(all@), line, needle@, error@),
{
    let (column, value) = find_line_with_value(all, line, needle);
    SyntaxError { line, column, error, value: value.to_owned() }
}

/// What is wrong with `token` given the token that follows it.
fn diagnose(token: &Token, next: Option<&Token>, all: &[String]) -> (r: Option<SyntaxError>)
    ensures
        match r {
            Some(e) => Some(e@),
            None => None,
        } == diagnosis(
            token@,
            match next {
                Some(t) => Some(t@),
                None => None,
            },
            texts(all@),
        ),
{
    proof {
        reveal_strlit(";");
        reveal_strlit(":");
        assert(";"@ =~= seq![';']);
        assert(":"@ =~= seq![':']);
    }
    match token {
        Token::Selector { value, line } => match next {
            Some(Token::BlockOpen { .. }) | Some(Token::Selector { .. }) => None,
            Some(_) => Some(report(all, *line, value.as_str(), "Expecting { after selector")),
            None => Some(report(all, *line, value.as_str(), "Unexpected EOF")),
        },
        Token::Property { value, line } => match next {
            Some(Token::Colon { .. }) => None,
            Some(_) => Some(report(all, *line, value.as_str(), "Unexpected token after property")),
            None => Some(report(all, *line, value.as_str(), "Unexpected EOF")),
        },
        Token::Value { value, line } => match next {
            Some(Token::Semicolon { .. }) => None,
            Some(_) => Some(report(all, *line, value.as_str(), "Expecting ; after value")),
            None => Some(report(all, *line, value.as_str(), "Unexpected EOF")),
        },
        Token::Semicolon { line } => match next {
            Some(Token::BlockClose { .. }) | Some(Token::Property { .. }) => None,
            Some(_) => Some(report(all, *line, ";", "Expecting property or } after ;")),
            None => Some(report(all, *line, ";", "Unexpected EOF")),
        },
        Token::Colon { line } => match next {
            Some(Token::Value { .. }) => None,
            Some(_) => Some(report(all, *line, ":", "Expecting value after :")),
            None => Some(report(all, *line, ":", "Unexpected EOF")),
        },
        _ => None,
    }
}

/// The findings about `tokens`, read against the lines of `input`: one for
/// each token that the wrong token follows, in the order of the tokens.
#[must_use]
pub fn analyze_tokens(tokens: &[Token], input: &str) -> (errors: Vec<SyntaxError>)
    ensures
        error_views(errors@) == findings(token_views(tokens@), input@),
{
    let mut errors: Vec<SyntaxError> = Vec::new();
    let all = split_lines(input);
    let ghost views = token_views(tokens@);
    let mut i: usize = 0;
    while i < tokens.len()
        invariant
            i <= tokens@.len(),
            views == token_views(tokens@),
            texts(all@) == lines(input@),
            error_views(errors@) == findings_upto(views, lines(input@), i as int),
        decreases tokens@.len() - i,
    {
        let next: Option<&Token> = if i + 1 < tokens.len() {
            Some(&tokens[i + 1])
        } else {
            None
        };
        let found = diagnose(&tokens[i], next, all.as_slice());
        if let Some(e) = found {
            errors.push(e);
        }
        i = i + 1;
    }
    errors
}

/// The findings about the stylesheet `input`.
pub fn analyze(input: &str) -> (errors: Vec<SyntaxError>)
    ensures
        error_views(errors@) == findings(lex(input@), input@),
        forall|i: int| 0 <= i < errors@.len() ==> !ends_early(#[trigger] error_views(errors@)[i]),
{
    proof {
        lemma_lex_ends_with_eof(input@, 0, false);
        lemma_findings_have_a_follower(lex(input@), input@);
    }
    let mut lexer = Lexer::new(input);
    let tokens = lexer.tokens();
    analyze_tokens(tokens.as_slice(), input)
}

} // verus!
