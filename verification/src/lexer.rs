//! The tokenizer: stylesheet text to a flat stream of tokens, each tagged with
//! the line it starts on.

use vstd::prelude::*;
use crate::text::{
    chars_of, is_whitespace, lemma_scan, push_text, scan, scan_to, string_of, substring,
    CharClass,
};

verus! {

/// One token of a stylesheet.
#[derive(Debug, PartialEq, Eq)]
pub enum Token {
    /// Text outside a block: one selector, or several joined by commas.
    Selector { value: String, line: usize },
    /// A word inside a block that a colon or a newline follows.
    Property { value: String, line: usize },
    /// A word inside a block that a semicolon follows.
    Value { value: String, line: usize },
    BlockOpen { line: usize },
    BlockClose { line: usize },
    Colon { line: usize },
    Semicolon { line: usize },
    /// The end of the input; the last token of every stream.
    EOF,
}

/// A token as a mathematical value.
pub ghost enum TokenView {
    Selector { value: Seq<char>, line: usize },
    Property { value: Seq<char>, line: usize },
    Value { value: Seq<char>, line: usize },
    BlockOpen { line: usize },
    BlockClose { line: usize },
    Colon { line: usize },
    Semicolon { line: usize },
    EOF,
}

impl View for Token {
    type V = TokenView;

    open spec fn view(&self) -> TokenView {
        match *self {
            Token::Selector { value, line } => TokenView::Selector { value: value@, line },
            Token::Property { value, line } => TokenView::Property { value: value@, line },
            Token::Value { value, line } => TokenView::Value { value: value@, line },
            Token::BlockOpen { line } => TokenView::BlockOpen { line },
            Token::BlockClose { line } => TokenView::BlockClose { line },
            Token::Colon { line } => TokenView::Colon { line },
            Token::Semicolon { line } => TokenView::Semicolon { line },
            Token::EOF => TokenView::EOF,
        }
    }
}

impl TokenView {
    /// How a token is shown: its kind, and its text if it has one.
    pub open spec fn label(self) -> Seq<char> {
        match self {
            TokenView::Selector { value, .. } => "Selector("@ + value + ")"@,
            TokenView::Property { value, .. } => "Property("@ + value + ")"@,
            TokenView::Value { value, .. } => "Value("@ + value + ")"@,
            TokenView::BlockOpen { .. } => "BlockOpen"@,
            TokenView::BlockClose { .. } => "BlockClose"@,
            TokenView::Colon { .. } => "Colon"@,
            TokenView::Semicolon { .. } => "Semicolon"@,
            TokenView::EOF => "EOF"@,
        }
    }
}

/// `kind`, and `value` in parentheses.
fn labelled(kind: &str, value: &str) -> (r: String)
    ensures
        r@ == kind@ + value@ + ")"@,
{
    let mut out: Vec<char> = Vec::new();
    push_text(&mut out, kind);
    push_text(&mut out, value);
    push_text(&mut out, ")");
    assert(out@ =~= kind@ + value@ + ")"@);
    string_of(out.as_slice())
}

impl Token {
    /// How the token is shown.
    pub fn label(&self) -> (r: String)
        ensures
            r@ == self@.label(),
    {
        match self {
            Token::Selector { value, .. } => labelled("Selector(", value.as_str()),
            Token::Property { value, .. } => labelled("Property(", value.as_str()),
            Token::Value { value, .. } => labelled("Value(", value.as_str()),
            Token::BlockOpen { .. } => "BlockOpen".to_owned(),
            Token::BlockClose { .. } => "BlockClose".to_owned(),
            Token::Colon { .. } => "Colon".to_owned(),
            Token::Semicolon { .. } => "Semicolon".to_owned(),
            Token::EOF => "EOF".to_owned(),
        }
    }
}

/// The tokens of a sequence, as mathematical values.
pub open spec fn token_views(v: Seq<Token>) -> Seq<TokenView> {
    v.map_values(|t: Token| t@)
}

/// The number of newlines among the first `pos` characters of `s`.
pub open spec fn newlines_before(s: Seq<char>, pos: int) -> nat
    decreases pos,
{
    if pos <= 0 || pos > s.len() {
        0
    } else if s[pos - 1] == '\n' {
        newlines_before(s, pos - 1) + 1
    } else {
        newlines_before(s, pos - 1)
    }
}

/// The number of the line that holds index `pos` of `s`: lines count from 1,
/// and the count stops at the largest `usize`.
pub open spec fn line_at(s: Seq<char>, pos: int) -> usize {
    if 1 + newlines_before(s, pos) <= usize::MAX {
        (1 + newlines_before(s, pos)) as usize
    } else {
        usize::MAX
    }
}

/// A stretch without a newline lies on one line.
pub proof fn lemma_same_line(s: Seq<char>, from: int, to: int)
    requires
        0 <= from <= to <= s.len(),
        forall|i: int| from <= i < to ==> #[trigger] s[i] != '\n',
    ensures
        newlines_before(s, to) == newlines_before(s, from),
        line_at(s, to) == line_at(s, from),
    decreases to - from,
{
    if from < to {
        lemma_same_line(s, from, to - 1);
    }
}

/// Where a comment ends whose opening `/` stands just before index `from`:
/// behind the first `*` at or after `from` that a `/` follows, or at the end
/// of `s` when the comment is never closed.
pub open spec fn comment_end(s: Seq<char>, from: int) -> int
    decreases s.len() - from,
{
    if from < 0 || from >= s.len() {
        s.len() as int
    } else if s[from] == '*' && from + 1 < s.len() && s[from + 1] == '/' {
        from + 2
    } else {
        comment_end(s, from + 1)
    }
}

/// A comment ends within the text, and behind its start if there is any
/// text left.
pub proof fn lemma_comment_end(s: Seq<char>, from: int)
    requires
        0 <= from <= s.len(),
    ensures
        from <= comment_end(s, from) <= s.len(),
        from < s.len() ==> from < comment_end(s, from),
    decreases s.len() - from,
{
    if from < s.len() && !(s[from] == '*' && from + 1 < s.len() && s[from + 1] == '/') {
        lemma_comment_end(s, from + 1);
    }
}

/// The token stream of `s` from index `pos` on, `inside` telling whether `pos`
/// lies inside a block.
///
/// - `{` and `}` open and close a block; `;` is always a token, `:` only
///   inside a block.
/// - `/*` starts a comment, which yields nothing; a `/` that starts no comment
///   is dropped.
/// - A space, a tab or a newline starts a run of white space, which yields
///   nothing.
/// - Any other character starts a word. Outside a block the word runs up to
///   `{` or the end of the line and is a selector. Inside a block it runs up
///   to `:`, `;` or the end of the line; it is a property before `:` or a
///   newline, a value before `;`, and yields nothing when the input ends
///   first.
pub open spec fn lex_from(s: Seq<char>, pos: int, inside: bool) -> Seq<TokenView>
    decreases s.len() - pos,
    via lex_from_decreases
{
    if pos < 0 || pos >= s.len() {
        seq![TokenView::EOF]
    } else {
        let c = s[pos];
        let line = line_at(s, pos);
        if c == '{' {
            seq![TokenView::BlockOpen { line }] + lex_from(s, pos + 1, true)
        } else if c == '}' {
            seq![TokenView::BlockClose { line }] + lex_from(s, pos + 1, false)
        } else if c == ':' && inside {
            seq![TokenView::Colon { line }] + lex_from(s, pos + 1, inside)
        } else if c == ';' {
            seq![TokenView::Semicolon { line }] + lex_from(s, pos + 1, inside)
        } else if c == '/' {
            if pos + 1 < s.len() && s[pos + 1] == '*' {
                lex_from(s, comment_end(s, pos + 1), inside)
            } else {
                lex_from(s, pos + 1, inside)
            }
        } else if c == ' ' || c == '\n' || c == '\t' {
            lex_from(s, scan(s, pos + 1, CharClass::NotSpace), inside)
        } else if inside {
            let e = scan(s, pos + 1, CharClass::LineStop);
            let value = s.subrange(pos, e);
            if e >= s.len() {
                lex_from(s, e, inside)
            } else if s[e] == ';' {
                seq![TokenView::Value { value, line }] + lex_from(s, e, inside)
            } else {
                seq![TokenView::Property { value, line }] + lex_from(s, e, inside)
            }
        } else {
            let e = scan(s, pos + 1, CharClass::SelectorStop);
            seq![TokenView::Selector { value: s.subrange(pos, e), line }] + lex_from(s, e, inside)
        }
    }
}

#[via_fn]
proof fn lex_from_decreases(s: Seq<char>, pos: int, inside: bool) {
    if 0 <= pos < s.len() {
        lemma_next_place(s, pos);
    }
}

/// Whatever stands at `pos`, the tokenizer goes on from a later place within
/// the text.
pub proof fn lemma_next_place(s: Seq<char>, pos: int)
    requires
        0 <= pos < s.len(),
    ensures
        pos < scan(s, pos + 1, CharClass::NotSpace) <= s.len(),
        pos < scan(s, pos + 1, CharClass::LineStop) <= s.len(),
        pos < scan(s, pos + 1, CharClass::SelectorStop) <= s.len(),
        pos < comment_end(s, pos + 1) <= s.len(),
{
    lemma_scan(s, pos + 1, CharClass::NotSpace);
    lemma_scan(s, pos + 1, CharClass::LineStop);
    lemma_scan(s, pos + 1, CharClass::SelectorStop);
    lemma_comment_end(s, pos + 1);
}

/// The token stream of the whole text `s`.
pub open spec fn lex(s: Seq<char>) -> Seq<TokenView> {
    lex_from(s, 0, false)
}

/// Every token stream ends with the end-of-input token, and holds it nowhere
/// else.
pub proof fn lemma_lex_ends_with_eof(s: Seq<char>, pos: int, inside: bool)
    ensures
        lex_from(s, pos, inside).len() >= 1,
        lex_from(s, pos, inside).last() == TokenView::EOF,
        forall|i: int|
            0 <= i < lex_from(s, pos, inside).len() - 1 ==> #[trigger] lex_from(s, pos, inside)[i]
                != TokenView::EOF,
    decreases s.len() - pos,
{
    if 0 <= pos < s.len() {
        lemma_next_place(s, pos);
        let c = s[pos];
        if c == '{' {
            lemma_lex_ends_with_eof(s, pos + 1, true);
        } else if c == '}' {
            lemma_lex_ends_with_eof(s, pos + 1, false);
        } else if c == ':' && inside {
            lemma_lex_ends_with_eof(s, pos + 1, inside);
        } else if c == ';' {
            lemma_lex_ends_with_eof(s, pos + 1, inside);
        } else if c == '/' {
            if pos + 1 < s.len() && s[pos + 1] == '*' {
                lemma_lex_ends_with_eof(s, comment_end(s, pos + 1), inside);
            } else {
                lemma_lex_ends_with_eof(s, pos + 1, inside);
            }
        } else if c == ' ' || c == '\n' || c == '\t' {
            lemma_lex_ends_with_eof(s, scan(s, pos + 1, CharClass::NotSpace), inside);
        } else if inside {
            lemma_lex_ends_with_eof(s, scan(s, pos + 1, CharClass::LineStop), inside);
        } else {
            lemma_lex_ends_with_eof(s, scan(s, pos + 1, CharClass::SelectorStop), inside);
        }
    }
}

/// Where a tokenizer stands: the number of characters read, and the number
/// of the line that the next character stands on.
#[derive(Clone, Copy, Debug)]
struct Place {
    position: usize,
    line: usize,
}

/// A tokenizer over one text. It keeps its place, so the tokens come from
/// wherever it stands.
pub struct Lexer {
    input: Vec<char>,
    place: Place,
}

impl Lexer {
    /// The place lies within the text, and the line number is that of the
    /// place.
    #[verifier::type_invariant]
    closed spec fn placed(self) -> bool {
        &&& self.place.position <= self.input@.len()
        &&& self.place.line == line_at(self.input@, self.place.position as int)
    }

    /// The text that is being read.
    pub closed spec fn source(&self) -> Seq<char> {
        self.input@
    }

    /// The number of characters read so far.
    pub closed spec fn position(&self) -> int {
        self.place.position as int
    }

    /// The number of the line that the next character stands on.
    pub closed spec fn line(&self) -> usize {
        self.place.line
    }

    /// A tokenizer at the start of `input`.
    #[must_use]
    pub fn new(input: &str) -> (lexer: Lexer)
        ensures
            lexer.source() == input@,
            lexer.position() == 0,
            lexer.line() == 1,
    {
        Lexer { input: chars_of(input), place: Place { position: 0, line: 1 } }
    }

    /// Reads one character, if any is left.
    fn advance(&mut self) -> (r: Option<char>)
        ensures
            final(self).input@ == old(self).input@,
            old(self).position() < old(self).input@.len() ==> r == Some(
                old(self).input@[old(self).position()],
            ) && final(self).position() == old(self).position() + 1,
            old(self).position() >= old(self).input@.len() ==> r is None && final(self).position()
                == old(self).position(),
    {
        proof {
            use_type_invariant(&*self);
        }
        let Place { position, line } = self.place;
        if position >= self.input.len() {
            return None;
        }
        let ch = self.input[position];
        let next_line = if ch == '\n' && line < usize::MAX {
            line + 1
        } else {
            line
        };
        self.place = Place { position: position + 1, line: next_line };
        Some(ch)
    }

    /// The next character, if any is left.
    fn peek_char(&self) -> (r: Option<char>)
        ensures
            self.position() < self.input@.len() ==> r == Some(self.input@[self.position()]),
            self.position() >= self.input@.len() ==> r is None,
    {
        if self.place.position < self.input.len() {
            Some(self.input[self.place.position])
        } else {
            None
        }
    }

    /// Reads up to the next character of `class`, or to the end. The class
    /// holds the newline, so the place stays on its line.
    fn advance_until(&mut self, class: CharClass)
        requires
            class.has('\n'),
        ensures
            final(self).input@ == old(self).input@,
            final(self).position() == scan(old(self).input@, old(self).position(), class),
    {
        proof {
            use_type_invariant(&*self);
        }
        let Place { position, line } = self.place;
        let e = scan_to(self.input.as_slice(), position, class);
        proof {
            lemma_scan(self.input@, position as int, class);
            lemma_same_line(self.input@, position as int, e as int);
        }
        self.place = Place { position: e, line };
    }

    /// Reads up to the next `:`, `;` or newline, or to the end.
    fn advance_until_line_stop(&mut self)
        ensures
            final(self).input@ == old(self).input@,
            final(self).position() == scan(
                old(self).input@,
                old(self).position(),
                CharClass::LineStop,
            ),
    {
        self.advance_until(CharClass::LineStop);
    }

    /// Reads up to the next `{` or newline, or to the end.
    fn advance_until_selector_stop(&mut self)
        ensures
            final(self).input@ == old(self).input@,
            final(self).position() == scan(
                old(self).input@,
                old(self).position(),
                CharClass::SelectorStop,
            ),
    {
        self.advance_until(CharClass::SelectorStop);
    }

    /// Reads to the end of a comment whose `/` was just read.
    fn advance_until_comment_end(&mut self)
        ensures
            final(self).input@ == old(self).input@,
            final(self).position() == comment_end(old(self).input@, old(self).position()),
    {
        let ghost s = self.input@;
        let ghost start = self.position();
        proof {
            use_type_invariant(&*self);
        }
        loop
            invariant_except_break
                comment_end(s, start) == comment_end(s, self.position()),
            invariant
                self.input@ == s,
                start <= self.position() <= s.len(),
            ensures
                self.input@ == s,
                self.position() == comment_end(s, start),
            decreases s.len() - self.position(),
        {
            let c = match self.advance() {
                Some(c) => c,
                None => {
                    break;
                },
            };
            proof {
                use_type_invariant(&*self);
            }
            if c == '*' {
                if let Some(peek) = self.peek_char() {
                    if peek == '/' {
                        self.advance();
                        break;
                    }
                }
            }
        }
    }

    /// Reads the white space that comes next.
    fn skip_whitespace(&mut self)
        ensures
            final(self).input@ == old(self).input@,
            final(self).position() == scan(
                old(self).input@,
                old(self).position(),
                CharClass::NotSpace,
            ),
    {
        let ghost s = self.input@;
        let ghost start = self.position();
        proof {
            use_type_invariant(&*self);
        }
        loop
            invariant
                self.input@ == s,
                start <= self.position() <= s.len(),
                scan(s, start, CharClass::NotSpace) == scan(s, self.position(), CharClass::NotSpace),
            ensures
                self.input@ == s,
                self.position() == scan(s, start, CharClass::NotSpace),
            decreases s.len() - self.position(),
        {
            let c = match self.peek_char() {
                Some(c) => c,
                None => {
                    break;
                },
            };
            if is_whitespace(c) {
                self.advance();
                proof {
                    use_type_invariant(&*self);
                }
            } else {
                break;
            }
        }
    }

    /// The tokens from the tokenizer's place to the end of the text. The
    /// tokenizer then stands at the end.
    #[must_use]
    pub fn tokens(&mut self) -> (tokens: Vec<Token>)
        ensures
            final(self).source() == old(self).source(),
            final(self).position() == old(self).source().len(),
            token_views(tokens@) == lex_from(old(self).source(), old(self).position(), false),
    {
        let mut tokens: Vec<Token> = Vec::new();
        let mut inside_block = false;
        let ghost s = self.input@;
        let ghost p0 = self.position();
        proof {
            use_type_invariant(&*self);
        }
        loop
            invariant_except_break
                lex_from(s, p0, false) == token_views(tokens@) + lex_from(
                    s,
                    self.position(),
                    inside_block,
                ),
            invariant
                self.input@ == s,
                0 <= self.position() <= s.len(),
            ensures
                self.input@ == s,
                self.position() == s.len(),
                token_views(tokens@) == lex_from(s, p0, false),
            decreases s.len() - self.position(),
        {
            let start = self.place.position;
            let line = self.place.line;
            let ghost before = token_views(tokens@);
            let ghost inside = inside_block;
            proof {
                use_type_invariant(&*self);
                if start < s.len() {
                    lemma_next_place(s, start as int);
                }
            }
            let c = match self.advance() {
                Some(c) => c,
                None => {
                    tokens.push(Token::EOF);
                    break;
                },
            };
            if c == '{' {
                tokens.push(Token::BlockOpen { line });
                inside_block = true;
            } else if c == '}' {
                tokens.push(Token::BlockClose { line });
                inside_block = false;
            } else if c == ':' && inside_block {
                tokens.push(Token::Colon { line });
            } else if c == ';' {
                tokens.push(Token::Semicolon { line });
            } else if c == '/' {
                if let Some(peek) = self.peek_char() {
                    if peek == '*' {
                        self.advance_until_comment_end();
                    }
                }
            } else if c == ' ' || c == '\n' || c == '\t' {
                self.skip_whitespace();
            } else if inside_block {
                self.advance_until_line_stop();
                if let Some(peek) = self.peek_char() {
                    let value = substring(self.input.as_slice(), start, self.place.position);
                    if peek == ';' {
                        tokens.push(Token::Value { value, line });
                    } else {
                        tokens.push(Token::Property { value, line });
                    }
                }
            } else {
                self.advance_until_selector_stop();
                let value = substring(self.input.as_slice(), start, self.place.position);
                tokens.push(Token::Selector { value, line });
            }
            proof {
                use_type_invariant(&*self);
            }
            assert(before + lex_from(s, start as int, inside) =~= token_views(tokens@) + lex_from(
                s,
                self.position(),
                inside_block,
            ));
        }
        tokens
    }
}

} // verus!
