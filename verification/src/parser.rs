//! The rule parser: tokens to rules, and the pass that fills in the custom
//! properties of `:root`.

use vstd::prelude::*;
use crate::lexer::{token_views, Token, TokenView};
use crate::lists::{selector_list_items, text_list_items, SelectorList, TextList};
use crate::selector::{selector_of, Selector, SelectorView};
use crate::text::{
    begins_with, chars_of, ends_with, has_prefix, has_suffix, same_text, split, split_on,
    substring, texts, trim, trimmed,
};

verus! {

/// A token that the rule parser looks at: the others only matter to
/// diagnostics.
#[derive(Debug, PartialEq, Eq)]
pub enum ParserToken {
    Selector { value: String },
    Property { value: String },
    Value { value: String },
}

/// A parser token as a mathematical value.
pub ghost enum ParserTokenView {
    Selector { value: Seq<char> },
    Property { value: Seq<char> },
    Value { value: Seq<char> },
}

impl View for ParserToken {
    type V = ParserTokenView;

    open spec fn view(&self) -> ParserTokenView {
        match *self {
            ParserToken::Selector { value } => ParserTokenView::Selector { value: value@ },
            ParserToken::Property { value } => ParserTokenView::Property { value: value@ },
            ParserToken::Value { value } => ParserTokenView::Value { value: value@ },
        }
    }
}

/// The parser tokens of a sequence, as mathematical values.
pub open spec fn parser_token_views(v: Seq<ParserToken>) -> Seq<ParserTokenView> {
    v.map_values(|t: ParserToken| t@)
}

/// What the rule parser sees of a token: its text if it is a selector, a
/// property or a value, and nothing otherwise.
pub open spec fn parser_token_of(token: TokenView) -> Option<ParserTokenView> {
    match token {
        TokenView::Selector { value, .. } => Some(ParserTokenView::Selector { value }),
        TokenView::Property { value, .. } => Some(ParserTokenView::Property { value }),
        TokenView::Value { value, .. } => Some(ParserTokenView::Value { value }),
        _ => None,
    }
}

impl ParserToken {
    /// What the rule parser sees of `token`.
    #[must_use]
    pub fn from_token(token: &Token) -> (r: Option<ParserToken>)
        ensures
            match r {
                Some(t) => Some(t@),
                None => None,
            } == parser_token_of(token@),
    {
        match token {
            Token::Selector { value, .. } => Some(ParserToken::Selector { value: value.clone() }),
            Token::Property { value, .. } => Some(ParserToken::Property { value: value.clone() }),
            Token::Value { value, .. } => Some(ParserToken::Value { value: value.clone() }),
            _ => None,
        }
    }
}

/// What the rule parser sees of the first `n` tokens.
pub open spec fn significant_upto(tokens: Seq<TokenView>, n: int) -> Seq<ParserTokenView>
    decreases n,
{
    if n <= 0 || n > tokens.len() {
        Seq::<ParserTokenView>::empty()
    } else {
        match parser_token_of(tokens[n - 1]) {
            Some(t) => significant_upto(tokens, n - 1).push(t),
            None => significant_upto(tokens, n - 1),
        }
    }
}

/// The selectors, properties and values among `tokens`, in order.
pub open spec fn significant(tokens: Seq<TokenView>) -> Seq<ParserTokenView> {
    significant_upto(tokens, tokens.len() as int)
}

/// The number of selector tokens among the first `n` tokens.
pub open spec fn selectors_upto(tokens: Seq<TokenView>, n: int) -> nat
    decreases n,
{
    if n <= 0 || n > tokens.len() {
        0
    } else if tokens[n - 1] is Selector {
        selectors_upto(tokens, n - 1) + 1
    } else {
        selectors_upto(tokens, n - 1)
    }
}

/// A rule as a mathematical value: its selectors, and its declarations as two
/// lists of equal length, in the order in which they were written.
pub ghost struct RuleView {
    pub selectors: Seq<SelectorView>,
    pub properties: Seq<Seq<char>>,
    pub values: Seq<Seq<char>>,
}

impl RuleView {
    /// A rule with these selectors and no declaration.
    pub open spec fn bare(selectors: Seq<SelectorView>) -> RuleView {
        RuleView {
            selectors,
            properties: Seq::<Seq<char>>::empty(),
            values: Seq::<Seq<char>>::empty(),
        }
    }

    /// This rule with one more declaration at its end.
    pub open spec fn with_declaration(self, property: Seq<char>, value: Seq<char>) -> RuleView {
        RuleView {
            selectors: self.selectors,
            properties: self.properties.push(property),
            values: self.values.push(value),
        }
    }

    /// This rule with one more selector at its end.
    pub open spec fn with_selector(self, selector: SelectorView) -> RuleView {
        RuleView {
            selectors: self.selectors.push(selector),
            properties: self.properties,
            values: self.values,
        }
    }

    /// This rule without the declaration at `index`.
    pub open spec fn without(self, index: int) -> RuleView {
        RuleView {
            selectors: self.selectors,
            properties: self.properties.remove(index),
            values: self.values.remove(index),
        }
    }

    /// This rule with `value` in the declaration at `index`.
    pub open spec fn with_value(self, index: int, value: Seq<char>) -> RuleView {
        RuleView {
            selectors: self.selectors,
            properties: self.properties,
            values: self.values.update(index, value),
        }
    }

    /// Whether one of the rule's selectors is `:root`.
    pub open spec fn is_root(self) -> bool {
        exists|i: int| 0 <= i < self.selectors.len() && #[trigger] self.selectors[i].selector == ":root"@
    }
}

/// One rule of a stylesheet: the selectors it is for, and its declarations as
/// written, property and value.
pub struct Rule {
    selectors: SelectorList,
    properties: TextList,
    values: TextList,
}

impl View for Rule {
    type V = RuleView;

    closed spec fn view(&self) -> RuleView {
        RuleView {
            selectors: selector_list_items(self.selectors),
            properties: text_list_items(self.properties),
            values: text_list_items(self.values),
        }
    }
}

/// The rules of a sequence, as mathematical values.
pub open spec fn rule_views(v: Seq<Rule>) -> Seq<RuleView> {
    v.map_values(|r: Rule| r@)
}

impl Rule {
    /// Every property has its value.
    #[verifier::type_invariant]
    closed spec fn paired(self) -> bool {
        text_list_items(self.properties).len() == text_list_items(self.values).len()
    }

    /// A rule without selectors or declarations.
    #[must_use]
    pub fn new_const() -> (rule: Rule)
        ensures
            rule@ == RuleView::bare(Seq::<SelectorView>::empty()),
    {
        Rule { selectors: SelectorList::new(), properties: TextList::new(), values: TextList::new() }
    }

    /// Takes the rule out and leaves one without selectors or declarations.
    fn take(&mut self) -> (rule: Rule)
        ensures
            rule@ == old(self)@,
    {
        let mut rule = Rule::new_const();
        core::mem::swap(self, &mut rule);
        rule
    }

    /// Adds a selector at the end.
    pub fn add_selector(&mut self, selector: Selector)
        ensures
            final(self)@ == old(self)@.with_selector(selector@),
    {
        let rule = self.take();
        proof {
            use_type_invariant(&rule);
        }
        let Rule { mut selectors, properties, values } = rule;
        selectors.push(selector);
        *self = Rule { selectors, properties, values };
    }

    /// Adds a declaration at the end.
    pub fn add_declaration(&mut self, property: String, value: String)
        ensures
            final(self)@ == old(self)@.with_declaration(property@, value@),
    {
        let rule = self.take();
        proof {
            use_type_invariant(&rule);
        }
        let Rule { selectors, mut properties, mut values } = rule;
        properties.push(property);
        values.push(value);
        *self = Rule { selectors, properties, values };
    }

    /// The number of selectors.
    pub fn selector_count(&self) -> (n: usize)
        ensures
            n == self@.selectors.len(),
    {
        self.selectors.len()
    }

    /// The selector at `index`.
    pub fn selector(&self, index: usize) -> (selector: &Selector)
        requires
            index < self@.selectors.len(),
        ensures
            selector@ == self@.selectors[index as int],
    {
        self.selectors.get(index)
    }

    /// The number of declarations: every property has its value.
    pub fn len(&self) -> (n: usize)
        ensures
            n == self@.properties.len(),
            n == self@.values.len(),
    {
        proof {
            use_type_invariant(&*self);
        }
        self.properties.len()
    }

    /// The property of the declaration at `index`.
    pub fn property(&self, index: usize) -> (text: &String)
        requires
            index < self@.properties.len(),
        ensures
            text@ == self@.properties[index as int],
    {
        self.properties.get(index)
    }

    /// The value of the declaration at `index`.
    pub fn value(&self, index: usize) -> (text: &String)
        requires
            index < self@.values.len(),
        ensures
            text@ == self@.values[index as int],
    {
        self.values.get(index)
    }

    /// Gives the declaration at `index` another value.
    pub fn set_value(&mut self, index: usize, value: String)
        requires
            index < old(self)@.values.len(),
        ensures
            final(self)@ == old(self)@.with_value(index as int, value@),
    {
        let rule = self.take();
        proof {
            use_type_invariant(&rule);
        }
        let Rule { selectors, properties, mut values } = rule;
        values.set(index, value);
        *self = Rule { selectors, properties, values };
    }

    /// The declarations, each as its property and its value.
    pub fn iter_props(&self) -> (pairs: Vec<(String, String)>)
        ensures
            pairs@.len() == self@.properties.len(),
            pairs@.len() == self@.values.len(),
            forall|i: int|
                0 <= i < pairs@.len() ==> (#[trigger] pairs@[i]).0@ == self@.properties[i]
                    && pairs@[i].1@ == self@.values[i],
    {
        let mut pairs: Vec<(String, String)> = Vec::new();
        let n = self.len();
        let mut i: usize = 0;
        while i < n
            invariant
                i <= n,
                n == self@.properties.len(),
                n == self@.values.len(),
                pairs@.len() == i,
                forall|j: int|
                    0 <= j < i ==> (#[trigger] pairs@[j]).0@ == self@.properties[j] && pairs@[j].1@
                        == self@.values[j],
            decreases n - i,
        {
            pairs.push((self.properties.get(i).clone(), self.values.get(i).clone()));
            i = i + 1;
        }
        pairs
    }

    /// Takes out the declaration at `index`.
    pub fn remove(&mut self, index: usize)
        requires
            index < old(self)@.properties.len(),
        ensures
            final(self)@ == old(self)@.without(index as int),
    {
        let rule = self.take();
        proof {
            use_type_invariant(&rule);
        }
        let Rule { selectors, mut properties, mut values } = rule;
        properties.remove(index);
        values.remove(index);
        *self = Rule { selectors, properties, values };
    }
}

/// The selector that one piece of a selector list writes.
pub open spec fn selector_of_piece(piece: Seq<char>) -> SelectorView {
    selector_of(trimmed(piece))
}

/// The selectors that the pieces write, one each.
pub open spec fn selectors_of_pieces(pieces: Seq<Seq<char>>) -> Seq<SelectorView> {
    pieces.map_values(|piece: Seq<char>| selector_of_piece(piece))
}

/// The selectors of a selector token: the text is cut at its commas, and each
/// piece, without the white space around it, is one selector.
pub open spec fn selectors_of(text: Seq<char>) -> Seq<SelectorView> {
    selectors_of_pieces(split(text, ','))
}

/// The index of the first selector at or after `from`, or the length of `p`.
pub open spec fn run_end(p: Seq<ParserTokenView>, from: int) -> int
    decreases p.len() - from,
{
    if from < 0 || from >= p.len() {
        p.len() as int
    } else if p[from] is Selector {
        from
    } else {
        run_end(p, from + 1)
    }
}

/// The next selector stands at or after `from`, within the tokens.
pub proof fn lemma_run_end(p: Seq<ParserTokenView>, from: int)
    requires
        0 <= from <= p.len(),
    ensures
        from <= run_end(p, from) <= p.len(),
    decreases p.len() - from,
{
    if from < p.len() && !(p[from] is Selector) {
        lemma_run_end(p, from + 1);
    }
}

/// Whether a declaration stands at index `i`, before index `to`: a property
/// that a value follows directly.
pub open spec fn pair_at(p: Seq<ParserTokenView>, i: int, to: int) -> bool {
    0 <= i && i + 1 < to && to <= p.len() && p[i] is Property && p[i + 1] is Value
}

/// `rule` with the declarations among the tokens from index `from` up to
/// `to`, in order. A property that a value follows directly adds a
/// declaration; any other token is dropped by itself.
pub open spec fn filled(rule: RuleView, p: Seq<ParserTokenView>, from: int, to: int) -> RuleView
    decreases to - from,
{
    if from < 0 || from >= to || to > p.len() {
        rule
    } else if pair_at(p, from, to) {
        filled(
            rule.with_declaration(p[from]->Property_value, p[from + 1]->Value_value),
            p,
            from + 2,
            to,
        )
    } else {
        filled(rule, p, from + 1, to)
    }
}

/// The rule of the selector token at index `at`: its selectors, and the
/// declarations among the tokens up to the next selector token.
pub open spec fn rule_at(p: Seq<ParserTokenView>, at: int) -> RuleView {
    filled(RuleView::bare(selectors_of(p[at]->Selector_value)), p, at + 1, run_end(p, at + 1))
}

/// The rules among the tokens from index `from` on: one for each selector
/// token. Tokens before the first selector token belong to no rule.
pub open spec fn rules_from(p: Seq<ParserTokenView>, from: int) -> Seq<RuleView>
    decreases p.len() - from,
    via rules_from_decreases
{
    if from < 0 || from >= p.len() {
        Seq::<RuleView>::empty()
    } else if p[from] is Selector {
        seq![rule_at(p, from)] + rules_from(p, run_end(p, from + 1))
    } else {
        rules_from(p, from + 1)
    }
}

#[via_fn]
proof fn rules_from_decreases(p: Seq<ParserTokenView>, from: int) {
    if 0 <= from < p.len() {
        lemma_run_end(p, from + 1);
    }
}

/// The rules that a token stream writes.
pub open spec fn rules_of(tokens: Seq<TokenView>) -> Seq<RuleView> {
    rules_from(significant(tokens), 0)
}

/// The selectors of a selector token.
fn parse_selectors(text: &str) -> (list: SelectorList)
    ensures
        selector_list_items(list) == selectors_of(text@),
{
    let pieces = split_on(text, ',');
    let mut list = SelectorList::new();
    let mut j: usize = 0;
    let ghost all = texts(pieces@);
    while j < pieces.len()
        invariant
            j <= pieces@.len(),
            all == texts(pieces@),
            all == split(text@, ','),
            selector_list_items(list) == selectors_of_pieces(all.take(j as int)),
        decreases pieces@.len() - j,
    {
        let piece = trim(pieces[j].as_str());
        let selector = Selector::from(piece.as_str());
        let ghost before = selector_list_items(list);
        list.push(selector);
        assert(selectors_of_pieces(all.take(j + 1)) =~= before.push(
            selector_of_piece(all[j as int]),
        ));
        j = j + 1;
    }
    list
}

/// The rule parser.
pub struct Parser {
    tokens: Vec<Token>,
}

impl Parser {
    /// The tokens that the parser was given.
    pub closed spec fn tokens(&self) -> Seq<TokenView> {
        token_views(self.tokens@)
    }

    /// A parser of `tokens`.
    #[must_use]
    pub fn new(tokens: Vec<Token>) -> (parser: Parser)
        ensures
            parser.tokens() == token_views(tokens@),
    {
        Parser { tokens }
    }

    /// The number of selector tokens, which is the number of rules.
    pub fn selector_count(&self) -> (n: usize)
        ensures
            n == selectors_upto(self.tokens(), self.tokens().len() as int),
    {
        let mut n: usize = 0;
        let mut i: usize = 0;
        while i < self.tokens.len()
            invariant
                i <= self.tokens@.len(),
                n == selectors_upto(token_views(self.tokens@), i as int),
                n <= i,
            decreases self.tokens@.len() - i,
        {
            if let Token::Selector { .. } = &self.tokens[i] {
                n = n + 1;
            }
            i = i + 1;
        }
        n
    }

    /// The selectors, properties and values among the tokens.
    fn significant_tokens(&self) -> (list: Vec<ParserToken>)
        ensures
            parser_token_views(list@) == significant(self.tokens()),
    {
        let mut list: Vec<ParserToken> = Vec::new();
        let mut i: usize = 0;
        while i < self.tokens.len()
            invariant
                i <= self.tokens@.len(),
                parser_token_views(list@) == significant_upto(token_views(self.tokens@), i as int),
            decreases self.tokens@.len() - i,
        {
            if let Some(t) = ParserToken::from_token(&self.tokens[i]) {
                list.push(t);
            }
            i = i + 1;
        }
        list
    }

    /// The rules that the tokens write, in order.
    #[must_use]
    pub fn parse(self) -> (rules: Vec<Rule>)
        ensures
            rule_views(rules@) == rules_of(self.tokens()),
    {
        let list = self.significant_tokens();
        let ghost p = parser_token_views(list@);
        let mut rules: Vec<Rule> = Vec::with_capacity(self.selector_count());
        let mut i: usize = 0;
        while i < list.len()
            invariant
                i <= list@.len(),
                p == parser_token_views(list@),
                rules_from(p, 0) == rule_views(rules@) + rules_from(p, i as int),
            decreases list@.len() - i,
        {
            proof {
                lemma_run_end(p, i + 1);
            }
            match &list[i] {
                ParserToken::Selector { value } => {
                    let rule = Self::rule_from(&list, i, value.as_str());
                    let e = Self::next_selector(&list, i + 1);
                    let ghost before = rule_views(rules@);
                    rules.push(rule);
                    assert(before + rules_from(p, i as int) =~= rule_views(rules@) + rules_from(
                        p,
                        e as int,
                    ));
                    i = e;
                },
                _ => {
                    i = i + 1;
                },
            }
        }
        rules
    }

    /// The index of the first selector at or after `from`.
    fn next_selector(list: &Vec<ParserToken>, from: usize) -> (e: usize)
        requires
            from <= list@.len(),
        ensures
            e == run_end(parser_token_views(list@), from as int),
            from <= e <= list@.len(),
    {
        let ghost p = parser_token_views(list@);
        let mut e: usize = from;
        while e < list.len()
            invariant
                from <= e <= list@.len(),
                p == parser_token_views(list@),
                run_end(p, from as int) == run_end(p, e as int),
            decreases list@.len() - e,
        {
            if let ParserToken::Selector { .. } = &list[e] {
                return e;
            }
            e = e + 1;
        }
        e
    }

    /// The rule of the selector token at index `at`, whose text is `text`.
    fn rule_from(list: &Vec<ParserToken>, at: usize, text: &str) -> (rule: Rule)
        requires
            at < list@.len(),
            at < usize::MAX,
            parser_token_views(list@)[at as int] == (ParserTokenView::Selector { value: text@ }),
        ensures
            rule@ == rule_at(parser_token_views(list@), at as int),
    {
        let ghost p = parser_token_views(list@);
        let e = Self::next_selector(list, at + 1);
        let mut rule = Rule {
            selectors: parse_selectors(text),
            properties: TextList::new(),
            values: TextList::new(),
        };
        let ghost start = rule@;
        let mut i: usize = at + 1;
        while i < e
            invariant
                at + 1 <= i <= e <= list@.len(),
                p == parser_token_views(list@),
                filled(start, p, at + 1, e as int) == filled(rule@, p, i as int, e as int),
            decreases e - i,
        {
            let mut step: usize = 1;
            if i + 1 < e {
                if let ParserToken::Property { value: property } = &list[i] {
                    if let ParserToken::Value { value } = &list[i + 1] {
                        rule.add_declaration(property.clone(), value.clone());
                        step = 2;
                    }
                }
            }
            i = i + step;
        }
        rule
    }
}

/// The custom properties of a stylesheet as a mathematical value: names and
/// replacement texts, two lists of equal length.
pub ghost struct Vars {
    pub keys: Seq<Seq<char>>,
    pub values: Seq<Seq<char>>,
}

/// Whether a property defines a custom property: its name begins with `--`.
pub open spec fn defines_var(property: Seq<char>) -> bool {
    begins_with(property, "--"@)
}

/// Whether a value refers to a custom property: it begins with `var(` and
/// ends with `)`.
pub open spec fn refers_to_var(value: Seq<char>) -> bool {
    ends_with(value, ")"@) && begins_with(value, "var("@)
}

/// The name that a reference refers to: what stands between `var(` and `)`.
pub open spec fn var_name(value: Seq<char>) -> Seq<char> {
    value.subrange(4, value.len() - 1)
}

/// The custom properties that the first `n` declarations of `rule` define.
pub open spec fn vars_upto(rule: RuleView, n: int) -> Vars
    decreases n,
{
    if n <= 0 || n > rule.properties.len() || n > rule.values.len() {
        Vars { keys: Seq::<Seq<char>>::empty(), values: Seq::<Seq<char>>::empty() }
    } else {
        let before = vars_upto(rule, n - 1);
        if defines_var(rule.properties[n - 1]) {
            Vars {
                keys: before.keys.push(rule.properties[n - 1]),
                values: before.values.push(rule.values[n - 1]),
            }
        } else {
            before
        }
    }
}

/// The custom properties that `rule` defines, in the order of its
/// declarations.
pub open spec fn vars_of(rule: RuleView) -> Vars {
    vars_upto(rule, rule.properties.len() as int)
}

/// `rule` cut down to those of its first `n` declarations that define no
/// custom property.
pub open spec fn rest_upto(rule: RuleView, n: int) -> RuleView
    decreases n,
{
    if n <= 0 || n > rule.properties.len() || n > rule.values.len() {
        RuleView::bare(rule.selectors)
    } else {
        let before = rest_upto(rule, n - 1);
        if defines_var(rule.properties[n - 1]) {
            before
        } else {
            before.with_declaration(rule.properties[n - 1], rule.values[n - 1])
        }
    }
}

/// `rule` without the declarations that define custom properties.
pub open spec fn rest_of(rule: RuleView) -> RuleView {
    rest_upto(rule, rule.properties.len() as int)
}

proof fn lemma_rest_upto_defines_nothing(rule: RuleView, n: int)
    ensures
        rest_upto(rule, n).properties.len() == rest_upto(rule, n).values.len(),
        forall|i: int|
            0 <= i < rest_upto(rule, n).properties.len() ==> !defines_var(
                #[trigger] rest_upto(rule, n).properties[i],
            ),
    decreases n,
{
    if 0 < n <= rule.properties.len() && n <= rule.values.len() {
        lemma_rest_upto_defines_nothing(rule, n - 1);
    }
}

/// What is left of a rule when its custom properties are taken out defines
/// no custom property, and every property that is left has its value.
pub proof fn lemma_rest_defines_nothing(rule: RuleView)
    ensures
        rest_of(rule).properties.len() == rest_of(rule).values.len(),
        forall|i: int|
            0 <= i < rest_of(rule).properties.len() ==> !defines_var(
                #[trigger] rest_of(rule).properties[i],
            ),
{
    lemma_rest_upto_defines_nothing(rule, rule.properties.len() as int);
}

/// The index of the first key at or after `from` that is `name`.
pub open spec fn first_key(keys: Seq<Seq<char>>, name: Seq<char>, from: int) -> Option<int>
    decreases keys.len() - from,
{
    if from < 0 || from >= keys.len() {
        None
    } else if keys[from] == name {
        Some(from)
    } else {
        first_key(keys, name, from + 1)
    }
}

/// What a reference becomes: the text of the first custom property with the
/// name that it refers to, whole, or the reference itself if there is no such
/// custom property.
pub open spec fn replaced_by_name(value: Seq<char>, vars: Vars) -> Seq<char> {
    match first_key(vars.keys, var_name(value), 0) {
        Some(i) => if i < vars.values.len() {
            vars.values[i]
        } else {
            value
        },
        None => value,
    }
}

/// What a value becomes: a reference to a custom property that is defined
/// becomes that property's text, whole; any other value stays as it is. The
/// replacement is not looked into again.
pub open spec fn resolved(value: Seq<char>, vars: Vars) -> Seq<char> {
    if refers_to_var(value) {
        replaced_by_name(value, vars)
    } else {
        value
    }
}

/// `rule` with every value resolved.
pub open spec fn resolved_rule(rule: RuleView, vars: Vars) -> RuleView {
    RuleView {
        selectors: rule.selectors,
        properties: rule.properties,
        values: rule.values.map_values(|v: Seq<char>| resolved(v, vars)),
    }
}

/// The rules after the custom properties of the rule at index `root` were
/// taken out of it and filled in everywhere.
pub open spec fn resolved_rules(rules: Seq<RuleView>, root: int) -> Seq<RuleView> {
    let vars = vars_of(rules[root]);
    rules.update(root, rest_of(rules[root])).map_values(|r: RuleView| resolved_rule(r, vars))
}

/// The index of the first rule at or after `from` with the selector `:root`.
pub open spec fn root_index(rules: Seq<RuleView>, from: int) -> Option<int>
    decreases rules.len() - from,
{
    if from < 0 || from >= rules.len() {
        None
    } else if rules[from].is_root() {
        Some(from)
    } else {
        root_index(rules, from + 1)
    }
}

/// The rules with their custom properties filled in: those of the first rule
/// for `:root`, if there is one.
pub open spec fn with_vars_replaced(rules: Seq<RuleView>) -> Seq<RuleView> {
    match root_index(rules, 0) {
        Some(root) => resolved_rules(rules, root),
        None => rules,
    }
}

/// The custom properties of a stylesheet: names and replacement texts.
pub struct CustomProperties {
    keys: TextList,
    values: TextList,
}

impl View for CustomProperties {
    type V = Vars;

    closed spec fn view(&self) -> Vars {
        Vars { keys: text_list_items(self.keys), values: text_list_items(self.values) }
    }
}

impl CustomProperties {
    /// Every name has its text.
    #[verifier::type_invariant]
    closed spec fn paired(self) -> bool {
        text_list_items(self.keys).len() == text_list_items(self.values).len()
    }

    /// No custom property.
    pub fn new() -> (vars: CustomProperties)
        ensures
            vars@.keys == Seq::<Seq<char>>::empty(),
            vars@.values == Seq::<Seq<char>>::empty(),
    {
        CustomProperties { keys: TextList::new(), values: TextList::new() }
    }

    /// The number of custom properties: every name has its text.
    pub fn len(&self) -> (n: usize)
        ensures
            n == self@.keys.len(),
            n == self@.values.len(),
    {
        proof {
            use_type_invariant(&*self);
        }
        self.keys.len()
    }

    /// Adds a custom property at the end.
    pub fn define(&mut self, key: String, value: String)
        ensures
            final(self)@.keys == old(self)@.keys.push(key@),
            final(self)@.values == old(self)@.values.push(value@),
    {
        let mut taken = CustomProperties::new();
        core::mem::swap(self, &mut taken);
        proof {
            use_type_invariant(&taken);
        }
        let CustomProperties { mut keys, mut values } = taken;
        keys.push(key);
        values.push(value);
        *self = CustomProperties { keys, values };
    }

    /// The text of the first custom property called `name`.
    pub fn lookup(&self, name: &str) -> (r: Option<&String>)
        ensures
            self@.keys.len() == self@.values.len(),
            r is Some <==> first_key(self@.keys, name@, 0) is Some,
            r matches Some(text) ==> text@ == self@.values[first_key(self@.keys, name@, 0)->0],
    {
        let n = self.len();
        let mut i: usize = 0;
        while i < n
            invariant
                i <= n,
                n == self@.keys.len(),
                n == self@.values.len(),
                first_key(self@.keys, name@, 0) == first_key(self@.keys, name@, i as int),
            decreases n - i,
        {
            if same_text(self.keys.get(i).as_str(), name) {
                return Some(self.values.get(i));
            }
            i = i + 1;
        }
        None
    }
}

/// Whether a property defines a custom property.
pub fn is_var_definition(value: &str) -> (r: bool)
    ensures
        r == defines_var(value@),
{
    let chars = chars_of(value);
    has_prefix(chars.as_slice(), "--")
}

/// Whether a value refers to a custom property.
pub fn is_var_reference(value: &str) -> (r: bool)
    ensures
        r == refers_to_var(value@),
{
    let chars = chars_of(value);
    has_suffix(chars.as_slice(), ")") && has_prefix(chars.as_slice(), "var(")
}

/// A reference is longer than `var(`: its `)` comes after.
pub proof fn lemma_reference_length(value: Seq<char>)
    requires
        refers_to_var(value),
    ensures
        value.len() >= 5,
{
    reveal_strlit(")");
    reveal_strlit("var(");
    let n = value.len() as int;
    assert(value.take(4)[3] == '(');
    assert(value.skip(n - 1)[0] == ')');
}

/// The name that the reference `value` refers to: what stands behind its
/// first four characters and before its last.
pub fn get_var_name(value: &str) -> (name: String)
    requires
        value@.len() >= 5,
    ensures
        name@ == var_name(value@),
{
    let chars = chars_of(value);
    substring(chars.as_slice(), 4, chars.len() - 1)
}

/// Replaces the reference `value` by the text of the custom property that it
/// refers to, if that is defined.
pub fn replace_var(value: &mut String, vars: &CustomProperties)
    requires
        old(value)@.len() >= 5,
    ensures
        final(value)@ == replaced_by_name(old(value)@, vars@),
{
    let name = get_var_name(value.as_str());
    proof {
        lemma_first_key(vars@.keys, name@, 0);
    }
    if let Some(text) = vars.lookup(name.as_str()) {
        *value = text.clone();
    }
}

/// What `first_key` finds is an index of `name` at or after `from`.
pub proof fn lemma_first_key(keys: Seq<Seq<char>>, name: Seq<char>, from: int)
    requires
        0 <= from,
    ensures
        first_key(keys, name, from) matches Some(i) ==> from <= i < keys.len() && keys[i] == name,
    decreases keys.len() - from,
{
    if from < keys.len() && keys[from] != name {
        lemma_first_key(keys, name, from + 1);
    }
}

/// Where `first_key` finds nothing there is nothing to find.
pub proof fn lemma_no_key(keys: Seq<Seq<char>>, name: Seq<char>, from: int)
    requires
        0 <= from,
        first_key(keys, name, from) is None,
    ensures
        forall|j: int| from <= j < keys.len() ==> #[trigger] keys[j] != name,
    decreases keys.len() - from,
{
    if from < keys.len() {
        lemma_no_key(keys, name, from + 1);
    }
}

/// A name that is no key is not found.
pub proof fn lemma_key_absent(keys: Seq<Seq<char>>, name: Seq<char>, from: int)
    requires
        0 <= from,
        forall|j: int| from <= j < keys.len() ==> #[trigger] keys[j] != name,
    ensures
        first_key(keys, name, from) is None,
    decreases keys.len() - from,
{
    if from < keys.len() {
        lemma_key_absent(keys, name, from + 1);
    }
}

/// Takes the declarations that define custom properties out of `root` and
/// returns what they define.
pub fn take_vars(root: &mut Rule) -> (vars: CustomProperties)
    ensures
        vars@ == vars_of(old(root)@),
        final(root)@ == rest_of(old(root)@),
{
    let mut vars = CustomProperties::new();
    let ghost orig = root@;
    let ghost mut k: int = 0;
    let mut i: usize = 0;
    let all = root.len();
    while i < root.len()
        invariant
            orig.properties.len() == orig.values.len(),
            0 <= k <= orig.properties.len(),
            vars@ == vars_upto(orig, k),
            i == rest_upto(orig, k).properties.len(),
            i == rest_upto(orig, k).values.len(),
            root@.selectors == orig.selectors,
            rest_upto(orig, k).selectors == orig.selectors,
            root@.properties == rest_upto(orig, k).properties + orig.properties.skip(k),
            root@.values == rest_upto(orig, k).values + orig.values.skip(k),
        decreases orig.properties.len() - k,
    {
        if is_var_definition(root.property(i).as_str()) {
            vars.define(root.property(i).clone(), root.value(i).clone());
            root.remove(i);
        } else {
            i = i + 1;
        }
        proof {
            k = k + 1;
        }
    }
    vars
}

/// Resolves every value of `rule`.
pub fn resolve_rule(rule: &mut Rule, vars: &CustomProperties)
    ensures
        final(rule)@ == resolved_rule(old(rule)@, vars@),
{
    let ghost orig = rule@;
    let n = rule.len();
    let mut i: usize = 0;
    while i < n
        invariant
            i <= n,
            n == orig.values.len(),
            rule@.selectors == orig.selectors,
            rule@.properties == orig.properties,
            rule@.values.len() == n,
            forall|j: int| 0 <= j < i ==> #[trigger] rule@.values[j] == resolved(orig.values[j], vars@),
            forall|j: int| i <= j < n ==> #[trigger] rule@.values[j] == orig.values[j],
        decreases n - i,
    {
        if is_var_reference(rule.value(i).as_str()) {
            let mut value = rule.value(i).clone();
            proof {
                lemma_reference_length(value@);
            }
            replace_var(&mut value, vars);
            rule.set_value(i, value);
        }
        i = i + 1;
    }
    assert(rule@.values =~= resolved_rule(orig, vars@).values);
}

/// Takes the custom properties out of the rule at `root_idx` and fills them in
/// in every rule.
pub fn replace_root_vars(root_idx: usize, rules: &mut Vec<Rule>)
    requires
        root_idx < old(rules)@.len(),
    ensures
        rule_views(final(rules)@) == resolved_rules(rule_views(old(rules)@), root_idx as int),
{
    let vars = take_vars(&mut rules[root_idx]);
    let ghost stripped = rule_views(rules@);
    let n = rules.len();
    let mut i: usize = 0;
    while i < n
        invariant
            i <= n,
            n == rules@.len(),
            n == stripped.len(),
            forall|j: int| 0 <= j < i ==> (#[trigger] rules@[j])@ == resolved_rule(stripped[j], vars@),
            forall|j: int| i <= j < n ==> (#[trigger] rules@[j])@ == stripped[j],
        decreases n - i,
    {
        resolve_rule(&mut rules[i], &vars);
        i = i + 1;
    }
}

/// Whether one of the rule's selectors is `:root`.
pub fn is_root_rule(rule: &Rule) -> (r: bool)
    ensures
        r == rule@.is_root(),
{
    let n = rule.selector_count();
    let mut i: usize = 0;
    while i < n
        invariant
            i <= n,
            n == rule@.selectors.len(),
            forall|j: int| 0 <= j < i ==> (#[trigger] rule@.selectors[j]).selector != ":root"@,
        decreases n - i,
    {
        if same_text(rule.selector(i).selector.as_str(), ":root") {
            assert(rule@.selectors[i as int].selector == ":root"@);
            return true;
        }
        i = i + 1;
    }
    false
}

/// Fills in the custom properties of the first rule for `:root`; without such
/// a rule the rules stay as they are.
pub fn replace_vars(rules: Vec<Rule>) -> (resolved: Vec<Rule>)
    ensures
        rule_views(resolved@) == with_vars_replaced(rule_views(rules@)),
{
    let mut list = rules;
    let ghost views = rule_views(list@);
    let mut i: usize = 0;
    while i < list.len()
        invariant
            i <= list@.len(),
            views == rule_views(list@),
            views == rule_views(rules@),
            root_index(views, 0) == root_index(views, i as int),
        decreases list@.len() - i,
    {
        if is_root_rule(&list[i]) {
            replace_root_vars(i, &mut list);
            return list;
        }
        i = i + 1;
    }
    list
}

} // verus!
