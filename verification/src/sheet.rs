//! Whole stylesheets for the block reader: comments are taken out, the
//! variables of `:root` are filled in wherever they are referred to, and the
//! blocks are composed into a style table.

use vstd::prelude::*;
use regex::Regex;
use crate::blocks::{
    block_views, blocks_of, names_root, parse_blocks, pieces, property_of, split_after,
    ClassSelectorView, Read, Selector, StyleBlock, StyleBlockView, StyleProperty,
    StylePropertyView,
};
use crate::composer::{parse_rules, table_of, without_root};
use crate::parser::{rule_views, Rule, RuleView};
use crate::selector::{PseudoClass, SelectorView};
use crate::table::StyleMap;
use crate::text::{
    chars_of, find_text, occurs_at, same_chars, string_of, texts,
};
use vstd::slice::slice_subrange;

verus! {

/// What `Regex::replace_all` leaves of `text` when every match of the regular
/// expression `pattern` is taken out; nothing where `pattern` is no regular
/// expression.
pub uninterp spec fn matches_removed(pattern: Seq<char>, text: Seq<char>) -> Option<Seq<char>>;

/// `Regex::new` and `Regex::replace_all` with an empty replacement: the text
/// without the matches of the pattern, which are taken from left to right
/// and do not overlap. The result depends on pattern and text alone.
#[verifier::external_body]
fn remove_matches(pattern: &str, text: &str) -> (r: Option<String>)
    ensures
        match r {
            Some(t) => Some(t@),
            None => None,
        } == matches_removed(pattern@, text@),
{
    Regex::new(pattern).ok().map(|re| re.replace_all(text, "").to_string())
}

/// What the first group of the regular expression `pattern` captures in its
/// first match in `text`; nothing where there is no match, where the group
/// took no part in it, or where `pattern` is no regular expression.
pub uninterp spec fn first_group(pattern: Seq<char>, text: Seq<char>) -> Option<Seq<char>>;

/// `Regex::new`, `Regex::captures` and `Captures::get(1)`: the text of the
/// first group in the first match. The result depends on pattern and text
/// alone.
#[verifier::external_body]
fn capture_first_group(pattern: &str, text: &str) -> (r: Option<String>)
    ensures
        match r {
            Some(t) => Some(t@),
            None => None,
        } == first_group(pattern@, text@),
{
    let found = Regex::new(pattern).ok()?;
    found.captures(text).and_then(|c| c.get(1)).map(|m| m.as_str().to_string())
}

/// The regular expression for comments: `/*`, then one character or more
/// that is no `*`, then `*/`.
pub open spec fn comment_pattern() -> Seq<char> {
    "/\\*[^*]+\\*/"@
}

/// The regular expression for the body of a block: `{`, then as its first
/// group one character or more that is no `}`, then `}`.
pub open spec fn braces_pattern() -> Seq<char> {
    "\\{([^}]+)\\}"@
}

/// A text without its comments: without the matches of the pattern for
/// comments.
pub open spec fn without_comments(s: Seq<char>) -> Seq<char> {
    match matches_removed(comment_pattern(), s) {
        Some(t) => t,
        None => s,
    }
}

/// What stands between the braces of a text: the first group of the
/// pattern for the body of a block.
pub open spec fn braced(s: Seq<char>) -> Option<Seq<char>> {
    first_group(braces_pattern(), s)
}

/// Takes the comments out of a text.
pub fn strip_comments(input: &str) -> (r: String)
    ensures
        r@ == without_comments(input@),
{
    match remove_matches("/\\*[^*]+\\*/", input) {
        Some(t) => t,
        None => input.to_owned(),
    }
}

/// What stands between the braces of a text.
pub fn first_braced(chunk: &str) -> (r: Option<String>)
    ensures
        match r {
            Some(t) => Some(t@),
            None => None,
        } == braced(chunk@),
{
    capture_first_group("\\{([^}]+)\\}", chunk)
}

/// The index of the first chunk at or after `from` that holds `:root`.
pub open spec fn root_chunk(chunks: Seq<Seq<char>>, from: int) -> Option<int>
    decreases chunks.len() - from,
{
    if from < 0 || from >= chunks.len() {
        None
    } else if names_root(chunks[from]) {
        Some(from)
    } else {
        root_chunk(chunks, from + 1)
    }
}

/// The body of the block of `:root`: what stands between the braces of the
/// first chunk that holds `:root`, the text being cut behind every `}`.
pub open spec fn root_body(buf: Seq<char>) -> Option<Seq<char>> {
    match root_chunk(pieces(buf, '}'), 0) {
        Some(i) => braced(pieces(buf, '}')[i]),
        None => None,
    }
}

/// Finds the body of the block of `:root`.
pub fn find_root_block(buf: &str) -> (r: Option<String>)
    ensures
        match r {
            Some(t) => Some(t@),
            None => None,
        } == root_body(buf@),
{
    let chars = chars_of(buf);
    let chunks = split_after(chars.as_slice(), '}');
    let root = chars_of(":root");
    let mut i: usize = 0;
    while i < chunks.len()
        invariant
            i <= chunks@.len(),
            root@ == ":root"@,
            texts(chunks@) == pieces(buf@, '}'),
            root_chunk(texts(chunks@), 0) == root_chunk(texts(chunks@), i as int),
        decreases chunks@.len() - i,
    {
        let hay = chars_of(chunks[i].as_str());
        if find_text(hay.as_slice(), root.as_slice()).is_some() {
            return first_braced(chunks[i].as_str());
        }
        i = i + 1;
    }
    None
}

/// The variables among the first `n` pieces of the body of `:root`: each
/// piece that writes a `key: value` pair defines one.
pub open spec fn vars_upto(parts: Seq<Seq<char>>, n: int) -> Seq<StylePropertyView>
    decreases n,
{
    if n <= 0 || n > parts.len() {
        Seq::<StylePropertyView>::empty()
    } else {
        match property_of(parts[n - 1]) {
            Read::Done(p) => vars_upto(parts, n - 1).push(p),
            Read::Failed(_) => vars_upto(parts, n - 1),
        }
    }
}

/// The variables that the body of `:root` defines: the body is cut behind
/// every `;`, and each piece is read as a `key: value` pair. The `;` stays
/// with the value.
pub open spec fn vars_of_body(root: Seq<char>) -> Seq<StylePropertyView> {
    vars_upto(pieces(root, ';'), pieces(root, ';').len() as int)
}

/// The pairs of a sequence, as mathematical values.
pub open spec fn pair_views(v: Seq<(String, String)>) -> Seq<StylePropertyView> {
    v.map_values(|p: (String, String)| StylePropertyView { key: p.0@, value: p.1@ })
}

/// Reads the variables that the body of `:root` defines.
pub fn parse_vars(root: &str) -> (vars: Vec<(String, String)>)
    ensures
        pair_views(vars@) == vars_of_body(root@),
{
    let chars = chars_of(root);
    let parts = split_after(chars.as_slice(), ';');
    let mut vars: Vec<(String, String)> = Vec::new();
    let mut i: usize = 0;
    while i < parts.len()
        invariant
            i <= parts@.len(),
            texts(parts@) == pieces(root@, ';'),
            pair_views(vars@) == vars_upto(texts(parts@), i as int),
        decreases parts@.len() - i,
    {
        if let Ok(p) = StyleProperty::from_str(parts[i].as_str()) {
            let pair = (p.key, p.value);
            vars.push(pair);
        }
        i = i + 1;
    }
    vars
}

/// `s` from index `from` on, with `with` in the place of every occurrence of
/// `pattern`; the occurrences are taken from left to right and do not
/// overlap. An empty pattern occurs nowhere.
pub open spec fn replaced_from(
    s: Seq<char>,
    pattern: Seq<char>,
    with: Seq<char>,
    from: int,
) -> Seq<char>
    decreases s.len() - from,
{
    if from < 0 || from >= s.len() {
        Seq::<char>::empty()
    } else if pattern.len() > 0 && occurs_at(s, pattern, from) {
        with + replaced_from(s, pattern, with, from + pattern.len())
    } else {
        seq![s[from]] + replaced_from(s, pattern, with, from + 1)
    }
}

/// `s` with `with` in the place of every occurrence of `pattern`.
pub open spec fn replaced(s: Seq<char>, pattern: Seq<char>, with: Seq<char>) -> Seq<char> {
    replaced_from(s, pattern, with, 0)
}

/// Puts `with` in the place of every occurrence of `pattern` in `hay`.
pub fn replace_text(hay: &[char], pattern: &[char], with: &[char]) -> (r: Vec<char>)
    ensures
        r@ == replaced(hay@, pattern@, with@),
{
    let mut r: Vec<char> = Vec::new();
    let mut i: usize = 0;
    let n = hay.len();
    let m = pattern.len();
    while i < n
        invariant
            i <= n,
            n == hay@.len(),
            m == pattern@.len(),
            replaced(hay@, pattern@, with@) == r@ + replaced_from(hay@, pattern@, with@, i as int),
        decreases n - i,
    {
        let ghost before = r@;
        if m > 0 && m <= n - i && same_chars(slice_subrange(hay, i, i + m), pattern) {
            let mut j: usize = 0;
            while j < with.len()
                invariant
                    j <= with@.len(),
                    r@ == before + with@.take(j as int),
                decreases with@.len() - j,
            {
                r.push(with[j]);
                j = j + 1;
            }
            assert(replaced(hay@, pattern@, with@) =~= r@ + replaced_from(
                hay@,
                pattern@,
                with@,
                i + m,
            ));
            i = i + m;
        } else {
            r.push(hay[i]);
            assert(replaced(hay@, pattern@, with@) =~= r@ + replaced_from(
                hay@,
                pattern@,
                with@,
                i + 1,
            ));
            i = i + 1;
        }
    }
    r
}

/// How a reference to the variable `key` is written.
pub open spec fn reference_to(key: Seq<char>) -> Seq<char> {
    "var("@ + key + ")"@
}

/// The text with the first `n` variables filled in, one after the other:
/// every reference to a variable gives way to the variable's value.
pub open spec fn filled_upto(buf: Seq<char>, vars: Seq<StylePropertyView>, n: int) -> Seq<char>
    decreases n,
{
    if n <= 0 || n > vars.len() {
        buf
    } else {
        replaced(filled_upto(buf, vars, n - 1), reference_to(vars[n - 1].key), vars[n - 1].value)
    }
}

/// The text with its variables filled in: those that the body of its block
/// of `:root` defines. Without such a body the text stays as it is.
pub open spec fn filled(buf: Seq<char>) -> Seq<char> {
    match root_body(buf) {
        Some(root) => filled_upto(buf, vars_of_body(root), vars_of_body(root).len() as int),
        None => buf,
    }
}

/// Fills in the variables that `root` defines.
pub fn fill_vars(buf: String, root: &str) -> (r: String)
    ensures
        r@ == filled_upto(buf@, vars_of_body(root@), vars_of_body(root@).len() as int),
{
    let vars = parse_vars(root);
    let ghost views = pair_views(vars@);
    let ghost start = buf@;
    let mut text = chars_of(buf.as_str());
    let open = chars_of("var(");
    let close = chars_of(")");
    let mut i: usize = 0;
    while i < vars.len()
        invariant
            i <= vars@.len(),
            views == pair_views(vars@),
            open@ == "var("@,
            close@ == ")"@,
            text@ == filled_upto(start, views, i as int),
        decreases vars@.len() - i,
    {
        assert(views[i as int] == (StylePropertyView {
            key: vars@[i as int].0@,
            value: vars@[i as int].1@,
        }));
        let key = chars_of(vars[i].0.as_str());
        let value = chars_of(vars[i].1.as_str());
        let mut pattern: Vec<char> = Vec::new();
        let mut j: usize = 0;
        while j < open.len()
            invariant
                j <= open@.len(),
                pattern@ == open@.take(j as int),
            decreases open@.len() - j,
        {
            pattern.push(open[j]);
            j = j + 1;
        }
        j = 0;
        while j < key.len()
            invariant
                j <= key@.len(),
                pattern@ == open@ + key@.take(j as int),
            decreases key@.len() - j,
        {
            pattern.push(key[j]);
            j = j + 1;
        }
        j = 0;
        while j < close.len()
            invariant
                j <= close@.len(),
                pattern@ == open@ + key@ + close@.take(j as int),
            decreases close@.len() - j,
        {
            pattern.push(close[j]);
            j = j + 1;
        }
        assert(close@.take(j as int) =~= close@);
        text = replace_text(text.as_slice(), pattern.as_slice(), value.as_slice());
        i = i + 1;
    }
    string_of(text.as_slice())
}

/// The blocks of a stylesheet: comments are taken out, variables are filled
/// in, and what is left is read block by block.
pub open spec fn sheet_blocks(input: Seq<char>) -> Seq<StyleBlockView> {
    blocks_of(filled(without_comments(input)))
}

/// Reads the blocks of a stylesheet.
pub fn css_to_blocks(input: &str) -> (blocks: Vec<StyleBlock>)
    ensures
        block_views(blocks@) == sheet_blocks(input@),
{
    let buf = strip_comments(input);
    let text = match find_root_block(buf.as_str()) {
        Some(root) => fill_vars(buf, root.as_str()),
        None => buf,
    };
    parse_blocks(text.as_str())
}

/// The part of a composed style that a state names.
pub open spec fn pseudo_class_of_state(state: Selector) -> PseudoClass {
    match state {
        Selector::Active => PseudoClass::Active,
        Selector::ActiveHover => PseudoClass::ActiveHover,
        Selector::Focus => PseudoClass::Focus,
        Selector::FocusHover => PseudoClass::FocusHover,
        Selector::Hover => PseudoClass::Hover,
        Selector::Disabled => PseudoClass::Disabled,
        Selector::DisabledHover => PseudoClass::DisabledHover,
        Selector::Placeholder => PseudoClass::Placeholder,
    }
}

/// The part of a composed style that a state names.
pub fn state_to_pseudo_class(state: Selector) -> (r: PseudoClass)
    ensures
        r == pseudo_class_of_state(state),
{
    match state {
        Selector::Active => PseudoClass::Active,
        Selector::ActiveHover => PseudoClass::ActiveHover,
        Selector::Focus => PseudoClass::Focus,
        Selector::FocusHover => PseudoClass::FocusHover,
        Selector::Hover => PseudoClass::Hover,
        Selector::Disabled => PseudoClass::Disabled,
        Selector::DisabledHover => PseudoClass::DisabledHover,
        Selector::Placeholder => PseudoClass::Placeholder,
    }
}

/// A class selector as a selector of a rule.
pub open spec fn selector_of_class(c: ClassSelectorView) -> SelectorView {
    SelectorView {
        selector: c.class,
        pseudo_class: match c.selector {
            Some(state) => Some(pseudo_class_of_state(state)),
            None => None,
        },
    }
}

/// A block as a rule: its class selectors as selectors, its pairs as
/// declarations.
pub open spec fn rule_of_block(b: StyleBlockView) -> RuleView {
    RuleView {
        selectors: b.selectors.map_values(|c: ClassSelectorView| selector_of_class(c)),
        properties: b.props.map_values(|p: StylePropertyView| p.key),
        values: b.props.map_values(|p: StylePropertyView| p.value),
    }
}

/// The blocks as rules.
pub open spec fn rules_of_blocks(blocks: Seq<StyleBlockView>) -> Seq<RuleView> {
    blocks.map_values(|b: StyleBlockView| rule_of_block(b))
}

/// A block as a rule.
pub fn block_to_rule(block: &StyleBlock) -> (rule: Rule)
    ensures
        rule@ == rule_of_block(block@),
{
    let mut rule = Rule::new_const();
    let ghost target = rule_of_block(block@);
    let mut i: usize = 0;
    while i < block.selectors.len()
        invariant
            i <= block.selectors@.len(),
            target == rule_of_block(block@),
            rule@.selectors == target.selectors.take(i as int),
            rule@.properties == Seq::<Seq<char>>::empty(),
            rule@.values == Seq::<Seq<char>>::empty(),
        decreases block.selectors@.len() - i,
    {
        let c = &block.selectors[i];
        let pseudo_class = match c.selector {
            Some(state) => Some(state_to_pseudo_class(state)),
            None => None,
        };
        let selector = crate::selector::Selector { selector: c.class.clone(), pseudo_class };
        rule.add_selector(selector);
        i = i + 1;
    }
    let mut j: usize = 0;
    while j < block.props.len()
        invariant
            j <= block.props@.len(),
            target == rule_of_block(block@),
            rule@.selectors == target.selectors,
            rule@.properties == target.properties.take(j as int),
            rule@.values == target.values.take(j as int),
        decreases block.props@.len() - j,
    {
        let p = &block.props[j];
        rule.add_declaration(p.key.clone(), p.value.clone());
        j = j + 1;
    }
    assert(target.properties.take(j as int) =~= target.properties);
    assert(target.values.take(j as int) =~= target.values);
    rule
}

/// The table that a stylesheet writes, read block by block: each block is
/// composed as a rule.
pub fn parse_css(input: &str) -> (map: StyleMap)
    ensures
        map@ == table_of(rules_of_blocks(sheet_blocks(input@))),
        map@.wf(),
        map@.distinct(),
        without_root(map@),
{
    let blocks = css_to_blocks(input);
    let ghost target = rules_of_blocks(block_views(blocks@));
    let mut rules: Vec<Rule> = Vec::new();
    let mut i: usize = 0;
    while i < blocks.len()
        invariant
            i <= blocks@.len(),
            target == rules_of_blocks(block_views(blocks@)),
            rule_views(rules@) == target.take(i as int),
        decreases blocks@.len() - i,
    {
        let rule = block_to_rule(&blocks[i]);
        assert(target.take(i + 1) =~= target.take(i as int).push(rule@));
        rules.push(rule);
        i = i + 1;
    }
    assert(target.take(i as int) =~= target);
    parse_rules(rules.as_slice())
}

} // verus!
