//! The style composer: rules to the style table.

use vstd::prelude::*;
use crate::declaration::{declaration_of, Declaration, DeclarationView, Property, Value};
use crate::length::PxPct;
use crate::lexer::{lex, Lexer};
use crate::parser::{
    first_key, lemma_first_key, replace_vars, rule_views, rules_of, with_vars_replaced, Parser, Rule, RuleView,
};
use crate::selector::{PseudoClass, SelectorView};
use crate::style::{effective, extend_layer, layer_view, lemma_later_overrides, lookup, Style, StyleView};
use crate::table::{lemma_replaced, lemma_without, StyleMap, StyleMapView};
use crate::text::same_text;

verus! {

/// The declarations that the first `n` pairs of `rule` write, in order. A
/// pair that writes no declaration is left out; the others are not affected.
pub open spec fn layer_upto(rule: RuleView, n: int) -> Seq<DeclarationView>
    decreases n,
{
    if n <= 0 || n > rule.properties.len() || n > rule.values.len() {
        Seq::<DeclarationView>::empty()
    } else {
        match declaration_of(rule.properties[n - 1], rule.values[n - 1]) {
            Some(d) => layer_upto(rule, n - 1).push(d),
            None => layer_upto(rule, n - 1),
        }
    }
}

/// The declarations that `rule` writes, in order.
pub open spec fn layer_of(rule: RuleView) -> Seq<DeclarationView> {
    layer_upto(rule, rule.properties.len() as int)
}

/// The style of a rule: its declarations, holding at all times.
pub open spec fn style_of(rule: RuleView) -> StyleView {
    StyleView::flat(layer_of(rule))
}

/// The table after `style` was composed into it for `selector`: the entry of
/// the selector's base name, or the empty style if it has none, is modified
/// and becomes the table's last entry. The base name `:root` is kept for
/// custom properties and never gets an entry.
pub open spec fn placed(map: StyleMapView, selector: SelectorView, style: StyleView) -> StyleMapView {
    let current = match map.get(selector.selector) {
        Some(found) => found,
        None => StyleView::empty(),
    };
    if selector.selector == ":root"@ {
        map
    } else {
        map.replaced(selector.selector, current.modified(selector.pseudo_class, style))
    }
}

/// The table has no entry for `:root`.
pub open spec fn without_root(map: StyleMapView) -> bool {
    forall|i: int| 0 <= i < map.keys.len() ==> #[trigger] map.keys[i] != ":root"@
}

/// The table after `rule` was composed into it for the first `n` of its
/// selectors.
pub open spec fn placed_upto(map: StyleMapView, rule: RuleView, n: int) -> StyleMapView
    decreases n,
{
    if n <= 0 || n > rule.selectors.len() {
        map
    } else {
        placed(placed_upto(map, rule, n - 1), rule.selectors[n - 1], style_of(rule))
    }
}

/// The table of the first `n` rules, composed in order.
pub open spec fn composed_upto(rules: Seq<RuleView>, n: int) -> StyleMapView
    decreases n,
{
    if n <= 0 || n > rules.len() {
        StyleMapView::empty()
    } else {
        placed_upto(composed_upto(rules, n - 1), rules[n - 1], rules[n - 1].selectors.len() as int)
    }
}

/// The table that the rules compose, rule by rule and selector by selector.
pub open spec fn table_of(rules: Seq<RuleView>) -> StyleMapView {
    composed_upto(rules, rules.len() as int)
}

/// The rules that a stylesheet writes, custom properties filled in.
pub open spec fn stylesheet_rules(input: Seq<char>) -> Seq<RuleView> {
    with_vars_replaced(rules_of(lex(input)))
}

/// The table that a stylesheet writes.
pub open spec fn stylesheet_table(input: Seq<char>) -> StyleMapView {
    table_of(stylesheet_rules(input))
}

/// The declaration that pair `i` of `rule` writes.
pub open spec fn declaration_at(rule: RuleView, i: int) -> Option<DeclarationView> {
    declaration_of(rule.properties[i], rule.values[i])
}

/// Whether no pair of `rule` from index `from` up to `to` sets `property`.
pub open spec fn unset_between(rule: RuleView, property: Property, from: int, to: int) -> bool {
    forall|j: int|
        from <= j < to ==> !(#[trigger] declaration_at(rule, j) matches Some(d) && d.property
            == property)
}

/// Within a rule the order of the declarations decides: the value of a
/// property is that of the last pair that writes a declaration of it.
pub proof fn lemma_last_declaration_wins(rule: RuleView, i: int)
    requires
        rule.properties.len() == rule.values.len(),
        0 <= i < rule.properties.len(),
        declaration_at(rule, i) is Some,
        unset_between(rule, declaration_at(rule, i)->0.property, i + 1, rule.properties.len() as int),
    ensures
        effective(layer_of(rule), declaration_at(rule, i)->0.property) == Some(
            declaration_at(rule, i)->0.value,
        ),
{
    lemma_last_wins_upto(rule, i, rule.properties.len() as int);
}

proof fn lemma_last_wins_upto(rule: RuleView, i: int, n: int)
    requires
        rule.properties.len() == rule.values.len(),
        0 <= i < n <= rule.properties.len(),
        declaration_at(rule, i) is Some,
        unset_between(rule, declaration_at(rule, i)->0.property, i + 1, n),
    ensures
        effective(layer_upto(rule, n), declaration_at(rule, i)->0.property) == Some(
            declaration_at(rule, i)->0.value,
        ),
    decreases n - i,
{
    let d = declaration_at(rule, i)->0;
    if n == i + 1 {
        lemma_later_overrides(layer_upto(rule, i), d, d.property);
    } else {
        lemma_last_wins_upto(rule, i, n - 1);
        let last = declaration_at(rule, n - 1);
        if last is Some {
            lemma_later_overrides(layer_upto(rule, n - 1), last->0, d.property);
        }
    }
}

/// Composing keeps a style for every name and keeps the names apart: a table
/// in which no name has two entries stays one.
pub proof fn lemma_placed_distinct(map: StyleMapView, selector: SelectorView, style: StyleView)
    requires
        map.wf(),
        map.distinct(),
        without_root(map),
    ensures
        placed(map, selector, style).wf(),
        placed(map, selector, style).distinct(),
        without_root(placed(map, selector, style)),
{
    let current = match map.get(selector.selector) {
        Some(found) => found,
        None => StyleView::empty(),
    };
    lemma_replaced(map, selector.selector, current.modified(selector.pseudo_class, style));
    let after = placed(map, selector, style);
    if selector.selector != ":root"@ {
        lemma_without(map, selector.selector);
        let rest = map.without(selector.selector);
        assert forall|i: int| 0 <= i < after.keys.len() implies #[trigger] after.keys[i]
            != ":root"@ by {
            if i < rest.keys.len() {
                assert(after.keys[i] == rest.keys[i]);
                lemma_rest_keys(map, selector.selector, i);
            }
        }
    }
}

/// What is left of a table when a name is taken out are keys of the table.
proof fn lemma_rest_keys(map: StyleMapView, key: Seq<char>, i: int)
    requires
        0 <= i < map.without(key).keys.len(),
    ensures
        exists|j: int| 0 <= j < map.keys.len() && #[trigger] map.keys[j] == map.without(key).keys[i],
{
    lemma_first_key(map.keys, key, 0);
    match first_key(map.keys, key, 0) {
        Some(at) => {
            let j = if i < at {
                i
            } else {
                i + 1
            };
            assert(map.keys[j] == map.without(key).keys[i]);
        },
        None => {
            assert(map.keys[i] == map.without(key).keys[i]);
        },
    }
}

proof fn lemma_placed_upto_distinct(map: StyleMapView, rule: RuleView, n: int)
    requires
        map.wf(),
        map.distinct(),
        without_root(map),
    ensures
        placed_upto(map, rule, n).wf(),
        placed_upto(map, rule, n).distinct(),
        without_root(placed_upto(map, rule, n)),
    decreases n,
{
    if 0 < n <= rule.selectors.len() {
        lemma_placed_upto_distinct(map, rule, n - 1);
        lemma_placed_distinct(placed_upto(map, rule, n - 1), rule.selectors[n - 1], style_of(rule));
    }
}

proof fn lemma_composed_upto_distinct(rules: Seq<RuleView>, n: int)
    ensures
        composed_upto(rules, n).wf(),
        composed_upto(rules, n).distinct(),
        without_root(composed_upto(rules, n)),
    decreases n,
{
    if 0 < n <= rules.len() {
        lemma_composed_upto_distinct(rules, n - 1);
        lemma_placed_upto_distinct(
            composed_upto(rules, n - 1),
            rules[n - 1],
            rules[n - 1].selectors.len() as int,
        );
    }
}

/// In the table of any rules every base name has one entry, its style, and
/// `:root` has none.
pub proof fn lemma_table_distinct(rules: Seq<RuleView>)
    ensures
        table_of(rules).wf(),
        table_of(rules).distinct(),
        without_root(table_of(rules)),
{
    lemma_composed_upto_distinct(rules, rules.len() as int);
}

/// Two rules for the same name compose in their order: what holds of the
/// name at all times are the declarations of the first rule and then those
/// of the second, so that the second overrides property by property.
pub proof fn lemma_rules_compose_in_order(first: RuleView, second: RuleView, name: Seq<char>)
    requires
        name != ":root"@,
        first.selectors == seq![SelectorView { selector: name, pseudo_class: None }],
        second.selectors == seq![SelectorView { selector: name, pseudo_class: None }],
    ensures
        table_of(seq![first, second]).get(name) is Some,
        table_of(seq![first, second]).get(name)->0.base == layer_of(first) + layer_of(second),
        table_of(seq![first, second]).keys == seq![name],
{
    let rules = seq![first, second];
    let selector = SelectorView { selector: name, pseudo_class: None };
    let none = StyleMapView::empty();
    assert(composed_upto(rules, 0) == none);
    assert(placed_upto(none, first, 0) == none);
    let one = placed(none, selector, style_of(first));
    assert(composed_upto(rules, 1) == one);
    assert(placed_upto(one, second, 0) == one);
}

/// The rules of a stylesheet: tokens, rules, custom properties.
#[must_use]
pub fn css_to_rules(input: &str) -> (rules: Vec<Rule>)
    ensures
        rule_views(rules@) == stylesheet_rules(input@),
{
    let tokens = Lexer::new(input).tokens();
    let rules = Parser::new(tokens).parse();
    replace_vars(rules)
}

/// The style of a rule. A pair that writes no declaration is skipped.
pub fn rule_to_style(rule: &Rule) -> (style: Style)
    ensures
        style@ == style_of(rule@),
{
    let mut style = Style::new();
    let n = rule.len();
    let mut i: usize = 0;
    while i < n
        invariant
            i <= n,
            n == rule@.properties.len(),
            n == rule@.values.len(),
            style@ == StyleView::flat(layer_upto(rule@, i as int)),
        decreases n - i,
    {
        let ghost before = layer_view(style.base@);
        if let Some(d) = Declaration::from_pair(rule.property(i).as_str(), rule.value(i).as_str()) {
            style.base.push(d);
            assert(layer_view(style.base@) =~= before.push(d@));
        }
        i = i + 1;
    }
    style
}

/// `to_modify` with the declarations of `selector_style` laid over the part
/// that `pseudo_class` names.
pub fn apply_pseudo(pseudo_class: PseudoClass, to_modify: Style, selector_style: Style) -> (r:
    Style)
    ensures
        r@ == to_modify@.with_overlay(pseudo_class, selector_style@.base),
{
    let mut r = to_modify;
    let layer = &selector_style.base;
    match pseudo_class {
        PseudoClass::Hover => {
            extend_layer(&mut r.hover, layer);
        },
        PseudoClass::Focus => {
            extend_layer(&mut r.focus.own, layer);
        },
        PseudoClass::FocusHover => {
            extend_layer(&mut r.focus.hover, layer);
        },
        PseudoClass::Active => {
            extend_layer(&mut r.active.own, layer);
        },
        PseudoClass::ActiveHover => {
            extend_layer(&mut r.active.hover, layer);
        },
        PseudoClass::Disabled => {
            extend_layer(&mut r.disabled.own, layer);
        },
        PseudoClass::DisabledHover => {
            extend_layer(&mut r.disabled.hover, layer);
        },
        PseudoClass::Placeholder => {
            extend_layer(&mut r.placeholder, layer);
        },
        PseudoClass::Selection => {
            if let Some(Value::PxPct(PxPct::Px(radius))) = lookup(layer, Property::BorderRadius) {
                r.selection_radius = Some(*radius);
            }
            if let Some(Value::Color(color)) = lookup(layer, Property::Color) {
                r.selection_color = Some(*color);
            }
        },
    }
    r
}

/// `to_modify` after a rule with the style `selector_style` was composed
/// into it for a selector with `pseudo_class`.
pub fn modify_selector(
    pseudo_class: &Option<PseudoClass>,
    to_modify: Style,
    selector_style: Style,
) -> (r: Style)
    ensures
        r@ == to_modify@.modified(*pseudo_class, selector_style@),
{
    match pseudo_class {
        None => to_modify.apply(&selector_style),
        Some(p) => apply_pseudo(*p, to_modify, selector_style),
    }
}

/// Composes `rule` into `map`, selector by selector.
fn place_rule(map: &mut StyleMap, rule: &Rule)
    ensures
        final(map)@ == placed_upto(old(map)@, rule@, rule@.selectors.len() as int),
{
    let style = rule_to_style(rule);
    let ghost start = map@;
    let n = rule.selector_count();
    let mut j: usize = 0;
    while j < n
        invariant
            j <= n,
            n == rule@.selectors.len(),
            style@ == style_of(rule@),
            map@ == placed_upto(start, rule@, j as int),
        decreases n - j,
    {
        let selector = rule.selector(j);
        let key = selector.selector.as_str();
        if !same_text(key, ":root") {
            let to_modify = match map.remove(key) {
                Some(found) => found,
                None => Style::new(),
            };
            let modified = modify_selector(&selector.pseudo_class, to_modify, style.duplicate());
            map.insert(key, modified);
        }
        j = j + 1;
    }
}

/// The table that the rules compose.
#[must_use]
pub fn parse_rules(rules: &[Rule]) -> (map: StyleMap)
    ensures
        map@ == table_of(rule_views(rules@)),
        map@.wf(),
        map@.distinct(),
        without_root(map@),
{
    proof {
        lemma_table_distinct(rule_views(rules@));
    }
    let mut map = StyleMap::new_const();
    let ghost views = rule_views(rules@);
    let mut i: usize = 0;
    while i < rules.len()
        invariant
            i <= rules@.len(),
            views == rule_views(rules@),
            map@ == composed_upto(views, i as int),
        decreases rules@.len() - i,
    {
        place_rule(&mut map, &rules[i]);
        i = i + 1;
    }
    map
}

/// The table that a stylesheet writes.
#[must_use]
pub fn parse_css(input: &str) -> (map: StyleMap)
    ensures
        map@ == stylesheet_table(input@),
        map@.wf(),
        map@.distinct(),
        without_root(map@),
{
    let rules = css_to_rules(input);
    parse_rules(rules.as_slice())
}

impl StyleMap {
    /// The table that a stylesheet writes.
    pub fn from_css(input: &str) -> (map: StyleMap)
        ensures
            map@ == stylesheet_table(input@),
            map@.wf(),
            map@.distinct(),
            without_root(map@),
    {
        parse_css(input)
    }
}

} // verus!
