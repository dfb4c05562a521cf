use floem_css::blocks::{
    comes_before, insert_sorted, parse_blocks, split_after, ClassSelector, Selector, StyleBlock,
    StyleError, StyleProperty,
};
use floem_css::declaration::Declaration;
use floem_css::parser::Rule;
use floem_css::selector::PseudoClass;
use floem_css::sheet::{
    block_to_rule, css_to_blocks, fill_vars, find_root_block, parse_css, parse_vars,
    replace_text, state_to_pseudo_class,
};
use floem_css::style::Style;
use floem_css::text::chars_of;

fn class(name: &str, selector: Option<Selector>) -> ClassSelector {
    ClassSelector { class: name.to_string(), selector }
}

fn prop(key: &str, value: &str) -> StyleProperty {
    StyleProperty { key: key.to_string(), value: value.to_string() }
}

fn error(error: &str, value: &str) -> StyleError {
    StyleError { error: error.to_string(), value: value.to_string() }
}

fn replace(hay: &str, pattern: &str, with: &str) -> String {
    replace_text(&chars_of(hay), &chars_of(pattern), &chars_of(with)).into_iter().collect()
}

fn layer(pairs: &[(&str, &str)]) -> Vec<Declaration> {
    pairs.iter().map(|(n, v)| Declaration::from_pair(n, v).unwrap()).collect()
}

#[test]
fn style_errors() {
    let e = StyleError::new("unsupported selector", "hoover");
    assert_eq!(e.error, "unsupported selector");
    assert_eq!(e.value, "hoover");
}

#[test]
fn states() {
    assert_eq!(Selector::from_str("active"), Ok(Selector::Active));
    assert_eq!(Selector::from_str("active:hover"), Ok(Selector::ActiveHover));
    assert_eq!(Selector::from_str("focus"), Ok(Selector::Focus));
    assert_eq!(Selector::from_str("focus:hover"), Ok(Selector::FocusHover));
    assert_eq!(Selector::from_str("hover"), Ok(Selector::Hover));
    assert_eq!(Selector::from_str("disabled"), Ok(Selector::Disabled));
    assert_eq!(Selector::from_str("disabled:hover"), Ok(Selector::DisabledHover));
    assert_eq!(Selector::from_str("placeholder"), Ok(Selector::Placeholder));
    assert_eq!(Selector::from_str(":hover"), Err(error("unsupported selector", ":hover")));
    assert_eq!(Selector::from_str("selection"), Err(error("unsupported selector", "selection")));
    let all = [
        Selector::Active,
        Selector::ActiveHover,
        Selector::Focus,
        Selector::FocusHover,
        Selector::Hover,
        Selector::Disabled,
        Selector::DisabledHover,
        Selector::Placeholder,
    ];
    for (i, state) in all.iter().enumerate() {
        assert_eq!(usize::from(state.order()), i + 1);
    }
    assert_eq!(state_to_pseudo_class(Selector::Active), PseudoClass::Active);
    assert_eq!(state_to_pseudo_class(Selector::ActiveHover), PseudoClass::ActiveHover);
    assert_eq!(state_to_pseudo_class(Selector::Focus), PseudoClass::Focus);
    assert_eq!(state_to_pseudo_class(Selector::FocusHover), PseudoClass::FocusHover);
    assert_eq!(state_to_pseudo_class(Selector::Hover), PseudoClass::Hover);
    assert_eq!(state_to_pseudo_class(Selector::Disabled), PseudoClass::Disabled);
    assert_eq!(state_to_pseudo_class(Selector::DisabledHover), PseudoClass::DisabledHover);
    assert_eq!(state_to_pseudo_class(Selector::Placeholder), PseudoClass::Placeholder);
}

#[test]
fn class_selectors() {
    assert_eq!(ClassSelector::from_str("button"), Ok(class("button", None)));
    assert_eq!(ClassSelector::from_str("button:hover"), Ok(class("button", Some(Selector::Hover))));
    assert_eq!(ClassSelector::from_str(" b : focus:hover "), Ok(class("b", Some(Selector::FocusHover))));
    assert_eq!(ClassSelector::from_str(" b "), Ok(class(" b ", None)));
    assert_eq!(ClassSelector::from_str(""), Err(error("empty class selector", "")));
    assert_eq!(ClassSelector::from_str(":hover"), Err(error("invalid class selector", "")));
    assert_eq!(ClassSelector::from_str("b:"), Err(error("invalid class selector", "b")));
    assert_eq!(ClassSelector::from_str("b: "), Err(error("invalid class selector", "b")));
    assert_eq!(ClassSelector::from_str("b:hoover"), Err(error("unsupported selector", "hoover")));
    assert_eq!(ClassSelector::from_str("b::placeholder"), Err(error("unsupported selector", ":placeholder")));
    assert_eq!(class("a", Some(Selector::Hover)).duplicate(), class("a", Some(Selector::Hover)));
}

#[test]
fn class_selectors_are_ordered() {
    let ordered = [
        class("", None),
        class("a", None),
        class("a", Some(Selector::Active)),
        class("a", Some(Selector::Hover)),
        class("a", Some(Selector::Placeholder)),
        class("ab", None),
        class("b", None),
        class("é", None),
    ];
    for (i, a) in ordered.iter().enumerate() {
        for (j, b) in ordered.iter().enumerate() {
            assert_eq!(comes_before(a, b), i < j);
            assert_eq!(comes_before(a, b), (&a.class, a.selector.map(|s| s.order())) < (&b.class, b.selector.map(|s| s.order())));
        }
    }
    let mut list = Vec::new();
    for i in [6, 2, 7, 0, 3, 5, 1, 4, 3] {
        insert_sorted(&mut list, ordered[i].duplicate());
    }
    let expected: Vec<ClassSelector> = [0, 1, 2, 3, 3, 4, 5, 6, 7].iter().map(|i| ordered[*i].duplicate()).collect();
    assert_eq!(list, expected);
}

#[test]
fn style_properties() {
    assert_eq!(StyleProperty::from_str("width: 1px"), Ok(prop("width", "1px")));
    assert_eq!(StyleProperty::from_str("  a :  b : c  "), Ok(prop("a", "b : c")));
    assert_eq!(StyleProperty::from_str(":"), Ok(prop("", "")));
    assert_eq!(StyleProperty::from_str("junk "), Err(error("Expecting key value pair with :", "junk ")));
    assert_eq!(StyleProperty::from_str(""), Err(error("Expecting key value pair with :", "")));
}

#[test]
fn pieces_keep_their_separator() {
    assert_eq!(split_after(&chars_of("a;b;;c"), ';'), vec!["a;", "b;", ";", "c"]);
    assert_eq!(split_after(&chars_of("a;"), ';'), vec!["a;"]);
    assert!(split_after(&chars_of(""), ';').is_empty());
    for s in ["a;b;;c", "a;", "", ";", ";;a", "abc"] {
        assert_eq!(split_after(&chars_of(s), ';'), s.split_inclusive(';').collect::<Vec<_>>());
    }
}

#[test]
fn a_block_is_read() {
    let block = StyleBlock::from_str("\n.b, .a:hover, :bad, .a { width: 1px;; junk }").unwrap();
    assert_eq!(
        block.selectors,
        vec![class(".a", None), class(".a", Some(Selector::Hover)), class(".b", None)]
    );
    assert_eq!(block.props, vec![prop("width", "1px")]);
    assert_eq!(block.errors, vec![error("Expecting key value pair with :", "junk ")]);
    assert_eq!(
        StyleBlock::from_str("a b"),
        Err(error("Missing opening token {", "a b"))
    );
    assert_eq!(
        StyleBlock::from_str("{ a: b }"),
        Err(error("Class must contain value", "{ a: b }"))
    );
    assert_eq!(StyleBlock::parse_str("a b"), None);
    let block = StyleBlock::parse_str("a {").unwrap();
    assert_eq!((block.selectors, block.props, block.errors), (vec![class("a", None)], vec![], vec![]));
    let block = StyleBlock::parse_str(" { x: y; z: { w } }").unwrap();
    assert_eq!(block.selectors, vec![]);
    assert_eq!(block.props, vec![prop("x", "y"), prop("z", "w")]);
}

#[test]
fn blocks_but_the_root() {
    let blocks = parse_blocks(":root { --a: 1px; }\na { x: y; }\nnot a block\nb { }\n");
    assert_eq!(blocks.len(), 2);
    assert_eq!(blocks[0].selectors, vec![class("a", None)]);
    assert_eq!(blocks[0].props, vec![prop("x", "y")]);
    assert_eq!(blocks[1].selectors, vec![class("not a block\nb", None)]);
    assert!(parse_blocks("").is_empty());
    assert!(parse_blocks("nothing").is_empty());
}

#[test]
fn the_root_block_is_found() {
    assert_eq!(find_root_block("a { x: y; }\n:root { --a: 1px; }\nb {}"), Some(" --a: 1px; ".to_string()));
    assert_eq!(find_root_block(":root {}"), None);
    assert_eq!(find_root_block(":root { a"), None);
    assert_eq!(find_root_block("a { x: y; }"), None);
    assert_eq!(find_root_block(":root x }\nb { c }"), None);
    assert_eq!(find_root_block("{ { :root }"), Some(" { :root ".to_string()));
}

#[test]
fn the_variables_of_the_root() {
    assert_eq!(
        parse_vars(" --a: 1px; --b : red ;\n junk; --c: x"),
        vec![
            ("--a".to_string(), "1px;".to_string()),
            ("--b".to_string(), "red ;".to_string()),
            ("--c".to_string(), "x".to_string()),
        ]
    );
    assert!(parse_vars("").is_empty());
}

#[test]
fn text_is_replaced() {
    assert_eq!(replace("a var(x) b var(x)", "var(x)", "1px"), "a 1px b 1px");
    assert_eq!(replace("aaa", "aa", "b"), "ba");
    assert_eq!(replace("abc", "", "x"), "abc");
    assert_eq!(replace("abc", "abcd", "x"), "abc");
    assert_eq!(replace("abc", "c", ""), "ab");
    assert_eq!(replace("", "a", "b"), "");
    for (hay, pattern, with) in [("a var(x) b var(x)", "var(x)", "1px"), ("aaa", "aa", "b"), ("abab", "ab", "ba"), ("xyz", "y", "yy")] {
        assert_eq!(replace(hay, pattern, with), hay.replace(pattern, with));
    }
    assert_eq!(
        fill_vars("a { w: var(--a); h: var(--b); c: var(--c) }".to_string(), "--a: 1px; --b: var(--a)"),
        "a { w: 1px;; h: var(--a); c: var(--c) }"
    );
}

#[test]
fn a_sheet_is_read_block_by_block() {
    let input = "/* c */\n:root { --a: 1px; }\n.b, .a:hover { width: var(--a); junk }\n";
    let blocks = css_to_blocks(input);
    assert_eq!(blocks.len(), 1);
    assert_eq!(blocks[0].selectors, vec![class(".a", Some(Selector::Hover)), class(".b", None)]);
    assert_eq!(blocks[0].props, vec![prop("width", "1px")]);
    assert_eq!(blocks[0].errors, vec![error("Expecting key value pair with :", "junk ")]);
    let blocks = css_to_blocks("/* c */a { }/* a * b */");
    assert_eq!(blocks.len(), 1);
    assert_eq!(blocks[0].selectors, vec![class("a", None)]);
    let blocks = css_to_blocks("/**/a { }");
    assert_eq!(blocks[0].selectors, vec![class("/**/a", None)]);
}

#[test]
fn blocks_compose_like_rules() {
    let input = "/* c */\n:root { --a: 1px; }\n.b, .a:hover { width: var(--a); junk }\n.a { height: 2px; nothing: 1; }";
    let table = parse_css(input);
    assert_eq!(table.len(), 2);
    let mut a = Style::new();
    a.hover = layer(&[("width", "1px")]);
    a.base = layer(&[("height", "2px")]);
    assert_eq!(table.get(".a"), Some(a));
    let mut b = Style::new();
    b.base = layer(&[("width", "1px")]);
    assert_eq!(table.get(".b"), Some(b));
    let block = StyleBlock::from_str("x:focus, y { a: b; c: d }").unwrap();
    let rule: Rule = block_to_rule(&block);
    assert_eq!(rule.selector_count(), 2);
    assert_eq!(rule.selector(0).selector, "x");
    assert_eq!(rule.selector(0).pseudo_class, Some(PseudoClass::Focus));
    assert_eq!(rule.selector(1).selector, "y");
    assert_eq!(rule.selector(1).pseudo_class, None);
    assert_eq!(rule.iter_props(), vec![("a".to_string(), "b".to_string()), ("c".to_string(), "d".to_string())]);
}
