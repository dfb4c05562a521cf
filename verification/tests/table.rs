use floem_css::color::Color;
use floem_css::composer::{apply_pseudo, modify_selector, parse_css, parse_rules, rule_to_style};
use floem_css::declaration::{Declaration, ParseError, Property, Value};
use floem_css::length::{PxPct, PxPctAuto};
use floem_css::number::Decimal;
use floem_css::options::{ProviderOptions, ThemeOptions};
use floem_css::parser::Rule;
use floem_css::reload::{
    handle_event, is_stylesheet, watch_recursively, ReloadAction, ReloadEvent, ReloadState,
    Reloader, WatchEvent,
};
use floem_css::selector::{PseudoClass, Selector};
use floem_css::style::{copy_layer, extend_layer, lookup, Overlay, Style};
use floem_css::table::StyleMap;
use floem_css::transition::Transition;

fn dec(mantissa: u64) -> Decimal {
    Decimal { negative: false, mantissa, scale: 0 }
}

fn decl(name: &str, value: &str) -> Declaration {
    Declaration::from_pair(name, value).unwrap()
}

fn layer(pairs: &[(&str, &str)]) -> Vec<Declaration> {
    pairs.iter().map(|(n, v)| decl(n, v)).collect()
}

fn flat(pairs: &[(&str, &str)]) -> Style {
    let mut style = Style::new();
    style.base = layer(pairs);
    style
}

const RED: Color = Color { r: 255, g: 0, b: 0, a: 255 };
const BLUE: Color = Color { r: 0, g: 0, b: 255, a: 255 };

#[test]
fn declarations_are_typed() {
    let d = decl("width", "10px");
    assert_eq!(d.property(), Property::Width);
    assert_eq!(d.value(), &Value::Length(PxPctAuto::Px(dec(10))));
    assert_eq!(decl("margin-left", "auto").value(), &Value::Length(PxPctAuto::Auto));
    assert_eq!(decl("color", "red").value(), &Value::Color(RED));
    assert_eq!(decl("caret-color", "blue").property(), Property::CursorColor);
    assert_eq!(decl("z-index", "-3").value(), &Value::Integer(-3));
    assert_eq!(decl("flex-grow", "1.5").value(), &Value::Number(Decimal { negative: false, mantissa: 15, scale: 1 }));
    assert_eq!(decl("font-family", "Fira Sans").value(), &Value::Text("Fira Sans".to_string()));
    assert_eq!(decl("font-family", "var(--missing)").value(), &Value::Text("var(--missing)".to_string()));
    assert_eq!(decl("gap", "1px 2px").value(), &Value::Gap(PxPct::Px(dec(1)), Some(PxPct::Px(dec(2)))));
    assert_eq!(
        decl("transition", "width 1s").value(),
        &Value::Transition("width".to_string(), Transition { millis: 1000 })
    );
    assert_eq!(decl("user-select", "none").value(), &Value::Bool(false));
    assert_eq!(decl("padding", "5%").property(), Property::Padding);
    assert_eq!(decl("top", "1px").property(), Property::InsetTop);
    assert_eq!(decl("text-wrap", "clip").property(), Property::TextOverflow);
}

#[test]
fn every_property_has_its_name() {
    let names = [
        "display", "position", "width", "height", "min-width", "min-height", "max-width",
        "max-height", "flex-direction", "flex-wrap", "flex-grow", "flex-shrink", "flex-basis",
        "justify-content", "justify-self", "align-items", "align-content", "align-self",
        "border", "border-width", "border-left", "border-top", "border-right", "border-bottom",
        "border-radius", "outline-color", "outline", "border-color", "padding", "padding-left",
        "padding-top", "padding-right", "padding-bottom", "margin", "margin-left", "margin-top",
        "margin-right", "margin-bottom", "left", "top", "right", "bottom", "z-index", "cursor",
        "color", "background-color", "box-shadow", "font-size", "font-family", "font-weight",
        "font-style", "caret-color", "text-wrap", "line-height", "aspect-ratio", "column-gap",
        "row-gap", "gap", "transition", "user-select",
    ];
    let mut seen = Vec::new();
    for name in names {
        let property = Property::from_name(name).unwrap();
        assert_eq!(property.name(), name);
        assert!(!seen.contains(&property));
        seen.push(property);
    }
    assert_eq!(Property::from_name("Width"), None);
    assert_eq!(Property::from_name("cursor-color"), None);
    assert_eq!(Property::from_name(""), None);
}

#[test]
fn declarations_are_turned_down() {
    assert_eq!(Declaration::from_pair("colour", "red"), None);
    assert_eq!(Declaration::from_pair("width", "red"), None);
    assert_eq!(Declaration::from_pair("width", "var(--missing)"), None);
    assert_eq!(Declaration::from_pair("gap", "wide"), None);
    assert_eq!(decl("gap", "8px").value(), &Value::Gap(PxPct::Px(dec(8)), None));
    assert_eq!(
        Declaration::compile("colour", "red"),
        Err(ParseError { error: "unknown property", value: "colour".to_string() })
    );
    assert_eq!(
        Declaration::compile("color", "reddish"),
        Err(ParseError { error: "invalid value", value: "reddish".to_string() })
    );
    assert_eq!(Declaration::compile("color", "red"), Ok(decl("color", "red")));
    let e = ParseError::new("unknown property", "x");
    assert_eq!(e.error, "unknown property");
    assert_eq!(e.value, "x");
    assert_eq!(e.message(), "unknown property: x");
    assert_eq!(decl("color", "red").duplicate(), decl("color", "red"));
}

#[test]
fn a_later_declaration_overrides() {
    let table = parse_css("a { width: 10px; width: 20px; }");
    let style = table.get("a").unwrap();
    assert_eq!(style.get(Property::Width), Some(&Value::Length(PxPctAuto::Px(dec(20)))));
    assert_eq!(style.get(Property::Height), None);
    assert_eq!(style.base, layer(&[("width", "10px"), ("width", "20px")]));
    let l = layer(&[("width", "1px"), ("height", "2px"), ("width", "3px")]);
    assert_eq!(lookup(&l, Property::Width), Some(&Value::Length(PxPctAuto::Px(dec(3)))));
    assert_eq!(lookup(&l, Property::Height), Some(&Value::Length(PxPctAuto::Px(dec(2)))));
    assert_eq!(lookup(&l, Property::Color), None);
    assert_eq!(lookup(&Vec::new(), Property::Width), None);
}

#[test]
fn a_declaration_that_fails_leaves_the_others() {
    let table = parse_css(
        ":root { --gap: 8px; }\n.row { gap: var(--gap); width: var(--missing); bogus: 1; height: 5px; }",
    );
    assert_eq!(table.len(), 1);
    assert_eq!(table.get(".row"), Some(flat(&[("gap", "8px"), ("height", "5px")])));
    assert_eq!(
        table.get(".row").unwrap().get(Property::Gap),
        Some(&Value::Gap(PxPct::Px(dec(8)), None))
    );
    let table = parse_css(":root { --gap: 8px 4px; }\n.row { gap: var(--gap); }");
    assert_eq!(table.get(".row"), Some(flat(&[("gap", "8px 4px")])));
}

#[test]
fn the_root_has_no_entry() {
    let table = parse_css(":root { --a: 1px; color: red; }\n:root, body { width: var(--a); }");
    assert_eq!(table.len(), 1);
    assert_eq!(table.get(":root"), None);
    assert_eq!(table.get("body"), Some(flat(&[("width", "1px")])));
    assert!(parse_css(":root { --a: 1px; color: red; }").is_empty());
    let mut reloader = Reloader::new();
    let action = reloader.step(ReloadEvent::SourceRead(":root { --a: 1px; }".to_string()));
    assert_eq!(action, ReloadAction::Published { empty: true });
}

#[test]
fn states_are_overlays() {
    let table = parse_css(
        "button { width: 10px; }\nbutton:hover { color: red; }\nbutton:focus:hover { color: blue; }\nbutton:focus { height: 1px; }",
    );
    assert_eq!(table.len(), 1);
    let style = table.get("button").unwrap();
    assert_eq!(style.base, layer(&[("width", "10px")]));
    assert_eq!(style.hover, layer(&[("color", "red")]));
    assert_eq!(style.focus.own, layer(&[("height", "1px")]));
    assert_eq!(style.focus.hover, layer(&[("color", "blue")]));
    assert_eq!(style.active, Overlay::new());
    assert_eq!(style.disabled, Overlay::new());
    assert!(style.placeholder.is_empty());
    assert_eq!(style.selection_radius, None);
    assert_eq!(style.selection_color, None);
}

#[test]
fn every_pseudo_class_has_its_place() {
    let new = || flat(&[("border-radius", "4px"), ("color", "red"), ("width", "3px")]);
    let l = || new().base;
    let start = || {
        let mut s = flat(&[("height", "1px")]);
        s.hover = layer(&[("height", "2px")]);
        s
    };
    let r = apply_pseudo(PseudoClass::Hover, start(), new());
    assert_eq!(r.hover, layer(&[("height", "2px"), ("border-radius", "4px"), ("color", "red"), ("width", "3px")]));
    assert_eq!(r.base, start().base);
    let r = apply_pseudo(PseudoClass::Focus, start(), new());
    assert_eq!((r.focus.own, r.focus.hover, r.hover), (l(), vec![], start().hover));
    let r = apply_pseudo(PseudoClass::FocusHover, start(), new());
    assert_eq!((r.focus.own, r.focus.hover, r.hover), (vec![], l(), start().hover));
    let r = apply_pseudo(PseudoClass::Active, start(), new());
    assert_eq!((r.active.own, r.active.hover), (l(), vec![]));
    let r = apply_pseudo(PseudoClass::ActiveHover, start(), new());
    assert_eq!((r.active.own, r.active.hover), (vec![], l()));
    let r = apply_pseudo(PseudoClass::Disabled, start(), new());
    assert_eq!((r.disabled.own, r.disabled.hover), (l(), vec![]));
    let r = apply_pseudo(PseudoClass::DisabledHover, start(), new());
    assert_eq!((r.disabled.own, r.disabled.hover), (vec![], l()));
    let r = apply_pseudo(PseudoClass::Placeholder, start(), new());
    assert_eq!(r.placeholder, l());
    let r = apply_pseudo(PseudoClass::Selection, start(), new());
    assert_eq!(r.selection_radius, Some(dec(4)));
    assert_eq!(r.selection_color, Some(RED));
    assert_eq!((&r.base, &r.hover, &r.placeholder), (&start().base, &start().hover, &vec![]));
    let r = apply_pseudo(PseudoClass::Selection, r, flat(&[("border-radius", "50%"), ("width", "1px")]));
    assert_eq!(r.selection_radius, Some(dec(4)));
    assert_eq!(r.selection_color, Some(RED));
    let r = apply_pseudo(PseudoClass::Selection, r, flat(&[("color", "blue")]));
    assert_eq!(r.selection_radius, Some(dec(4)));
    assert_eq!(r.selection_color, Some(BLUE));
    let r = modify_selector(&None, start(), new());
    assert_eq!(r.base, layer(&[("height", "1px"), ("border-radius", "4px"), ("color", "red"), ("width", "3px")]));
    let r = modify_selector(&Some(PseudoClass::Hover), start(), new());
    assert_eq!(r.base, start().base);
}

#[test]
fn selection_takes_two_properties() {
    let table = parse_css("input::selection { border-radius: 4px; color: red; width: 3px; }");
    let style = table.get("input").unwrap();
    let mut expected = Style::new();
    expected.selection_radius = Some(dec(4));
    expected.selection_color = Some(RED);
    assert_eq!(style, expected);
    let table = parse_css("input::placeholder { color: red; }");
    let mut expected = Style::new();
    expected.placeholder = layer(&[("color", "red")]);
    assert_eq!(table.get("input"), Some(expected));
}

#[test]
fn later_rules_override_property_by_property() {
    let table = parse_css("a { width: 1px; height: 2px; }\nb { width: 9px; }\na { width: 3px; }\na, b { color: red; }");
    assert_eq!(table.len(), 2);
    let a = table.get("a").unwrap();
    assert_eq!(a.base, layer(&[("width", "1px"), ("height", "2px"), ("width", "3px"), ("color", "red")]));
    assert_eq!(a.get(Property::Width), Some(&Value::Length(PxPctAuto::Px(dec(3)))));
    assert_eq!(a.get(Property::Height), Some(&Value::Length(PxPctAuto::Px(dec(2)))));
    let b = table.get("b").unwrap();
    assert_eq!(b.base, layer(&[("width", "9px"), ("color", "red")]));
}

#[test]
fn rules_to_a_table() {
    let mut rule = Rule::new_const();
    rule.add_selector(Selector { selector: "a".to_string(), pseudo_class: None });
    rule.add_selector(Selector { selector: "a".to_string(), pseudo_class: Some(PseudoClass::Hover) });
    rule.add_declaration("width".to_string(), "1px".to_string());
    rule.add_declaration("nonsense".to_string(), "1px".to_string());
    assert_eq!(rule_to_style(&rule), flat(&[("width", "1px")]));
    let table = parse_rules(&[rule]);
    let mut expected = flat(&[("width", "1px")]);
    expected.hover = layer(&[("width", "1px")]);
    assert_eq!(table.get("a"), Some(expected));
    assert_eq!(table.len(), 1);
    assert!(parse_rules(&[]).is_empty());
    assert_eq!(StyleMap::from_css("a { width: 1px; }").get("a"), Some(flat(&[("width", "1px")])));
}

#[test]
fn table_entries() {
    let mut table = StyleMap::new_const();
    assert!(table.is_empty());
    assert_eq!(table.get("a"), None);
    assert_eq!(table.remove("a"), None);
    table.insert("a", flat(&[("width", "1px")]));
    table.insert("b", flat(&[("width", "2px")]));
    assert_eq!(table.get("a"), Some(flat(&[("width", "1px")])));
    table.insert("a", flat(&[("width", "3px")]));
    assert!(!table.is_empty());
    assert_eq!(table.len(), 2);
    assert_eq!(table.get("a"), Some(flat(&[("width", "3px")])));
    assert_eq!(table.get("b"), Some(flat(&[("width", "2px")])));
    table.insert("c", flat(&[("width", "4px")]));
    table.insert("b", flat(&[("width", "5px")]));
    assert_eq!(table.len(), 3);
    assert_eq!(table.get("a"), Some(flat(&[("width", "3px")])));
    assert_eq!(table.get("b"), Some(flat(&[("width", "5px")])));
    assert_eq!(table.get("c"), Some(flat(&[("width", "4px")])));
    assert_eq!(table.remove("a"), Some(flat(&[("width", "3px")])));
    assert_eq!(table.get("a"), None);
    assert_eq!(table.remove("a"), None);
    assert_eq!(table.len(), 2);
    assert_eq!(table.remove("b"), Some(flat(&[("width", "5px")])));
    assert_eq!(table.get("b"), None);
    assert_eq!(table.get("c"), Some(flat(&[("width", "4px")])));
    table.clear();
    assert!(table.is_empty());
    assert_eq!(table.get("a"), None);
}

#[test]
fn classes_apply_from_left_to_right() {
    let table = parse_css("a { width: 1px; }\nb { width: 2px; height: 5px; }\nb:hover { color: red; }");
    let style = table.apply_classes(flat(&[("color", "blue")]), "a missing  b");
    assert_eq!(style.base, layer(&[("color", "blue"), ("width", "1px"), ("width", "2px"), ("height", "5px")]));
    assert_eq!(style.hover, layer(&[("color", "red")]));
    let style = table.apply_classes(Style::new(), "b a");
    assert_eq!(style.get(Property::Width), Some(&Value::Length(PxPctAuto::Px(dec(1)))));
    assert_eq!(table.apply_classes(Style::new(), ""), Style::new());
    assert_eq!(table.apply_classes(Style::new(), "missing"), Style::default());
}

#[test]
fn styles_merge() {
    let mut first = flat(&[("width", "1px")]);
    first.selection_radius = Some(dec(1));
    first.selection_color = Some(RED);
    first.focus.own = layer(&[("color", "red")]);
    let mut second = flat(&[("width", "2px")]);
    second.selection_color = Some(BLUE);
    second.focus.own = layer(&[("color", "blue")]);
    second.disabled.hover = layer(&[("height", "1px")]);
    second.active.own = layer(&[("height", "2px")]);
    second.placeholder = layer(&[("height", "3px")]);
    second.hover = layer(&[("height", "4px")]);
    let merged = first.duplicate().apply(&second);
    assert_eq!(merged.base, layer(&[("width", "1px"), ("width", "2px")]));
    assert_eq!(merged.selection_radius, Some(dec(1)));
    assert_eq!(merged.selection_color, Some(BLUE));
    assert_eq!(merged.focus.own, layer(&[("color", "red"), ("color", "blue")]));
    assert_eq!(merged.disabled.hover, second.disabled.hover);
    assert_eq!(merged.active.own, second.active.own);
    assert_eq!(merged.placeholder, second.placeholder);
    assert_eq!(merged.hover, second.hover);
    assert_eq!(first.duplicate(), first);
    assert_eq!(second.focus.duplicate(), second.focus);
    let mut l = layer(&[("width", "1px")]);
    extend_layer(&mut l, &layer(&[("color", "red"), ("font-family", "x")]));
    assert_eq!(l, layer(&[("width", "1px"), ("color", "red"), ("font-family", "x")]));
    assert_eq!(copy_layer(&l), l);
    let mut o = Overlay::new();
    o.apply(&second.active);
    assert_eq!(o, second.active);
}

#[test]
fn reload_replaces_the_table_whole() {
    let mut reloader = Reloader::new();
    assert_eq!(reloader.current_state(), ReloadState::Idle);
    assert!(reloader.table().is_empty());
    assert_eq!(reloader.step(ReloadEvent::Changed), ReloadAction::ReadSource);
    assert_eq!(reloader.current_state(), ReloadState::Loading);
    assert!(reloader.table().is_empty());
    let action = reloader.step(ReloadEvent::SourceRead("a { width: 1px; }\nb { width: 2px; }".to_string()));
    assert_eq!(action, ReloadAction::Published { empty: false });
    assert_eq!(reloader.current_state(), ReloadState::Published);
    assert_eq!(reloader.table().len(), 2);
    assert_eq!(reloader.step(ReloadEvent::Changed), ReloadAction::ReadSource);
    assert_eq!(reloader.step(ReloadEvent::SourceUnreadable), ReloadAction::KeepPrevious);
    assert_eq!(reloader.current_state(), ReloadState::Failed);
    assert_eq!(reloader.table().len(), 2);
    assert_eq!(reloader.table().get("a"), Some(flat(&[("width", "1px")])));
    let action = reloader.step(ReloadEvent::SourceRead("c { width: 3px; }".to_string()));
    assert_eq!(action, ReloadAction::Published { empty: false });
    assert_eq!(reloader.table().len(), 1);
    assert_eq!(reloader.table().get("a"), None);
    assert_eq!(reloader.table().get("b"), None);
    assert_eq!(reloader.table().get("c"), Some(flat(&[("width", "3px")])));
    let action = reloader.step(ReloadEvent::SourceRead("/* nothing */".to_string()));
    assert_eq!(action, ReloadAction::Published { empty: true });
    assert_eq!(reloader.current_state(), ReloadState::Published);
    assert!(reloader.table().is_empty());
}

#[test]
fn watch_events() {
    assert!(handle_event(WatchEvent::Create));
    assert!(handle_event(WatchEvent::Modify));
    assert!(handle_event(WatchEvent::Rename));
    assert!(handle_event(WatchEvent::Remove));
    assert!(!handle_event(WatchEvent::Access));
    assert!(!handle_event(WatchEvent::Other));
    assert!(watch_recursively(true, true));
    assert!(!watch_recursively(true, false));
    assert!(!watch_recursively(false, true));
    assert!(!watch_recursively(false, false));
}

#[test]
fn stylesheet_names() {
    assert!(is_stylesheet("a.css"));
    assert!(is_stylesheet("a.CSS"));
    assert!(is_stylesheet("a.b.Css"));
    assert!(is_stylesheet("..css"));
    assert!(!is_stylesheet(".css"));
    assert!(!is_stylesheet("css"));
    assert!(!is_stylesheet("a.scss"));
    assert!(!is_stylesheet("a.css.bak"));
    assert!(!is_stylesheet("a.cs"));
    assert!(!is_stylesheet("a."));
    assert!(!is_stylesheet(""));
    for name in ["a.css", "a.CSS", ".css", "css", "a.css.bak", "..css", "a.", "x.cSs", "a.scss"] {
        let expected = std::path::Path::new(name)
            .extension()
            .is_some_and(|e| e.eq_ignore_ascii_case("css"));
        assert_eq!(is_stylesheet(name), expected);
    }
}

#[test]
fn options() {
    let options = ProviderOptions::default();
    assert_eq!(options.path, std::path::PathBuf::from("./styles"));
    assert!(options.recursive);
    assert_eq!(ThemeOptions::with_path("themes/dark").path(), std::path::Path::new("themes/dark"));
    assert_ne!(ThemeOptions::with_path("themes/dark").path(), std::path::Path::new("themes"));
}
