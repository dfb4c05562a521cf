use floem_css::analyzer::{analyze, analyze_tokens, find_line_with_value, SyntaxError};
use floem_css::composer::css_to_rules;
use floem_css::lexer::{Lexer, Token};
use floem_css::parser::{
    get_var_name, is_root_rule, is_var_definition, is_var_reference, replace_root_vars,
    replace_var, replace_vars, resolve_rule, take_vars, CustomProperties, Parser, ParserToken,
    Rule,
};
use floem_css::selector::{split_double_colon, split_value, PseudoClass, Selector};
use floem_css::text::{
    byte_offset_of, chars_of, find_text, has_prefix, has_suffix, is_whitespace, is_word, same_text,
    scan_back, scan_to, split_lines, split_on, split_words, substring, trim, CharClass,
};

fn sel(value: &str, line: usize) -> Token {
    Token::Selector { value: value.to_string(), line }
}

fn prop(value: &str, line: usize) -> Token {
    Token::Property { value: value.to_string(), line }
}

fn val(value: &str, line: usize) -> Token {
    Token::Value { value: value.to_string(), line }
}

fn lex(input: &str) -> Vec<Token> {
    Lexer::new(input).tokens()
}

fn selector(name: &str, pseudo_class: Option<PseudoClass>) -> Selector {
    Selector { selector: name.to_string(), pseudo_class }
}

fn selectors(rule: &Rule) -> Vec<Selector> {
    (0..rule.selector_count()).map(|i| rule.selector(i).duplicate()).collect()
}

fn pairs(rule: &Rule) -> Vec<(String, String)> {
    rule.iter_props()
}

fn pair(a: &str, b: &str) -> (String, String) {
    (a.to_string(), b.to_string())
}

#[test]
fn replace_vars_ok() {
    // Setup initial rules with variables
    let mut root = Rule::new_const();
    root.add_selector(Selector { selector: ":root".to_string(), pseudo_class: None });
    root.add_declaration("--main-color".to_string(), "blue".to_string());
    let mut button = Rule::new_const();
    button.add_selector(Selector { selector: ".button".to_string(), pseudo_class: None });
    button.add_declaration("background-color".to_string(), "var(--main-color)".to_string());
    let rules = vec![root, button];

    // Call the function to replace variables
    let updated_rules = replace_vars(rules);

    // Check that the variable was replaced correctly
    assert_eq!(updated_rules[1].value(0), "blue");
}

#[test]
fn tokens_of_a_rule() {
    let tokens = lex("button:hover, .a {\n  color: red;\n  width: 10px;\n}\n");
    assert_eq!(
        tokens,
        vec![
            sel("button:hover, .a ", 1),
            Token::BlockOpen { line: 1 },
            prop("color", 2),
            Token::Colon { line: 2 },
            val("red", 2),
            Token::Semicolon { line: 2 },
            prop("width", 3),
            Token::Colon { line: 3 },
            val("10px", 3),
            Token::Semicolon { line: 3 },
            Token::BlockClose { line: 4 },
            Token::EOF,
        ]
    );
}

#[test]
fn tokens_are_shown() {
    let labels: Vec<String> = lex("a { b: c; }").iter().map(Token::label).collect();
    assert_eq!(
        labels,
        vec!["Selector(a )", "BlockOpen", "Property(b)", "Colon", "Value(c)", "Semicolon", "BlockClose", "EOF"]
    );
}

#[test]
fn tokens_of_nothing() {
    assert_eq!(lex(""), vec![Token::EOF]);
    assert_eq!(lex("  \n\t "), vec![Token::EOF]);
}

#[test]
fn colon_is_a_token_only_inside_a_block() {
    assert_eq!(lex(":root"), vec![sel(":root", 1), Token::EOF]);
    assert_eq!(
        lex("a{:}:"),
        vec![
            sel("a", 1),
            Token::BlockOpen { line: 1 },
            Token::Colon { line: 1 },
            Token::BlockClose { line: 1 },
            sel(":", 1),
            Token::EOF,
        ]
    );
    assert_eq!(lex(";"), vec![Token::Semicolon { line: 1 }, Token::EOF]);
}

#[test]
fn comments_are_skipped() {
    assert_eq!(
        lex("/* c\n */ a { }"),
        vec![sel("a ", 2), Token::BlockOpen { line: 2 }, Token::BlockClose { line: 2 }, Token::EOF]
    );
    assert_eq!(lex("/* never closed a { }"), vec![Token::EOF]);
    assert_eq!(lex("/*/a"), vec![sel("a", 1), Token::EOF]);
    assert_eq!(lex("/ a"), vec![sel("a", 1), Token::EOF]);
    assert_eq!(lex("/**/*x"), vec![sel("*x", 1), Token::EOF]);
}

#[test]
fn a_word_that_the_input_cuts_off_is_no_token() {
    assert_eq!(
        lex("a { b: c"),
        vec![sel("a ", 1), Token::BlockOpen { line: 1 }, prop("b", 1), Token::Colon { line: 1 }, Token::EOF]
    );
    assert_eq!(
        lex("a { b: c }"),
        vec![sel("a ", 1), Token::BlockOpen { line: 1 }, prop("b", 1), Token::Colon { line: 1 }, Token::EOF]
    );
    assert_eq!(lex("a"), vec![sel("a", 1), Token::EOF]);
}

#[test]
fn a_word_before_a_newline_is_a_property() {
    assert_eq!(
        lex("a {\nred\n}"),
        vec![sel("a ", 1), Token::BlockOpen { line: 1 }, prop("red", 2), Token::BlockClose { line: 3 }, Token::EOF]
    );
}

#[test]
fn lines_are_counted() {
    let tokens = lex("\n\na\n\n\nb");
    assert_eq!(tokens, vec![sel("a", 3), sel("b", 6), Token::EOF]);
}

#[test]
fn the_lexer_keeps_its_place() {
    let mut lexer = Lexer::new("a{}");
    assert_eq!(lexer.tokens().len(), 4);
    assert_eq!(lexer.tokens(), vec![Token::EOF]);
}

#[test]
fn parser_tokens() {
    assert_eq!(ParserToken::from_token(&sel("a", 1)), Some(ParserToken::Selector { value: "a".to_string() }));
    assert_eq!(ParserToken::from_token(&prop("b", 2)), Some(ParserToken::Property { value: "b".to_string() }));
    assert_eq!(ParserToken::from_token(&val("c", 3)), Some(ParserToken::Value { value: "c".to_string() }));
    assert_eq!(ParserToken::from_token(&Token::Colon { line: 1 }), None);
    assert_eq!(ParserToken::from_token(&Token::Semicolon { line: 1 }), None);
    assert_eq!(ParserToken::from_token(&Token::BlockOpen { line: 1 }), None);
    assert_eq!(ParserToken::from_token(&Token::BlockClose { line: 1 }), None);
    assert_eq!(ParserToken::from_token(&Token::EOF), None);
}

#[test]
fn pseudo_classes() {
    assert_eq!(PseudoClass::parse_str(":hover"), Some(PseudoClass::Hover));
    assert_eq!(PseudoClass::parse_str(":focus"), Some(PseudoClass::Focus));
    assert_eq!(PseudoClass::parse_str(":focus:hover"), Some(PseudoClass::FocusHover));
    assert_eq!(PseudoClass::parse_str(":active"), Some(PseudoClass::Active));
    assert_eq!(PseudoClass::parse_str(":active:hover"), Some(PseudoClass::ActiveHover));
    assert_eq!(PseudoClass::parse_str(":disabled"), Some(PseudoClass::Disabled));
    assert_eq!(PseudoClass::parse_str(":disabled:hover"), Some(PseudoClass::DisabledHover));
    assert_eq!(PseudoClass::parse_str("::placeholder"), Some(PseudoClass::Placeholder));
    assert_eq!(PseudoClass::parse_str("::selection"), Some(PseudoClass::Selection));
    assert_eq!(PseudoClass::parse_str("hover"), None);
    assert_eq!(PseudoClass::parse_str(":Hover"), None);
    assert_eq!(PseudoClass::parse_str(":hover:focus"), None);
    assert_eq!(PseudoClass::parse_str(""), None);
}

#[test]
fn selectors_are_cut_at_a_colon() {
    assert_eq!(Selector::from("button"), selector("button", None));
    assert_eq!(Selector::from("button:hover"), selector("button", Some(PseudoClass::Hover)));
    assert_eq!(Selector::from("button:focus:hover"), selector("button", Some(PseudoClass::FocusHover)));
    assert_eq!(Selector::from("input::placeholder"), selector("input", Some(PseudoClass::Placeholder)));
    assert_eq!(Selector::from("input::selection"), selector("input", Some(PseudoClass::Selection)));
    assert_eq!(Selector::from("button:unknown"), selector("button", None));
    assert_eq!(Selector::from(":root"), selector(":root", None));
    assert_eq!(Selector::from(":hover"), selector("", Some(PseudoClass::Hover)));
    assert_eq!(Selector::from("::placeholder"), selector("::placeholder", None));
    assert_eq!(Selector::from("::part:hover"), selector("::part", Some(PseudoClass::Hover)));
    assert_eq!(Selector::from("::"), selector("::", None));
    assert_eq!(Selector::from(""), selector("", None));
    assert_eq!(split_value("a:active"), selector("a", Some(PseudoClass::Active)));
    assert_eq!(split_value("a"), selector("a", None));
    assert_eq!(split_double_colon("::a:disabled"), selector("::a", Some(PseudoClass::Disabled)));
    assert_eq!(split_double_colon("::a"), selector("::a", None));
}

#[test]
fn rules_of_tokens() {
    let parser = Parser::new(lex("button:hover, .a {\n  color: red;\n  width: 10px;\n}\nb { }\n"));
    assert_eq!(parser.selector_count(), 2);
    let rules = parser.parse();
    assert_eq!(rules.len(), 2);
    assert_eq!(selectors(&rules[0]), vec![selector("button", Some(PseudoClass::Hover)), selector(".a", None)]);
    assert_eq!(pairs(&rules[0]), vec![pair("color", "red"), pair("width", "10px")]);
    assert_eq!(rules[0].len(), 2);
    assert_eq!(rules[0].property(1), "width");
    assert_eq!(rules[0].value(1), "10px");
    assert_eq!(selectors(&rules[1]), vec![selector("b", None)]);
    assert!(pairs(&rules[1]).is_empty());
}

#[test]
fn a_property_and_the_value_behind_it_are_a_declaration() {
    // A value without a property before it is dropped by itself.
    let tokens = vec![sel("a", 1), prop("p", 1), val("v", 1), val("w", 1), prop("q", 1), val("x", 1)];
    let rules = Parser::new(tokens).parse();
    assert_eq!(rules.len(), 1);
    assert_eq!(pairs(&rules[0]), vec![pair("p", "v"), pair("q", "x")]);
    // A property without a value behind it is dropped by itself.
    let tokens = vec![sel("a", 1), prop("p", 1), prop("q", 1), val("v", 1), Token::EOF];
    let rules = Parser::new(tokens).parse();
    assert_eq!(rules.len(), 1);
    assert_eq!(pairs(&rules[0]), vec![pair("q", "v")]);
    let tokens = vec![sel("a", 1), val("v", 1), prop("p", 1), sel("b", 1), val("w", 1), prop("q", 1), prop("r", 1), val("x", 1), prop("s", 1)];
    let rules = Parser::new(tokens).parse();
    assert_eq!(rules.len(), 2);
    assert!(pairs(&rules[0]).is_empty());
    assert_eq!(pairs(&rules[1]), vec![pair("r", "x")]);
    let rules = css_to_rules("a {\n  color\n  width: 1px;\n}");
    assert_eq!(pairs(&rules[0]), vec![pair("width", "1px")]);
    // Tokens before the first selector belong to no rule.
    let tokens = vec![prop("p", 1), val("v", 1), sel("a", 1), prop("q", 1), val("x", 1), sel("b", 2)];
    let rules = Parser::new(tokens).parse();
    assert_eq!(rules.len(), 2);
    assert_eq!(pairs(&rules[0]), vec![pair("q", "x")]);
    assert!(pairs(&rules[1]).is_empty());
    assert!(Parser::new(vec![Token::EOF]).parse().is_empty());
}

#[test]
fn rule_editing() {
    let mut rule = Rule::new_const();
    assert_eq!(rule.selector_count(), 0);
    assert_eq!(rule.len(), 0);
    rule.add_selector(selector("a", None));
    rule.add_selector(selector("b", Some(PseudoClass::Focus)));
    rule.add_declaration("one".to_string(), "1".to_string());
    rule.add_declaration("two".to_string(), "2".to_string());
    rule.add_declaration("three".to_string(), "3".to_string());
    assert_eq!(selectors(&rule), vec![selector("a", None), selector("b", Some(PseudoClass::Focus))]);
    rule.set_value(1, "second".to_string());
    assert_eq!(pairs(&rule), vec![pair("one", "1"), pair("two", "second"), pair("three", "3")]);
    rule.remove(0);
    assert_eq!(pairs(&rule), vec![pair("two", "second"), pair("three", "3")]);
    rule.remove(1);
    assert_eq!(pairs(&rule), vec![pair("two", "second")]);
}

#[test]
fn variables_are_recognised() {
    assert!(is_var_definition("--gap"));
    assert!(is_var_definition("--"));
    assert!(!is_var_definition("-gap"));
    assert!(!is_var_definition("gap--"));
    assert!(is_var_reference("var(--gap)"));
    assert!(is_var_reference("var()"));
    assert!(!is_var_reference("var(--gap"));
    assert!(!is_var_reference("var"));
    assert!(!is_var_reference(" var(--gap)"));
    assert!(!is_var_reference("calc(--gap)"));
    assert_eq!(get_var_name("var(--gap)"), "--gap");
    assert_eq!(get_var_name("var()"), "");
}

#[test]
fn custom_properties() {
    let mut vars = CustomProperties::new();
    assert_eq!(vars.lookup("--a"), None);
    vars.define("--a".to_string(), "1px".to_string());
    vars.define("--b".to_string(), "2px".to_string());
    vars.define("--a".to_string(), "3px".to_string());
    assert_eq!(vars.lookup("--a"), Some(&"1px".to_string()));
    assert_eq!(vars.lookup("--b"), Some(&"2px".to_string()));
    assert_eq!(vars.lookup("--c"), None);
    let mut value = "var(--b)".to_string();
    replace_var(&mut value, &vars);
    assert_eq!(value, "2px");
    let mut value = "var(--c)".to_string();
    replace_var(&mut value, &vars);
    assert_eq!(value, "var(--c)");
}

#[test]
fn variables_leave_the_root_rule() {
    let mut root = Rule::new_const();
    root.add_selector(selector(":root", None));
    root.add_declaration("--a".to_string(), "1px".to_string());
    root.add_declaration("width".to_string(), "var(--a)".to_string());
    root.add_declaration("--b".to_string(), "var(--a)".to_string());
    assert!(is_root_rule(&root));
    let vars = take_vars(&mut root);
    assert_eq!(pairs(&root), vec![pair("width", "var(--a)")]);
    assert_eq!(vars.lookup("--a"), Some(&"1px".to_string()));
    assert_eq!(vars.lookup("--b"), Some(&"var(--a)".to_string()));
    resolve_rule(&mut root, &vars);
    assert_eq!(pairs(&root), vec![pair("width", "1px")]);
    let mut other = Rule::new_const();
    other.add_selector(selector("root", None));
    assert!(!is_root_rule(&other));
}

#[test]
fn a_replacement_is_not_resolved_again() {
    let rules = css_to_rules(":root { --a: var(--b); --b: 2px; }\nx { width: var(--a); height: var(--b); }");
    assert_eq!(rules.len(), 2);
    assert!(pairs(&rules[0]).is_empty());
    assert_eq!(pairs(&rules[1]), vec![pair("width", "var(--b)"), pair("height", "2px")]);
}

#[test]
fn a_variable_is_filled_in_and_a_missing_one_stays() {
    let rules = css_to_rules(
        ":root { --gap: 8px; }\n.row { gap: var(--gap); width: var(--missing); height: 5px; }",
    );
    assert_eq!(rules.len(), 2);
    assert_eq!(selectors(&rules[0]), vec![selector(":root", None)]);
    assert!(pairs(&rules[0]).is_empty());
    assert_eq!(
        pairs(&rules[1]),
        vec![pair("gap", "8px"), pair("width", "var(--missing)"), pair("height", "5px")]
    );
}

#[test]
fn only_the_first_root_rule_defines_variables() {
    let mut first = Rule::new_const();
    first.add_selector(selector("a", None));
    first.add_selector(selector(":root", None));
    first.add_declaration("--x".to_string(), "1".to_string());
    let mut second = Rule::new_const();
    second.add_selector(selector(":root", None));
    second.add_declaration("--y".to_string(), "2".to_string());
    second.add_declaration("p".to_string(), "var(--x)".to_string());
    second.add_declaration("q".to_string(), "var(--y)".to_string());
    let rules = replace_vars(vec![first, second]);
    assert!(pairs(&rules[0]).is_empty());
    assert_eq!(pairs(&rules[1]), vec![pair("--y", "2"), pair("p", "1"), pair("q", "var(--y)")]);
    let mut plain = Rule::new_const();
    plain.add_selector(selector("a", None));
    plain.add_declaration("--x".to_string(), "1".to_string());
    plain.add_declaration("p".to_string(), "var(--x)".to_string());
    let rules = replace_vars(vec![plain]);
    assert_eq!(pairs(&rules[0]), vec![pair("--x", "1"), pair("p", "var(--x)")]);
    let mut root = Rule::new_const();
    root.add_selector(selector(":root", None));
    root.add_declaration("--x".to_string(), "1".to_string());
    let mut rules = vec![root];
    replace_root_vars(0, &mut rules);
    assert!(pairs(&rules[0]).is_empty());
}

#[test]
fn findings() {
    let input = "a\nb {\n  color: red\n  width: 1px;\n}";
    let errors = analyze(input);
    assert_eq!(
        errors,
        vec![
            SyntaxError { line: 3, column: 7, error: "Expecting value after :", value: "  color: red".to_string() },
            SyntaxError { line: 3, column: 9, error: "Unexpected token after property", value: "  color: red".to_string() },
        ]
    );
    assert!(analyze("a {\n  color: red;\n}\n").is_empty());
    assert!(analyze("").is_empty());
    assert_eq!(
        analyze("a"),
        vec![SyntaxError { line: 1, column: 0, error: "Expecting { after selector", value: "a".to_string() }]
    );
    assert_eq!(
        analyze("a {\n  b: c;;\n}"),
        vec![SyntaxError { line: 2, column: 6, error: "Expecting property or } after ;", value: "  b: c;;".to_string() }]
    );
}

#[test]
fn findings_are_shown() {
    let finding = SyntaxError { line: 12, column: 0, error: "Expecting ; after value", value: "  b c".to_string() };
    assert_eq!(finding.message(), "error: Expecting ; after value\n 12:0 |   b c");
    let finding = SyntaxError { line: usize::MAX, column: 9, error: "", value: String::new() };
    assert_eq!(finding.message(), format!("error: \n {}:9 | ", usize::MAX));
}

#[test]
fn columns_count_bytes() {
    let input = "a {\n  \u{e9}\u{e9}: b\n}";
    let errors = analyze(input);
    assert_eq!(
        errors,
        vec![
            SyntaxError { line: 2, column: 6, error: "Expecting value after :", value: "  \u{e9}\u{e9}: b".to_string() },
            SyntaxError { line: 2, column: 8, error: "Unexpected token after property", value: "  \u{e9}\u{e9}: b".to_string() },
        ]
    );
    assert_eq!(errors[0].column, "  \u{e9}\u{e9}: b".find(':').unwrap());
    assert_eq!(errors[1].column, "  \u{e9}\u{e9}: b".find('b').unwrap());
    let lines = vec!["\u{e9} b".to_string(), "\u{20ac}\u{1f600}x".to_string()];
    assert_eq!(find_line_with_value(&lines, 1, "b"), (3, "\u{e9} b"));
    assert_eq!(find_line_with_value(&lines, 2, "x"), (7, "\u{20ac}\u{1f600}x"));
    assert_eq!(find_line_with_value(&lines, 2, "\u{1f600}"), (3, "\u{20ac}\u{1f600}x"));
    for c in (0..=u32::from(char::MAX)).filter_map(char::from_u32).step_by(97) {
        let text = format!("{c}z");
        assert_eq!(byte_offset_of(&chars_of(&text), 1), c.len_utf8());
        assert_eq!(byte_offset_of(&chars_of(&text), 2), text.len());
    }
}

#[test]
fn findings_without_an_end() {
    let input = "a {\n  b: c;\n";
    for (tokens, needle_column) in [
        (vec![sel("a ", 1)], 0),
        (vec![prop("b", 2)], 2),
        (vec![val("c", 2)], 5),
        (vec![Token::Semicolon { line: 2 }], 6),
        (vec![Token::Colon { line: 2 }], 3),
    ] {
        let errors = analyze_tokens(&tokens, input);
        assert_eq!(errors.len(), 1);
        assert_eq!(errors[0].error, "Unexpected EOF");
        assert_eq!(errors[0].column, needle_column);
    }
    assert!(analyze_tokens(&[Token::BlockOpen { line: 1 }], input).is_empty());
    assert!(analyze_tokens(&[Token::EOF], input).is_empty());
    assert!(analyze_tokens(&[], input).is_empty());
}

#[test]
fn findings_where_the_text_is_not_in_the_line() {
    let lines = vec!["a {".to_string(), "  b: c;".to_string()];
    assert_eq!(find_line_with_value(&lines, 2, "c"), (5, "  b: c;"));
    assert_eq!(find_line_with_value(&lines, 1, "a"), (0, "a {"));
    assert_eq!(find_line_with_value(&lines, 1, "zz"), (0, "a {"));
    assert_eq!(find_line_with_value(&lines, 0, "a"), (0, ""));
    assert_eq!(find_line_with_value(&lines, 3, "a"), (0, ""));
    let errors = analyze_tokens(&[val("x", 7), Token::EOF], "a");
    assert_eq!(errors, vec![SyntaxError { line: 7, column: 0, error: "Expecting ; after value", value: String::new() }]);
}

#[test]
fn text_helpers() {
    assert_eq!(chars_of("añb"), vec!['a', 'ñ', 'b']);
    assert_eq!(substring(&chars_of("hello"), 1, 3), "el");
    assert_eq!(substring(&chars_of("hello"), 2, 2), "");
    assert!(is_whitespace(' ') && is_whitespace('\n') && is_whitespace('\t') && is_whitespace('\r'));
    assert!(is_whitespace('\u{a0}') && is_whitespace('\u{3000}') && is_whitespace('\u{2003}'));
    assert!(!is_whitespace('a') && !is_whitespace('\u{200b}') && !is_whitespace('\u{0}'));
    for c in (0..=u32::from(char::MAX)).filter_map(char::from_u32) {
        assert_eq!(is_whitespace(c), c.is_whitespace());
    }
    assert_eq!(trim("  a b \n"), "a b");
    assert_eq!(trim(" \t "), "");
    assert_eq!(trim(""), "");
    assert_eq!(trim("x"), "x");
    assert_eq!(split_on("a,b,,c", ','), vec!["a", "b", "", "c"]);
    assert_eq!(split_on("", ','), vec![""]);
    assert_eq!(split_on(",", ','), vec!["", ""]);
    assert_eq!(split_on("abc", ','), vec!["abc"]);
    assert_eq!(split_words("  a  bc\td \n"), vec!["a", "bc", "d"]);
    assert!(split_words("   ").is_empty());
    assert!(split_words("").is_empty());
    assert_eq!(split_lines("a\nb\r\nc\r"), vec!["a", "b", "c\r"]);
    assert_eq!(split_lines("a\n\nb\n"), vec!["a", "", "b"]);
    assert!(split_lines("").is_empty());
    assert_eq!(split_lines("\n"), vec![""]);
    for s in ["a\nb\r\nc\r", "a\n\nb\n", "", "\n", "\r\n\r\n", "x\r\ny", "\n\n\n", "abc"] {
        assert_eq!(split_lines(s), s.lines().collect::<Vec<_>>());
        assert_eq!(split_words(s), s.split_whitespace().collect::<Vec<_>>());
        assert_eq!(trim(s), s.trim());
    }
    let chars = chars_of("ab:cd;e");
    assert_eq!(scan_to(&chars, 0, CharClass::Is(':')), 2);
    assert_eq!(scan_to(&chars, 3, CharClass::LineStop), 5);
    assert_eq!(scan_to(&chars, 6, CharClass::LineStop), 7);
    assert_eq!(scan_to(&chars, 0, CharClass::SelectorStop), 7);
    assert_eq!(scan_back(&chars, 7, CharClass::Is(':')), 3);
    assert_eq!(scan_back(&chars, 2, CharClass::Is(':')), 0);
    assert_eq!(find_text(&chars, &chars_of("cd")), Some(3));
    assert_eq!(find_text(&chars, &chars_of("")), Some(0));
    assert_eq!(find_text(&chars, &chars_of("ce")), None);
    assert_eq!(find_text(&chars_of("aab"), &chars_of("ab")), Some(1));
    assert_eq!(find_text(&chars_of("ab"), &chars_of("abc")), None);
    assert!(has_prefix(&chars, "ab:") && !has_prefix(&chars, "b") && has_prefix(&chars, ""));
    assert!(has_suffix(&chars, ";e") && !has_suffix(&chars, ";") && has_suffix(&chars, ""));
    assert!(is_word(&chars, "ab:cd;e") && !is_word(&chars, "ab:cd;"));
    assert!(same_text("a", "a") && !same_text("a", "b") && !same_text("a", "ab"));
}
