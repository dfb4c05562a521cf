use std::time::Duration;

use floem_css::color::{get_rgb_value, parse_color, parse_rgb, parse_rgb_alpha, parse_rgb_value, parse_rgba, Color};
use floem_css::keywords::{
    parse_align_content, parse_align_items, parse_cursor_style, parse_display,
    parse_flex_direction, parse_flex_wrap, parse_font_style, parse_font_weight,
    parse_justify_content, parse_position, parse_text_overflow, parse_user_select, to_owned,
    AlignContent, AlignItems, CursorStyle, Display, FlexDirection, FlexWrap, FontStyle,
    JustifyContent, Position, TextOverflow, Weight,
};
use floem_css::length::{parse_gap, parse_pct, parse_px, parse_px_pct, parse_pxpctauto, Pct, Px, PxPct, PxPctAuto};
use floem_css::lists::to_texts;
use floem_css::number::{parse_i32, parse_number, push_decimal, Decimal};
use floem_css::shadow::{
    parse_border, parse_box_shadow, parse_box_shadow_2, parse_box_shadow_3, parse_box_shadow_4,
    parse_box_shadow_5, shadow_from_readings, split_shadow, BorderDef, BoxShadow, Reading,
};
use floem_css::blocks::StyleError;
use floem_css::transition::{parse_duration, parse_millis, parse_seconds, parse_transition, Transition};

fn dec(mantissa: u64, scale: u8) -> Decimal {
    Decimal { negative: false, mantissa, scale }
}

fn px(n: u64) -> PxPct {
    PxPct::Px(dec(n, 0))
}

const BLACK: Color = Color { r: 0, g: 0, b: 0, a: 255 };
const RED: Color = Color { r: 255, g: 0, b: 0, a: 255 };
const GREEN: Color = Color { r: 0, g: 128, b: 0, a: 255 };

#[test]
fn declaration_duration() {
    let sec = parse_duration("1s").unwrap();
    assert!(sec == Duration::from_secs(1));
    let tenth_sec = parse_duration("0.1s").unwrap();
    assert!(tenth_sec == Duration::from_millis(100));
    let ms = parse_duration("150ms").unwrap();
    assert!(ms == Duration::from_millis(150));
    // This should fail
    let value = parse_duration("1");
    assert!(value.is_none());
}

fn float(d: Decimal) -> f64 {
    let value = d.mantissa as f64 / 10f64.powi(i32::from(d.scale));
    if d.negative {
        -value
    } else {
        value
    }
}

#[test]
fn parser_duration() -> Result<(), StyleError> {
    let one_sec = parse_seconds("1s")?;
    assert!(float(one_sec) == 1.0);

    let one_tenth = parse_seconds("0.1s")?;
    assert!(float(one_tenth) == 0.1);

    let err = parse_seconds("1");

    assert!(err.is_err());

    Ok(())
}

#[test]
fn seconds() {
    assert_eq!(parse_seconds("1.50s"), Ok(dec(150, 2)));
    assert_eq!(parse_seconds("-2s"), Ok(Decimal { negative: true, mantissa: 2, scale: 0 }));
    assert_eq!(
        parse_seconds("1"),
        Err(StyleError {
            error: "Duration must be given as seconds i.e. 1s or 0.1s".to_string(),
            value: "1".to_string()
        })
    );
    assert_eq!(
        parse_seconds("fasts"),
        Err(StyleError { error: "Cannot parse number".to_string(), value: "fasts".to_string() })
    );
    assert_eq!(
        parse_seconds("s"),
        Err(StyleError { error: "Cannot parse number".to_string(), value: "s".to_string() })
    );
}

#[test]
fn border() {
    let v = parse_border("10px").unwrap();
    assert!(v == BorderDef { width: Some(Px(dec(10, 0))), color: None });
    let v = parse_border("10px red").unwrap();
    assert!(v == BorderDef { width: Some(Px(dec(10, 0))), color: Some(RED) });
    let v = parse_border("red").unwrap();
    assert!(v == BorderDef { width: None, color: Some(RED) });
}

#[test]
fn rgb_alpha() {
    let v = parse_rgb_alpha("0.1").unwrap();
    assert!(v == 25);
    let v = parse_rgb_alpha("1.1").unwrap();
    assert!(v == 255);
    let v = parse_rgb_alpha("0").unwrap();
    assert!(v == 0);
}

#[test]
fn rgb_value() {
    let v = parse_rgb_value("100").unwrap();
    assert!(v == 100);
    assert!(parse_rgb_value("300").is_none());
}

#[test]
fn rgb() {
    let v = parse_rgb("21, 22, 23").unwrap();
    assert!(v == Color { r: 21, g: 22, b: 23, a: 255 });
    assert!(parse_rgb("21, 22, 280").is_none());
}

#[test]
fn rgba() {
    let v = parse_rgba("21, 22, 23, 0.65").unwrap();
    assert!(v == Color { r: 21, g: 22, b: 23, a: 165 });
    assert!(parse_rgba("21, 22, 280, 0.1").is_none());
}

#[test]
fn find_rgba_value() {
    let (start, end) = get_rgb_value("rgba(21, 22, 23, 0.65)").unwrap();
    assert!(start == 5);
    assert!(end == 18);
    let (start, end) = get_rgb_value("rgb(21, 22, 23)").unwrap();
    assert!(start == 4);
    assert!(end == 12);
    assert!(get_rgb_value("rgb(21, 22, 23").is_none());
}

#[test]
fn box_shadow_5() {
    let v = parse_box_shadow_5(["4px", "8px", "10px", "15px", "black"]).unwrap();
    assert!(v.h_offset == px(4));
    assert!(v.v_offset == px(8));
    assert!(v.blur_radius == px(10));
    assert!(v.spread == px(15));
    assert!(v.color == BLACK);
    let v = parse_box_shadow_5(["green", "4px", "8px", "10px", "15px"]).unwrap();
    assert!(v.h_offset == px(4));
    assert!(v.v_offset == px(8));
    assert!(v.blur_radius == px(10));
    assert!(v.spread == px(15));
    assert!(v.color == GREEN);
}

#[test]
fn number_forms() {
    assert_eq!(parse_number("4"), Some(dec(4, 0)));
    assert_eq!(parse_number("4.0"), Some(dec(40, 1)));
    assert_eq!(parse_number("0.65"), Some(dec(65, 2)));
    assert_eq!(parse_number(".5"), Some(dec(5, 1)));
    assert_eq!(parse_number("5."), Some(dec(5, 0)));
    assert_eq!(parse_number("+12.50"), Some(dec(1250, 2)));
    assert_eq!(parse_number("-3"), Some(Decimal { negative: true, mantissa: 3, scale: 0 }));
    assert_eq!(parse_number("007"), Some(dec(7, 0)));
    assert_eq!(parse_number(""), None);
    assert_eq!(parse_number("."), None);
    assert_eq!(parse_number("-"), None);
    assert_eq!(parse_number("1.2.3"), None);
    assert_eq!(parse_number("1e"), None);
    assert_eq!(parse_number("e3"), None);
    assert_eq!(parse_number("1e3.5"), None);
    assert_eq!(parse_number("1e3e3"), None);
    assert_eq!(parse_number("inf"), None);
    assert_eq!(parse_number("NaN"), None);
    assert_eq!(parse_number(" 1"), None);
    assert_eq!(parse_number("12a"), None);
}

#[test]
fn numbers_with_an_exponent() {
    assert_eq!(parse_number("1e3"), Some(dec(1000, 0)));
    assert_eq!(parse_number("1E3"), Some(dec(1000, 0)));
    assert_eq!(parse_number("1.5e2"), Some(dec(150, 0)));
    assert_eq!(parse_number("1.5e+1"), Some(dec(15, 0)));
    assert_eq!(parse_number("2.50E+1"), Some(dec(250, 1)));
    assert_eq!(parse_number("1e-3"), Some(dec(1, 3)));
    assert_eq!(parse_number("-12.5e-1"), Some(Decimal { negative: true, mantissa: 125, scale: 2 }));
    assert_eq!(parse_number("1e0"), Some(dec(1, 0)));
    assert_eq!(parse_number("1e19"), Some(dec(10_000_000_000_000_000_000, 0)));
    assert_eq!(parse_number("2e19"), None);
    assert_eq!(parse_number("1e20"), None);
    assert_eq!(parse_number("1e99999999999999999999"), None);
    assert_eq!(parse_number("0e999"), Some(dec(0, 0)));
    assert_eq!(parse_number("1e-255"), Some(dec(1, 255)));
    assert_eq!(parse_number("1e-256"), None);
    assert_eq!(parse_number("0.1e-255"), None);
    assert_eq!(parse_px("1e3px"), Some(Px(dec(1000, 0))));
    assert_eq!(parse_pxpctauto("2.5e1%"), Some(PxPctAuto::Pct(dec(25, 0))));
    assert_eq!(parse_rgb_alpha("5e-1"), Some(127));
    assert_eq!(parse_millis("1e-1s"), Some(100));
    for text in ["1e3", "1.5e2", "2.50E+1", "1e-3", "-12.5e-1", "7", "0.125", "3.e2", ".5E1", "+4e+2", "1e19"] {
        let expected: f64 = text.parse().unwrap();
        assert_eq!(float(parse_number(text).unwrap()), expected, "{text}");
    }
}

#[test]
fn number_limits() {
    assert_eq!(parse_number("18446744073709551615"), Some(dec(u64::MAX, 0)));
    assert_eq!(parse_number("18446744073709551616"), None);
    assert_eq!(parse_number("1844674407370955161.5"), Some(dec(u64::MAX, 1)));
    assert_eq!(parse_number("99999999999999999999"), None);
}

#[test]
fn decimal_scaling() {
    assert_eq!(dec(65, 2).scaled(255), 165);
    assert_eq!(dec(1, 1).scaled(1000), 100);
    assert_eq!(dec(15, 1).scaled(1000), 1500);
    assert_eq!(dec(1, 4).scaled(1000), 0);
    assert_eq!(dec(7, 0).scaled(3), 21);
    assert_eq!(dec(1, 255).scaled(1000), 0);
}

#[test]
fn whole_numbers() {
    assert_eq!(parse_i32("12"), Some(12));
    assert_eq!(parse_i32("-12"), Some(-12));
    assert_eq!(parse_i32("+12"), Some(12));
    assert_eq!(parse_i32("2147483647"), Some(i32::MAX));
    assert_eq!(parse_i32("2147483648"), None);
    assert_eq!(parse_i32("-2147483648"), Some(i32::MIN));
    assert_eq!(parse_i32("-2147483649"), None);
    assert_eq!(parse_i32("-"), None);
    assert_eq!(parse_i32(""), None);
    assert_eq!(parse_i32("1.0"), None);
    assert_eq!(parse_millis("+5ms"), Some(5));
    assert_eq!(parse_millis("18446744073709551615ms"), Some(u64::MAX));
    assert_eq!(parse_millis("18446744073709551616ms"), None);
    assert_eq!(parse_rgb_value("255"), Some(255));
    assert_eq!(parse_rgb_value("256"), None);
    assert_eq!(parse_rgb_value("+7"), Some(7));
    assert_eq!(parse_rgb_value(""), None);
    assert_eq!(parse_rgb_value("1 "), None);
}

#[test]
fn whole_numbers_are_written() {
    for n in [0usize, 7, 10, 99, 100, 1234567890, usize::MAX] {
        let mut out = vec!['#'];
        push_decimal(n, &mut out);
        assert_eq!(out.into_iter().collect::<String>(), format!("#{n}"));
    }
}

#[test]
fn lengths_round_trip() {
    assert_eq!(parse_px("10px"), Some(Px(dec(10, 0))));
    assert_eq!(parse_px("10.5px"), Some(Px(dec(105, 1))));
    assert_eq!(parse_px("10 px"), Some(Px(dec(10, 0))));
    assert_eq!(parse_px("10"), None);
    assert_eq!(parse_px("px"), None);
    assert_eq!(parse_px("10%"), None);
    assert_eq!(parse_pct("50%"), Some(Pct(dec(50, 0))));
    assert_eq!(parse_pct("50px"), None);
    assert_eq!(parse_px_pct("20px"), Some(PxPct::Px(dec(20, 0))));
    assert_eq!(parse_px_pct("12.5%"), Some(PxPct::Pct(dec(125, 1))));
    assert_eq!(parse_px_pct("auto"), None);
    assert_eq!(parse_pxpctauto("auto"), Some(PxPctAuto::Auto));
    assert_eq!(parse_pxpctauto("20px"), Some(PxPctAuto::Px(dec(20, 0))));
    assert_eq!(parse_pxpctauto("-3%"), Some(PxPctAuto::Pct(Decimal { negative: true, mantissa: 3, scale: 0 })));
    assert_eq!(parse_pxpctauto("Auto"), None);
    assert_eq!(parse_pxpctauto(" auto"), None);
    for n in ["0", "1", "2.5", "100", "0.001", "-7.25"] {
        let number = parse_number(n).unwrap();
        assert_eq!(parse_pxpctauto(&format!("{n}px")), Some(PxPctAuto::Px(number)));
        assert_eq!(parse_pxpctauto(&format!("{n}%")), Some(PxPctAuto::Pct(number)));
    }
}

#[test]
fn gaps() {
    assert_eq!(parse_gap("8px 4px"), Some((px(8), Some(px(4)))));
    assert_eq!(parse_gap("8px 10%"), Some((px(8), Some(PxPct::Pct(dec(10, 0))))));
    assert_eq!(parse_gap("8px wide"), Some((px(8), None)));
    assert_eq!(parse_gap("8px"), Some((px(8), None)));
    assert_eq!(parse_gap(" 50% "), Some((PxPct::Pct(dec(50, 0)), None)));
    assert_eq!(parse_gap("var(--missing)"), None);
    assert_eq!(parse_gap("wide 8px"), None);
    assert_eq!(parse_gap(""), None);
    assert_eq!(parse_gap("  8px   4px  2px "), Some((px(8), Some(px(4)))));
}

#[test]
fn alpha_rounds_down() {
    assert_eq!(parse_rgb_alpha("0.65"), Some(165));
    assert_eq!(parse_rgb_alpha("0.5"), Some(127));
    assert_eq!(parse_rgb_alpha("1"), Some(255));
    assert_eq!(parse_rgb_alpha("0.999"), Some(254));
    assert_eq!(parse_rgb_alpha("-0.5"), Some(0));
    assert_eq!(parse_rgb_alpha("200"), Some(255));
    assert_eq!(parse_rgb_alpha("x"), None);
}

#[test]
fn colours() {
    assert_eq!(parse_color("rgba(21, 22, 23, 0.65)"), Some(Color { r: 21, g: 22, b: 23, a: 165 }));
    assert_eq!(parse_color("rgb(21, 22, 23)"), Some(Color { r: 21, g: 22, b: 23, a: 255 }));
    assert_eq!(parse_color("rgb(21, 22, 280)"), None);
    assert_eq!(parse_color("rgb(21, 22)"), None);
    assert_eq!(parse_color("rgb(21, 22, 23"), None);
    assert_eq!(parse_color("rgba(1,2,3)"), None);
    assert_eq!(parse_color("hsl(1, 2, 3)"), None);
    assert_eq!(parse_color("hwb(1 2 3)"), None);
    assert_eq!(parse_color("red"), Some(RED));
    assert_eq!(parse_color("black"), Some(BLACK));
    assert_eq!(parse_color("green"), Some(GREEN));
    assert_eq!(parse_color("#ff0000"), Some(RED));
    assert_eq!(parse_color("#f00"), Some(RED));
    assert_eq!(parse_color("#00800080"), Some(Color { r: 0, g: 128, b: 0, a: 128 }));
    assert_eq!(parse_color("#ggg"), None);
    assert_eq!(parse_color("notacolour"), None);
    assert_eq!(parse_color("var(--missing)"), None);
    assert_eq!(parse_color(""), None);
}

#[test]
fn shadow_layouts() {
    let plain = BoxShadow::default();
    assert_eq!(plain, BoxShadow { blur_radius: px(0), color: BLACK, spread: px(0), h_offset: px(0), v_offset: px(0) });
    assert_eq!(parse_box_shadow("none"), Some(plain));
    assert_eq!(parse_box_shadow("4px 8px"), Some(BoxShadow { h_offset: px(4), v_offset: px(8), ..plain }));
    assert_eq!(parse_box_shadow_2(["4px", "8px"]), Some(BoxShadow { h_offset: px(4), v_offset: px(8), ..plain }));
    assert_eq!(parse_box_shadow_2(["4px", "red"]), None);
    assert_eq!(parse_box_shadow_3(["4px", "8px", "red"]), Some(BoxShadow { h_offset: px(4), v_offset: px(8), color: RED, ..plain }));
    assert_eq!(parse_box_shadow_3(["red", "4px", "8px"]), Some(BoxShadow { h_offset: px(4), v_offset: px(8), color: RED, ..plain }));
    assert_eq!(parse_box_shadow_3(["4px", "8px", "2px"]), Some(BoxShadow { h_offset: px(4), v_offset: px(8), blur_radius: px(2), ..plain }));
    assert_eq!(parse_box_shadow_3(["4px", "red", "2px"]), None);
    assert_eq!(parse_box_shadow_4(["4px", "8px", "2px", "red"]), Some(BoxShadow { h_offset: px(4), v_offset: px(8), blur_radius: px(2), color: RED, ..plain }));
    assert_eq!(parse_box_shadow_4(["red", "4px", "8px", "2px"]), Some(BoxShadow { h_offset: px(4), v_offset: px(8), blur_radius: px(2), color: RED, ..plain }));
    assert_eq!(parse_box_shadow_4(["4px", "8px", "2px", "1px"]), Some(BoxShadow { h_offset: px(4), v_offset: px(8), blur_radius: px(2), spread: px(1), ..plain }));
    assert_eq!(parse_box_shadow_5(["4px", "8px", "2px", "1px", "3px"]), None);
    assert_eq!(parse_box_shadow("4px"), None);
    assert_eq!(parse_box_shadow(""), None);
    assert_eq!(parse_box_shadow("1px 2px 3px 4px 5px 6px"), None);
}

#[test]
fn shadow_colour_first_or_last() {
    let last = parse_box_shadow("4px 8px 10px 15px black").unwrap();
    let first = parse_box_shadow("black 4px 8px 10px 15px").unwrap();
    assert_eq!(last, BoxShadow { h_offset: px(4), v_offset: px(8), blur_radius: px(10), spread: px(15), color: BLACK });
    assert_eq!(first, last);
}

#[test]
fn shadow_parts_keep_a_colour_whole() {
    assert_eq!(to_texts(&split_shadow("4px 8px rgb(1, 2, 3)")), vec!["4px", "8px", "rgb(1, 2, 3)"]);
    assert_eq!(to_texts(&split_shadow("4px  8px")), vec!["4px", "", "8px"]);
    assert_eq!(to_texts(&split_shadow("black 4px 8px")), vec!["black", "4px", "8px"]);
    assert_eq!(to_texts(&split_shadow("")), vec![""]);
    assert_eq!(
        parse_box_shadow("4px 8px rgb(1, 2, 3)"),
        Some(BoxShadow { h_offset: px(4), v_offset: px(8), color: Color { r: 1, g: 2, b: 3, a: 255 }, ..BoxShadow::default() })
    );
}

#[test]
fn shadow_first_layout_that_fits_wins() {
    let both = Reading { length: Some(px(1)), color: Some(RED) };
    let length = Reading { length: Some(px(2)), color: None };
    let plain = BoxShadow::default();
    // Offsets and a colour are tried before a colour and offsets.
    assert_eq!(
        shadow_from_readings(&[both, length, both]),
        Some(BoxShadow { h_offset: px(1), v_offset: px(2), color: RED, ..plain })
    );
    // A colour and offsets are tried before offsets and blur.
    assert_eq!(
        shadow_from_readings(&[both, length, length]),
        Some(BoxShadow { h_offset: px(2), v_offset: px(2), color: RED, ..plain })
    );
    assert_eq!(shadow_from_readings(&[length]), None);
    assert_eq!(shadow_from_readings(&[]), None);
}

#[test]
fn borders() {
    assert_eq!(parse_border(""), None);
    assert_eq!(parse_border("thick"), None);
    assert_eq!(parse_border("10px thick"), None);
    assert_eq!(parse_border("red 2px"), Some(BorderDef { width: Some(Px(dec(2, 0))), color: Some(RED) }));
    assert_eq!(parse_border("1px 2px"), Some(BorderDef { width: Some(Px(dec(2, 0))), color: None }));
    assert_eq!(parse_border("1px red ignored"), Some(BorderDef { width: Some(Px(dec(1, 0))), color: Some(RED) }));
    assert_eq!(parse_border("10%"), None);
}

#[test]
fn durations() {
    assert_eq!(parse_millis("1s"), Some(1000));
    assert_eq!(parse_millis("0.1s"), Some(100));
    assert_eq!(parse_millis("150ms"), Some(150));
    assert_eq!(parse_millis("1.5s"), Some(1500));
    assert_eq!(parse_millis("0.0001s"), None);
    assert_eq!(parse_millis("0.0009s"), None);
    assert_eq!(parse_millis("0.001s"), Some(1));
    assert_eq!(parse_millis("0.0019s"), Some(1));
    assert_eq!(parse_duration("0.0001s"), None);
    assert_eq!(parse_duration("0ms"), None);
    assert_eq!(parse_duration("-1s"), None);
    assert_eq!(parse_millis("0s"), None);
    assert_eq!(parse_millis("0ms"), None);
    assert_eq!(parse_millis("-1s"), None);
    assert_eq!(parse_millis("-1ms"), None);
    assert_eq!(parse_millis("1.5ms"), None);
    assert_eq!(parse_millis("1"), None);
    assert_eq!(parse_millis("s"), None);
    assert_eq!(parse_millis("ms"), None);
    assert_eq!(parse_millis(""), None);
    assert_eq!(parse_millis("18446744073709551615s"), Some(u64::MAX));
    assert_eq!(parse_duration("2s"), Some(Duration::from_millis(2000)));
    assert_eq!(parse_duration("0s"), None);
}

#[test]
fn transitions() {
    assert_eq!(parse_transition("width 0.5s"), Some(("width".to_string(), Transition { millis: 500 })));
    assert_eq!(parse_transition("nothing 20ms more"), Some(("nothing".to_string(), Transition { millis: 20 })));
    assert_eq!(parse_transition("width"), None);
    assert_eq!(parse_transition("width fast"), None);
    assert_eq!(parse_transition(""), None);
}

#[test]
fn keywords() {
    assert_eq!(parse_display("block"), Some(Display::Block));
    assert_eq!(parse_display("flex"), Some(Display::Flex));
    assert_eq!(parse_display("grid"), Some(Display::Grid));
    assert_eq!(parse_display("none"), Some(Display::Hidden));
    assert_eq!(parse_display("Block"), None);
    assert_eq!(parse_position("absolute"), Some(Position::Absolute));
    assert_eq!(parse_position("relative"), Some(Position::Relative));
    assert_eq!(parse_position("fixed"), None);
    assert_eq!(parse_flex_direction("row"), Some(FlexDirection::Row));
    assert_eq!(parse_flex_direction("column-reverse"), Some(FlexDirection::ColumnReverse));
    assert_eq!(parse_flex_wrap("no-wrap"), Some(FlexWrap::NoWrap));
    assert_eq!(parse_flex_wrap("nowrap"), None);
    assert_eq!(parse_justify_content("space-between"), Some(JustifyContent::SpaceBetween));
    assert_eq!(parse_justify_content("baseline"), None);
    assert_eq!(parse_align_items("baseline"), Some(AlignItems::Baseline));
    assert_eq!(parse_align_items("space-between"), None);
    assert_eq!(parse_align_content("space-around"), Some(AlignContent::SpaceAround));
    assert_eq!(parse_cursor_style("pointer"), Some(CursorStyle::Pointer));
    assert_eq!(parse_cursor_style("nwse-resize"), Some(CursorStyle::NwseResize));
    assert_eq!(parse_cursor_style("grab"), None);
    assert_eq!(parse_font_weight("thin"), Some(Weight(100)));
    assert_eq!(parse_font_weight("normal"), Some(Weight(400)));
    assert_eq!(parse_font_weight("bold"), Some(Weight(700)));
    assert_eq!(parse_font_weight("900"), Some(Weight(900)));
    assert_eq!(parse_font_weight("950"), None);
    assert_eq!(parse_font_style("italic"), Some(FontStyle::Italic));
    assert_eq!(parse_font_style("slanted"), None);
    assert_eq!(parse_text_overflow("ellipsis"), Some(TextOverflow::Ellipsis));
    assert_eq!(parse_text_overflow("wrap"), Some(TextOverflow::Wrap));
    assert_eq!(parse_text_overflow("hide"), None);
    assert_eq!(parse_user_select("none"), Some(false));
    assert_eq!(parse_user_select("auto"), Some(true));
    assert_eq!(parse_user_select("all"), None);
    assert_eq!(to_owned("Fira Sans"), Some("Fira Sans".to_string()));
}
