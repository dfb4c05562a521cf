//! The values that are written as keywords, one enumeration for each
//! property that takes them.

use vstd::prelude::*;
use crate::text::{chars_of, is_word};

verus! {

/// How an element lays out its children.
#[derive(Clone, Copy, Debug, PartialEq, Eq, Structural)]
pub enum Display {
    Block,
    Flex,
    Grid,
    Hidden,
}

/// The value of `display` that the keyword `s` names. Keywords are matched
/// letter for letter.
pub open spec fn display_of(s: Seq<char>) -> Option<Display> {
    if s == "block"@ {
        Some(Display::Block)
    } else if s == "flex"@ {
        Some(Display::Flex)
    } else if s == "grid"@ {
        Some(Display::Grid)
    } else if s == "none"@ {
        Some(Display::Hidden)
    } else {
        None
    }
}

/// Reads a value of `display`.
pub fn parse_display(s: &str) -> (r: Option<Display>)
    ensures
        r == display_of(s@),
{
    let chars = chars_of(s);
    let c = chars.as_slice();
    if is_word(c, "block") {
        Some(Display::Block)
    } else if is_word(c, "flex") {
        Some(Display::Flex)
    } else if is_word(c, "grid") {
        Some(Display::Grid)
    } else if is_word(c, "none") {
        Some(Display::Hidden)
    } else {
        None
    }
}

/// How an element is placed.
#[derive(Clone, Copy, Debug, PartialEq, Eq, Structural)]
pub enum Position {
    Absolute,
    Relative,
}

/// The value of `position` that the keyword `s` names. Keywords are matched
/// letter for letter.
pub open spec fn position_of(s: Seq<char>) -> Option<Position> {
    if s == "absolute"@ {
        Some(Position::Absolute)
    } else if s == "relative"@ {
        Some(Position::Relative)
    } else {
        None
    }
}

/// Reads a value of `position`.
pub fn parse_position(s: &str) -> (r: Option<Position>)
    ensures
        r == position_of(s@),
{
    let chars = chars_of(s);
    let c = chars.as_slice();
    if is_word(c, "absolute") {
        Some(Position::Absolute)
    } else if is_word(c, "relative") {
        Some(Position::Relative)
    } else {
        None
    }
}

/// The main axis of a flex container.
#[derive(Clone, Copy, Debug, PartialEq, Eq, Structural)]
pub enum FlexDirection {
    Row,
    Column,
    RowReverse,
    ColumnReverse,
}

/// The value of `flex-direction` that the keyword `s` names. Keywords are matched
/// letter for letter.
pub open spec fn flex_direction_of(s: Seq<char>) -> Option<FlexDirection> {
    if s == "row"@ {
        Some(FlexDirection::Row)
    } else if s == "column"@ {
        Some(FlexDirection::Column)
    } else if s == "row-reverse"@ {
        Some(FlexDirection::RowReverse)
    } else if s == "column-reverse"@ {
        Some(FlexDirection::ColumnReverse)
    } else {
        None
    }
}

/// Reads a value of `flex-direction`.
pub fn parse_flex_direction(s: &str) -> (r: Option<FlexDirection>)
    ensures
        r == flex_direction_of(s@),
{
    let chars = chars_of(s);
    let c = chars.as_slice();
    if is_word(c, "row") {
        Some(FlexDirection::Row)
    } else if is_word(c, "column") {
        Some(FlexDirection::Column)
    } else if is_word(c, "row-reverse") {
        Some(FlexDirection::RowReverse)
    } else if is_word(c, "column-reverse") {
        Some(FlexDirection::ColumnReverse)
    } else {
        None
    }
}

/// Whether the items of a flex container wrap.
#[derive(Clone, Copy, Debug, PartialEq, Eq, Structural)]
pub enum FlexWrap {
    Wrap,
    NoWrap,
    WrapReverse,
}

/// The value of `flex-wrap` that the keyword `s` names. Keywords are matched
/// letter for letter.
pub open spec fn flex_wrap_of(s: Seq<char>) -> Option<FlexWrap> {
    if s == "wrap"@ {
        Some(FlexWrap::Wrap)
    } else if s == "no-wrap"@ {
        Some(FlexWrap::NoWrap)
    } else if s == "wrap-reverse"@ {
        Some(FlexWrap::WrapReverse)
    } else {
        None
    }
}

/// Reads a value of `flex-wrap`.
pub fn parse_flex_wrap(s: &str) -> (r: Option<FlexWrap>)
    ensures
        r == flex_wrap_of(s@),
{
    let chars = chars_of(s);
    let c = chars.as_slice();
    if is_word(c, "wrap") {
        Some(FlexWrap::Wrap)
    } else if is_word(c, "no-wrap") {
        Some(FlexWrap::NoWrap)
    } else if is_word(c, "wrap-reverse") {
        Some(FlexWrap::WrapReverse)
    } else {
        None
    }
}

/// How content is spread along the main axis.
#[derive(Clone, Copy, Debug, PartialEq, Eq, Structural)]
pub enum JustifyContent {
    Start,
    End,
    FlexStart,
    FlexEnd,
    Center,
    Stretch,
    SpaceBetween,
    SpaceEvenly,
    SpaceAround,
}

/// The value of `justify-content` that the keyword `s` names. Keywords are matched
/// letter for letter.
pub open spec fn justify_content_of(s: Seq<char>) -> Option<JustifyContent> {
    if s == "start"@ {
        Some(JustifyContent::Start)
    } else if s == "end"@ {
        Some(JustifyContent::End)
    } else if s == "flex-start"@ {
        Some(JustifyContent::FlexStart)
    } else if s == "flex-end"@ {
        Some(JustifyContent::FlexEnd)
    } else if s == "center"@ {
        Some(JustifyContent::Center)
    } else if s == "stretch"@ {
        Some(JustifyContent::Stretch)
    } else if s == "space-between"@ {
        Some(JustifyContent::SpaceBetween)
    } else if s == "space-evenly"@ {
        Some(JustifyContent::SpaceEvenly)
    } else if s == "space-around"@ {
        Some(JustifyContent::SpaceAround)
    } else {
        None
    }
}

/// Reads a value of `justify-content`.
pub fn parse_justify_content(s: &str) -> (r: Option<JustifyContent>)
    ensures
        r == justify_content_of(s@),
{
    let chars = chars_of(s);
    let c = chars.as_slice();
    if is_word(c, "start") {
        Some(JustifyContent::Start)
    } else if is_word(c, "end") {
        Some(JustifyContent::End)
    } else if is_word(c, "flex-start") {
        Some(JustifyContent::FlexStart)
    } else if is_word(c, "flex-end") {
        Some(JustifyContent::FlexEnd)
    } else if is_word(c, "center") {
        Some(JustifyContent::Center)
    } else if is_word(c, "stretch") {
        Some(JustifyContent::Stretch)
    } else if is_word(c, "space-between") {
        Some(JustifyContent::SpaceBetween)
    } else if is_word(c, "space-evenly") {
        Some(JustifyContent::SpaceEvenly)
    } else if is_word(c, "space-around") {
        Some(JustifyContent::SpaceAround)
    } else {
        None
    }
}

/// How items are placed along the cross axis.
#[derive(Clone, Copy, Debug, PartialEq, Eq, Structural)]
pub enum AlignItems {
    Center,
    Start,
    End,
    FlexStart,
    FlexEnd,
    Baseline,
    Stretch,
}

/// The value of `align-items` that the keyword `s` names. Keywords are matched
/// letter for letter.
pub open spec fn align_items_of(s: Seq<char>) -> Option<AlignItems> {
    if s == "center"@ {
        Some(AlignItems::Center)
    } else if s == "start"@ {
        Some(AlignItems::Start)
    } else if s == "end"@ {
        Some(AlignItems::End)
    } else if s == "flex-start"@ {
        Some(AlignItems::FlexStart)
    } else if s == "flex-end"@ {
        Some(AlignItems::FlexEnd)
    } else if s == "baseline"@ {
        Some(AlignItems::Baseline)
    } else if s == "stretch"@ {
        Some(AlignItems::Stretch)
    } else {
        None
    }
}

/// Reads a value of `align-items`.
pub fn parse_align_items(s: &str) -> (r: Option<AlignItems>)
    ensures
        r == align_items_of(s@),
{
    let chars = chars_of(s);
    let c = chars.as_slice();
    if is_word(c, "center") {
        Some(AlignItems::Center)
    } else if is_word(c, "start") {
        Some(AlignItems::Start)
    } else if is_word(c, "end") {
        Some(AlignItems::End)
    } else if is_word(c, "flex-start") {
        Some(AlignItems::FlexStart)
    } else if is_word(c, "flex-end") {
        Some(AlignItems::FlexEnd)
    } else if is_word(c, "baseline") {
        Some(AlignItems::Baseline)
    } else if is_word(c, "stretch") {
        Some(AlignItems::Stretch)
    } else {
        None
    }
}

/// How lines are spread along the cross axis.
#[derive(Clone, Copy, Debug, PartialEq, Eq, Structural)]
pub enum AlignContent {
    Center,
    Start,
    End,
    FlexStart,
    FlexEnd,
    Stretch,
    SpaceBetween,
    SpaceEvenly,
    SpaceAround,
}

/// The value of `align-content` that the keyword `s` names. Keywords are matched
/// letter for letter.
pub open spec fn align_content_of(s: Seq<char>) -> Option<AlignContent> {
    if s == "center"@ {
        Some(AlignContent::Center)
    } else if s == "start"@ {
        Some(AlignContent::Start)
    } else if s == "end"@ {
        Some(AlignContent::End)
    } else if s == "flex-start"@ {
        Some(AlignContent::FlexStart)
    } else if s == "flex-end"@ {
        Some(AlignContent::FlexEnd)
    } else if s == "stretch"@ {
        Some(AlignContent::Stretch)
    } else if s == "space-between"@ {
        Some(AlignContent::SpaceBetween)
    } else if s == "space-evenly"@ {
        Some(AlignContent::SpaceEvenly)
    } else if s == "space-around"@ {
        Some(AlignContent::SpaceAround)
    } else {
        None
    }
}

/// Reads a value of `align-content`.
pub fn parse_align_content(s: &str) -> (r: Option<AlignContent>)
    ensures
        r == align_content_of(s@),
{
    let chars = chars_of(s);
    let c = chars.as_slice();
    if is_word(c, "center") {
        Some(AlignContent::Center)
    } else if is_word(c, "start") {
        Some(AlignContent::Start)
    } else if is_word(c, "end") {
        Some(AlignContent::End)
    } else if is_word(c, "flex-start") {
        Some(AlignContent::FlexStart)
    } else if is_word(c, "flex-end") {
        Some(AlignContent::FlexEnd)
    } else if is_word(c, "stretch") {
        Some(AlignContent::Stretch)
    } else if is_word(c, "space-between") {
        Some(AlignContent::SpaceBetween)
    } else if is_word(c, "space-evenly") {
        Some(AlignContent::SpaceEvenly)
    } else if is_word(c, "space-around") {
        Some(AlignContent::SpaceAround)
    } else {
        None
    }
}

/// The shape of the pointer over an element.
#[derive(Clone, Copy, Debug, PartialEq, Eq, Structural)]
pub enum CursorStyle {
    Default,
    Pointer,
    Text,
    ColResize,
    RowResize,
    WResize,
    EResize,
    SResize,
    NResize,
    NwResize,
    NeResize,
    SwResize,
    SeResize,
    NeswResize,
    NwseResize,
}

/// The value of `cursor` that the keyword `s` names. Keywords are matched
/// letter for letter.
pub open spec fn cursor_style_of(s: Seq<char>) -> Option<CursorStyle> {
    if s == "default"@ {
        Some(CursorStyle::Default)
    } else if s == "pointer"@ {
        Some(CursorStyle::Pointer)
    } else if s == "text"@ {
        Some(CursorStyle::Text)
    } else if s == "col-resize"@ {
        Some(CursorStyle::ColResize)
    } else if s == "row-resize"@ {
        Some(CursorStyle::RowResize)
    } else if s == "w-resize"@ {
        Some(CursorStyle::WResize)
    } else if s == "e-resize"@ {
        Some(CursorStyle::EResize)
    } else if s == "s-resize"@ {
        Some(CursorStyle::SResize)
    } else if s == "n-resize"@ {
        Some(CursorStyle::NResize)
    } else if s == "nw-resize"@ {
        Some(CursorStyle::NwResize)
    } else if s == "ne-resize"@ {
        Some(CursorStyle::NeResize)
    } else if s == "sw-resize"@ {
        Some(CursorStyle::SwResize)
    } else if s == "se-resize"@ {
        Some(CursorStyle::SeResize)
    } else if s == "nesw-resize"@ {
        Some(CursorStyle::NeswResize)
    } else if s == "nwse-resize"@ {
        Some(CursorStyle::NwseResize)
    } else {
        None
    }
}

/// Reads a value of `cursor`.
pub fn parse_cursor_style(s: &str) -> (r: Option<CursorStyle>)
    ensures
        r == cursor_style_of(s@),
{
    let chars = chars_of(s);
    let c = chars.as_slice();
    if is_word(c, "default") {
        Some(CursorStyle::Default)
    } else if is_word(c, "pointer") {
        Some(CursorStyle::Pointer)
    } else if is_word(c, "text") {
        Some(CursorStyle::Text)
    } else if is_word(c, "col-resize") {
        Some(CursorStyle::ColResize)
    } else if is_word(c, "row-resize") {
        Some(CursorStyle::RowResize)
    } else if is_word(c, "w-resize") {
        Some(CursorStyle::WResize)
    } else if is_word(c, "e-resize") {
        Some(CursorStyle::EResize)
    } else if is_word(c, "s-resize") {
        Some(CursorStyle::SResize)
    } else if is_word(c, "n-resize") {
        Some(CursorStyle::NResize)
    } else if is_word(c, "nw-resize") {
        Some(CursorStyle::NwResize)
    } else if is_word(c, "ne-resize") {
        Some(CursorStyle::NeResize)
    } else if is_word(c, "sw-resize") {
        Some(CursorStyle::SwResize)
    } else if is_word(c, "se-resize") {
        Some(CursorStyle::SeResize)
    } else if is_word(c, "nesw-resize") {
        Some(CursorStyle::NeswResize)
    } else if is_word(c, "nwse-resize") {
        Some(CursorStyle::NwseResize)
    } else {
        None
    }
}

/// The slant of a font.
#[derive(Clone, Copy, Debug, PartialEq, Eq, Structural)]
pub enum FontStyle {
    Normal,
    Italic,
    Oblique,
}

/// The value of `font-style` that the keyword `s` names. Keywords are matched
/// letter for letter.
pub open spec fn font_style_of(s: Seq<char>) -> Option<FontStyle> {
    if s == "normal"@ {
        Some(FontStyle::Normal)
    } else if s == "italic"@ {
        Some(FontStyle::Italic)
    } else if s == "oblique"@ {
        Some(FontStyle::Oblique)
    } else {
        None
    }
}

/// Reads a value of `font-style`.
pub fn parse_font_style(s: &str) -> (r: Option<FontStyle>)
    ensures
        r == font_style_of(s@),
{
    let chars = chars_of(s);
    let c = chars.as_slice();
    if is_word(c, "normal") {
        Some(FontStyle::Normal)
    } else if is_word(c, "italic") {
        Some(FontStyle::Italic)
    } else if is_word(c, "oblique") {
        Some(FontStyle::Oblique)
    } else {
        None
    }
}

/// What happens to text that does not fit.
#[derive(Clone, Copy, Debug, PartialEq, Eq, Structural)]
pub enum TextOverflow {
    Clip,
    Ellipsis,
    Wrap,
}

/// The value of `text-wrap` that the keyword `s` names. Keywords are matched
/// letter for letter.
pub open spec fn text_overflow_of(s: Seq<char>) -> Option<TextOverflow> {
    if s == "clip"@ {
        Some(TextOverflow::Clip)
    } else if s == "ellipsis"@ {
        Some(TextOverflow::Ellipsis)
    } else if s == "wrap"@ {
        Some(TextOverflow::Wrap)
    } else {
        None
    }
}

/// Reads a value of `text-wrap`.
pub fn parse_text_overflow(s: &str) -> (r: Option<TextOverflow>)
    ensures
        r == text_overflow_of(s@),
{
    let chars = chars_of(s);
    let c = chars.as_slice();
    if is_word(c, "clip") {
        Some(TextOverflow::Clip)
    } else if is_word(c, "ellipsis") {
        Some(TextOverflow::Ellipsis)
    } else if is_word(c, "wrap") {
        Some(TextOverflow::Wrap)
    } else {
        None
    }
}
/// The weight of a font, from 100 (thin) to 900.
#[derive(Clone, Copy, Debug, PartialEq, Eq, Structural)]
pub struct Weight(pub u16);

/// The weight that `s` names: a multiple of one hundred from `100` to `900`,
/// or `thin` (100), `normal` (400) or `bold` (700).
pub open spec fn font_weight_of(s: Seq<char>) -> Option<Weight> {
    if s == "100"@ || s == "thin"@ {
        Some(Weight(100))
    } else if s == "200"@ {
        Some(Weight(200))
    } else if s == "300"@ {
        Some(Weight(300))
    } else if s == "400"@ || s == "normal"@ {
        Some(Weight(400))
    } else if s == "500"@ {
        Some(Weight(500))
    } else if s == "600"@ {
        Some(Weight(600))
    } else if s == "700"@ || s == "bold"@ {
        Some(Weight(700))
    } else if s == "800"@ {
        Some(Weight(800))
    } else if s == "900"@ {
        Some(Weight(900))
    } else {
        None
    }
}

/// Reads a value of `font-weight`.
pub fn parse_font_weight(s: &str) -> (r: Option<Weight>)
    ensures
        r == font_weight_of(s@),
{
    let chars = chars_of(s);
    let c = chars.as_slice();
    if is_word(c, "100") || is_word(c, "thin") {
        Some(Weight(100))
    } else if is_word(c, "200") {
        Some(Weight(200))
    } else if is_word(c, "300") {
        Some(Weight(300))
    } else if is_word(c, "400") || is_word(c, "normal") {
        Some(Weight(400))
    } else if is_word(c, "500") {
        Some(Weight(500))
    } else if is_word(c, "600") {
        Some(Weight(600))
    } else if is_word(c, "700") || is_word(c, "bold") {
        Some(Weight(700))
    } else if is_word(c, "800") {
        Some(Weight(800))
    } else if is_word(c, "900") {
        Some(Weight(900))
    } else {
        None
    }
}

/// Whether text can be selected: `none` says no, `auto` says yes.
pub open spec fn user_select_of(s: Seq<char>) -> Option<bool> {
    if s == "none"@ {
        Some(false)
    } else if s == "auto"@ {
        Some(true)
    } else {
        None
    }
}

/// Reads a value of `user-select`.
pub fn parse_user_select(s: &str) -> (r: Option<bool>)
    ensures
        r == user_select_of(s@),
{
    let chars = chars_of(s);
    let c = chars.as_slice();
    if is_word(c, "none") {
        Some(false)
    } else if is_word(c, "auto") {
        Some(true)
    } else {
        None
    }
}

/// A copy of the text, for values that are taken as they are written.
pub fn to_owned(s: &str) -> (r: Option<String>)
    ensures
        r matches Some(text) && text@ == s@,
{
    Some(s.to_owned())
}

} // verus!
