//! The declaration compiler: a property name and a raw value become a typed
//! declaration, or are turned down.

use vstd::prelude::*;
use crate::color::{color_of, parse_color, Color};
use crate::keywords::{
    align_content_of, align_items_of, cursor_style_of, display_of, flex_direction_of,
    flex_wrap_of, font_style_of, font_weight_of, justify_content_of, parse_align_content,
    parse_align_items, parse_cursor_style, parse_display, parse_flex_direction, parse_flex_wrap,
    parse_font_style, parse_font_weight, parse_justify_content, parse_position,
    parse_text_overflow, parse_user_select, position_of, text_overflow_of, to_owned,
    user_select_of,
    AlignContent, AlignItems, CursorStyle, Display, FlexDirection, FlexWrap, FontStyle,
    JustifyContent, Position, TextOverflow, Weight,
};
use crate::length::{
    gap_of, parse_gap, parse_px, parse_px_pct, parse_pxpctauto, px_of, px_pct_auto_of, px_pct_of,
    Px, PxPct, PxPctAuto,
};
use crate::number::{i32_of, number_of, parse_i32, parse_number, Decimal};
use crate::shadow::{border_of, box_shadow_of, parse_border, parse_box_shadow, BorderDef, BoxShadow};
use crate::text::{chars_of, is_word, push_text, string_of};
use crate::transition::{parse_transition, transition_of, Transition};

verus! {

/// The properties that a declaration can set.
#[derive(Clone, Copy, Debug, PartialEq, Eq, Structural)]
pub enum Property {
    Display,
    Position,
    Width,
    Height,
    MinWidth,
    MinHeight,
    MaxWidth,
    MaxHeight,
    FlexDirection,
    FlexWrap,
    FlexGrow,
    FlexShrink,
    FlexBasis,
    JustifyContent,
    JustifySelf,
    AlignItems,
    AlignContent,
    AlignSelf,
    Border,
    BorderWidth,
    BorderLeft,
    BorderTop,
    BorderRight,
    BorderBottom,
    BorderRadius,
    OutlineColor,
    Outline,
    BorderColor,
    Padding,
    PaddingLeft,
    PaddingTop,
    PaddingRight,
    PaddingBottom,
    Margin,
    MarginLeft,
    MarginTop,
    MarginRight,
    MarginBottom,
    InsetLeft,
    InsetTop,
    InsetRight,
    InsetBottom,
    ZIndex,
    Cursor,
    Color,
    BackgroundColor,
    BoxShadow,
    FontSize,
    FontFamily,
    FontWeight,
    FontStyle,
    CursorColor,
    TextOverflow,
    LineHeight,
    AspectRatio,
    ColGap,
    RowGap,
    Gap,
    Transition,
    UserSelect,
}

/// The property that is written `name`. Names are matched letter for letter.
pub open spec fn property_of(name: Seq<char>) -> Option<Property> {
    if name == "display"@ {
        Some(Property::Display)
    } else if name == "position"@ {
        Some(Property::Position)
    } else if name == "width"@ {
        Some(Property::Width)
    } else if name == "height"@ {
        Some(Property::Height)
    } else if name == "min-width"@ {
        Some(Property::MinWidth)
    } else if name == "min-height"@ {
        Some(Property::MinHeight)
    } else if name == "max-width"@ {
        Some(Property::MaxWidth)
    } else if name == "max-height"@ {
        Some(Property::MaxHeight)
    } else if name == "flex-direction"@ {
        Some(Property::FlexDirection)
    } else if name == "flex-wrap"@ {
        Some(Property::FlexWrap)
    } else if name == "flex-grow"@ {
        Some(Property::FlexGrow)
    } else if name == "flex-shrink"@ {
        Some(Property::FlexShrink)
    } else if name == "flex-basis"@ {
        Some(Property::FlexBasis)
    } else if name == "justify-content"@ {
        Some(Property::JustifyContent)
    } else if name == "justify-self"@ {
        Some(Property::JustifySelf)
    } else if name == "align-items"@ {
        Some(Property::AlignItems)
    } else if name == "align-content"@ {
        Some(Property::AlignContent)
    } else if name == "align-self"@ {
        Some(Property::AlignSelf)
    } else if name == "border"@ {
        Some(Property::Border)
    } else if name == "border-width"@ {
        Some(Property::BorderWidth)
    } else if name == "border-left"@ {
        Some(Property::BorderLeft)
    } else if name == "border-top"@ {
        Some(Property::BorderTop)
    } else if name == "border-right"@ {
        Some(Property::BorderRight)
    } else if name == "border-bottom"@ {
        Some(Property::BorderBottom)
    } else if name == "border-radius"@ {
        Some(Property::BorderRadius)
    } else if name == "outline-color"@ {
        Some(Property::OutlineColor)
    } else if name == "outline"@ {
        Some(Property::Outline)
    } else if name == "border-color"@ {
        Some(Property::BorderColor)
    } else if name == "padding"@ {
        Some(Property::Padding)
    } else if name == "padding-left"@ {
        Some(Property::PaddingLeft)
    } else if name == "padding-top"@ {
        Some(Property::PaddingTop)
    } else if name == "padding-right"@ {
        Some(Property::PaddingRight)
    } else if name == "padding-bottom"@ {
        Some(Property::PaddingBottom)
    } else if name == "margin"@ {
        Some(Property::Margin)
    } else if name == "margin-left"@ {
        Some(Property::MarginLeft)
    } else if name == "margin-top"@ {
        Some(Property::MarginTop)
    } else if name == "margin-right"@ {
        Some(Property::MarginRight)
    } else if name == "margin-bottom"@ {
        Some(Property::MarginBottom)
    } else if name == "left"@ {
        Some(Property::InsetLeft)
    } else if name == "top"@ {
        Some(Property::InsetTop)
    } else if name == "right"@ {
        Some(Property::InsetRight)
    } else if name == "bottom"@ {
        Some(Property::InsetBottom)
    } else if name == "z-index"@ {
        Some(Property::ZIndex)
    } else if name == "cursor"@ {
        Some(Property::Cursor)
    } else if name == "color"@ {
        Some(Property::Color)
    } else if name == "background-color"@ {
        Some(Property::BackgroundColor)
    } else if name == "box-shadow"@ {
        Some(Property::BoxShadow)
    } else if name == "font-size"@ {
        Some(Property::FontSize)
    } else if name == "font-family"@ {
        Some(Property::FontFamily)
    } else if name == "font-weight"@ {
        Some(Property::FontWeight)
    } else if name == "font-style"@ {
        Some(Property::FontStyle)
    } else if name == "caret-color"@ {
        Some(Property::CursorColor)
    } else if name == "text-wrap"@ {
        Some(Property::TextOverflow)
    } else if name == "line-height"@ {
        Some(Property::LineHeight)
    } else if name == "aspect-ratio"@ {
        Some(Property::AspectRatio)
    } else if name == "column-gap"@ {
        Some(Property::ColGap)
    } else if name == "row-gap"@ {
        Some(Property::RowGap)
    } else if name == "gap"@ {
        Some(Property::Gap)
    } else if name == "transition"@ {
        Some(Property::Transition)
    } else if name == "user-select"@ {
        Some(Property::UserSelect)
    } else {
        None
    }
}

impl Property {
    /// How the property is written.
    pub open spec fn name_of(self) -> Seq<char> {
        match self {
            Property::Display => "display"@,
            Property::Position => "position"@,
            Property::Width => "width"@,
            Property::Height => "height"@,
            Property::MinWidth => "min-width"@,
            Property::MinHeight => "min-height"@,
            Property::MaxWidth => "max-width"@,
            Property::MaxHeight => "max-height"@,
            Property::FlexDirection => "flex-direction"@,
            Property::FlexWrap => "flex-wrap"@,
            Property::FlexGrow => "flex-grow"@,
            Property::FlexShrink => "flex-shrink"@,
            Property::FlexBasis => "flex-basis"@,
            Property::JustifyContent => "justify-content"@,
            Property::JustifySelf => "justify-self"@,
            Property::AlignItems => "align-items"@,
            Property::AlignContent => "align-content"@,
            Property::AlignSelf => "align-self"@,
            Property::Border => "border"@,
            Property::BorderWidth => "border-width"@,
            Property::BorderLeft => "border-left"@,
            Property::BorderTop => "border-top"@,
            Property::BorderRight => "border-right"@,
            Property::BorderBottom => "border-bottom"@,
            Property::BorderRadius => "border-radius"@,
            Property::OutlineColor => "outline-color"@,
            Property::Outline => "outline"@,
            Property::BorderColor => "border-color"@,
            Property::Padding => "padding"@,
            Property::PaddingLeft => "padding-left"@,
            Property::PaddingTop => "padding-top"@,
            Property::PaddingRight => "padding-right"@,
            Property::PaddingBottom => "padding-bottom"@,
            Property::Margin => "margin"@,
            Property::MarginLeft => "margin-left"@,
            Property::MarginTop => "margin-top"@,
            Property::MarginRight => "margin-right"@,
            Property::MarginBottom => "margin-bottom"@,
            Property::InsetLeft => "left"@,
            Property::InsetTop => "top"@,
            Property::InsetRight => "right"@,
            Property::InsetBottom => "bottom"@,
            Property::ZIndex => "z-index"@,
            Property::Cursor => "cursor"@,
            Property::Color => "color"@,
            Property::BackgroundColor => "background-color"@,
            Property::BoxShadow => "box-shadow"@,
            Property::FontSize => "font-size"@,
            Property::FontFamily => "font-family"@,
            Property::FontWeight => "font-weight"@,
            Property::FontStyle => "font-style"@,
            Property::CursorColor => "caret-color"@,
            Property::TextOverflow => "text-wrap"@,
            Property::LineHeight => "line-height"@,
            Property::AspectRatio => "aspect-ratio"@,
            Property::ColGap => "column-gap"@,
            Property::RowGap => "row-gap"@,
            Property::Gap => "gap"@,
            Property::Transition => "transition"@,
            Property::UserSelect => "user-select"@,
        }
    }

    /// The property that is written `name`.
    pub fn from_name(name: &str) -> (r: Option<Property>)
        ensures
            r == property_of(name@),
    {
        let chars = chars_of(name);
        let c = chars.as_slice();
        if is_word(c, "display") {
            Some(Property::Display)
        } else if is_word(c, "position") {
            Some(Property::Position)
        } else if is_word(c, "width") {
            Some(Property::Width)
        } else if is_word(c, "height") {
            Some(Property::Height)
        } else if is_word(c, "min-width") {
            Some(Property::MinWidth)
        } else if is_word(c, "min-height") {
            Some(Property::MinHeight)
        } else if is_word(c, "max-width") {
            Some(Property::MaxWidth)
        } else if is_word(c, "max-height") {
            Some(Property::MaxHeight)
        } else if is_word(c, "flex-direction") {
            Some(Property::FlexDirection)
        } else if is_word(c, "flex-wrap") {
            Some(Property::FlexWrap)
        } else if is_word(c, "flex-grow") {
            Some(Property::FlexGrow)
        } else if is_word(c, "flex-shrink") {
            Some(Property::FlexShrink)
        } else if is_word(c, "flex-basis") {
            Some(Property::FlexBasis)
        } else if is_word(c, "justify-content") {
            Some(Property::JustifyContent)
        } else if is_word(c, "justify-self") {
            Some(Property::JustifySelf)
        } else if is_word(c, "align-items") {
            Some(Property::AlignItems)
        } else if is_word(c, "align-content") {
            Some(Property::AlignContent)
        } else if is_word(c, "align-self") {
            Some(Property::AlignSelf)
        } else if is_word(c, "border") {
            Some(Property::Border)
        } else if is_word(c, "border-width") {
            Some(Property::BorderWidth)
        } else if is_word(c, "border-left") {
            Some(Property::BorderLeft)
        } else if is_word(c, "border-top") {
            Some(Property::BorderTop)
        } else if is_word(c, "border-right") {
            Some(Property::BorderRight)
        } else if is_word(c, "border-bottom") {
            Some(Property::BorderBottom)
        } else if is_word(c, "border-radius") {
            Some(Property::BorderRadius)
        } else if is_word(c, "outline-color") {
            Some(Property::OutlineColor)
        } else if is_word(c, "outline") {
            Some(Property::Outline)
        } else if is_word(c, "border-color") {
            Some(Property::BorderColor)
        } else if is_word(c, "padding") {
            Some(Property::Padding)
        } else if is_word(c, "padding-left") {
            Some(Property::PaddingLeft)
        } else if is_word(c, "padding-top") {
            Some(Property::PaddingTop)
        } else if is_word(c, "padding-right") {
            Some(Property::PaddingRight)
        } else if is_word(c, "padding-bottom") {
            Some(Property::PaddingBottom)
        } else if is_word(c, "margin") {
            Some(Property::Margin)
        } else if is_word(c, "margin-left") {
            Some(Property::MarginLeft)
        } else if is_word(c, "margin-top") {
            Some(Property::MarginTop)
        } else if is_word(c, "margin-right") {
            Some(Property::MarginRight)
        } else if is_word(c, "margin-bottom") {
            Some(Property::MarginBottom)
        } else if is_word(c, "left") {
            Some(Property::InsetLeft)
        } else if is_word(c, "top") {
            Some(Property::InsetTop)
        } else if is_word(c, "right") {
            Some(Property::InsetRight)
        } else if is_word(c, "bottom") {
            Some(Property::InsetBottom)
        } else if is_word(c, "z-index") {
            Some(Property::ZIndex)
        } else if is_word(c, "cursor") {
            Some(Property::Cursor)
        } else if is_word(c, "color") {
            Some(Property::Color)
        } else if is_word(c, "background-color") {
            Some(Property::BackgroundColor)
        } else if is_word(c, "box-shadow") {
            Some(Property::BoxShadow)
        } else if is_word(c, "font-size") {
            Some(Property::FontSize)
        } else if is_word(c, "font-family") {
            Some(Property::FontFamily)
        } else if is_word(c, "font-weight") {
            Some(Property::FontWeight)
        } else if is_word(c, "font-style") {
            Some(Property::FontStyle)
        } else if is_word(c, "caret-color") {
            Some(Property::CursorColor)
        } else if is_word(c, "text-wrap") {
            Some(Property::TextOverflow)
        } else if is_word(c, "line-height") {
            Some(Property::LineHeight)
        } else if is_word(c, "aspect-ratio") {
            Some(Property::AspectRatio)
        } else if is_word(c, "column-gap") {
            Some(Property::ColGap)
        } else if is_word(c, "row-gap") {
            Some(Property::RowGap)
        } else if is_word(c, "gap") {
            Some(Property::Gap)
        } else if is_word(c, "transition") {
            Some(Property::Transition)
        } else if is_word(c, "user-select") {
            Some(Property::UserSelect)
        } else {
            None
        }
    }

    /// How the property is written.
    pub fn name(&self) -> (r: &'static str)
        ensures
            r@ == self.name_of(),
    {
        match self {
            Property::Display => "display",
            Property::Position => "position",
            Property::Width => "width",
            Property::Height => "height",
            Property::MinWidth => "min-width",
            Property::MinHeight => "min-height",
            Property::MaxWidth => "max-width",
            Property::MaxHeight => "max-height",
            Property::FlexDirection => "flex-direction",
            Property::FlexWrap => "flex-wrap",
            Property::FlexGrow => "flex-grow",
            Property::FlexShrink => "flex-shrink",
            Property::FlexBasis => "flex-basis",
            Property::JustifyContent => "justify-content",
            Property::JustifySelf => "justify-self",
            Property::AlignItems => "align-items",
            Property::AlignContent => "align-content",
            Property::AlignSelf => "align-self",
            Property::Border => "border",
            Property::BorderWidth => "border-width",
            Property::BorderLeft => "border-left",
            Property::BorderTop => "border-top",
            Property::BorderRight => "border-right",
            Property::BorderBottom => "border-bottom",
            Property::BorderRadius => "border-radius",
            Property::OutlineColor => "outline-color",
            Property::Outline => "outline",
            Property::BorderColor => "border-color",
            Property::Padding => "padding",
            Property::PaddingLeft => "padding-left",
            Property::PaddingTop => "padding-top",
            Property::PaddingRight => "padding-right",
            Property::PaddingBottom => "padding-bottom",
            Property::Margin => "margin",
            Property::MarginLeft => "margin-left",
            Property::MarginTop => "margin-top",
            Property::MarginRight => "margin-right",
            Property::MarginBottom => "margin-bottom",
            Property::InsetLeft => "left",
            Property::InsetTop => "top",
            Property::InsetRight => "right",
            Property::InsetBottom => "bottom",
            Property::ZIndex => "z-index",
            Property::Cursor => "cursor",
            Property::Color => "color",
            Property::BackgroundColor => "background-color",
            Property::BoxShadow => "box-shadow",
            Property::FontSize => "font-size",
            Property::FontFamily => "font-family",
            Property::FontWeight => "font-weight",
            Property::FontStyle => "font-style",
            Property::CursorColor => "caret-color",
            Property::TextOverflow => "text-wrap",
            Property::LineHeight => "line-height",
            Property::AspectRatio => "aspect-ratio",
            Property::ColGap => "column-gap",
            Property::RowGap => "row-gap",
            Property::Gap => "gap",
            Property::Transition => "transition",
            Property::UserSelect => "user-select",
        }
    }
}

/// The typed value of a declaration.
#[derive(Debug, PartialEq, Eq)]
pub enum Value {
    /// A way to lay out children.
    Display(Display),
    /// A way to place an element.
    Position(Position),
    /// A length, or `auto`.
    Length(PxPctAuto),
    /// A main axis.
    FlexDirection(FlexDirection),
    /// A way to wrap.
    FlexWrap(FlexWrap),
    /// A plain number.
    Number(Decimal),
    /// A way to spread content along the main axis.
    JustifyContent(JustifyContent),
    /// A way to place items along the cross axis.
    AlignItems(AlignItems),
    /// A way to spread lines along the cross axis.
    AlignContent(AlignContent),
    /// A border's width and colour.
    Border(BorderDef),
    /// A length in pixels.
    Px(Px),
    /// A length in pixels or as a percentage.
    PxPct(PxPct),
    /// A colour.
    Color(Color),
    /// A whole number.
    Integer(i32),
    /// A pointer shape.
    Cursor(CursorStyle),
    /// A box shadow.
    BoxShadow(BoxShadow),
    /// A font weight.
    Weight(Weight),
    /// A font slant.
    FontStyle(FontStyle),
    /// What happens to text that does not fit.
    TextOverflow(TextOverflow),
    /// Yes or no.
    Bool(bool),
    /// A text, taken as it is written.
    Text(String),
    /// The gap between rows and, if given, the gap between columns.
    Gap(PxPct, Option<PxPct>),
    /// The name of a property, and how its changes are eased in.
    Transition(String, Transition),
}

/// The typed value of a declaration, as a mathematical value.
pub ghost enum ValueView {
    Display(Display),
    Position(Position),
    Length(PxPctAuto),
    FlexDirection(FlexDirection),
    FlexWrap(FlexWrap),
    Number(Decimal),
    JustifyContent(JustifyContent),
    AlignItems(AlignItems),
    AlignContent(AlignContent),
    Border(BorderDef),
    Px(Px),
    PxPct(PxPct),
    Color(Color),
    Integer(i32),
    Cursor(CursorStyle),
    BoxShadow(BoxShadow),
    Weight(Weight),
    FontStyle(FontStyle),
    TextOverflow(TextOverflow),
    Bool(bool),
    Text(Seq<char>),
    Gap(PxPct, Option<PxPct>),
    Transition(Seq<char>, Transition),
}

impl View for Value {
    type V = ValueView;

    open spec fn view(&self) -> ValueView {
        match *self {
            Value::Display(v) => ValueView::Display(v),
            Value::Position(v) => ValueView::Position(v),
            Value::Length(v) => ValueView::Length(v),
            Value::FlexDirection(v) => ValueView::FlexDirection(v),
            Value::FlexWrap(v) => ValueView::FlexWrap(v),
            Value::Number(v) => ValueView::Number(v),
            Value::JustifyContent(v) => ValueView::JustifyContent(v),
            Value::AlignItems(v) => ValueView::AlignItems(v),
            Value::AlignContent(v) => ValueView::AlignContent(v),
            Value::Border(v) => ValueView::Border(v),
            Value::Px(v) => ValueView::Px(v),
            Value::PxPct(v) => ValueView::PxPct(v),
            Value::Color(v) => ValueView::Color(v),
            Value::Integer(v) => ValueView::Integer(v),
            Value::Cursor(v) => ValueView::Cursor(v),
            Value::BoxShadow(v) => ValueView::BoxShadow(v),
            Value::Weight(v) => ValueView::Weight(v),
            Value::FontStyle(v) => ValueView::FontStyle(v),
            Value::TextOverflow(v) => ValueView::TextOverflow(v),
            Value::Bool(v) => ValueView::Bool(v),
            Value::Text(v) => ValueView::Text(v@),
            Value::Gap(row, col) => ValueView::Gap(row, col),
            Value::Transition(key, t) => ValueView::Transition(key@, t),
        }
    }
}

impl Value {
    /// A copy of this value.
    pub fn duplicate(&self) -> (r: Value)
        ensures
            r@ == self@,
    {
        match self {
            Value::Display(v) => Value::Display(*v),
            Value::Position(v) => Value::Position(*v),
            Value::Length(v) => Value::Length(*v),
            Value::FlexDirection(v) => Value::FlexDirection(*v),
            Value::FlexWrap(v) => Value::FlexWrap(*v),
            Value::Number(v) => Value::Number(*v),
            Value::JustifyContent(v) => Value::JustifyContent(*v),
            Value::AlignItems(v) => Value::AlignItems(*v),
            Value::AlignContent(v) => Value::AlignContent(*v),
            Value::Border(v) => Value::Border(*v),
            Value::Px(v) => Value::Px(*v),
            Value::PxPct(v) => Value::PxPct(*v),
            Value::Color(v) => Value::Color(*v),
            Value::Integer(v) => Value::Integer(*v),
            Value::Cursor(v) => Value::Cursor(*v),
            Value::BoxShadow(v) => Value::BoxShadow(*v),
            Value::Weight(v) => Value::Weight(*v),
            Value::FontStyle(v) => Value::FontStyle(*v),
            Value::TextOverflow(v) => Value::TextOverflow(*v),
            Value::Bool(v) => Value::Bool(*v),
            Value::Text(v) => Value::Text(v.clone()),
            Value::Gap(row, col) => Value::Gap(*row, *col),
            Value::Transition(key, t) => Value::Transition(key.clone(), *t),
        }
    }
}

/// The value that `text` writes for `property`: each property has its own
/// kind of value, and the text has to write one of that kind.
pub open spec fn value_of(property: Property, text: Seq<char>) -> Option<ValueView> {
    match property {
        Property::Display => match display_of(text) {
            Some(v) => Some(ValueView::Display(v)),
            None => None,
        },
        Property::Position => match position_of(text) {
            Some(v) => Some(ValueView::Position(v)),
            None => None,
        },
        Property::Width | Property::Height | Property::MinWidth | Property::MinHeight | Property::MaxWidth | Property::MaxHeight | Property::FlexBasis | Property::Margin | Property::MarginLeft | Property::MarginTop | Property::MarginRight | Property::MarginBottom | Property::InsetLeft | Property::InsetTop | Property::InsetRight | Property::InsetBottom => match px_pct_auto_of(text) {
            Some(v) => Some(ValueView::Length(v)),
            None => None,
        },
        Property::FlexDirection => match flex_direction_of(text) {
            Some(v) => Some(ValueView::FlexDirection(v)),
            None => None,
        },
        Property::FlexWrap => match flex_wrap_of(text) {
            Some(v) => Some(ValueView::FlexWrap(v)),
            None => None,
        },
        Property::FlexGrow | Property::FlexShrink | Property::LineHeight | Property::AspectRatio => match number_of(text) {
            Some(v) => Some(ValueView::Number(v)),
            None => None,
        },
        Property::JustifyContent => match justify_content_of(text) {
            Some(v) => Some(ValueView::JustifyContent(v)),
            None => None,
        },
        Property::JustifySelf | Property::AlignItems | Property::AlignSelf => match align_items_of(text) {
            Some(v) => Some(ValueView::AlignItems(v)),
            None => None,
        },
        Property::AlignContent => match align_content_of(text) {
            Some(v) => Some(ValueView::AlignContent(v)),
            None => None,
        },
        Property::Border => match border_of(text) {
            Some(v) => Some(ValueView::Border(v)),
            None => None,
        },
        Property::BorderWidth | Property::BorderLeft | Property::BorderTop | Property::BorderRight | Property::BorderBottom | Property::Outline | Property::FontSize => match px_of(text) {
            Some(v) => Some(ValueView::Px(v)),
            None => None,
        },
        Property::BorderRadius | Property::Padding | Property::PaddingLeft | Property::PaddingTop | Property::PaddingRight | Property::PaddingBottom | Property::ColGap | Property::RowGap => match px_pct_of(text) {
            Some(v) => Some(ValueView::PxPct(v)),
            None => None,
        },
        Property::OutlineColor | Property::BorderColor | Property::Color | Property::BackgroundColor | Property::CursorColor => match color_of(text) {
            Some(v) => Some(ValueView::Color(v)),
            None => None,
        },
        Property::ZIndex => match i32_of(text) {
            Some(v) => Some(ValueView::Integer(v)),
            None => None,
        },
        Property::Cursor => match cursor_style_of(text) {
            Some(v) => Some(ValueView::Cursor(v)),
            None => None,
        },
        Property::BoxShadow => match box_shadow_of(text) {
            Some(v) => Some(ValueView::BoxShadow(v)),
            None => None,
        },
        Property::FontFamily => Some(ValueView::Text(text)),
        Property::FontWeight => match font_weight_of(text) {
            Some(v) => Some(ValueView::Weight(v)),
            None => None,
        },
        Property::FontStyle => match font_style_of(text) {
            Some(v) => Some(ValueView::FontStyle(v)),
            None => None,
        },
        Property::TextOverflow => match text_overflow_of(text) {
            Some(v) => Some(ValueView::TextOverflow(v)),
            None => None,
        },
        Property::Gap => match gap_of(text) {
            Some((row, col)) => Some(ValueView::Gap(row, col)),
            None => None,
        },
        Property::Transition => match transition_of(text) {
            Some((key, t)) => Some(ValueView::Transition(key, t)),
            None => None,
        },
        Property::UserSelect => match user_select_of(text) {
            Some(v) => Some(ValueView::Bool(v)),
            None => None,
        },
    }
}

/// Whether a value is of the kind that `property` takes.
pub open spec fn fits(property: Property, value: ValueView) -> bool {
    match property {
        Property::Display => value is Display,
        Property::Position => value is Position,
        Property::Width | Property::Height | Property::MinWidth | Property::MinHeight | Property::MaxWidth | Property::MaxHeight | Property::FlexBasis | Property::Margin | Property::MarginLeft | Property::MarginTop | Property::MarginRight | Property::MarginBottom | Property::InsetLeft | Property::InsetTop | Property::InsetRight | Property::InsetBottom => value is Length,
        Property::FlexDirection => value is FlexDirection,
        Property::FlexWrap => value is FlexWrap,
        Property::FlexGrow | Property::FlexShrink | Property::LineHeight | Property::AspectRatio => value is Number,
        Property::JustifyContent => value is JustifyContent,
        Property::JustifySelf | Property::AlignItems | Property::AlignSelf => value is AlignItems,
        Property::AlignContent => value is AlignContent,
        Property::Border => value is Border,
        Property::BorderWidth | Property::BorderLeft | Property::BorderTop | Property::BorderRight | Property::BorderBottom | Property::Outline | Property::FontSize => value is Px,
        Property::BorderRadius | Property::Padding | Property::PaddingLeft | Property::PaddingTop | Property::PaddingRight | Property::PaddingBottom | Property::ColGap | Property::RowGap => value is PxPct,
        Property::OutlineColor | Property::BorderColor | Property::Color | Property::BackgroundColor | Property::CursorColor => value is Color,
        Property::ZIndex => value is Integer,
        Property::Cursor => value is Cursor,
        Property::BoxShadow => value is BoxShadow,
        Property::FontFamily => value is Text,
        Property::FontWeight => value is Weight,
        Property::FontStyle => value is FontStyle,
        Property::TextOverflow => value is TextOverflow,
        Property::Gap => value is Gap,
        Property::Transition => value is Transition,
        Property::UserSelect => value is Bool,
    }
}

/// Reads the value that `text` writes for `property`.
pub fn parse_value(property: Property, text: &str) -> (r: Option<Value>)
    ensures
        match r {
            Some(v) => Some(v@),
            None => None,
        } == value_of(property, text@),
{
    match property {
        Property::Display => match parse_display(text) {
            Some(v) => Some(Value::Display(v)),
            None => None,
        },
        Property::Position => match parse_position(text) {
            Some(v) => Some(Value::Position(v)),
            None => None,
        },
        Property::Width | Property::Height | Property::MinWidth | Property::MinHeight | Property::MaxWidth | Property::MaxHeight | Property::FlexBasis | Property::Margin | Property::MarginLeft | Property::MarginTop | Property::MarginRight | Property::MarginBottom | Property::InsetLeft | Property::InsetTop | Property::InsetRight | Property::InsetBottom => match parse_pxpctauto(text) {
            Some(v) => Some(Value::Length(v)),
            None => None,
        },
        Property::FlexDirection => match parse_flex_direction(text) {
            Some(v) => Some(Value::FlexDirection(v)),
            None => None,
        },
        Property::FlexWrap => match parse_flex_wrap(text) {
            Some(v) => Some(Value::FlexWrap(v)),
            None => None,
        },
        Property::FlexGrow | Property::FlexShrink | Property::LineHeight | Property::AspectRatio => match parse_number(text) {
            Some(v) => Some(Value::Number(v)),
            None => None,
        },
        Property::JustifyContent => match parse_justify_content(text) {
            Some(v) => Some(Value::JustifyContent(v)),
            None => None,
        },
        Property::JustifySelf | Property::AlignItems | Property::AlignSelf => match parse_align_items(text) {
            Some(v) => Some(Value::AlignItems(v)),
            None => None,
        },
        Property::AlignContent => match parse_align_content(text) {
            Some(v) => Some(Value::AlignContent(v)),
            None => None,
        },
        Property::Border => match parse_border(text) {
            Some(v) => Some(Value::Border(v)),
            None => None,
        },
        Property::BorderWidth | Property::BorderLeft | Property::BorderTop | Property::BorderRight | Property::BorderBottom | Property::Outline | Property::FontSize => match parse_px(text) {
            Some(v) => Some(Value::Px(v)),
            None => None,
        },
        Property::BorderRadius | Property::Padding | Property::PaddingLeft | Property::PaddingTop | Property::PaddingRight | Property::PaddingBottom | Property::ColGap | Property::RowGap => match parse_px_pct(text) {
            Some(v) => Some(Value::PxPct(v)),
            None => None,
        },
        Property::OutlineColor | Property::BorderColor | Property::Color | Property::BackgroundColor | Property::CursorColor => match parse_color(text) {
            Some(v) => Some(Value::Color(v)),
            None => None,
        },
        Property::ZIndex => match parse_i32(text) {
            Some(v) => Some(Value::Integer(v)),
            None => None,
        },
        Property::Cursor => match parse_cursor_style(text) {
            Some(v) => Some(Value::Cursor(v)),
            None => None,
        },
        Property::BoxShadow => match parse_box_shadow(text) {
            Some(v) => Some(Value::BoxShadow(v)),
            None => None,
        },
        Property::FontFamily => match to_owned(text) {
            Some(v) => Some(Value::Text(v)),
            None => None,
        },
        Property::FontWeight => match parse_font_weight(text) {
            Some(v) => Some(Value::Weight(v)),
            None => None,
        },
        Property::FontStyle => match parse_font_style(text) {
            Some(v) => Some(Value::FontStyle(v)),
            None => None,
        },
        Property::TextOverflow => match parse_text_overflow(text) {
            Some(v) => Some(Value::TextOverflow(v)),
            None => None,
        },
        Property::Gap => match parse_gap(text) {
            Some((row, col)) => Some(Value::Gap(row, col)),
            None => None,
        },
        Property::Transition => match parse_transition(text) {
            Some((key, t)) => Some(Value::Transition(key, t)),
            None => None,
        },
        Property::UserSelect => match parse_user_select(text) {
            Some(v) => Some(Value::Bool(v)),
            None => None,
        },
    }
}
/// One declaration: a property and a value of the kind that the property
/// takes. There is no other way to make one than to read it.
#[derive(Debug, PartialEq, Eq)]
pub struct Declaration {
    property: Property,
    value: Value,
}

/// A declaration as a mathematical value.
pub ghost struct DeclarationView {
    pub property: Property,
    pub value: ValueView,
}

impl View for Declaration {
    type V = DeclarationView;

    closed spec fn view(&self) -> DeclarationView {
        DeclarationView { property: self.property, value: self.value@ }
    }
}

/// The declaration that a property name and a raw value write. There is none
/// when the name is no property, or when the value is not of the property's
/// kind.
pub open spec fn declaration_of(name: Seq<char>, text: Seq<char>) -> Option<DeclarationView> {
    match property_of(name) {
        Some(property) => match value_of(property, text) {
            Some(value) => Some(DeclarationView { property, value }),
            None => None,
        },
        None => None,
    }
}

/// Why a declaration was turned down.
#[derive(Debug, PartialEq, Eq)]
pub struct ParseError {
    /// What is wrong.
    pub error: &'static str,
    /// The text that is wrong: the property's name, or the value.
    pub value: String,
}

impl ParseError {
    /// How the error is shown: what is wrong, then the text that is wrong.
    pub fn message(&self) -> (r: String)
        ensures
            r@ == self.error@ + ": "@ + self.value@,
    {
        let mut out: Vec<char> = Vec::new();
        push_text(&mut out, self.error);
        push_text(&mut out, ": ");
        push_text(&mut out, self.value.as_str());
        assert(out@ =~= self.error@ + ": "@ + self.value@);
        string_of(out.as_slice())
    }

    /// An error with this message about this text.
    pub fn new(error: &'static str, value: &str) -> (e: ParseError)
        ensures
            e.error@ == error@,
            e.value@ == value@,
    {
        ParseError { error, value: value.to_owned() }
    }
}

impl Declaration {
    /// The value is of the kind that the property takes.
    #[verifier::type_invariant]
    closed spec fn wf(self) -> bool {
        fits(self.property, self.value@)
    }

    /// Reads a declaration; says what is wrong if there is none: the name is
    /// an `unknown property`, or the text an `invalid value`.
    pub fn compile(name: &str, text: &str) -> (r: Result<Declaration, ParseError>)
        ensures
            match r {
                Ok(d) => declaration_of(name@, text@) == Some(d@),
                Err(e) => declaration_of(name@, text@) is None && if property_of(name@) is None {
                    e.error@ == "unknown property"@ && e.value@ == name@
                } else {
                    e.error@ == "invalid value"@ && e.value@ == text@
                },
            },
    {
        let property = match Property::from_name(name) {
            Some(p) => p,
            None => {
                return Err(ParseError::new("unknown property", name));
            },
        };
        match parse_value(property, text) {
            Some(value) => Ok(Declaration { property, value }),
            None => Err(ParseError::new("invalid value", text)),
        }
    }

    /// Reads a declaration.
    pub fn from_pair(name: &str, text: &str) -> (r: Option<Declaration>)
        ensures
            match r {
                Some(d) => Some(d@),
                None => None,
            } == declaration_of(name@, text@),
    {
        match Declaration::compile(name, text) {
            Ok(d) => Some(d),
            Err(_) => None,
        }
    }

    /// The property that is set.
    pub fn property(&self) -> (r: Property)
        ensures
            r == self@.property,
    {
        self.property
    }

    /// The value that the property is set to: one of the kind that the
    /// property takes.
    pub fn value(&self) -> (r: &Value)
        ensures
            r@ == self@.value,
            fits(self@.property, self@.value),
    {
        proof {
            use_type_invariant(self);
        }
        &self.value
    }

    /// A copy of this declaration.
    pub fn duplicate(&self) -> (r: Declaration)
        ensures
            r@ == self@,
    {
        proof {
            use_type_invariant(self);
        }
        Declaration { property: self.property, value: self.value.duplicate() }
    }
}

} // verus!
