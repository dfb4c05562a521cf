//! Composed styles: the declarations that hold of a target, those that hold
//! of it in each state, and those for its parts.

use vstd::prelude::*;
use crate::color::Color;
use crate::declaration::{Declaration, DeclarationView, Property, Value, ValueView};
use crate::length::PxPct;
use crate::number::Decimal;
use crate::selector::PseudoClass;

verus! {

/// The declarations of a sequence, as mathematical values.
pub open spec fn layer_view(v: Seq<Declaration>) -> Seq<DeclarationView> {
    v.map_values(|d: Declaration| d@)
}

/// The value that a layer gives a property: that of the last declaration of
/// the property, since a later declaration overrides an earlier one.
pub open spec fn effective(layer: Seq<DeclarationView>, property: Property) -> Option<ValueView>
    decreases layer.len(),
{
    if layer.len() == 0 {
        None
    } else if layer.last().property == property {
        Some(layer.last().value)
    } else {
        effective(layer.drop_last(), property)
    }
}

/// A declaration at the end of a layer overrides what the layer gave its
/// property, and leaves every other property as it was.
pub proof fn lemma_later_overrides(
    layer: Seq<DeclarationView>,
    last: DeclarationView,
    property: Property,
)
    ensures
        effective(layer.push(last), property) == if last.property == property {
            Some(last.value)
        } else {
            effective(layer, property)
        },
{
    assert(layer.push(last).drop_last() =~= layer);
}

/// Of two layers put together the later one overrides the earlier one
/// property by property: what the later layer sets holds, and what it does
/// not set stays as the earlier layer has it.
pub proof fn lemma_layers_override(
    earlier: Seq<DeclarationView>,
    later: Seq<DeclarationView>,
    property: Property,
)
    ensures
        effective(earlier + later, property) == if effective(later, property) is Some {
            effective(later, property)
        } else {
            effective(earlier, property)
        },
    decreases later.len(),
{
    if later.len() > 0 {
        assert((earlier + later).drop_last() =~= earlier + later.drop_last());
        lemma_layers_override(earlier, later.drop_last(), property);
    }
}

/// The value that `layer` gives `property`.
pub fn lookup(layer: &Vec<Declaration>, property: Property) -> (r: Option<&Value>)
    ensures
        match r {
            Some(v) => Some(v@),
            None => None,
        } == effective(layer_view(layer@), property),
{
    let ghost all = layer_view(layer@);
    let mut i: usize = layer.len();
    assert(all.take(i as int) =~= all);
    while i > 0
        invariant
            i <= layer@.len(),
            all == layer_view(layer@),
            effective(all, property) == effective(all.take(i as int), property),
        decreases i,
    {
        assert(all.take(i as int).drop_last() =~= all.take(i - 1));
        if layer[i - 1].property() == property {
            return Some(layer[i - 1].value());
        }
        i = i - 1;
    }
    None
}

/// A copy of a layer.
pub fn copy_layer(layer: &Vec<Declaration>) -> (r: Vec<Declaration>)
    ensures
        layer_view(r@) == layer_view(layer@),
{
    let mut r: Vec<Declaration> = Vec::new();
    let mut i: usize = 0;
    while i < layer.len()
        invariant
            i <= layer@.len(),
            layer_view(r@) == layer_view(layer@).take(i as int),
        decreases layer@.len() - i,
    {
        let d = layer[i].duplicate();
        assert(layer_view(layer@).take(i + 1) =~= layer_view(layer@).take(i as int).push(d@));
        r.push(d);
        i = i + 1;
    }
    r
}

/// Puts the declarations of `later` behind those of `layer`.
pub fn extend_layer(layer: &mut Vec<Declaration>, later: &Vec<Declaration>)
    ensures
        layer_view(final(layer)@) == layer_view(old(layer)@) + layer_view(later@),
{
    let ghost start = layer_view(layer@);
    let mut i: usize = 0;
    while i < later.len()
        invariant
            i <= later@.len(),
            layer_view(layer@) == start + layer_view(later@).take(i as int),
        decreases later@.len() - i,
    {
        let d = later[i].duplicate();
        assert((start + layer_view(later@).take(i as int)).push(d@) =~= start + layer_view(
            later@,
        ).take(i + 1));
        layer.push(d);
        i = i + 1;
    }
}

/// What holds of a target while it is in one state: the declarations for the
/// state itself, and those for the time the pointer is over the target in
/// that state.
#[derive(Debug, PartialEq, Eq)]
pub struct Overlay {
    pub own: Vec<Declaration>,
    pub hover: Vec<Declaration>,
}

/// An overlay as a mathematical value.
pub ghost struct OverlayView {
    pub own: Seq<DeclarationView>,
    pub hover: Seq<DeclarationView>,
}

impl View for Overlay {
    type V = OverlayView;

    open spec fn view(&self) -> OverlayView {
        OverlayView { own: layer_view(self.own@), hover: layer_view(self.hover@) }
    }
}

impl OverlayView {
    /// The overlay that sets nothing.
    pub open spec fn empty() -> OverlayView {
        OverlayView {
            own: Seq::<DeclarationView>::empty(),
            hover: Seq::<DeclarationView>::empty(),
        }
    }

    /// This overlay with `other` laid over it.
    pub open spec fn merged(self, other: OverlayView) -> OverlayView {
        OverlayView { own: self.own + other.own, hover: self.hover + other.hover }
    }
}

/// A composed style.
#[derive(Debug, PartialEq, Eq)]
pub struct Style {
    /// What holds of the target at all times.
    pub base: Vec<Declaration>,
    /// What holds while the pointer is over the target.
    pub hover: Vec<Declaration>,
    /// What holds while the target has the focus.
    pub focus: Overlay,
    /// What holds while the target is pressed.
    pub active: Overlay,
    /// What holds while the target is disabled.
    pub disabled: Overlay,
    /// What holds of the target's placeholder text.
    pub placeholder: Vec<Declaration>,
    /// The corner radius of the selection, in pixels.
    pub selection_radius: Option<Decimal>,
    /// The colour of the selection.
    pub selection_color: Option<Color>,
}

/// A composed style as a mathematical value.
pub ghost struct StyleView {
    pub base: Seq<DeclarationView>,
    pub hover: Seq<DeclarationView>,
    pub focus: OverlayView,
    pub active: OverlayView,
    pub disabled: OverlayView,
    pub placeholder: Seq<DeclarationView>,
    pub selection_radius: Option<Decimal>,
    pub selection_color: Option<Color>,
}

impl View for Style {
    type V = StyleView;

    open spec fn view(&self) -> StyleView {
        StyleView {
            base: layer_view(self.base@),
            hover: layer_view(self.hover@),
            focus: self.focus@,
            active: self.active@,
            disabled: self.disabled@,
            placeholder: layer_view(self.placeholder@),
            selection_radius: self.selection_radius,
            selection_color: self.selection_color,
        }
    }
}

/// The corner radius that a layer gives the selection: that of its
/// `border-radius`, if that is in pixels.
pub open spec fn selection_radius_of(layer: Seq<DeclarationView>) -> Option<Decimal> {
    match effective(layer, Property::BorderRadius) {
        Some(ValueView::PxPct(PxPct::Px(r))) => Some(r),
        _ => None,
    }
}

/// The colour that a layer gives the selection: that of its `color`.
pub open spec fn selection_color_of(layer: Seq<DeclarationView>) -> Option<Color> {
    match effective(layer, Property::Color) {
        Some(ValueView::Color(c)) => Some(c),
        _ => None,
    }
}

/// `first` unless `second` has something to put in its place.
pub open spec fn or_else<T>(second: Option<T>, first: Option<T>) -> Option<T> {
    if second is Some {
        second
    } else {
        first
    }
}

impl StyleView {
    /// The style that sets nothing.
    pub open spec fn empty() -> StyleView {
        StyleView {
            base: Seq::<DeclarationView>::empty(),
            hover: Seq::<DeclarationView>::empty(),
            focus: OverlayView::empty(),
            active: OverlayView::empty(),
            disabled: OverlayView::empty(),
            placeholder: Seq::<DeclarationView>::empty(),
            selection_radius: None,
            selection_color: None,
        }
    }

    /// The style that holds `layer` at all times and nothing else.
    pub open spec fn flat(layer: Seq<DeclarationView>) -> StyleView {
        StyleView { base: layer, ..StyleView::empty() }
    }

    /// This style with `other` laid over it: part by part `other` comes
    /// later, so it overrides property by property.
    pub open spec fn merged(self, other: StyleView) -> StyleView {
        StyleView {
            base: self.base + other.base,
            hover: self.hover + other.hover,
            focus: self.focus.merged(other.focus),
            active: self.active.merged(other.active),
            disabled: self.disabled.merged(other.disabled),
            placeholder: self.placeholder + other.placeholder,
            selection_radius: or_else(other.selection_radius, self.selection_radius),
            selection_color: or_else(other.selection_color, self.selection_color),
        }
    }

    /// This style with `layer` laid over the part that `pseudo` names.
    ///
    /// - A state takes the layer as what holds in that state.
    /// - A state with `hover` takes it as what holds while the pointer is
    ///   over the target in that state: inside the state's overlay, not
    ///   beside it.
    /// - The placeholder takes it whole.
    /// - The selection takes the layer's corner radius and colour, where the
    ///   layer sets them, and nothing else.
    pub open spec fn with_overlay(self, pseudo: PseudoClass, layer: Seq<DeclarationView>) -> StyleView {
        match pseudo {
            PseudoClass::Hover => StyleView { hover: self.hover + layer, ..self },
            PseudoClass::Focus => StyleView {
                focus: OverlayView { own: self.focus.own + layer, hover: self.focus.hover },
                ..self
            },
            PseudoClass::FocusHover => StyleView {
                focus: OverlayView { own: self.focus.own, hover: self.focus.hover + layer },
                ..self
            },
            PseudoClass::Active => StyleView {
                active: OverlayView { own: self.active.own + layer, hover: self.active.hover },
                ..self
            },
            PseudoClass::ActiveHover => StyleView {
                active: OverlayView { own: self.active.own, hover: self.active.hover + layer },
                ..self
            },
            PseudoClass::Disabled => StyleView {
                disabled: OverlayView { own: self.disabled.own + layer, hover: self.disabled.hover },
                ..self
            },
            PseudoClass::DisabledHover => StyleView {
                disabled: OverlayView { own: self.disabled.own, hover: self.disabled.hover + layer },
                ..self
            },
            PseudoClass::Placeholder => StyleView { placeholder: self.placeholder + layer, ..self },
            PseudoClass::Selection => StyleView {
                selection_radius: or_else(selection_radius_of(layer), self.selection_radius),
                selection_color: or_else(selection_color_of(layer), self.selection_color),
                ..self
            },
        }
    }

    /// This style after a rule with the declarations of `other` was composed
    /// into it for a selector with `pseudo`.
    pub open spec fn modified(self, pseudo: Option<PseudoClass>, other: StyleView) -> StyleView {
        match pseudo {
            None => self.merged(other),
            Some(p) => self.with_overlay(p, other.base),
        }
    }
}

/// A rule for a state leaves alone what holds at all times, and a rule for a
/// state with `hover` goes into the state's overlay: it changes neither what
/// holds in the state itself nor what holds under the pointer alone.
pub proof fn lemma_overlays_are_apart(style: StyleView, layer: Seq<DeclarationView>)
    ensures
        style.with_overlay(PseudoClass::Hover, layer).base == style.base,
        style.with_overlay(PseudoClass::Hover, layer).hover == style.hover + layer,
        style.with_overlay(PseudoClass::FocusHover, layer).focus.hover == style.focus.hover + layer,
        style.with_overlay(PseudoClass::FocusHover, layer).focus.own == style.focus.own,
        style.with_overlay(PseudoClass::FocusHover, layer).hover == style.hover,
        style.with_overlay(PseudoClass::FocusHover, layer).base == style.base,
        style.with_overlay(PseudoClass::ActiveHover, layer).active.hover == style.active.hover
            + layer,
        style.with_overlay(PseudoClass::ActiveHover, layer).hover == style.hover,
        style.with_overlay(PseudoClass::DisabledHover, layer).disabled.hover
            == style.disabled.hover + layer,
        style.with_overlay(PseudoClass::DisabledHover, layer).hover == style.hover,
{
}

impl Overlay {
    /// The overlay that sets nothing.
    pub fn new() -> (r: Overlay)
        ensures
            r@ == OverlayView::empty(),
    {
        let r = Overlay { own: Vec::new(), hover: Vec::new() };
        assert(r@.hover =~= Seq::<DeclarationView>::empty());
        r
    }

    /// A copy of this overlay.
    pub fn duplicate(&self) -> (r: Overlay)
        ensures
            r@ == self@,
    {
        Overlay { own: copy_layer(&self.own), hover: copy_layer(&self.hover) }
    }

    /// Lays `other` over this overlay.
    pub fn apply(&mut self, other: &Overlay)
        ensures
            final(self)@ == old(self)@.merged(other@),
    {
        extend_layer(&mut self.own, &other.own);
        extend_layer(&mut self.hover, &other.hover);
    }
}

impl Style {
    /// The style that sets nothing.
    pub fn new() -> (r: Style)
        ensures
            r@ == StyleView::empty(),
    {
        let r = Style {
            base: Vec::new(),
            hover: Vec::new(),
            focus: Overlay::new(),
            active: Overlay::new(),
            disabled: Overlay::new(),
            placeholder: Vec::new(),
            selection_radius: None,
            selection_color: None,
        };
        assert(r@.placeholder =~= Seq::<DeclarationView>::empty());
        r
    }

    /// A copy of this style.
    pub fn duplicate(&self) -> (r: Style)
        ensures
            r@ == self@,
    {
        Style {
            base: copy_layer(&self.base),
            hover: copy_layer(&self.hover),
            focus: self.focus.duplicate(),
            active: self.active.duplicate(),
            disabled: self.disabled.duplicate(),
            placeholder: copy_layer(&self.placeholder),
            selection_radius: self.selection_radius,
            selection_color: self.selection_color,
        }
    }

    /// This style with `other` laid over it.
    pub fn apply(self, other: &Style) -> (r: Style)
        ensures
            r@ == self@.merged(other@),
    {
        let mut r = self;
        extend_layer(&mut r.base, &other.base);
        extend_layer(&mut r.hover, &other.hover);
        r.focus.apply(&other.focus);
        r.active.apply(&other.active);
        r.disabled.apply(&other.disabled);
        extend_layer(&mut r.placeholder, &other.placeholder);
        if other.selection_radius.is_some() {
            r.selection_radius = other.selection_radius;
        }
        if other.selection_color.is_some() {
            r.selection_color = other.selection_color;
        }
        r
    }

    /// The value that the style gives `property` at all times.
    pub fn get(&self, property: Property) -> (r: Option<&Value>)
        ensures
            match r {
                Some(v) => Some(v@),
                None => None,
            } == effective(self@.base, property),
    {
        lookup(&self.base, property)
    }
}

impl Default for Style {
    fn default() -> (r: Style)
        ensures
            r@ == StyleView::empty(),
    {
        Style::new()
    }
}

} // verus!
