//! Code-first parametric icon generation: build icons by composing
//! [`IconDef`] layers.

use vstd::prelude::*;

use crate::shapes::{IconDef, IconShape, Ratio, Rgba, HALF_BITS};

verus! {

/// Convenience builder for creating icons in code.
pub struct IconBuilder {
    def: IconDef,
}

impl View for IconBuilder {
    /// (background, layers in drawing order)
    type V = (Option<Rgba>, Seq<IconShape>);

    closed spec fn view(&self) -> (Option<Rgba>, Seq<IconShape>) {
        (self.def.background, self.def.layers@)
    }
}

impl IconBuilder {
    /// An empty icon: no background, no layers.
    pub fn new() -> (b: Self)
        ensures
            b@ == (None::<Rgba>, Seq::<IconShape>::empty()),
    {
        Self { def: IconDef { background: None, layers: Vec::new() } }
    }

    /// Sets the background colour, replacing any earlier one.
    pub fn background(self, color: Rgba) -> (b: Self)
        ensures
            b@ == (Some(color), self@.1),
    {
        let mut s = self;
        s.def.background = Some(color);
        s
    }

    /// Adds a layer on top of the ones already added.
    pub fn layer(self, shape: IconShape) -> (b: Self)
        ensures
            b@ == (self@.0, self@.1.push(shape)),
    {
        let mut s = self;
        s.def.layers.push(shape);
        s
    }

    /// The icon definition built so far.
    pub fn build(self) -> (d: IconDef)
        ensures
            d.background == self@.0,
            d.layers@ == self@.1,
    {
        self.def
    }
}

impl Default for IconBuilder {
    fn default() -> (b: Self)
        ensures
            b@ == (None::<Rgba>, Seq::<IconShape>::empty()),
    {
        Self::new()
    }
}

/// The layers of the app-store style preset.
pub open spec fn app_icon_layers(bg: Rgba, fg: Rgba, corner_radius: Ratio) -> Seq<IconShape> {
    seq![
        IconShape::RoundedRect { corner_radius, color: bg },
        IconShape::Circle { radius: Ratio { bits: HALF_BITS }, color: fg },
    ]
}

/// Quick preset: app-store style rounded-rect icon with a centred circle of
/// radius 0.5.
pub fn preset_app_icon(bg: Rgba, fg: Rgba, corner_radius: Ratio) -> (d: IconDef)
    ensures
        d.background == Some(bg),
        d.layers@ == app_icon_layers(bg, fg, corner_radius),
{
    let d = IconBuilder::new().background(bg).layer(
        IconShape::RoundedRect { corner_radius, color: bg },
    ).layer(IconShape::Circle { radius: Ratio { bits: HALF_BITS }, color: fg }).build();
    assert(d.layers@ =~= app_icon_layers(bg, fg, corner_radius));
    d
}

/// Quick preset: simple polygon badge.
pub fn preset_polygon_badge(sides: u32, bg: Rgba, fg: Rgba) -> (d: IconDef)
    ensures
        d.background == Some(bg),
        d.layers@ == seq![IconShape::Polygon { sides, color: fg }],
{
    let d = IconBuilder::new().background(bg).layer(IconShape::Polygon { sides, color: fg }).build();
    assert(d.layers@ =~= seq![IconShape::Polygon { sides, color: fg }]);
    d
}

} // verus!
