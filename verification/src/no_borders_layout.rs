//! A decorator that hides window borders entirely: borders of width zero.

use vstd::prelude::*;

use crate::layout::Layout;
use crate::with_borders_layout::WithBordersLayout;

verus! {

/// A layout whose windows carry no border at all.
#[derive(Clone, Copy, Debug, PartialEq, Eq, Structural)]
pub struct NoBordersLayout;

impl NoBordersLayout {
    /// Wrap `layout` so its windows get a border of width zero.
    pub fn boxed_new<L: Layout>(layout: L) -> (r: Box<WithBordersLayout<L>>)
        requires
            layout.valid(),
        ensures
            r.border_width() == 0,
            r.valid(),
    {
        Box::new(WithBordersLayout::new(0, layout))
    }
}

} // verus!
