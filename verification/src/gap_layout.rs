//! A decorator that pulls every rectangle of its inner layout inward by a
//! fixed gap, leaving empty space between neighbouring windows.

use vstd::prelude::*;

use crate::layout::GeneralConfig;
use crate::layout::Layout;
use crate::layout::LayoutMessage;
use crate::layout::Rectangle;
use crate::layout::Stack;
use crate::layout::Window;

verus! {

/// An inner layout with a gap, in pixels, shaved off every side of every
/// rectangle it produces.
pub struct GapLayout<L: Layout> {
    gap: u32,
    layout: L,
}

/// A rectangle with `g` pixels shaved off each side: the origin moves in
/// by `g`, each extent loses `2 * g`. The arithmetic wraps rather than
/// stopping when a gap exceeds half an extent, as the host's does.
pub open spec fn gapped(g: u32, r: Rectangle) -> Rectangle {
    Rectangle(
        vstd::wrapping::i32_specs::wrapping_add_unsigned(r.0, g),
        vstd::wrapping::i32_specs::wrapping_add_unsigned(r.1, g),
        vstd::wrapping::u32_specs::wrapping_sub(r.2, vstd::wrapping::u32_specs::wrapping_mul(2, g)),
        vstd::wrapping::u32_specs::wrapping_sub(r.3, vstd::wrapping::u32_specs::wrapping_mul(2, g)),
    )
}

/// Shave the gap off every rectangle, keeping windows and order.
fn apply_gap(g: u32, pairs: Vec<(Window, Rectangle)>) -> (r: Vec<(Window, Rectangle)>)
    ensures
        r@.len() == pairs@.len(),
        forall|i: int|
            0 <= i < r@.len() ==> r@[i] == (pairs@[i].0, gapped(g, pairs@[i].1)),
{
    let mut out: Vec<(Window, Rectangle)> = Vec::new();
    let mut i: usize = 0;
    while i < pairs.len()
        invariant
            i <= pairs@.len(),
            out@.len() == i as int,
            forall|j: int| 0 <= j < i ==> out@[j] == (pairs@[j].0, gapped(g, pairs@[j].1)),
        decreases pairs@.len() - i,
    {
        let (win, rect) = pairs[i];
        let Rectangle(x, y, w, h) = rect;
        let shaved = Rectangle(
            x.wrapping_add_unsigned(g),
            y.wrapping_add_unsigned(g),
            w.wrapping_sub(2u32.wrapping_mul(g)),
            h.wrapping_sub(2u32.wrapping_mul(g)),
        );
        out.push((win, shaved));
        i = i + 1;
    }
    out
}

impl<L: Layout> GapLayout<L> {
    /// The gap currently shaved off each side.
    pub closed spec fn gap_width(self) -> u32 {
        self.gap
    }

    /// Wrap `layout`, shaving `gap` pixels off each side of its output.
    pub fn new(gap: u32, layout: L) -> (r: GapLayout<L>)
        requires
            layout.valid(),
        ensures
            r.gap_width() == gap,
            r.valid(),
    {
        GapLayout { gap, layout }
    }
}

impl<L: Layout> Layout for GapLayout<L> {
    closed spec fn valid(&self) -> bool {
        self.layout.valid()
    }

    fn apply_layout(
        &mut self,
        screen: Rectangle,
        config: &GeneralConfig,
        stack: &Option<Stack>,
    ) -> (r: Vec<(Window, Rectangle)>)
        ensures
            final(self).gap_width() == old(self).gap_width(),
    {
        let inner = self.layout.apply_layout(screen, config, stack);
        apply_gap(self.gap, inner)
    }

    fn apply_message(
        &mut self,
        message: LayoutMessage,
        stack: &Option<Stack>,
        config: &GeneralConfig,
    ) -> (r: bool)
        ensures
            message == LayoutMessage::IncreaseGap ==> (r && final(self).gap_width()
                == vstd::wrapping::u32_specs::wrapping_add(old(self).gap_width(), 1)),
            message == LayoutMessage::DecreaseGap ==> (r && final(self).gap_width() == (
            if old(self).gap_width() > 0 {
                (old(self).gap_width() - 1) as u32
            } else {
                0u32
            })),
    {
        match message {
            LayoutMessage::IncreaseGap => {
                self.gap = self.gap.wrapping_add(1);
                true
            },
            LayoutMessage::DecreaseGap => {
                if self.gap > 0 {
                    self.gap = self.gap - 1;
                }
                true
            },
            _ => self.layout.apply_message(message, stack, config),
        }
    }

    fn description(&self) -> (d: String) {
        self.layout.description()
    }

    fn unhook(&self, stack: &Option<Stack>, config: &GeneralConfig) {
        self.layout.unhook(stack, config)
    }
}

} // verus!
