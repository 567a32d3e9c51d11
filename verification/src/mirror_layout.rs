//! A decorator that reflects its inner layout at the main diagonal,
//! turning rows into columns and columns into rows.

use vstd::prelude::*;

use crate::layout::mirror_rect;
use crate::layout::mirrored;
use crate::layout::GeneralConfig;
use crate::layout::Layout;
use crate::layout::LayoutMessage;
use crate::layout::Rectangle;
use crate::layout::Stack;
use crate::layout::Window;

verus! {

/// An inner layout laid out on the reflected screen, its output reflected
/// back.
pub struct MirrorLayout<L: Layout> {
    layout: L,
}

/// Reflect every rectangle, keeping windows and order.
fn mirror_pairs(pairs: Vec<(Window, Rectangle)>) -> (r: Vec<(Window, Rectangle)>)
    ensures
        r@.len() == pairs@.len(),
        forall|i: int| 0 <= i < r@.len() ==> r@[i] == (pairs@[i].0, mirrored(pairs@[i].1)),
{
    let mut out: Vec<(Window, Rectangle)> = Vec::new();
    let mut i: usize = 0;
    while i < pairs.len()
        invariant
            i <= pairs@.len(),
            out@.len() == i as int,
            forall|j: int| 0 <= j < i ==> out@[j] == (pairs@[j].0, mirrored(pairs@[j].1)),
        decreases pairs@.len() - i,
    {
        let (win, rect) = pairs[i];
        out.push((win, mirror_rect(&rect)));
        i = i + 1;
    }
    out
}

impl<L: Layout> MirrorLayout<L> {
    /// Wrap `layout`, reflecting everything it lays out.
    pub fn new(layout: L) -> (r: MirrorLayout<L>)
        requires
            layout.valid(),
        ensures
            r.valid(),
    {
        MirrorLayout { layout }
    }
}

impl<L: Layout> Layout for MirrorLayout<L> {
    closed spec fn valid(&self) -> bool {
        self.layout.valid()
    }

    fn apply_layout(
        &mut self,
        screen: Rectangle,
        config: &GeneralConfig,
        stack: &Option<Stack>,
    ) -> (r: Vec<(Window, Rectangle)>) {
        // lay the inner layout out on the reflected screen, then reflect
        // every resulting rectangle back
        let inner = self.layout.apply_layout(mirror_rect(&screen), config, stack);
        mirror_pairs(inner)
    }

    fn apply_message(
        &mut self,
        message: LayoutMessage,
        stack: &Option<Stack>,
        config: &GeneralConfig,
    ) -> (r: bool) {
        self.layout.apply_message(message, stack, config)
    }

    fn description(&self) -> (d: String) {
        self.layout.description()
    }

    fn unhook(&self, stack: &Option<Stack>, config: &GeneralConfig) {
        self.layout.unhook(stack, config)
    }
}

} // verus!
