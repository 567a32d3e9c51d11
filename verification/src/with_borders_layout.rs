//! A decorator that gives every window of its inner layout a fixed border
//! width instead of the configured one. Writing the border onto the actual
//! windows is the host's part; the geometry passes through unchanged.

use vstd::prelude::*;

use crate::layout::GeneralConfig;
use crate::layout::Layout;
use crate::layout::LayoutMessage;
use crate::layout::Rectangle;
use crate::layout::Stack;
use crate::layout::Window;

verus! {

/// An inner layout whose windows get this border width.
pub struct WithBordersLayout<L: Layout> {
    border: u32,
    layout: L,
}

impl<L: Layout> WithBordersLayout<L> {
    /// The border width this decorator asks the host to set.
    pub closed spec fn border_width(self) -> u32 {
        self.border
    }

    /// Wrap `layout`, requesting `border` pixels of border on its windows.
    pub fn new(border: u32, layout: L) -> (r: WithBordersLayout<L>)
        requires
            layout.valid(),
        ensures
            r.border_width() == border,
            r.valid(),
    {
        WithBordersLayout { border, layout }
    }

    /// The border to set on each window of a stack before laying it out.
    pub fn border_for(&self) -> (b: u32)
        ensures
            b == self.border_width(),
    {
        self.border
    }
}

impl<L: Layout> Layout for WithBordersLayout<L> {
    closed spec fn valid(&self) -> bool {
        self.layout.valid()
    }

    fn apply_layout(
        &mut self,
        screen: Rectangle,
        config: &GeneralConfig,
        stack: &Option<Stack>,
    ) -> (r: Vec<(Window, Rectangle)>) {
        // setting the border on each mapped window is window-system work,
        // done by the host with `border_for`; the geometry is the inner
        // layout's alone
        self.layout.apply_layout(screen, config, stack)
    }

    fn apply_message(
        &mut self,
        message: LayoutMessage,
        stack: &Option<Stack>,
        config: &GeneralConfig,
    ) -> (r: bool) {
        self.layout.apply_message(message, stack, config)
    }

    fn description(&self) -> (d: String) {
        self.layout.description()
    }

    fn unhook(&self, stack: &Option<Stack>, config: &GeneralConfig) {
        // restoring the configured border and size on each window is
        // window-system work, done by the host on teardown
        self.layout.unhook(stack, config)
    }
}

} // verus!
