//! The simplest layout: the focused window alone fills the screen, edge to
//! edge, its border pushed out of sight.

use vstd::prelude::*;

use crate::layout::GeneralConfig;
use crate::layout::Layout;
use crate::layout::LayoutMessage;
use crate::layout::Rectangle;
use crate::layout::Stack;
use crate::layout::Window;

verus! {

/// A layout that shows only the focused window, full screen.
#[derive(Clone, Copy, Debug, PartialEq, Eq, Structural)]
pub struct FullLayout;

/// The rectangle the focused window gets: the screen, widened by twice the
/// border width on each extent so the border falls outside the screen; the
/// extents wrap rather than stop, as the host's do.
pub open spec fn full_rect(screen: Rectangle, config: GeneralConfig) -> Rectangle {
    let bw = vstd::wrapping::u32_specs::wrapping_mul(2, config.border_width);
    Rectangle(
        screen.0,
        screen.1,
        vstd::wrapping::u32_specs::wrapping_add(screen.2, bw),
        vstd::wrapping::u32_specs::wrapping_add(screen.3, bw),
    )
}

impl Layout for FullLayout {
    open spec fn valid(&self) -> bool {
        true
    }

    fn apply_layout(
        &mut self,
        screen: Rectangle,
        config: &GeneralConfig,
        stack: &Option<Stack>,
    ) -> (r: Vec<(Window, Rectangle)>)
        ensures
            stack is None ==> r@.len() == 0,
            stack matches Some(st) ==> r@ == seq![(st.focus, full_rect(screen, *config))],
    {
        match stack {
            Option::Some(st) => {
                let bw = 2u32.wrapping_mul(config.border_width);
                let Rectangle(x, y, sw, sh) = screen;
                let mut out: Vec<(Window, Rectangle)> = Vec::new();
                out.push((st.focus, Rectangle(x, y, sw.wrapping_add(bw), sh.wrapping_add(bw))));
                out
            },
            Option::None => Vec::new(),
        }
    }

    fn apply_message(
        &mut self,
        _message: LayoutMessage,
        _stack: &Option<Stack>,
        _config: &GeneralConfig,
    ) -> (r: bool)
        ensures
            !r,
    {
        false
    }

    fn description(&self) -> (d: String)
        ensures
            d@ == "Full"@,
    {
        "Full".to_string()
    }

    fn unhook(&self, _stack: &Option<Stack>, _config: &GeneralConfig) {
    }
}

} // verus!
