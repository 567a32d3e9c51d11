//! A decorator that floats the focused window in the middle of the screen
//! and lets its inner layout tile the remaining windows behind it.

use vstd::prelude::*;

use crate::layout::GeneralConfig;
use crate::layout::Layout;
use crate::layout::LayoutMessage;
use crate::layout::Rectangle;
use crate::layout::Stack;
use crate::layout::Window;

verus! {

/// An inner layout with the focused window centered in front.
pub struct CenterLayout<L: Layout> {
    pub layout: L,
}

/// The centered rectangle: four fifths of each extent, offset so the
/// remaining fifth is halved on each side; the origin wraps rather than
/// stopping, as the host's arithmetic does.
pub open spec fn centered(screen: Rectangle) -> Rectangle {
    Rectangle(
        vstd::wrapping::i32_specs::wrapping_add_unsigned(
            screen.0,
            ((screen.2 / 5) / 2) as u32,
        ),
        vstd::wrapping::i32_specs::wrapping_add_unsigned(
            screen.1,
            ((screen.3 / 5) / 2) as u32,
        ),
        (4 * screen.2 / 5) as u32,
        (4 * screen.3 / 5) as u32,
    )
}

/// The centered rectangle, as executable code.
fn center_rect(screen: Rectangle) -> (r: Rectangle)
    ensures
        r == centered(screen),
{
    let Rectangle(x, y, w, h) = screen;
    let w8: u32 = ((4u64 * (w as u64)) / 5) as u32;
    let h8: u32 = ((4u64 * (h as u64)) / 5) as u32;
    Rectangle(
        x.wrapping_add_unsigned((w / 5) / 2),
        y.wrapping_add_unsigned((h / 5) / 2),
        w8,
        h8,
    )
}

/// Copy a list of window handles without its first entry.
fn windows_tail(v: &Vec<Window>) -> (r: Vec<Window>)
    requires
        v@.len() >= 1,
    ensures
        r@ == v@.skip(1),
{
    let mut r: Vec<Window> = Vec::new();
    let mut i: usize = 1;
    while i < v.len()
        invariant
            1 <= i <= v@.len(),
            r@ == v@.subrange(1, i as int),
        decreases v@.len() - i,
    {
        r.push(v[i]);
        i = i + 1;
        proof {
            assert(v@.subrange(1, i as int) =~= v@.subrange(1, i - 1).push(v@[i - 1]));
        }
    }
    proof {
        assert(v@.subrange(1, v@.len() as int) =~= v@.skip(1));
    }
    r
}

impl<L: Layout> CenterLayout<L> {
    /// Wrap `layout`, centering the focused window in front of it.
    pub fn boxed_new(layout: L) -> (r: Box<CenterLayout<L>>)
        requires
            layout.valid(),
        ensures
            r.valid(),
    {
        Box::new(CenterLayout { layout })
    }
}

impl<L: Layout> Layout for CenterLayout<L> {
    open spec fn valid(&self) -> bool {
        self.layout.valid()
    }

    fn apply_layout(
        &mut self,
        screen: Rectangle,
        config: &GeneralConfig,
        stack: &Option<Stack>,
    ) -> (r: Vec<(Window, Rectangle)>)
        ensures
            stack is None ==> r@.len() == 0,
            stack matches Some(st) ==> (!(st.up@.len() == 0 && st.down@.len() == 0) ==> (r@.len()
                >= 1 && r@[0] == (st.focus, centered(screen)))),
    {
        match stack {
            Option::None => Vec::new(),
            Option::Some(st) => {
                if st.up.len() == 0 && st.down.len() == 0 {
                    // a lone window is not centered: the inner layout
                    // handles it alone
                    self.layout.apply_layout(screen, config, stack)
                } else {
                    // refocus the stack on its first remaining window and
                    // tile those behind the centered focus
                    let new_stack = if st.up.len() > 0 {
                        Stack::new(st.up[0], windows_tail(&st.up), crate::layout::copy_windows(&st.down))
                    } else {
                        Stack::new(st.down[0], Vec::new(), windows_tail(&st.down))
                    };
                    let mut rest = self.layout.apply_layout(
                        screen,
                        config,
                        &Option::Some(new_stack),
                    );
                    let mut out: Vec<(Window, Rectangle)> = Vec::new();
                    out.push((st.focus, center_rect(screen)));
                    out.append(&mut rest);
                    out
                }
            },
        }
    }

    fn apply_message(
        &mut self,
        message: LayoutMessage,
        stack: &Option<Stack>,
        config: &GeneralConfig,
    ) -> (r: bool) {
        self.layout.apply_message(message, stack, config)
    }

    fn description(&self) -> (d: String)
        ensures
            d@ == "Center"@,
    {
        "Center".to_string()
    }

    fn unhook(&self, stack: &Option<Stack>, config: &GeneralConfig) {
        self.layout.unhook(stack, config)
    }
}

} // verus!
