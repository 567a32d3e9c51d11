//! The layout-provider interface: the geometry and message types that every
//! layout consumes, the focus-aware window stack, and the `Layout` trait that
//! the concrete layouts implement.

use vstd::prelude::*;

verus! {

/// An opaque window handle; compared only for identity, never interpreted.
pub type Window = u64;

/// A screen region: x, y, width, height.
#[derive(Clone, Copy, Debug, PartialEq, Eq, Structural)]
pub struct Rectangle(pub i32, pub i32, pub u32, pub u32);

impl Rectangle {
    /// The area of the region, as a mathematical integer.
    pub open spec fn area(self) -> int {
        self.2 * self.3
    }
}

/// A direction on the screen, as seen by the user.
#[derive(Clone, Copy, Debug, PartialEq, Eq, Structural)]
pub enum Direction {
    Up,
    Down,
    Left,
    Right,
}

impl Direction {
    /// The direction pointing the other way.
    pub fn opposite(&self) -> (r: Direction)
        ensures
            r == self.reverse(),
    {
        match self {
            Direction::Up => Direction::Down,
            Direction::Down => Direction::Up,
            Direction::Left => Direction::Right,
            Direction::Right => Direction::Left,
        }
    }

    /// What `opposite` returns.
    pub open spec fn reverse(self) -> Direction {
        match self {
            Direction::Up => Direction::Down,
            Direction::Down => Direction::Up,
            Direction::Left => Direction::Right,
            Direction::Right => Direction::Left,
        }
    }
}

/// A message sent to a layout by the control loop.
#[derive(Clone, Copy, Debug, PartialEq, Eq, Structural)]
pub enum LayoutMessage {
    Increase,
    Decrease,
    IncreaseMaster,
    DecreaseMaster,
    IncreaseSlave,
    DecreaseSlave,
    IncreaseGap,
    DecreaseGap,
    Next,
    Prev,
    TreeRotate,
    TreeSwap,
    TreeExpandTowards(Direction),
    TreeShrinkFrom(Direction),
}

/// The part of the host configuration that the layouts read.
#[derive(Clone, Copy, Debug, PartialEq, Eq, Structural)]
pub struct GeneralConfig {
    pub border_width: u32,
}

/// The ordered, focus-aware list of managed windows: the focused window,
/// the windows before it (nearest first), and the windows after it.
#[derive(Debug, PartialEq, Eq)]
pub struct Stack {
    pub focus: Window,
    pub up: Vec<Window>,
    pub down: Vec<Window>,
}

/// Copy a list of window handles.
pub(crate) fn copy_windows(v: &Vec<Window>) -> (r: Vec<Window>)
    ensures
        r@ == v@,
{
    let mut r: Vec<Window> = Vec::new();
    let mut i: usize = 0;
    while i < v.len()
        invariant
            i <= v@.len(),
            r@ == v@.subrange(0, i as int),
        decreases v@.len() - i,
    {
        r.push(v[i]);
        i = i + 1;
        proof {
            assert(v@.subrange(0, i as int) =~= v@.subrange(0, i - 1).push(v@[i - 1]));
        }
    }
    proof {
        assert(v@.subrange(0, v@.len() as int) =~= v@);
    }
    r
}

impl Clone for Stack {
    fn clone(&self) -> (res: Self)
        ensures
            res.focus == self.focus,
            res.up@ == self.up@,
            res.down@ == self.down@,
    {
        Stack { focus: self.focus, up: copy_windows(&self.up), down: copy_windows(&self.down) }
    }
}

impl Stack {
    /// The whole stack in screen order: the windows before the focus,
    /// the focus, the windows after it.
    pub open spec fn flatten(self) -> Seq<Window> {
        self.up@.reverse() + seq![self.focus] + self.down@
    }

    /// The position of the focused window in the flattened stack.
    pub open spec fn focus_index(self) -> int {
        self.up@.len() as int
    }

    pub fn new(focus: Window, up: Vec<Window>, down: Vec<Window>) -> (r: Stack)
        ensures
            r == (Stack { focus, up, down }),
    {
        Stack { focus, up, down }
    }

    /// How many windows the stack holds.
    pub fn len(&self) -> (r: usize)
        requires
            self.flatten().len() <= usize::MAX,
        ensures
            r == self.flatten().len(),
    {
        1 + self.up.len() + self.down.len()
    }

    /// The whole stack as one ordered list, focus included in place.
    pub fn integrate(&self) -> (r: Vec<Window>)
        ensures
            r@ == self.flatten(),
    {
        let mut out: Vec<Window> = Vec::new();
        let mut i: usize = self.up.len();
        while i > 0
            invariant
                i <= self.up@.len(),
                out@ == self.up@.subrange(i as int, self.up@.len() as int).reverse(),
            decreases i,
        {
            i = i - 1;
            out.push(self.up[i]);
            proof {
                assert(self.up@.subrange(i as int, self.up@.len() as int).reverse()
                    =~= self.up@.subrange(i + 1, self.up@.len() as int).reverse()
                        + seq![self.up@[i as int]]);
            }
        }
        proof {
            assert(self.up@.subrange(0, self.up@.len() as int) =~= self.up@);
        }
        out.push(self.focus);
        let mut j: usize = 0;
        while j < self.down.len()
            invariant
                j <= self.down@.len(),
                out@ == self.up@.reverse() + seq![self.focus] + self.down@.subrange(
                    0,
                    j as int,
                ),
            decreases self.down@.len() - j,
        {
            out.push(self.down[j]);
            j = j + 1;
            proof {
                assert(self.up@.reverse() + seq![self.focus] + self.down@.subrange(0, j as int)
                    =~= (self.up@.reverse() + seq![self.focus] + self.down@.subrange(
                    0,
                    j - 1,
                )).push(self.down@[j - 1]));
            }
        }
        proof {
            assert(self.down@.subrange(0, self.down@.len() as int) =~= self.down@);
        }
        out
    }
}

/// The uniform contract every layout satisfies: turn a screen rectangle and a
/// window stack into window/rectangle pairs, and react to structural messages.
pub trait Layout {
    /// The layout's well-formedness: what its operations maintain and may
    /// rely on. Machine-size bounds live here, nothing else.
    open spec fn valid(&self) -> bool {
        true
    }

    /// Produce one rectangle per window, pairing windows with regions
    /// positionally. May persist internal state for the next pass.
    fn apply_layout(
        &mut self,
        screen: Rectangle,
        config: &GeneralConfig,
        stack: &Option<Stack>,
    ) -> (r: Vec<(Window, Rectangle)>)
        requires
            old(self).valid(),
        ensures
            final(self).valid(),
    ;

    /// Handle a structural message; true means the message was consumed
    /// and the layout's state changed.
    fn apply_message(
        &mut self,
        message: LayoutMessage,
        stack: &Option<Stack>,
        config: &GeneralConfig,
    ) -> (r: bool)
        requires
            old(self).valid(),
        ensures
            final(self).valid(),
    ;

    /// A short, fixed name for the layout.
    fn description(&self) -> String;

    /// Restore any host-visible state the layout changed; a no-op for most.
    fn unhook(&self, stack: &Option<Stack>, config: &GeneralConfig);
}

/// What `mirror_rect` returns: the rectangle reflected at the main diagonal.
pub open spec fn mirrored(r: Rectangle) -> Rectangle {
    Rectangle(r.1, r.0, r.3, r.2)
}

/// Reflect a rectangle at the main diagonal, exchanging the roles of
/// horizontal and vertical.
pub fn mirror_rect(r: &Rectangle) -> (m: Rectangle)
    ensures
        m == mirrored(*r),
{
    Rectangle(r.1, r.0, r.3, r.2)
}

} // verus!
