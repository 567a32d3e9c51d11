//! A binary space partition: a tree of splits whose leaves tile a screen
//! rectangle, a zipper cursor for local edits, and the container that keeps
//! the partition in step with the number of managed windows.

use vstd::prelude::*;

use crate::layout::Direction;
use crate::layout::GeneralConfig;
use crate::layout::Layout;
use crate::layout::LayoutMessage;
use crate::layout::Rectangle;
use crate::layout::Stack;
use crate::layout::Window;

verus! {

/// The ratio of a split is measured in hundredths of the divided extent.
pub const RATIO_DENOM: i32 = 100;

/// The ratio of a freshly introduced split: one half.
pub const RATIO_HALF: i32 = 50;

/// How much one grow or shrink step moves a ratio: five hundredths.
pub const RATIO_STEP: i32 = 5;

/// The two directions in which a rectangle can be subdivided.
#[derive(Clone, Copy, Debug, PartialEq, Eq, Structural)]
pub enum Axis {
    Horizontal,
    Vertical,
}

impl Axis {
    /// What `opposite` returns.
    pub open spec fn flip(self) -> Axis {
        match self {
            Axis::Horizontal => Axis::Vertical,
            Axis::Vertical => Axis::Horizontal,
        }
    }

    /// The other axis; successive generations of splits alternate axes.
    pub fn opposite(&self) -> (r: Axis)
        ensures
            r == self.flip(),
    {
        match self {
            Axis::Horizontal => Axis::Vertical,
            Axis::Vertical => Axis::Horizontal,
        }
    }
}

/// An axis together with a ratio: how to divide one rectangle into two.
/// The ratio is in hundredths of the divided extent and is deliberately not
/// clamped to [0, 100]; `split` floors degenerate extents at zero instead.
#[derive(Clone, Copy, Debug, PartialEq, Eq, Structural)]
pub struct Split {
    pub axis: Axis,
    pub ratio: i32,
}

impl Split {
    pub fn new(axis: Axis, r: i32) -> (s: Split)
        ensures
            s == (Split { axis, ratio: r }),
    {
        Split { axis, ratio: r }
    }

    /// The extent of the first piece when an extent of `e` is divided:
    /// `e * ratio / 100`, truncated, and clamped into [0, e] so that the two
    /// pieces always sum exactly to `e`.
    pub open spec fn cut(self, e: u32) -> int {
        if self.ratio <= 0 {
            0
        } else if e * self.ratio / (RATIO_DENOM as int) > e {
            e as int
        } else {
            e * self.ratio / (RATIO_DENOM as int)
        }
    }

    /// What `split` returns: the two pieces of `r`, first and second.
    pub open spec fn split_rects(self, r: Rectangle) -> (Rectangle, Rectangle) {
        match self.axis {
            Axis::Horizontal => {
                let c = self.cut(r.3);
                (
                    Rectangle(r.0, r.1, r.2, c as u32),
                    Rectangle(
                        r.0,
                        vstd::wrapping::i32_specs::wrapping_add_unsigned(r.1, c as u32),
                        r.2,
                        (r.3 - c) as u32,
                    ),
                )
            },
            Axis::Vertical => {
                let c = self.cut(r.2);
                (
                    Rectangle(r.0, r.1, c as u32, r.3),
                    Rectangle(
                        vstd::wrapping::i32_specs::wrapping_add_unsigned(r.0, c as u32),
                        r.1,
                        (r.2 - c) as u32,
                        r.3,
                    ),
                )
            },
        }
    }

    /// The first piece of a divided extent, as executable code.
    fn cut_extent(&self, e: u32) -> (c: u32)
        ensures
            c == self.cut(e),
    {
        if self.ratio <= 0 {
            0
        } else {
            proof {
                assert((e as int) * (self.ratio as int) <= (u32::MAX as int) * (i32::MAX as int))
                    by (nonlinear_arith)
                    requires
                        e <= u32::MAX,
                        0 < self.ratio <= i32::MAX,
                ;
            }
            let p: u64 = (e as u64) * (self.ratio as u64);
            let q: u64 = p / 100;
            if q > e as u64 {
                e
            } else {
                q as u32
            }
        }
    }

    /// Divide `rect` in two along this split's axis: top/bottom for
    /// Horizontal, left/right for Vertical. The first piece takes
    /// `cut` of the extent, the second takes exactly the rest.
    pub fn split(&self, rect: Rectangle) -> (r: (Rectangle, Rectangle))
        ensures
            r == self.split_rects(rect),
    {
        let Rectangle(x, y, w, h) = rect;
        match self.axis {
            Axis::Horizontal => {
                let hr = self.cut_extent(h);
                (Rectangle(x, y, w, hr), Rectangle(x, y.wrapping_add_unsigned(hr), w, h - hr))
            },
            Axis::Vertical => {
                let wr = self.cut_extent(w);
                (Rectangle(x, y, wr, h), Rectangle(x.wrapping_add_unsigned(wr), y, w - wr, h))
            },
        }
    }

    /// The same split on the other axis.
    pub fn opposite(&self) -> (s: Split)
        ensures
            s == (Split { axis: self.axis.flip(), ratio: self.ratio }),
    {
        Split { axis: self.axis.opposite(), ratio: self.ratio }
    }

    /// What `increase_ratio` returns; the ratio wraps on overflow rather
    /// than stopping, as no layer clamps it.
    pub open spec fn with_ratio_increased(self, r: i32) -> Split {
        Split { axis: self.axis, ratio: vstd::wrapping::i32_specs::wrapping_add(self.ratio, r) }
    }

    /// The same split with the ratio moved by `r` hundredths; callers are
    /// responsible for keeping the ratio in a usable range.
    pub fn increase_ratio(&self, r: i32) -> (s: Split)
        ensures
            s == self.with_ratio_increased(r),
    {
        Split { axis: self.axis, ratio: self.ratio.wrapping_add(r) }
    }
}

/// A binary tree whose leaves are undivided screen regions and whose inner
/// nodes each carry a split. Leaves carry no payload: they are resolved by
/// position.
#[derive(Debug, PartialEq, Eq)]
pub enum Tree<T> {
    Leaf,
    Node(T, Box<Tree<T>>, Box<Tree<T>>),
}

impl<T> Tree<T> {
    /// The number of leaves of the subtree; always at least one.
    pub open spec fn leaf_count(self) -> nat
        decreases self,
    {
        match self {
            Tree::Leaf => 1,
            Tree::Node(_, l, r) => (*l).leaf_count() + (*r).leaf_count(),
        }
    }

    /// Count the leaves reachable from this subtree. Recomputed on demand:
    /// the cost is linear in the size of the subtree.
    pub fn number_of_leaves(&self) -> (n: usize)
        requires
            self.leaf_count() <= usize::MAX,
        ensures
            n == self.leaf_count(),
        decreases self,
    {
        match self {
            Tree::Leaf => 1,
            Tree::Node(_, l, r) => l.number_of_leaves() + r.number_of_leaves(),
        }
    }
}

/// Every subtree has at least one leaf.
pub proof fn lemma_leaf_count_pos<T>(t: Tree<T>)
    ensures
        t.leaf_count() >= 1,
    decreases t,
{
    match t {
        Tree::Leaf => {},
        Tree::Node(_, l, r) => {
            lemma_leaf_count_pos(*l);
            lemma_leaf_count_pos(*r);
        },
    }
}

impl<T: Copy> Clone for Tree<T> {
    fn clone(&self) -> (res: Self)
        ensures
            res == *self,
        decreases self,
    {
        match self {
            Tree::Leaf => Tree::Leaf,
            Tree::Node(s, l, r) => Tree::Node(
                *s,
                Box::new((&**l).clone()),
                Box::new((&**r).clone()),
            ),
        }
    }
}

/// One step of a descent from the root: which side was taken, the split at
/// that node, and the sibling subtree that was not entered.
#[derive(Debug, PartialEq, Eq)]
pub enum Crumb<T> {
    LeftCrumb(T, Tree<T>),
    RightCrumb(T, Tree<T>),
}

impl<T: Copy> Clone for Crumb<T> {
    fn clone(&self) -> (res: Self)
        ensures
            res == *self,
    {
        match self {
            Crumb::LeftCrumb(s, t) => Crumb::LeftCrumb(*s, t.clone()),
            Crumb::RightCrumb(s, t) => Crumb::RightCrumb(*s, t.clone()),
        }
    }
}

impl Crumb<Split> {
    /// What `swap` returns: the crumb seen from the other side.
    pub open spec fn swapped(self) -> Crumb<Split> {
        match self {
            Crumb::LeftCrumb(s, t) => Crumb::RightCrumb(s, t),
            Crumb::RightCrumb(s, t) => Crumb::LeftCrumb(s, t),
        }
    }

    /// The split stored in the crumb: the split of the parent node.
    pub open spec fn parent_split(self) -> Split {
        match self {
            Crumb::LeftCrumb(s, _) => s,
            Crumb::RightCrumb(s, _) => s,
        }
    }

    /// The sibling subtree stored in the crumb.
    pub open spec fn sibling(self) -> Tree<Split> {
        match self {
            Crumb::LeftCrumb(_, t) => t,
            Crumb::RightCrumb(_, t) => t,
        }
    }

    /// The same crumb with the parent split replaced.
    pub open spec fn with_parent_split(self, s: Split) -> Crumb<Split> {
        match self {
            Crumb::LeftCrumb(_, t) => Crumb::LeftCrumb(s, t),
            Crumb::RightCrumb(_, t) => Crumb::RightCrumb(s, t),
        }
    }

    /// Flip which side the cursor is on: the sibling becomes the other child.
    pub fn swap(&self) -> (r: Crumb<Split>)
        ensures
            r == self.swapped(),
    {
        match self {
            Crumb::LeftCrumb(s, t) => Crumb::RightCrumb(*s, t.clone()),
            Crumb::RightCrumb(s, t) => Crumb::LeftCrumb(*s, t.clone()),
        }
    }

    /// The split of the parent node this crumb records.
    pub fn parent(&self) -> (r: Split)
        ensures
            r == self.parent_split(),
    {
        match self {
            Crumb::LeftCrumb(s, _) => *s,
            Crumb::RightCrumb(s, _) => *s,
        }
    }

    /// Rewrite the parent split through `f`, leaving side and sibling alone.
    pub fn modify_parent<F: Fn(&Split) -> Split>(&self, f: F) -> (r: Crumb<Split>)
        requires
            forall|s: &Split| #[trigger] f.requires((s,)),
        ensures
            exists|s2: Split|
                {
                    &&& #[trigger] f.ensures((&self.parent_split(), ), s2)
                    &&& r == self.with_parent_split(s2)
                },
    {
        match self {
            Crumb::LeftCrumb(s, t) => Crumb::LeftCrumb(f(s), t.clone()),
            Crumb::RightCrumb(s, t) => Crumb::RightCrumb(f(s), t.clone()),
        }
    }
}

/// Rebuild one level: put `t` back into the hole that `c` records,
/// restoring the parent node.
pub open spec fn plug(t: Tree<Split>, c: Crumb<Split>) -> Tree<Split> {
    match c {
        Crumb::LeftCrumb(s, sib) => Tree::Node(s, Box::new(t), Box::new(sib)),
        Crumb::RightCrumb(s, sib) => Tree::Node(s, Box::new(sib), Box::new(t)),
    }
}

/// Rebuild the whole tree from a focused subtree and its trail of crumbs,
/// innermost crumb first.
pub open spec fn rebuild(t: Tree<Split>, cs: Seq<Crumb<Split>>) -> Tree<Split>
    decreases cs.len(),
{
    if cs.len() == 0 {
        t
    } else {
        rebuild(plug(t, cs[0]), cs.skip(1))
    }
}

/// The leaves stored away in a trail's sibling subtrees.
pub open spec fn trail_leaf_count(cs: Seq<Crumb<Split>>) -> nat
    decreases cs.len(),
{
    if cs.len() == 0 {
        0
    } else {
        cs[0].sibling().leaf_count() + trail_leaf_count(cs.skip(1))
    }
}

/// Rebuilding yields the focused subtree's leaves plus the stowed ones.
pub proof fn lemma_rebuild_leaf_count(t: Tree<Split>, cs: Seq<Crumb<Split>>)
    ensures
        rebuild(t, cs).leaf_count() == t.leaf_count() + trail_leaf_count(cs),
    decreases cs.len(),
{
    if cs.len() > 0 {
        lemma_rebuild_leaf_count(plug(t, cs[0]), cs.skip(1));
    }
}

/// Where the pre-order walk to the nth leaf ends: the leaf it reaches and
/// the trail gathered on the way down, on top of the trail already held.
/// An index at or past the leaf count runs into the rightmost leaf.
pub open spec fn nav_spec(t: Tree<Split>, cs: Seq<Crumb<Split>>, n: int) -> (
    Tree<Split>,
    Seq<Crumb<Split>>,
)
    decreases t,
{
    match t {
        Tree::Leaf => (t, cs),
        Tree::Node(s, l, r) => {
            if (*l).leaf_count() > n {
                nav_spec(*l, seq![Crumb::LeftCrumb(s, *r)] + cs, n)
            } else {
                nav_spec(*r, seq![Crumb::RightCrumb(s, *l)] + cs, n - (*l).leaf_count())
            }
        },
    }
}

/// The walk to a leaf ends on a leaf and loses nothing: rebuilding from
/// where it ends yields the tree it started from.
pub proof fn lemma_nav_rebuild(t: Tree<Split>, cs: Seq<Crumb<Split>>, n: int)
    ensures
        nav_spec(t, cs, n).0 is Leaf,
        rebuild(nav_spec(t, cs, n).0, nav_spec(t, cs, n).1) == rebuild(t, cs),
        nav_spec(t, cs, n).1.len() >= cs.len(),
        nav_spec(t, cs, n).1.skip(nav_spec(t, cs, n).1.len() - cs.len()) == cs,
        t is Node ==> nav_spec(t, cs, n).1.len() > cs.len(),
    decreases t,
{
    match t {
        Tree::Leaf => {},
        Tree::Node(s, l, r) => {
            if (*l).leaf_count() > n {
                let cs2 = seq![Crumb::LeftCrumb(s, *r)] + cs;
                lemma_nav_rebuild(*l, cs2, n);
                assert(cs2.skip(1) =~= cs);
                assert(rebuild(*l, cs2) == rebuild(plug(*l, cs2[0]), cs));
                assert(plug(*l, cs2[0]) == t);
                let k = nav_spec(*l, cs2, n).1;
                assert(k.skip(k.len() - cs2.len()).skip(1) =~= k.skip(k.len() - cs.len()));
            } else {
                let cs2 = seq![Crumb::RightCrumb(s, *l)] + cs;
                lemma_nav_rebuild(*r, cs2, n - (*l).leaf_count());
                assert(cs2.skip(1) =~= cs);
                assert(plug(*r, cs2[0]) == t);
                let k = nav_spec(*r, cs2, n - (*l).leaf_count()).1;
                assert(k.skip(k.len() - cs2.len()).skip(1) =~= k.skip(k.len() - cs.len()));
            }
        },
    }
}

/// A cursor into a tree: the subtree in focus and the trail of crumbs back
/// to the root, innermost first.
#[derive(Debug)]
pub struct Zipper {
    tree: Tree<Split>,
    crumbs: Vec<Crumb<Split>>,
}

/// Copy a trail of crumbs.
fn clone_crumbs(v: &Vec<Crumb<Split>>) -> (r: Vec<Crumb<Split>>)
    ensures
        r@ == v@,
{
    let mut r: Vec<Crumb<Split>> = Vec::new();
    let mut i: usize = 0;
    while i < v.len()
        invariant
            i <= v@.len(),
            r@ == v@.subrange(0, i as int),
        decreases v@.len() - i,
    {
        r.push(v[i].clone());
        i = i + 1;
        proof {
            assert(v@.subrange(0, i as int) =~= v@.subrange(0, i - 1).push(v@[i - 1]));
        }
    }
    proof {
        assert(v@.subrange(0, v@.len() as int) =~= v@);
    }
    r
}

/// Copy a trail of crumbs without its innermost entry.
fn crumbs_tail(v: &Vec<Crumb<Split>>) -> (r: Vec<Crumb<Split>>)
    requires
        v@.len() >= 1,
    ensures
        r@ == v@.skip(1),
{
    let mut r: Vec<Crumb<Split>> = Vec::new();
    let mut i: usize = 1;
    while i < v.len()
        invariant
            1 <= i <= v@.len(),
            r@ == v@.subrange(1, i as int),
        decreases v@.len() - i,
    {
        r.push(v[i].clone());
        i = i + 1;
        proof {
            assert(v@.subrange(1, i as int) =~= v@.subrange(1, i - 1).push(v@[i - 1]));
        }
    }
    proof {
        assert(v@.subrange(1, v@.len() as int) =~= v@.skip(1));
    }
    r
}

impl Clone for Zipper {
    fn clone(&self) -> (res: Self)
        ensures
            res.focus() == self.focus(),
            res.trail() == self.trail(),
    {
        Zipper { tree: self.tree.clone(), crumbs: clone_crumbs(&self.crumbs) }
    }
}

impl Zipper {
    /// The subtree the cursor looks at.
    pub closed spec fn focus(self) -> Tree<Split> {
        self.tree
    }

    /// The crumbs back to the root, innermost first.
    pub closed spec fn trail(self) -> Seq<Crumb<Split>> {
        self.crumbs@
    }

    /// The whole tree this cursor is a position in.
    pub open spec fn rebuilt(self) -> Tree<Split> {
        rebuild(self.focus(), self.trail())
    }

    /// Prepend one element to a list.
    fn left_append<S>(x: S, v: Vec<S>) -> (r: Vec<S>)
        ensures
            r@ == seq![x] + v@,
    {
        let ghost v0 = v@;
        let mut r: Vec<S> = v;
        r.insert(0, x);
        proof {
            assert(r@ =~= seq![x] + v0);
        }
        r
    }

    /// A cursor at the root of `tree`, with nothing above it.
    pub fn from_tree(tree: Tree<Split>) -> (z: Zipper)
        ensures
            z.focus() == tree,
            z.trail() == Seq::<Crumb<Split>>::empty(),
    {
        Zipper { tree, crumbs: Vec::new() }
    }

    /// Step into the left child, recording the split and the right sibling.
    /// Not available on a leaf.
    pub fn go_left(&self) -> (r: Option<Zipper>)
        ensures
            match self.focus() {
                Tree::Leaf => r is None,
                Tree::Node(s, l, rr) => r matches Some(z) && z.focus() == *l && z.trail()
                    == seq![Crumb::LeftCrumb(s, *rr)] + self.trail(),
            },
    {
        match &self.tree {
            Tree::Leaf => None,
            Tree::Node(x, l, r) => Some(
                Zipper {
                    tree: (&**l).clone(),
                    crumbs: Self::left_append(
                        Crumb::LeftCrumb(*x, (&**r).clone()),
                        clone_crumbs(&self.crumbs),
                    ),
                },
            ),
        }
    }

    /// Step into the right child, recording the split and the left sibling.
    /// Not available on a leaf.
    pub fn go_right(&self) -> (r: Option<Zipper>)
        ensures
            match self.focus() {
                Tree::Leaf => r is None,
                Tree::Node(s, l, rr) => r matches Some(z) && z.focus() == *rr && z.trail()
                    == seq![Crumb::RightCrumb(s, *l)] + self.trail(),
            },
    {
        match &self.tree {
            Tree::Leaf => None,
            Tree::Node(x, l, r) => Some(
                Zipper {
                    tree: (&**r).clone(),
                    crumbs: Self::left_append(
                        Crumb::RightCrumb(*x, (&**l).clone()),
                        clone_crumbs(&self.crumbs),
                    ),
                },
            ),
        }
    }

    /// Step back to the parent, rebuilding its node from the focused subtree
    /// and the innermost crumb. Not available at the root.
    pub fn go_up(&self) -> (r: Option<Zipper>)
        ensures
            self.trail().len() == 0 ==> r is None,
            self.trail().len() > 0 ==> (r matches Some(z) && z.focus() == plug(
                self.focus(),
                self.trail()[0],
            ) && z.trail() == self.trail().skip(1)),
    {
        if self.crumbs.len() == 0 {
            None
        } else {
            let head = self.crumbs[0].clone();
            let rest = crumbs_tail(&self.crumbs);
            match head {
                Crumb::LeftCrumb(x, r) => Some(
                    Zipper {
                        tree: Tree::Node(x, Box::new(self.tree.clone()), Box::new(r)),
                        crumbs: rest,
                    },
                ),
                Crumb::RightCrumb(x, l) => Some(
                    Zipper {
                        tree: Tree::Node(x, Box::new(l), Box::new(self.tree.clone())),
                        crumbs: rest,
                    },
                ),
            }
        }
    }

    /// Step to the sibling of the focused subtree: up once, then down the
    /// other side. Not available at the root.
    pub fn go_sibling(&self) -> (r: Option<Zipper>)
        ensures
            self.trail().len() == 0 ==> r is None,
            self.trail().len() > 0 ==> (r matches Some(z) && z.focus() == self.trail()[0].sibling()
                && z.trail() == seq![
                match self.trail()[0] {
                    Crumb::LeftCrumb(s, _) => Crumb::RightCrumb(s, self.focus()),
                    Crumb::RightCrumb(s, _) => Crumb::LeftCrumb(s, self.focus()),
                },
            ] + self.trail().skip(1)),
    {
        if self.crumbs.len() == 0 {
            return None;
        }
        let up = self.go_up();
        match up {
            None => None,
            Some(z) => {
                match &self.crumbs[0] {
                    Crumb::LeftCrumb(_, _) => z.go_right(),
                    Crumb::RightCrumb(_, _) => z.go_left(),
                }
            },
        }
    }

    /// Walk down to the nth leaf in pre-order: descend left while the left
    /// subtree still holds more than n leaves, else descend right with n
    /// reduced by the leaves passed over. Landing on a leaf always succeeds;
    /// an n at or past the leaf count lands on the rightmost leaf.
    pub fn go_to_nth_leaf(&self, n: usize) -> (r: Option<Zipper>)
        requires
            self.focus().leaf_count() <= usize::MAX,
        ensures
            r matches Some(z) && (z.focus(), z.trail()) == nav_spec(
                self.focus(),
                self.trail(),
                n as int,
            ),
        decreases self.focus().leaf_count(),
    {
        match &self.tree {
            Tree::Leaf => Some(self.clone()),
            Tree::Node(_, l, rr) => {
                proof {
                    lemma_leaf_count_pos(**l);
                    lemma_leaf_count_pos(**rr);
                }
                if l.number_of_leaves() > n {
                    let z = self.go_left();
                    match z {
                        Some(z) => z.go_to_nth_leaf(n),
                        None => None,
                    }
                } else {
                    let k = l.number_of_leaves();
                    let z = self.go_right();
                    match z {
                        Some(z) => z.go_to_nth_leaf(n - k),
                        None => None,
                    }
                }
            },
        }
    }

    /// Walk all the way back up to the root.
    pub fn top(&self) -> (r: Zipper)
        ensures
            r.trail().len() == 0,
            r.focus() == self.rebuilt(),
        decreases self.trail().len(),
    {
        match self.go_up() {
            None => self.clone(),
            Some(z) => z.top(),
        }
    }

    /// The complete tree this cursor points into.
    pub fn to_tree(&self) -> (t: Tree<Split>)
        ensures
            t == self.rebuilt(),
    {
        self.top().tree
    }
}

/// The axis a split introduced at a cursor takes: the opposite of the
/// immediate parent's axis, or Vertical at the root.
pub open spec fn new_split_axis(cs: Seq<Crumb<Split>>) -> Axis {
    if cs.len() == 0 {
        Axis::Vertical
    } else {
        cs[0].parent_split().axis.flip()
    }
}

/// Can the innermost crumb absorb one growth step towards `dir`? True
/// exactly for the four direction/side/axis combinations where moving the
/// parent's ratio enlarges the cursor's side in that direction.
pub open spec fn expandable(dir: Direction, c: Crumb<Split>) -> bool {
    match (dir, c) {
        (Direction::Right, Crumb::LeftCrumb(s, _)) => s.axis == Axis::Vertical,
        (Direction::Left, Crumb::RightCrumb(s, _)) => s.axis == Axis::Vertical,
        (Direction::Down, Crumb::LeftCrumb(s, _)) => s.axis == Axis::Horizontal,
        (Direction::Up, Crumb::RightCrumb(s, _)) => s.axis == Axis::Horizontal,
        _ => false,
    }
}

/// What `is_all_the_way` returns: no crumb on the way to the root can
/// absorb a growth step towards `dir`, so the cursor already sits at the
/// screen edge in that direction.
pub open spec fn blocked_above(cs: Seq<Crumb<Split>>, dir: Direction) -> bool
    decreases cs.len(),
{
    if cs.len() == 0 {
        true
    } else if expandable(dir, cs[0]) {
        false
    } else {
        blocked_above(cs.skip(1), dir)
    }
}

/// One growth step towards `dir` applied to an expandable crumb: the ratio
/// moves one step, towards the cursor's side.
pub open spec fn bumped(c: Crumb<Split>, dir: Direction) -> Crumb<Split> {
    match (dir, c) {
        (Direction::Right, Crumb::LeftCrumb(s, t)) => Crumb::LeftCrumb(
            s.with_ratio_increased(RATIO_STEP),
            t,
        ),
        (Direction::Down, Crumb::LeftCrumb(s, t)) => Crumb::LeftCrumb(
            s.with_ratio_increased(RATIO_STEP),
            t,
        ),
        (Direction::Left, Crumb::RightCrumb(s, t)) => Crumb::RightCrumb(
            s.with_ratio_increased((-RATIO_STEP) as i32),
            t,
        ),
        (Direction::Up, Crumb::RightCrumb(s, t)) => Crumb::RightCrumb(
            s.with_ratio_increased((-RATIO_STEP) as i32),
            t,
        ),
        _ => c,
    }
}

/// Where `expand_towards` ends when some crumb can absorb the step: walk
/// up past the crumbs that cannot, then bump the first one that can.
pub open spec fn expand_spec(t: Tree<Split>, cs: Seq<Crumb<Split>>, dir: Direction) -> (
    Tree<Split>,
    Seq<Crumb<Split>>,
)
    decreases cs.len(),
{
    if cs.len() == 0 {
        (t, cs)
    } else if expandable(dir, cs[0]) {
        (t, seq![bumped(cs[0], dir)] + cs.skip(1))
    } else {
        expand_spec(plug(t, cs[0]), cs.skip(1), dir)
    }
}

/// The innermost crumb of the sibling cursor after the sibling has grown
/// one step away from `dir`: sides exchanged, the cursor's subtree `t`
/// stowed as the new sibling, and the ratio stepped so the cursor's side
/// shrinks.
pub open spec fn shrunk_crumb(c: Crumb<Split>, t: Tree<Split>, dir: Direction) -> Crumb<Split> {
    match (dir, c) {
        (Direction::Right, Crumb::LeftCrumb(s, _)) => Crumb::RightCrumb(
            s.with_ratio_increased((-RATIO_STEP) as i32),
            t,
        ),
        (Direction::Down, Crumb::LeftCrumb(s, _)) => Crumb::RightCrumb(
            s.with_ratio_increased((-RATIO_STEP) as i32),
            t,
        ),
        (Direction::Left, Crumb::RightCrumb(s, _)) => Crumb::LeftCrumb(
            s.with_ratio_increased(RATIO_STEP),
            t,
        ),
        (Direction::Up, Crumb::RightCrumb(s, _)) => Crumb::LeftCrumb(
            s.with_ratio_increased(RATIO_STEP),
            t,
        ),
        _ => c,
    }
}

/// Where `shrink_from` ends: walk up to the first crumb oriented for `dir`,
/// move to the sibling there, and grow it one step the other way.
pub open spec fn shrink_spec(t: Tree<Split>, cs: Seq<Crumb<Split>>, dir: Direction) -> (
    Tree<Split>,
    Seq<Crumb<Split>>,
)
    decreases cs.len(),
{
    if cs.len() == 0 {
        (t, cs)
    } else if expandable(dir, cs[0]) {
        (cs[0].sibling(), seq![shrunk_crumb(cs[0], t, dir)] + cs.skip(1))
    } else {
        shrink_spec(plug(t, cs[0]), cs.skip(1), dir)
    }
}

impl Crumb<Split> {
    /// The crumb with the parent split's axis toggled.
    pub open spec fn rotated(self) -> Crumb<Split> {
        self.with_parent_split(
            Split { axis: self.parent_split().axis.flip(), ratio: self.parent_split().ratio },
        )
    }
}

impl Zipper {
    /// Replace the focused leaf by a node with two fresh leaves. The new
    /// split takes the axis opposite to its parent's (Vertical at the root)
    /// and a ratio of one half. Not available on a node.
    pub fn split_current_leaf(&self) -> (r: Option<Zipper>)
        ensures
            self.focus() is Node ==> r is None,
            self.focus() is Leaf ==> (r matches Some(z) && z.focus() == Tree::<Split>::Node(
                Split { axis: new_split_axis(self.trail()), ratio: RATIO_HALF },
                Box::new(Tree::Leaf),
                Box::new(Tree::Leaf),
            ) && z.trail() == self.trail()),
    {
        match &self.tree {
            Tree::Leaf => {
                if self.crumbs.len() == 0 {
                    Some(
                        Zipper {
                            tree: Tree::Node(
                                Split::new(Axis::Vertical, RATIO_HALF),
                                Box::new(Tree::Leaf),
                                Box::new(Tree::Leaf),
                            ),
                            crumbs: Vec::new(),
                        },
                    )
                } else {
                    let head = self.crumbs[0].parent();
                    Some(
                        Zipper {
                            tree: Tree::Node(
                                Split::new(head.axis.opposite(), RATIO_HALF),
                                Box::new(Tree::Leaf),
                                Box::new(Tree::Leaf),
                            ),
                            crumbs: clone_crumbs(&self.crumbs),
                        },
                    )
                }
            },
            _ => None,
        }
    }

    /// Drop the focused leaf: the parent node collapses into the sibling
    /// stored in the innermost crumb. Not available on a node, nor on the
    /// sole leaf at the root.
    pub fn remove_current_leaf(&self) -> (r: Option<Zipper>)
        ensures
            self.focus() is Node ==> r is None,
            self.trail().len() == 0 ==> r is None,
            self.focus() is Leaf && self.trail().len() > 0 ==> (r matches Some(z) && z.focus()
                == self.trail()[0].sibling() && z.trail() == self.trail().skip(1)),
    {
        match &self.tree {
            Tree::Leaf => {
                if self.crumbs.len() == 0 {
                    None
                } else {
                    let rest = crumbs_tail(&self.crumbs);
                    match &self.crumbs[0] {
                        Crumb::LeftCrumb(_, r) => Some(Zipper { tree: r.clone(), crumbs: rest }),
                        Crumb::RightCrumb(_, l) => Some(Zipper { tree: l.clone(), crumbs: rest }),
                    }
                }
            },
            _ => None,
        }
    }

    /// Toggle the axis of the immediate parent's split, leaving everything
    /// else in place; at the root there is no parent and nothing changes.
    /// Not available on a node.
    pub fn rotate_current_leaf(&self) -> (r: Option<Zipper>)
        ensures
            self.focus() is Node ==> r is None,
            self.focus() is Leaf && self.trail().len() == 0 ==> (r matches Some(z) && z.focus()
                is Leaf && z.trail() == self.trail()),
            self.focus() is Leaf && self.trail().len() > 0 ==> (r matches Some(z) && z.focus()
                is Leaf && z.trail() == self.trail().update(0, self.trail()[0].rotated())),
    {
        match &self.tree {
            Tree::Leaf => {
                if self.crumbs.len() == 0 {
                    Some(Zipper { tree: Tree::Leaf, crumbs: Vec::new() })
                } else {
                    let head = match &self.crumbs[0] {
                        Crumb::LeftCrumb(s, t) => Crumb::LeftCrumb(s.opposite(), t.clone()),
                        Crumb::RightCrumb(s, t) => Crumb::RightCrumb(s.opposite(), t.clone()),
                    };
                    let crumbs = Self::left_append(head, crumbs_tail(&self.crumbs));
                    proof {
                        assert(seq![self.trail()[0].rotated()] + self.trail().skip(1)
                            =~= self.trail().update(0, self.trail()[0].rotated()));
                    }
                    Some(Zipper { tree: Tree::Leaf, crumbs })
                }
            },
            _ => None,
        }
    }

    /// Exchange the two children of the immediate parent, so the cursor's
    /// subtree changes sides; at the root nothing changes. Not available on
    /// a node.
    pub fn swap_current_leaf(&self) -> (r: Option<Zipper>)
        ensures
            self.focus() is Node ==> r is None,
            self.focus() is Leaf && self.trail().len() == 0 ==> (r matches Some(z) && z.focus()
                is Leaf && z.trail() == self.trail()),
            self.focus() is Leaf && self.trail().len() > 0 ==> (r matches Some(z) && z.focus()
                is Leaf && z.trail() == self.trail().update(0, self.trail()[0].swapped())),
    {
        match &self.tree {
            Tree::Leaf => {
                if self.crumbs.len() == 0 {
                    Some(Zipper { tree: Tree::Leaf, crumbs: Vec::new() })
                } else {
                    let head = self.crumbs[0].swap();
                    let crumbs = Self::left_append(head, crumbs_tail(&self.crumbs));
                    proof {
                        assert(seq![self.trail()[0].swapped()] + self.trail().skip(1)
                            =~= self.trail().update(0, self.trail()[0].swapped()));
                    }
                    Some(Zipper { tree: Tree::Leaf, crumbs })
                }
            },
            _ => None,
        }
    }

    /// Is the cursor already at the true screen edge in `dir`: does no
    /// ancestor split, walking towards the root, offer a legal growth step
    /// in that direction?
    pub fn is_all_the_way(&self, dir: Direction) -> (r: bool)
        ensures
            r == blocked_above(self.trail(), dir),
        decreases self.trail().len(),
    {
        if self.crumbs.len() == 0 {
            return true;
        }
        match (dir, &self.crumbs[0]) {
            (Direction::Right, Crumb::LeftCrumb(s, _)) if s.axis == Axis::Vertical => false,
            (Direction::Left, Crumb::RightCrumb(s, _)) if s.axis == Axis::Vertical => false,
            (Direction::Down, Crumb::LeftCrumb(s, _)) if s.axis == Axis::Horizontal => false,
            (Direction::Up, Crumb::RightCrumb(s, _)) if s.axis == Axis::Horizontal => false,
            _ => {
                match self.go_up() {
                    None => false,
                    Some(z) => z.is_all_the_way(dir),
                }
            },
        }
    }

    /// Grow the focused subtree's share of space towards `dir` by one ratio
    /// step at the first ancestor oriented to absorb it. Against the screen
    /// edge the step is refused; at the root, with no ancestor at all, it
    /// is refused too.
    pub fn expand_towards(&self, dir: Direction) -> (r: Option<Zipper>)
        ensures
            blocked_above(self.trail(), dir) ==> r is None,
            !blocked_above(self.trail(), dir) ==> (r matches Some(z) && (z.focus(), z.trail())
                == expand_spec(self.focus(), self.trail(), dir)),
        decreases self.trail().len(),
    {
        if self.is_all_the_way(dir) {
            return None;
        }
        match (dir, &self.crumbs[0]) {
            (Direction::Right, Crumb::LeftCrumb(s, t)) if s.axis == Axis::Vertical => Some(
                Zipper {
                    tree: self.tree.clone(),
                    crumbs: Self::left_append(
                        Crumb::LeftCrumb(s.increase_ratio(RATIO_STEP), t.clone()),
                        crumbs_tail(&self.crumbs),
                    ),
                },
            ),
            (Direction::Left, Crumb::RightCrumb(s, t)) if s.axis == Axis::Vertical => Some(
                Zipper {
                    tree: self.tree.clone(),
                    crumbs: Self::left_append(
                        Crumb::RightCrumb(s.increase_ratio(-RATIO_STEP), t.clone()),
                        crumbs_tail(&self.crumbs),
                    ),
                },
            ),
            (Direction::Down, Crumb::LeftCrumb(s, t)) if s.axis == Axis::Horizontal => Some(
                Zipper {
                    tree: self.tree.clone(),
                    crumbs: Self::left_append(
                        Crumb::LeftCrumb(s.increase_ratio(RATIO_STEP), t.clone()),
                        crumbs_tail(&self.crumbs),
                    ),
                },
            ),
            (Direction::Up, Crumb::RightCrumb(s, t)) if s.axis == Axis::Horizontal => Some(
                Zipper {
                    tree: self.tree.clone(),
                    crumbs: Self::left_append(
                        Crumb::RightCrumb(s.increase_ratio(-RATIO_STEP), t.clone()),
                        crumbs_tail(&self.crumbs),
                    ),
                },
            ),
            _ => {
                match self.go_up() {
                    None => None,
                    Some(z) => z.expand_towards(dir),
                }
            },
        }
    }

    /// Shrink the focused subtree from the side `dir` points at, by moving
    /// to the neighbour at the first suitably oriented ancestor and growing
    /// it one step the opposite way. At the root the cursor is returned
    /// unchanged.
    pub fn shrink_from(&self, dir: Direction) -> (r: Option<Zipper>)
        ensures
            r matches Some(z) && (z.focus(), z.trail()) == shrink_spec(
                self.focus(),
                self.trail(),
                dir,
            ),
        decreases self.trail().len(),
    {
        if self.crumbs.len() == 0 {
            return Some(self.clone());
        }
        let step_matches = match (dir, &self.crumbs[0]) {
            (Direction::Right, Crumb::LeftCrumb(s, _)) if s.axis == Axis::Vertical => true,
            (Direction::Left, Crumb::RightCrumb(s, _)) if s.axis == Axis::Vertical => true,
            (Direction::Down, Crumb::LeftCrumb(s, _)) if s.axis == Axis::Horizontal => true,
            (Direction::Up, Crumb::RightCrumb(s, _)) if s.axis == Axis::Horizontal => true,
            _ => false,
        };
        if step_matches {
            match self.go_sibling() {
                None => None,
                Some(z) => {
                    proof {
                        assert((seq![
                            match self.trail()[0] {
                                Crumb::LeftCrumb(s, _) => Crumb::RightCrumb(s, self.focus()),
                                Crumb::RightCrumb(s, _) => Crumb::LeftCrumb(s, self.focus()),
                            },
                        ] + self.trail().skip(1)).skip(1) =~= self.trail().skip(1));
                    }
                    z.expand_towards(dir.opposite())
                },
            }
        } else {
            match self.go_up() {
                None => None,
                Some(z) => z.shrink_from(dir),
            }
        }
    }
}

/// Replace the nth leaf (in pre-order, clamped to the rightmost) by a node
/// with two fresh leaves, half and half, on the axis opposite to its
/// parent's; a lone leaf splits vertically.
pub open spec fn split_at(t: Tree<Split>, n: int) -> Tree<Split>
    decreases t,
{
    match t {
        Tree::Leaf => Tree::Node(
            Split { axis: Axis::Vertical, ratio: RATIO_HALF },
            Box::new(Tree::Leaf),
            Box::new(Tree::Leaf),
        ),
        Tree::Node(s, l, r) => {
            if (*l).leaf_count() > n {
                if *l is Leaf {
                    Tree::Node(
                        s,
                        Box::new(
                            Tree::Node(
                                Split { axis: s.axis.flip(), ratio: RATIO_HALF },
                                Box::new(Tree::Leaf),
                                Box::new(Tree::Leaf),
                            ),
                        ),
                        r,
                    )
                } else {
                    Tree::Node(s, Box::new(split_at(*l, n)), r)
                }
            } else {
                if *r is Leaf {
                    Tree::Node(
                        s,
                        l,
                        Box::new(
                            Tree::Node(
                                Split { axis: s.axis.flip(), ratio: RATIO_HALF },
                                Box::new(Tree::Leaf),
                                Box::new(Tree::Leaf),
                            ),
                        ),
                    )
                } else {
                    Tree::Node(s, l, Box::new(split_at(*r, n - (*l).leaf_count())))
                }
            }
        },
    }
}

/// Drop the nth leaf (in pre-order, clamped to the rightmost): its parent
/// node collapses into the sibling subtree. A lone leaf stays.
pub open spec fn remove_at(t: Tree<Split>, n: int) -> Tree<Split>
    decreases t,
{
    match t {
        Tree::Leaf => Tree::Leaf,
        Tree::Node(s, l, r) => {
            if (*l).leaf_count() > n {
                if *l is Leaf {
                    *r
                } else {
                    Tree::Node(s, Box::new(remove_at(*l, n)), r)
                }
            } else {
                if *r is Leaf {
                    *l
                } else {
                    Tree::Node(s, l, Box::new(remove_at(*r, n - (*l).leaf_count())))
                }
            }
        },
    }
}

/// Toggle the axis of the split directly above the nth leaf (in pre-order,
/// clamped to the rightmost). A lone leaf stays.
pub open spec fn rotate_at(t: Tree<Split>, n: int) -> Tree<Split>
    decreases t,
{
    match t {
        Tree::Leaf => Tree::Leaf,
        Tree::Node(s, l, r) => {
            if (*l).leaf_count() > n {
                if *l is Leaf {
                    Tree::Node(Split { axis: s.axis.flip(), ratio: s.ratio }, l, r)
                } else {
                    Tree::Node(s, Box::new(rotate_at(*l, n)), r)
                }
            } else {
                if *r is Leaf {
                    Tree::Node(Split { axis: s.axis.flip(), ratio: s.ratio }, l, r)
                } else {
                    Tree::Node(s, l, Box::new(rotate_at(*r, n - (*l).leaf_count())))
                }
            }
        },
    }
}

/// Exchange the two children of the node directly above the nth leaf (in
/// pre-order, clamped to the rightmost). A lone leaf stays.
pub open spec fn swap_at(t: Tree<Split>, n: int) -> Tree<Split>
    decreases t,
{
    match t {
        Tree::Leaf => Tree::Leaf,
        Tree::Node(s, l, r) => {
            if (*l).leaf_count() > n {
                if *l is Leaf {
                    Tree::Node(s, r, l)
                } else {
                    Tree::Node(s, Box::new(swap_at(*l, n)), r)
                }
            } else {
                if *r is Leaf {
                    Tree::Node(s, r, l)
                } else {
                    Tree::Node(s, l, Box::new(swap_at(*r, n - (*l).leaf_count())))
                }
            }
        },
    }
}

/// Splitting a leaf adds exactly one leaf.
pub proof fn lemma_split_at_leaf_count(t: Tree<Split>, n: int)
    ensures
        split_at(t, n).leaf_count() == t.leaf_count() + 1,
    decreases t,
{
    assert(Tree::<Split>::Leaf.leaf_count() == 1);
    match t {
        Tree::Leaf => {
            assert(split_at(t, n).leaf_count() == 2);
        },
        Tree::Node(s, l, r) => {
            if (*l).leaf_count() > n {
                if *l is Leaf {
                    let nn = Tree::<Split>::Node(
                        Split { axis: s.axis.flip(), ratio: RATIO_HALF },
                        Box::new(Tree::Leaf),
                        Box::new(Tree::Leaf),
                    );
                    assert(nn.leaf_count() == 2);
                    assert(split_at(t, n) == Tree::<Split>::Node(s, Box::new(nn), r));
                } else {
                    lemma_split_at_leaf_count(*l, n);
                }
            } else {
                if *r is Leaf {
                    let nn = Tree::<Split>::Node(
                        Split { axis: s.axis.flip(), ratio: RATIO_HALF },
                        Box::new(Tree::Leaf),
                        Box::new(Tree::Leaf),
                    );
                    assert(nn.leaf_count() == 2);
                    assert(split_at(t, n) == Tree::<Split>::Node(s, l, Box::new(nn)));
                } else {
                    lemma_split_at_leaf_count(*r, n - (*l).leaf_count());
                }
            }
        },
    }
}

/// Removing a leaf from a proper tree takes exactly one leaf away.
pub proof fn lemma_remove_at_leaf_count(t: Tree<Split>, n: int)
    requires
        t is Node,
    ensures
        remove_at(t, n).leaf_count() == t.leaf_count() - 1,
    decreases t,
{
    assert(Tree::<Split>::Leaf.leaf_count() == 1);
    match t {
        Tree::Leaf => {},
        Tree::Node(s, l, r) => {
            lemma_leaf_count_pos(*l);
            lemma_leaf_count_pos(*r);
            if (*l).leaf_count() > n {
                if !(*l is Leaf) {
                    lemma_remove_at_leaf_count(*l, n);
                }
            } else {
                if !(*r is Leaf) {
                    lemma_remove_at_leaf_count(*r, n - (*l).leaf_count());
                }
            }
        },
    }
}

/// Rotating a split moves no leaves.
pub proof fn lemma_rotate_at_leaf_count(t: Tree<Split>, n: int)
    ensures
        rotate_at(t, n).leaf_count() == t.leaf_count(),
    decreases t,
{
    assert(Tree::<Split>::Leaf.leaf_count() == 1);
    match t {
        Tree::Leaf => {},
        Tree::Node(s, l, r) => {
            if (*l).leaf_count() > n {
                if !(*l is Leaf) {
                    lemma_rotate_at_leaf_count(*l, n);
                }
            } else {
                if !(*r is Leaf) {
                    lemma_rotate_at_leaf_count(*r, n - (*l).leaf_count());
                }
            }
        },
    }
}

/// Exchanging two children moves leaves around but loses none.
pub proof fn lemma_swap_at_leaf_count(t: Tree<Split>, n: int)
    ensures
        swap_at(t, n).leaf_count() == t.leaf_count(),
    decreases t,
{
    assert(Tree::<Split>::Leaf.leaf_count() == 1);
    match t {
        Tree::Leaf => {},
        Tree::Node(s, l, r) => {
            if (*l).leaf_count() > n {
                if !(*l is Leaf) {
                    lemma_swap_at_leaf_count(*l, n);
                }
            } else {
                if !(*r is Leaf) {
                    lemma_swap_at_leaf_count(*r, n - (*l).leaf_count());
                }
            }
        },
    }
}

/// Toggling the same split's axis twice restores the tree exactly.
pub proof fn lemma_rotate_at_involution(t: Tree<Split>, n: int)
    ensures
        rotate_at(rotate_at(t, n), n) == t,
    decreases t,
{
    assert(Tree::<Split>::Leaf.leaf_count() == 1);
    match t {
        Tree::Leaf => {},
        Tree::Node(s, l, r) => {
            if (*l).leaf_count() > n {
                if !(*l is Leaf) {
                    lemma_rotate_at_leaf_count(*l, n);
                    lemma_rotate_at_involution(*l, n);
                }
            } else {
                if !(*r is Leaf) {
                    lemma_rotate_at_leaf_count(*r, n - (*l).leaf_count());
                    lemma_rotate_at_involution(*r, n - (*l).leaf_count());
                }
            }
        },
    }
}

/// Splitting through the zipper equals `split_at`: navigate to the nth
/// leaf, put the fresh node there, and rebuild.
pub proof fn lemma_nav_split(t: Tree<Split>, cs: Seq<Crumb<Split>>, n: int)
    requires
        t is Node,
    ensures
        ({
            let (f, k) = nav_spec(t, cs, n);
            k.len() > cs.len() && rebuild(
                Tree::Node(
                    Split { axis: new_split_axis(k), ratio: RATIO_HALF },
                    Box::new(Tree::Leaf),
                    Box::new(Tree::Leaf),
                ),
                k,
            ) == rebuild(split_at(t, n), cs)
        }),
    decreases t,
{
    match t {
        Tree::Leaf => {},
        Tree::Node(s, l, r) => {
            if (*l).leaf_count() > n {
                let cs2 = seq![Crumb::LeftCrumb(s, *r)] + cs;
                assert(cs2.skip(1) =~= cs);
                if *l is Leaf {
                    assert(nav_spec(*l, cs2, n) == ((*l), cs2));
                    assert(nav_spec(t, cs, n) == ((*l), cs2));
                } else {
                    lemma_nav_split(*l, cs2, n);
                    assert(plug(split_at(*l, n), cs2[0]) == split_at(t, n));
                }
            } else {
                let cs2 = seq![Crumb::RightCrumb(s, *l)] + cs;
                let n2 = n - (*l).leaf_count();
                assert(cs2.skip(1) =~= cs);
                if *r is Leaf {
                    assert(nav_spec(*r, cs2, n2) == ((*r), cs2));
                    assert(nav_spec(t, cs, n) == ((*r), cs2));
                } else {
                    lemma_nav_split(*r, cs2, n2);
                    assert(plug(split_at(*r, n2), cs2[0]) == split_at(t, n));
                }
            }
        },
    }
}

/// Removing through the zipper equals `remove_at`: navigate to the nth
/// leaf, collapse into the stored sibling, and rebuild.
pub proof fn lemma_nav_remove(t: Tree<Split>, cs: Seq<Crumb<Split>>, n: int)
    requires
        t is Node,
    ensures
        ({
            let (f, k) = nav_spec(t, cs, n);
            k.len() > cs.len() && rebuild(k[0].sibling(), k.skip(1)) == rebuild(
                remove_at(t, n),
                cs,
            )
        }),
    decreases t,
{
    match t {
        Tree::Leaf => {},
        Tree::Node(s, l, r) => {
            if (*l).leaf_count() > n {
                let cs2 = seq![Crumb::LeftCrumb(s, *r)] + cs;
                assert(cs2.skip(1) =~= cs);
                if *l is Leaf {
                    assert(nav_spec(*l, cs2, n) == ((*l), cs2));
                    assert(nav_spec(t, cs, n) == ((*l), cs2));
                } else {
                    lemma_nav_remove(*l, cs2, n);
                    assert(plug(remove_at(*l, n), cs2[0]) == remove_at(t, n));
                }
            } else {
                let cs2 = seq![Crumb::RightCrumb(s, *l)] + cs;
                let n2 = n - (*l).leaf_count();
                assert(cs2.skip(1) =~= cs);
                if *r is Leaf {
                    assert(nav_spec(*r, cs2, n2) == ((*r), cs2));
                    assert(nav_spec(t, cs, n) == ((*r), cs2));
                } else {
                    lemma_nav_remove(*r, cs2, n2);
                    assert(plug(remove_at(*r, n2), cs2[0]) == remove_at(t, n));
                }
            }
        },
    }
}

/// Rotating through the zipper equals `rotate_at`: navigate to the nth
/// leaf, toggle the innermost crumb's split, and rebuild.
pub proof fn lemma_nav_rotate(t: Tree<Split>, cs: Seq<Crumb<Split>>, n: int)
    requires
        t is Node,
    ensures
        ({
            let (f, k) = nav_spec(t, cs, n);
            k.len() > cs.len() && rebuild(f, k.update(0, k[0].rotated())) == rebuild(
                rotate_at(t, n),
                cs,
            )
        }),
    decreases t,
{
    match t {
        Tree::Leaf => {},
        Tree::Node(s, l, r) => {
            if (*l).leaf_count() > n {
                let cs2 = seq![Crumb::LeftCrumb(s, *r)] + cs;
                assert(cs2.skip(1) =~= cs);
                if *l is Leaf {
                    assert(nav_spec(*l, cs2, n) == ((*l), cs2));
                    assert(nav_spec(t, cs, n) == ((*l), cs2));
                    assert(cs2.update(0, cs2[0].rotated()) =~= seq![cs2[0].rotated()] + cs);
                    assert((seq![cs2[0].rotated()] + cs).skip(1) =~= cs);
                } else {
                    lemma_nav_rotate(*l, cs2, n);
                    let k = nav_spec(*l, cs2, n).1;
                    assert(plug(rotate_at(*l, n), cs2[0]) == rotate_at(t, n));
                }
            } else {
                let cs2 = seq![Crumb::RightCrumb(s, *l)] + cs;
                let n2 = n - (*l).leaf_count();
                assert(cs2.skip(1) =~= cs);
                if *r is Leaf {
                    assert(nav_spec(*r, cs2, n2) == ((*r), cs2));
                    assert(nav_spec(t, cs, n) == ((*r), cs2));
                    assert(cs2.update(0, cs2[0].rotated()) =~= seq![cs2[0].rotated()] + cs);
                    assert((seq![cs2[0].rotated()] + cs).skip(1) =~= cs);
                } else {
                    lemma_nav_rotate(*r, cs2, n2);
                    assert(plug(rotate_at(*r, n2), cs2[0]) == rotate_at(t, n));
                }
            }
        },
    }
}

/// Swapping through the zipper equals `swap_at`: navigate to the nth leaf,
/// flip the innermost crumb's side, and rebuild.
pub proof fn lemma_nav_swap(t: Tree<Split>, cs: Seq<Crumb<Split>>, n: int)
    requires
        t is Node,
    ensures
        ({
            let (f, k) = nav_spec(t, cs, n);
            k.len() > cs.len() && rebuild(f, k.update(0, k[0].swapped())) == rebuild(
                swap_at(t, n),
                cs,
            )
        }),
    decreases t,
{
    match t {
        Tree::Leaf => {},
        Tree::Node(s, l, r) => {
            if (*l).leaf_count() > n {
                let cs2 = seq![Crumb::LeftCrumb(s, *r)] + cs;
                assert(cs2.skip(1) =~= cs);
                if *l is Leaf {
                    assert(nav_spec(*l, cs2, n) == ((*l), cs2));
                    assert(nav_spec(t, cs, n) == ((*l), cs2));
                    assert(cs2.update(0, cs2[0].swapped()) =~= seq![cs2[0].swapped()] + cs);
                    assert((seq![cs2[0].swapped()] + cs).skip(1) =~= cs);
                } else {
                    lemma_nav_swap(*l, cs2, n);
                    assert(plug(swap_at(*l, n), cs2[0]) == swap_at(t, n));
                }
            } else {
                let cs2 = seq![Crumb::RightCrumb(s, *l)] + cs;
                let n2 = n - (*l).leaf_count();
                assert(cs2.skip(1) =~= cs);
                if *r is Leaf {
                    assert(nav_spec(*r, cs2, n2) == ((*r), cs2));
                    assert(nav_spec(t, cs, n) == ((*r), cs2));
                    assert(cs2.update(0, cs2[0].swapped()) =~= seq![cs2[0].swapped()] + cs);
                    assert((seq![cs2[0].swapped()] + cs).skip(1) =~= cs);
                } else {
                    lemma_nav_swap(*r, cs2, n2);
                    assert(plug(swap_at(*r, n2), cs2[0]) == swap_at(t, n));
                }
            }
        },
    }
}

/// The rectangles a tree carves out of `rect`, one per leaf, in pre-order.
pub open spec fn tiles(t: Tree<Split>, rect: Rectangle) -> Seq<Rectangle>
    decreases t,
{
    match t {
        Tree::Leaf => seq![rect],
        Tree::Node(s, l, r) => tiles(*l, s.split_rects(rect).0) + tiles(
            *r,
            s.split_rects(rect).1,
        ),
    }
}

/// A tree carves out exactly one rectangle per leaf.
pub proof fn lemma_tiles_len(t: Tree<Split>, rect: Rectangle)
    ensures
        tiles(t, rect).len() == t.leaf_count(),
    decreases t,
{
    match t {
        Tree::Leaf => {},
        Tree::Node(s, l, r) => {
            lemma_tiles_len(*l, s.split_rects(rect).0);
            lemma_tiles_len(*r, s.split_rects(rect).1);
        },
    }
}

/// Cut a tree's rectangles out of `rect`.
fn tile_tree(t: &Tree<Split>, rect: Rectangle) -> (res: Vec<Rectangle>)
    ensures
        res@ == tiles(*t, rect),
    decreases t,
{
    match t {
        Tree::Leaf => {
            let mut v: Vec<Rectangle> = Vec::new();
            v.push(rect);
            v
        },
        Tree::Node(s, l, r) => {
            let (a, b) = s.split(rect);
            let mut la = tile_tree(l, a);
            let mut rb = tile_tree(r, b);
            la.append(&mut rb);
            la
        },
    }
}

/// The number of leaves of a possibly absent tree; absent means zero.
pub open spec fn opt_leaves(t: Option<Tree<Split>>) -> nat {
    match t {
        Option::None => 0,
        Option::Some(tt) => tt.leaf_count(),
    }
}

/// What `split_nth` does to the stored tree: an absent tree becomes a lone
/// leaf, any other splits at the nth leaf.
pub open spec fn split_opt(t: Option<Tree<Split>>, n: int) -> Option<Tree<Split>> {
    match t {
        Option::None => Option::Some(Tree::Leaf),
        Option::Some(tt) => Option::Some(split_at(tt, n)),
    }
}

/// What `remove_nth` does to the stored tree: an absent tree leaves
/// nothing, a lone leaf cannot be removed and stays, any other tree loses
/// its nth leaf.
pub open spec fn remove_opt(t: Option<Tree<Split>>, n: int) -> Option<Tree<Split>> {
    match t {
        Option::None => Option::None,
        Option::Some(tt) => if tt is Leaf {
            t
        } else {
            Option::Some(remove_at(tt, n))
        },
    }
}

/// What `rotate_nth` does to the stored tree.
pub open spec fn rotate_opt(t: Option<Tree<Split>>, n: int) -> Option<Tree<Split>> {
    match t {
        Option::None => Option::None,
        Option::Some(tt) => Option::Some(rotate_at(tt, n)),
    }
}

/// What `swap_nth` does to the stored tree.
pub open spec fn swap_opt(t: Option<Tree<Split>>, n: int) -> Option<Tree<Split>> {
    match t {
        Option::None => Option::None,
        Option::Some(tt) => Option::Some(swap_at(tt, n)),
    }
}

/// What `grow_nth_towards` does to the stored tree: walk to the nth leaf
/// and grow it one step towards `dir`; at the screen edge, and on a lone
/// leaf, nothing changes.
pub open spec fn grow_opt(t: Option<Tree<Split>>, dir: Direction, n: int) -> Option<
    Tree<Split>,
> {
    match t {
        Option::None => Option::None,
        Option::Some(tt) => if tt is Leaf {
            t
        } else {
            let (f, k) = nav_spec(tt, Seq::empty(), n);
            if blocked_above(k, dir) {
                t
            } else {
                let (f2, k2) = expand_spec(f, k, dir);
                Option::Some(rebuild(f2, k2))
            }
        },
    }
}

/// What `shrink_nth_from` does to the stored tree: walk to the nth leaf
/// and grow its neighbour one step the other way; on a lone leaf nothing
/// changes.
pub open spec fn shrink_opt(t: Option<Tree<Split>>, dir: Direction, n: int) -> Option<
    Tree<Split>,
> {
    match t {
        Option::None => Option::None,
        Option::Some(tt) => if tt is Leaf {
            t
        } else {
            let (f, k) = nav_spec(tt, Seq::empty(), n);
            let (f2, k2) = shrink_spec(f, k, dir);
            Option::Some(rebuild(f2, k2))
        },
    }
}

/// The partition of the screen: an optional tree of splits; an absent tree
/// means no window is managed yet. A value, never shared: every operation
/// returns a fresh partition.
#[derive(Debug, PartialEq, Eq)]
pub struct BinarySpacePartition {
    tree: Option<Tree<Split>>,
}

impl Clone for BinarySpacePartition {
    fn clone(&self) -> (res: Self)
        ensures
            res == *self,
    {
        BinarySpacePartition {
            tree: match &self.tree {
                Option::None => Option::None,
                Option::Some(t) => Option::Some(t.clone()),
            },
        }
    }
}

impl BinarySpacePartition {
    /// The stored tree, absent when no window is managed.
    pub closed spec fn tree_view(self) -> Option<Tree<Split>> {
        self.tree
    }

    /// How many leaves the stored tree has; zero when absent.
    pub open spec fn leaf_total(self) -> nat {
        opt_leaves(self.tree_view())
    }

    /// The partition fits the machine: its leaves are countable in a usize.
    pub open spec fn wf(self) -> bool {
        self.leaf_total() <= usize::MAX
    }

    /// A partition with no tree at all.
    pub fn empty() -> (r: BinarySpacePartition)
        ensures
            r.tree_view() is None,
    {
        BinarySpacePartition { tree: Option::None }
    }

    /// A partition holding exactly `tree`.
    pub fn make(tree: Tree<Split>) -> (r: BinarySpacePartition)
        ensures
            r.tree_view() == Option::Some(tree),
    {
        BinarySpacePartition { tree: Option::Some(tree) }
    }

    /// A cursor at the root of the stored tree, if any.
    pub fn make_zipper(&self) -> (r: Option<Zipper>)
        ensures
            self.tree_view() is None ==> r is None,
            self.tree_view() matches Some(t) ==> (r matches Some(z) && z.focus() == t
                && z.trail().len() == 0),
    {
        match &self.tree {
            Option::None => Option::None,
            Option::Some(t) => Option::Some(Zipper::from_tree(t.clone())),
        }
    }

    /// The number of managed regions: the leaf count of the stored tree.
    pub fn size(&self) -> (n: usize)
        requires
            self.wf(),
        ensures
            n == self.leaf_total(),
    {
        match &self.tree {
            Option::None => 0,
            Option::Some(t) => t.number_of_leaves(),
        }
    }

    /// The partition a cursor belongs to: rebuilt all the way to the root.
    pub fn from_zipper(zipper: Option<Zipper>) -> (r: BinarySpacePartition)
        ensures
            zipper is None ==> r.tree_view() is None,
            zipper matches Some(z) ==> r.tree_view() == Option::Some(z.rebuilt()),
    {
        match zipper {
            Option::None => BinarySpacePartition { tree: Option::None },
            Option::Some(z) => BinarySpacePartition { tree: Option::Some(z.to_tree()) },
        }
    }

    /// The rectangles of the stored tree, cut out of `rect` in pre-order;
    /// none when the tree is absent.
    pub open spec fn tiling(self, rect: Rectangle) -> Seq<Rectangle> {
        match self.tree_view() {
            Option::None => Seq::empty(),
            Option::Some(t) => tiles(t, rect),
        }
    }

    /// Tile `rect` by the stored tree: one rectangle per leaf, pre-order,
    /// left pieces before right pieces.
    pub fn rectangles(&self, rect: Rectangle) -> (res: Vec<Rectangle>)
        ensures
            res@ == self.tiling(rect),
    {
        match &self.tree {
            Option::None => Vec::new(),
            Option::Some(t) => tile_tree(t, rect),
        }
    }

    /// Walk to the nth leaf and hand the cursor to `f`; rebuild whatever
    /// cursor comes back. An absent tree, or a refusal by `f`, leaves no
    /// tree.
    pub fn do_to_nth<F: Fn(Zipper) -> Option<Zipper>>(&self, n: usize, f: F) -> (r:
        BinarySpacePartition)
        requires
            self.wf(),
            forall|z: Zipper| #[trigger] f.requires((z,)),
        ensures
            self.tree_view() is None ==> r.tree_view() is None,
            self.tree_view() matches Some(t) ==> exists|z: Zipper, r2: Option<Zipper>|
                {
                    &&& (z.focus(), z.trail()) == nav_spec(t, Seq::empty(), n as int)
                    &&& #[trigger] f.ensures((z,), r2)
                    &&& match r2 {
                        Option::None => r.tree_view() is None,
                        Option::Some(z2) => r.tree_view() == Option::Some(z2.rebuilt()),
                    }
                },
    {
        match self.make_zipper() {
            Option::None => BinarySpacePartition::from_zipper(Option::None),
            Option::Some(z) => {
                match z.go_to_nth_leaf(n) {
                    Option::None => BinarySpacePartition::from_zipper(Option::None),
                    Option::Some(z1) => BinarySpacePartition::from_zipper(f(z1)),
                }
            },
        }
    }

    /// Split the nth leaf in two; an absent tree becomes a lone leaf. The
    /// leaf count always grows by exactly one.
    pub fn split_nth(&self, n: usize) -> (r: BinarySpacePartition)
        requires
            self.wf(),
        ensures
            r.tree_view() == split_opt(self.tree_view(), n as int),
            r.leaf_total() == self.leaf_total() + 1,
    {
        proof {
            match self.tree_view() {
                Option::None => {},
                Option::Some(t) => {
                    lemma_split_at_leaf_count(t, n as int);
                },
            }
        }
        match &self.tree {
            Option::None => BinarySpacePartition::make(Tree::Leaf),
            Option::Some(t) => {
                proof {
                    lemma_nav_rebuild(*t, Seq::empty(), n as int);
                    if *t is Node {
                        lemma_nav_split(*t, Seq::empty(), n as int);
                    }
                }
                let z = Zipper::from_tree(t.clone());
                match z.go_to_nth_leaf(n) {
                    Option::None => BinarySpacePartition::from_zipper(Option::None),
                    Option::Some(z1) => BinarySpacePartition::from_zipper(
                        z1.split_current_leaf(),
                    ),
                }
            },
        }
    }

    /// Remove the nth leaf. An absent tree leaves nothing; the sole leaf
    /// at the root cannot be removed, so the partition is returned
    /// unchanged; any other tree shrinks by exactly one leaf.
    pub fn remove_nth(&self, n: usize) -> (r: BinarySpacePartition)
        requires
            self.wf(),
        ensures
            r.tree_view() == remove_opt(self.tree_view(), n as int),
            self.leaf_total() > 1 ==> r.leaf_total() == self.leaf_total() - 1,
            self.leaf_total() <= 1 ==> r.leaf_total() == self.leaf_total(),
    {
        proof {
            lemma_remove_opt_leaves(self.tree_view(), n as int);
        }
        match &self.tree {
            Option::None => BinarySpacePartition::empty(),
            Option::Some(t) => {
                match t {
                    Tree::Leaf => self.clone(),
                    _ => {
                        proof {
                            lemma_nav_rebuild(*t, Seq::empty(), n as int);
                            lemma_nav_remove(*t, Seq::empty(), n as int);
                        }
                        let z = Zipper::from_tree(t.clone());
                        match z.go_to_nth_leaf(n) {
                            Option::None => BinarySpacePartition::from_zipper(Option::None),
                            Option::Some(z1) => BinarySpacePartition::from_zipper(
                                z1.remove_current_leaf(),
                            ),
                        }
                    },
                }
            },
        }
    }

    /// Toggle the axis of the split directly above the nth leaf; a lone
    /// leaf and an absent tree are left as they are.
    pub fn rotate_nth(&self, n: usize) -> (r: BinarySpacePartition)
        requires
            self.wf(),
        ensures
            r.tree_view() == rotate_opt(self.tree_view(), n as int),
            r.leaf_total() == self.leaf_total(),
    {
        proof {
            match self.tree_view() {
                Option::None => {},
                Option::Some(t) => {
                    lemma_rotate_at_leaf_count(t, n as int);
                },
            }
        }
        match &self.tree {
            Option::None => BinarySpacePartition::empty(),
            Option::Some(t) => {
                match t {
                    Tree::Leaf => self.clone(),
                    _ => {
                        proof {
                            lemma_nav_rebuild(*t, Seq::empty(), n as int);
                            lemma_nav_rotate(*t, Seq::empty(), n as int);
                        }
                        let z = Zipper::from_tree(t.clone());
                        match z.go_to_nth_leaf(n) {
                            Option::None => BinarySpacePartition::from_zipper(Option::None),
                            Option::Some(z1) => BinarySpacePartition::from_zipper(
                                z1.rotate_current_leaf(),
                            ),
                        }
                    },
                }
            },
        }
    }

    /// Exchange the two children of the node directly above the nth leaf;
    /// a lone leaf and an absent tree are left as they are.
    pub fn swap_nth(&self, n: usize) -> (r: BinarySpacePartition)
        requires
            self.wf(),
        ensures
            r.tree_view() == swap_opt(self.tree_view(), n as int),
            r.leaf_total() == self.leaf_total(),
    {
        proof {
            match self.tree_view() {
                Option::None => {},
                Option::Some(t) => {
                    lemma_swap_at_leaf_count(t, n as int);
                },
            }
        }
        match &self.tree {
            Option::None => BinarySpacePartition::empty(),
            Option::Some(t) => {
                match t {
                    Tree::Leaf => self.clone(),
                    _ => {
                        proof {
                            lemma_nav_rebuild(*t, Seq::empty(), n as int);
                            lemma_nav_swap(*t, Seq::empty(), n as int);
                        }
                        let z = Zipper::from_tree(t.clone());
                        match z.go_to_nth_leaf(n) {
                            Option::None => BinarySpacePartition::from_zipper(Option::None),
                            Option::Some(z1) => BinarySpacePartition::from_zipper(
                                z1.swap_current_leaf(),
                            ),
                        }
                    },
                }
            },
        }
    }

    /// Grow the nth leaf's share of space towards `dir` by one ratio step.
    /// At the screen edge, on a lone leaf, and on an absent tree the
    /// partition is unchanged (an absent tree stays absent).
    pub fn grow_nth_towards(&self, dir: Direction, n: usize) -> (r: BinarySpacePartition)
        requires
            self.wf(),
        ensures
            r.tree_view() == grow_opt(self.tree_view(), dir, n as int),
            r.leaf_total() == self.leaf_total(),
    {
        match &self.tree {
            Option::None => BinarySpacePartition::empty(),
            Option::Some(t) => {
                match t {
                    Tree::Leaf => self.clone(),
                    _ => {
                        proof {
                            lemma_nav_rebuild(*t, Seq::empty(), n as int);
                            let (f, k) = nav_spec(*t, Seq::empty(), n as int);
                            lemma_expand_leaf_count(f, k, dir);
                        }
                        let z = Zipper::from_tree(t.clone());
                        match z.go_to_nth_leaf(n) {
                            Option::None => BinarySpacePartition::from_zipper(Option::None),
                            Option::Some(z1) => {
                                match z1.expand_towards(dir) {
                                    Option::None => self.clone(),
                                    Option::Some(z2) => BinarySpacePartition::from_zipper(
                                        Option::Some(z2),
                                    ),
                                }
                            },
                        }
                    },
                }
            },
        }
    }

    /// Shrink the nth leaf from the side `dir` points at, growing its
    /// neighbour one step the other way; a lone leaf and an absent tree
    /// are left as they are.
    pub fn shrink_nth_from(&self, dir: Direction, n: usize) -> (r: BinarySpacePartition)
        requires
            self.wf(),
        ensures
            r.tree_view() == shrink_opt(self.tree_view(), dir, n as int),
            r.leaf_total() == self.leaf_total(),
    {
        match &self.tree {
            Option::None => BinarySpacePartition::empty(),
            Option::Some(t) => {
                match t {
                    Tree::Leaf => self.clone(),
                    _ => {
                        proof {
                            lemma_nav_rebuild(*t, Seq::empty(), n as int);
                            let (f, k) = nav_spec(*t, Seq::empty(), n as int);
                            lemma_shrink_leaf_count(f, k, dir);
                        }
                        let z = Zipper::from_tree(t.clone());
                        match z.go_to_nth_leaf(n) {
                            Option::None => BinarySpacePartition::from_zipper(Option::None),
                            Option::Some(z1) => {
                                match z1.shrink_from(dir) {
                                    Option::None => BinarySpacePartition::from_zipper(
                                        Option::None,
                                    ),
                                    Option::Some(z2) => BinarySpacePartition::from_zipper(
                                        Option::Some(z2),
                                    ),
                                }
                            },
                        }
                    },
                }
            },
        }
    }
}

/// Growing a subtree's share moves ratios only: rebuilding after
/// `expand_spec` keeps every leaf.
pub proof fn lemma_expand_leaf_count(t: Tree<Split>, cs: Seq<Crumb<Split>>, dir: Direction)
    ensures
        ({
            let (f, k) = expand_spec(t, cs, dir);
            rebuild(f, k).leaf_count() == rebuild(t, cs).leaf_count()
        }),
    decreases cs.len(),
{
    if cs.len() == 0 {
    } else if expandable(dir, cs[0]) {
        let k = seq![bumped(cs[0], dir)] + cs.skip(1);
        assert(k.skip(1) =~= cs.skip(1));
        lemma_rebuild_leaf_count(t, k);
        lemma_rebuild_leaf_count(t, cs);
        assert(k[0].sibling() == cs[0].sibling());
    } else {
        lemma_expand_leaf_count(plug(t, cs[0]), cs.skip(1), dir);
        lemma_rebuild_leaf_count(t, cs);
        lemma_rebuild_leaf_count(plug(t, cs[0]), cs.skip(1));
    }
}

/// Shrinking moves the cursor to the neighbour and a ratio: rebuilding
/// after `shrink_spec` keeps every leaf.
pub proof fn lemma_shrink_leaf_count(t: Tree<Split>, cs: Seq<Crumb<Split>>, dir: Direction)
    ensures
        ({
            let (f, k) = shrink_spec(t, cs, dir);
            rebuild(f, k).leaf_count() == rebuild(t, cs).leaf_count()
        }),
    decreases cs.len(),
{
    if cs.len() == 0 {
    } else if expandable(dir, cs[0]) {
        let k = seq![shrunk_crumb(cs[0], t, dir)] + cs.skip(1);
        assert(k.skip(1) =~= cs.skip(1));
        lemma_rebuild_leaf_count(cs[0].sibling(), k);
        lemma_rebuild_leaf_count(t, cs);
        assert(k[0].sibling() == t);
    } else {
        lemma_shrink_leaf_count(plug(t, cs[0]), cs.skip(1), dir);
        lemma_rebuild_leaf_count(t, cs);
        lemma_rebuild_leaf_count(plug(t, cs[0]), cs.skip(1));
    }
}

/// Splitting always adds exactly one leaf, wherever the tree stood.
pub proof fn lemma_split_opt_leaves(t: Option<Tree<Split>>, n: int)
    ensures
        opt_leaves(split_opt(t, n)) == opt_leaves(t) + 1,
{
    assert(Tree::<Split>::Leaf.leaf_count() == 1);
    match t {
        Option::None => {},
        Option::Some(tt) => {
            lemma_split_at_leaf_count(tt, n);
        },
    }
}

/// Removing takes exactly one leaf away from a proper tree; an absent
/// tree and a lone leaf keep their count.
pub proof fn lemma_remove_opt_leaves(t: Option<Tree<Split>>, n: int)
    ensures
        opt_leaves(t) > 1 ==> opt_leaves(remove_opt(t, n)) == opt_leaves(t) - 1,
        opt_leaves(t) <= 1 ==> opt_leaves(remove_opt(t, n)) == opt_leaves(t),
{
    assert(Tree::<Split>::Leaf.leaf_count() == 1);
    match t {
        Option::None => {},
        Option::Some(tt) => {
            match tt {
                Tree::Leaf => {},
                Tree::Node(_, l, r) => {
                    lemma_leaf_count_pos(*l);
                    lemma_leaf_count_pos(*r);
                    lemma_remove_at_leaf_count(tt, n);
                },
            }
        },
    }
}

/// How far a tree still is from the target leaf count.
pub open spec fn sync_measure(t: Option<Tree<Split>>, l: nat) -> nat {
    if opt_leaves(t) < l {
        (l - opt_leaves(t)) as nat
    } else {
        (opt_leaves(t) - l) as nat
    }
}

/// Where the synchronizer ends: split at the fixed index `n` while the
/// tree has too few leaves, remove there while it has too many. Each step
/// moves the count by one, so for any target of at least one leaf the
/// walk ends after exactly the difference; a target of zero stops at the
/// lone leaf, which cannot be removed.
pub open spec fn sync_tree(t: Option<Tree<Split>>, l: nat, n: int) -> Option<Tree<Split>>
    decreases sync_measure(t, l),
    via sync_tree_decreases
{
    if opt_leaves(t) == l {
        t
    } else if opt_leaves(t) < l {
        sync_tree(split_opt(t, n), l, n)
    } else if opt_leaves(t) == 1 {
        t
    } else {
        sync_tree(remove_opt(t, n), l, n)
    }
}

#[via_fn]
proof fn sync_tree_decreases(t: Option<Tree<Split>>, l: nat, n: int) {
    if opt_leaves(t) < l {
        lemma_split_opt_leaves(t, n);
    } else if opt_leaves(t) > l {
        lemma_remove_opt_leaves(t, n);
    }
}

/// The synchronizer always reaches its target, for any target of at
/// least one leaf: the tree it ends with has exactly that many.
pub proof fn lemma_sync_tree_leaves(t: Option<Tree<Split>>, l: nat, n: int)
    requires
        l >= 1,
    ensures
        opt_leaves(sync_tree(t, l, n)) == l,
    decreases sync_measure(t, l),
{
    if opt_leaves(t) == l {
    } else if opt_leaves(t) < l {
        lemma_split_opt_leaves(t, n);
        lemma_sync_tree_leaves(split_opt(t, n), l, n);
    } else {
        lemma_remove_opt_leaves(t, n);
        lemma_sync_tree_leaves(remove_opt(t, n), l, n);
    }
}

impl BinarySpacePartition {
    /// Bring the stored tree to exactly `l` leaves by repeated splitting
    /// or removing at the fixed index `n`.
    fn synchronize(&self, l: usize, n: usize) -> (r: BinarySpacePartition)
        requires
            self.wf(),
            l >= 1,
        ensures
            r.tree_view() == sync_tree(self.tree_view(), l as nat, n as int),
            r.wf(),
        decreases sync_measure(self.tree_view(), l as nat),
    {
        let sz = self.size();
        if sz == l {
            self.clone()
        } else if sz < l {
            proof {
                lemma_split_opt_leaves(self.tree_view(), n as int);
            }
            let b = self.split_nth(n);
            b.synchronize(l, n)
        } else {
            proof {
                lemma_remove_opt_leaves(self.tree_view(), n as int);
            }
            let b = self.remove_nth(n);
            b.synchronize(l, n)
        }
    }

    /// The position of the focused window in the stack: how many windows
    /// stand before it.
    fn stack_index(s: &Stack) -> (r: usize)
        ensures
            r == s.focus_index(),
    {
        s.up.len()
    }

    /// One layout pass: bring the partition's leaf count to the stack's
    /// length, tile the screen, and pair windows with rectangles in stack
    /// order. An absent stack pairs nothing and touches nothing.
    pub fn layout_pass(&mut self, screen: Rectangle, stack: &Option<Stack>) -> (r: Vec<
        (Window, Rectangle),
    >)
        requires
            old(self).wf(),
        ensures
            final(self).wf(),
            stack is None ==> (r@.len() == 0 && final(self).tree_view() == old(self).tree_view()),
            stack matches Some(st) ==> ({
                let synced = sync_tree(
                    old(self).tree_view(),
                    st.flatten().len(),
                    st.focus_index(),
                );
                let rects = match synced {
                    Option::None => Seq::<Rectangle>::empty(),
                    Option::Some(t) => tiles(t, screen),
                };
                &&& final(self).tree_view() == synced
                &&& r@.len() == st.flatten().len()
                &&& forall|i: int|
                    0 <= i < r@.len() ==> r@[i] == (st.flatten()[i], rects[i])
            }),
    {
        match stack {
            Option::None => Vec::new(),
            Option::Some(st) => {
                let ws = st.integrate();
                let n = Self::stack_index(st);
                let bsp = self.synchronize(ws.len(), n);
                let rs = bsp.rectangles(screen);
                proof {
                    lemma_sync_tree_leaves(self.tree_view(), ws@.len(), n as int);
                    match bsp.tree_view() {
                        Option::None => {},
                        Option::Some(t) => {
                            lemma_tiles_len(t, screen);
                        },
                    }
                }
                self.tree = bsp.tree;
                let mut out: Vec<(Window, Rectangle)> = Vec::new();
                let mut i: usize = 0;
                while i < ws.len()
                    invariant
                        i <= ws@.len(),
                        rs@.len() == ws@.len(),
                        out@.len() == i as int,
                        forall|j: int| 0 <= j < i ==> out@[j] == (ws@[j], rs@[j]),
                    decreases ws@.len() - i,
                {
                    out.push((ws[i], rs[i]));
                    i = i + 1;
                }
                out
            },
        }
    }

    /// React to a structural message: resolve the current leaf from the
    /// stack and apply the matching tree edit. An absent stack, or a
    /// message that is not a tree edit, is not handled.
    pub fn handle_message(&mut self, message: LayoutMessage, stack: &Option<Stack>) -> (r:
        bool)
        requires
            old(self).wf(),
        ensures
            final(self).wf(),
            match message {
                LayoutMessage::TreeRotate => match stack {
                    Option::None => !r && final(self).tree_view() == old(self).tree_view(),
                    Option::Some(st) => r && final(self).tree_view() == rotate_opt(
                        old(self).tree_view(),
                        st.focus_index(),
                    ),
                },
                LayoutMessage::TreeSwap => match stack {
                    Option::None => !r && final(self).tree_view() == old(self).tree_view(),
                    Option::Some(st) => r && final(self).tree_view() == swap_opt(
                        old(self).tree_view(),
                        st.focus_index(),
                    ),
                },
                LayoutMessage::TreeExpandTowards(d) => match stack {
                    Option::None => !r && final(self).tree_view() == old(self).tree_view(),
                    Option::Some(st) => r && final(self).tree_view() == grow_opt(
                        old(self).tree_view(),
                        d,
                        st.focus_index(),
                    ),
                },
                LayoutMessage::TreeShrinkFrom(d) => match stack {
                    Option::None => !r && final(self).tree_view() == old(self).tree_view(),
                    Option::Some(st) => r && final(self).tree_view() == shrink_opt(
                        old(self).tree_view(),
                        d,
                        st.focus_index(),
                    ),
                },
                _ => !r && final(self).tree_view() == old(self).tree_view(),
            },
    {
        match message {
            LayoutMessage::TreeRotate => {
                match stack {
                    Option::Some(s) => {
                        let index = Self::stack_index(s);
                        let res = self.rotate_nth(index);
                        self.tree = res.tree;
                        true
                    },
                    Option::None => false,
                }
            },
            LayoutMessage::TreeSwap => {
                match stack {
                    Option::Some(s) => {
                        let index = Self::stack_index(s);
                        let res = self.swap_nth(index);
                        self.tree = res.tree;
                        true
                    },
                    Option::None => false,
                }
            },
            LayoutMessage::TreeExpandTowards(dir) => {
                match stack {
                    Option::Some(s) => {
                        let index = Self::stack_index(s);
                        let res = self.grow_nth_towards(dir, index);
                        self.tree = res.tree;
                        true
                    },
                    Option::None => false,
                }
            },
            LayoutMessage::TreeShrinkFrom(dir) => {
                match stack {
                    Option::Some(s) => {
                        let index = Self::stack_index(s);
                        let res = self.shrink_nth_from(dir, index);
                        self.tree = res.tree;
                        true
                    },
                    Option::None => false,
                }
            },
            _ => false,
        }
    }

    /// The fixed name of this layout.
    pub fn description(&self) -> (d: String)
        ensures
            d@ == "BSP"@,
    {
        "BSP".to_string()
    }

    /// A fresh, empty partition behind the layout interface.
    pub fn new() -> (r: Box<dyn Layout>) {
        Box::new(BinarySpacePartition::empty())
    }

    /// An independent copy with the same tree.
    pub fn copy(&self) -> (r: Box<dyn Layout>) {
        Box::new(self.clone())
    }
}

impl Layout for BinarySpacePartition {
    open spec fn valid(&self) -> bool {
        self.wf()
    }

    fn apply_layout(
        &mut self,
        screen: Rectangle,
        _config: &GeneralConfig,
        stack: &Option<Stack>,
    ) -> (r: Vec<(Window, Rectangle)>)
        ensures
            stack is None ==> (r@.len() == 0 && final(self).tree_view() == old(self).tree_view()),
            stack matches Some(st) ==> ({
                let synced = sync_tree(
                    old(self).tree_view(),
                    st.flatten().len(),
                    st.focus_index(),
                );
                let rects = match synced {
                    Option::None => Seq::<Rectangle>::empty(),
                    Option::Some(t) => tiles(t, screen),
                };
                &&& final(self).tree_view() == synced
                &&& r@.len() == st.flatten().len()
                &&& forall|i: int|
                    0 <= i < r@.len() ==> r@[i] == (st.flatten()[i], rects[i])
            }),
    {
        self.layout_pass(screen, stack)
    }

    fn apply_message(
        &mut self,
        message: LayoutMessage,
        stack: &Option<Stack>,
        _config: &GeneralConfig,
    ) -> (r: bool)
        ensures
            match message {
                LayoutMessage::TreeRotate => match stack {
                    Option::None => !r && final(self).tree_view() == old(self).tree_view(),
                    Option::Some(st) => r && final(self).tree_view() == rotate_opt(
                        old(self).tree_view(),
                        st.focus_index(),
                    ),
                },
                LayoutMessage::TreeSwap => match stack {
                    Option::None => !r && final(self).tree_view() == old(self).tree_view(),
                    Option::Some(st) => r && final(self).tree_view() == swap_opt(
                        old(self).tree_view(),
                        st.focus_index(),
                    ),
                },
                LayoutMessage::TreeExpandTowards(d) => match stack {
                    Option::None => !r && final(self).tree_view() == old(self).tree_view(),
                    Option::Some(st) => r && final(self).tree_view() == grow_opt(
                        old(self).tree_view(),
                        d,
                        st.focus_index(),
                    ),
                },
                LayoutMessage::TreeShrinkFrom(d) => match stack {
                    Option::None => !r && final(self).tree_view() == old(self).tree_view(),
                    Option::Some(st) => r && final(self).tree_view() == shrink_opt(
                        old(self).tree_view(),
                        d,
                        st.focus_index(),
                    ),
                },
                _ => !r && final(self).tree_view() == old(self).tree_view(),
            },
    {
        self.handle_message(message, stack)
    }

    fn description(&self) -> (d: String) {
        BinarySpacePartition::description(self)
    }

    fn unhook(&self, _stack: &Option<Stack>, _config: &GeneralConfig) {
    }
}

/// The area a list of rectangles covers, each counted once.
pub open spec fn area_sum(rs: Seq<Rectangle>) -> int
    decreases rs.len(),
{
    if rs.len() == 0 {
        0
    } else {
        rs[0].area() + area_sum(rs.skip(1))
    }
}

/// Area is additive over concatenation.
pub proof fn lemma_area_sum_concat(a: Seq<Rectangle>, b: Seq<Rectangle>)
    ensures
        area_sum(a + b) == area_sum(a) + area_sum(b),
    decreases a.len(),
{
    if a.len() == 0 {
        assert(a + b =~= b);
    } else {
        assert((a + b).skip(1) =~= a.skip(1) + b);
        lemma_area_sum_concat(a.skip(1), b);
    }
}

/// One split wastes nothing: the two pieces cover the rectangle's area
/// exactly, whatever the ratio.
pub proof fn lemma_split_areas(s: Split, r: Rectangle)
    ensures
        s.split_rects(r).0.area() + s.split_rects(r).1.area() == r.area(),
{
    match s.axis {
        Axis::Horizontal => {
            let c = s.cut(r.3);
            assert(0 <= c <= r.3);
            assert(r.2 * c + r.2 * (r.3 - c) == r.2 * r.3) by (nonlinear_arith);
        },
        Axis::Vertical => {
            let c = s.cut(r.2);
            assert(0 <= c <= r.2);
            assert(c * r.3 + (r.2 - c) * r.3 == r.2 * r.3) by (nonlinear_arith);
        },
    }
}

/// Tiling coverage: the rectangles a tree cuts out of `rect` cover its
/// area exactly, with no gap and no overlap, whatever the ratios.
pub proof fn lemma_tiles_area(t: Tree<Split>, rect: Rectangle)
    ensures
        area_sum(tiles(t, rect)) == rect.area(),
    decreases t,
{
    match t {
        Tree::Leaf => {
            assert(seq![rect].skip(1) =~= Seq::<Rectangle>::empty());
            assert(area_sum(Seq::<Rectangle>::empty()) == 0);
        },
        Tree::Node(s, l, r) => {
            let (a, b) = s.split_rects(rect);
            lemma_tiles_area(*l, a);
            lemma_tiles_area(*r, b);
            lemma_area_sum_concat(tiles(*l, a), tiles(*r, b));
            lemma_split_areas(s, rect);
        },
    }
}

/// Tiling coverage, at the partition: the rectangles of a stored tree
/// cover the screen's area exactly; an absent tree covers nothing.
pub proof fn lemma_tiling_area(b: BinarySpacePartition, rect: Rectangle)
    ensures
        b.tree_view() is Some ==> area_sum(b.tiling(rect)) == rect.area(),
        b.tree_view() is None ==> area_sum(b.tiling(rect)) == 0,
{
    match b.tree_view() {
        Option::None => {
            assert(area_sum(Seq::<Rectangle>::empty()) == 0);
        },
        Option::Some(t) => {
            lemma_tiles_area(t, rect);
        },
    }
}

/// Pre-order index stability: walking a cursor to any leaf and rebuilding
/// from where it lands yields the very tree the cursor started in.
pub proof fn lemma_nth_leaf_preserves_tree(t: Tree<Split>, cs: Seq<Crumb<Split>>, n: int)
    ensures
        ({
            let (f, k) = nav_spec(t, cs, n);
            rebuild(f, k) == rebuild(t, cs)
        }),
{
    lemma_nav_rebuild(t, cs, n);
}

/// Splitting a tree always yields a proper node.
pub proof fn lemma_split_at_is_node(t: Tree<Split>, n: int)
    ensures
        split_at(t, n) is Node,
{
    match t {
        Tree::Leaf => {},
        Tree::Node(s, l, r) => {},
    }
}

/// Removing the leaf a split just made collapses the fresh node back into
/// a leaf and touches nothing else: the tree comes back exactly.
pub proof fn lemma_remove_split_id(t: Tree<Split>, n: int)
    ensures
        remove_at(split_at(t, n), n) == t,
    decreases t,
{
    assert(Tree::<Split>::Leaf.leaf_count() == 1);
    match t {
        Tree::Leaf => {
            let g = Tree::<Split>::Node(
                Split { axis: Axis::Vertical, ratio: RATIO_HALF },
                Box::new(Tree::Leaf),
                Box::new(Tree::Leaf),
            );
            assert(split_at(t, n) == g);
            assert(remove_at(g, n) == t);
        },
        Tree::Node(s, l, r) => {
            if (*l).leaf_count() > n {
                if *l is Leaf {
                    let inner = Tree::<Split>::Node(
                        Split { axis: s.axis.flip(), ratio: RATIO_HALF },
                        Box::new(Tree::Leaf),
                        Box::new(Tree::Leaf),
                    );
                    assert(inner.leaf_count() == 2);
                    assert(split_at(t, n) == Tree::<Split>::Node(s, Box::new(inner), r));
                    assert(remove_at(inner, n) == Tree::<Split>::Leaf);
                } else {
                    lemma_split_at_leaf_count(*l, n);
                    lemma_split_at_is_node(*l, n);
                    lemma_remove_split_id(*l, n);
                }
            } else {
                let n2 = n - (*l).leaf_count();
                if *r is Leaf {
                    let inner = Tree::<Split>::Node(
                        Split { axis: s.axis.flip(), ratio: RATIO_HALF },
                        Box::new(Tree::Leaf),
                        Box::new(Tree::Leaf),
                    );
                    assert(inner.leaf_count() == 2);
                    assert(split_at(t, n) == Tree::<Split>::Node(s, l, Box::new(inner)));
                    assert(remove_at(inner, n2) == Tree::<Split>::Leaf);
                } else {
                    lemma_split_at_leaf_count(*r, n2);
                    lemma_split_at_is_node(*r, n2);
                    lemma_remove_split_id(*r, n2);
                }
            }
        },
    }
}

/// Split/remove inverse: on a partition that holds a tree, splitting at an
/// index and then removing at the same index restores the tree exactly,
/// structure, axes and ratios included.
pub proof fn lemma_split_remove_inverse(t: Option<Tree<Split>>, n: int)
    requires
        t is Some,
    ensures
        remove_opt(split_opt(t, n), n) == t,
{
    match t {
        Option::None => {},
        Option::Some(tt) => {
            lemma_split_at_is_node(tt, n);
            lemma_remove_split_id(tt, n);
        },
    }
}

/// Rotate idempotence: toggling the split above the same leaf twice
/// restores the tree exactly, leaves, ratios and all.
pub proof fn lemma_rotate_involution(t: Option<Tree<Split>>, n: int)
    ensures
        rotate_opt(rotate_opt(t, n), n) == t,
{
    match t {
        Option::None => {},
        Option::Some(tt) => {
            lemma_rotate_at_involution(tt, n);
        },
    }
}

} // verus!
