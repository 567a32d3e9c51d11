use wtftw_contrib::binary_space_partition::{Axis, BinarySpacePartition, Crumb, Split, Tree};
use wtftw_contrib::layout::{Direction, LayoutMessage, Rectangle, Stack};

fn leaf() -> Tree<Split> {
    Tree::Leaf
}

fn node(s: Split, l: Tree<Split>, r: Tree<Split>) -> Tree<Split> {
    Tree::Node(s, Box::new(l), Box::new(r))
}

fn vsplit(ratio: i32) -> Split {
    Split::new(Axis::Vertical, ratio)
}

fn hsplit(ratio: i32) -> Split {
    Split::new(Axis::Horizontal, ratio)
}

fn stack_of(up: Vec<u64>, focus: u64, down: Vec<u64>) -> Stack {
    Stack::new(focus, up, down)
}

#[test]
fn axis_opposite_swaps() {
    assert!(Axis::Horizontal.opposite() == Axis::Vertical);
    assert!(Axis::Vertical.opposite() == Axis::Horizontal);
    assert!(Axis::Vertical.opposite().opposite() == Axis::Vertical);
}

#[test]
fn number_of_leaves_counts_leaves() {
    assert_eq!(leaf().number_of_leaves(), 1);
    let t = node(vsplit(50), node(hsplit(50), leaf(), leaf()), leaf());
    assert_eq!(t.number_of_leaves(), 3);
}

#[test]
fn split_vertical_halves() {
    let (a, b) = vsplit(50).split(Rectangle(0, 0, 1200, 800));
    assert_eq!(a, Rectangle(0, 0, 600, 800));
    assert_eq!(b, Rectangle(600, 0, 600, 800));
}

#[test]
fn split_horizontal_truncates() {
    // 801 * 50 / 100 truncates to 400
    let (a, b) = hsplit(50).split(Rectangle(0, 0, 1200, 801));
    assert_eq!(a, Rectangle(0, 0, 1200, 400));
    assert_eq!(b, Rectangle(0, 400, 1200, 401));
}

#[test]
fn split_degenerate_ratios_floor_at_zero() {
    // a negative ratio gives the first piece nothing
    let (a, b) = vsplit(-20).split(Rectangle(0, 0, 100, 50));
    assert_eq!(a, Rectangle(0, 0, 0, 50));
    assert_eq!(b, Rectangle(0, 0, 100, 50));
    // a ratio past one gives the first piece everything
    let (a, b) = vsplit(150).split(Rectangle(0, 0, 100, 50));
    assert_eq!(a, Rectangle(0, 0, 100, 50));
    assert_eq!(b, Rectangle(100, 0, 0, 50));
}

#[test]
fn split_pieces_cover_the_area() {
    for ratio in [-10, 0, 33, 37, 50, 99, 100, 260] {
        for (w, h) in [(1200u32, 800u32), (7, 13), (1, 1), (0, 9)] {
            let (a, b) = vsplit(ratio).split(Rectangle(3, 4, w, h));
            let area = |r: Rectangle| u64::from(r.2) * u64::from(r.3);
            assert_eq!(
                area(a) + area(b),
                u64::from(w) * u64::from(h),
                "ratio {ratio} size {w}x{h}"
            );
        }
    }
}

#[test]
fn increase_ratio_moves_the_ratio() {
    let s = vsplit(50).increase_ratio(5);
    assert_eq!(s.ratio, 55);
    assert_eq!(s.axis, Axis::Vertical);
    let s = s.increase_ratio(-10);
    assert_eq!(s.ratio, 45);
}

#[test]
fn split_opposite_flips_axis_only() {
    let s = vsplit(37).opposite();
    assert_eq!(s.axis, Axis::Horizontal);
    assert_eq!(s.ratio, 37);
}

#[test]
fn crumb_swap_parent_modify() {
    let c = Crumb::LeftCrumb(vsplit(50), leaf());
    assert!(matches!(c.swap(), Crumb::RightCrumb(_, _)));
    assert_eq!(c.parent(), vsplit(50));
    let m = c.modify_parent(|s| s.opposite());
    assert_eq!(m.parent(), hsplit(50));
    assert!(matches!(m, Crumb::LeftCrumb(_, _)));
}

#[test]
fn zipper_navigation_round_trip() {
    let t = node(vsplit(50), node(hsplit(50), leaf(), leaf()), leaf());
    let z = wtftw_contrib::binary_space_partition::Zipper::from_tree(t.clone());
    let left = z.go_left().unwrap();
    let back = left.go_up().unwrap();
    assert_eq!(back.to_tree(), t);
    let sib = left.go_sibling().unwrap();
    assert_eq!(sib.to_tree(), t);
    assert!(z.go_up().is_none());
    let at_leaf = z.go_to_nth_leaf(2).unwrap();
    assert!(at_leaf.go_left().is_none());
}

#[test]
fn nth_leaf_reconstructs_the_tree() {
    // walking to any leaf and folding back changes nothing
    let t = node(
        vsplit(30),
        node(hsplit(60), leaf(), node(vsplit(40), leaf(), leaf())),
        leaf(),
    );
    let z = wtftw_contrib::binary_space_partition::Zipper::from_tree(t.clone());
    for n in 0..4 {
        assert_eq!(z.go_to_nth_leaf(n).unwrap().to_tree(), t, "leaf {n}");
    }
}

#[test]
fn split_current_leaf_alternates_axes() {
    let z = wtftw_contrib::binary_space_partition::Zipper::from_tree(leaf());
    let s = z.split_current_leaf().unwrap();
    // a lone leaf splits vertically, half and half
    assert_eq!(s.to_tree(), node(vsplit(50), leaf(), leaf()));
    let deeper = s
        .go_to_nth_leaf(0)
        .unwrap()
        .split_current_leaf()
        .unwrap();
    // under a vertical parent the new split is horizontal
    assert_eq!(
        deeper.to_tree(),
        node(vsplit(50), node(hsplit(50), leaf(), leaf()), leaf())
    );
}

#[test]
fn remove_current_leaf_collapses_to_sibling() {
    let t = node(vsplit(50), node(hsplit(50), leaf(), leaf()), leaf());
    let z = wtftw_contrib::binary_space_partition::Zipper::from_tree(t);
    let r = z.go_to_nth_leaf(0).unwrap().remove_current_leaf().unwrap();
    assert_eq!(r.to_tree(), node(vsplit(50), leaf(), leaf()));
    // the sole leaf at the root cannot be removed
    let root = wtftw_contrib::binary_space_partition::Zipper::from_tree(leaf());
    assert!(root.remove_current_leaf().is_none());
}

#[test]
fn split_then_remove_is_identity_on_lone_leaf() {
    for i in [0usize, 1, 5] {
        let b = BinarySpacePartition::make(leaf());
        let grown = b.split_nth(i);
        assert_eq!(grown.size(), 2);
        let back = grown.remove_nth(i);
        assert_eq!(back, BinarySpacePartition::make(leaf()), "index {i}");
    }
}

#[test]
fn split_and_remove_change_size_by_one() {
    let empty = BinarySpacePartition::empty();
    assert_eq!(empty.size(), 0);
    let one = empty.split_nth(0);
    assert_eq!(one.size(), 1);
    let two = one.split_nth(0);
    assert_eq!(two.size(), 2);
    let three = two.split_nth(1);
    assert_eq!(three.size(), 3);
    assert_eq!(three.remove_nth(1).size(), 2);
    // the sole remaining leaf cannot be removed: a no-op
    assert_eq!(one.remove_nth(0).size(), 1);
}

#[test]
fn removing_the_sole_leaf_is_a_no_op() {
    let lone = BinarySpacePartition::make(leaf());
    for i in [0usize, 1, 7] {
        assert_eq!(lone.remove_nth(i), lone, "index {i}");
    }
}

#[test]
fn rotate_twice_restores_the_tree() {
    let t = node(vsplit(50), node(hsplit(35), leaf(), leaf()), leaf());
    for i in 0..3 {
        let b = BinarySpacePartition::make(t.clone());
        let once = b.rotate_nth(i);
        assert_eq!(once.rotate_nth(i), b, "index {i}");
    }
}

#[test]
fn rotate_toggles_the_parent_axis() {
    let b = BinarySpacePartition::make(node(vsplit(50), leaf(), leaf()));
    let rotated = b.rotate_nth(0);
    assert_eq!(
        rotated,
        BinarySpacePartition::make(node(hsplit(50), leaf(), leaf()))
    );
}

#[test]
fn swap_exchanges_children() {
    let inner = node(hsplit(50), leaf(), leaf());
    let b = BinarySpacePartition::make(node(vsplit(50), inner.clone(), leaf()));
    let swapped = b.swap_nth(2);
    assert_eq!(
        swapped,
        BinarySpacePartition::make(node(vsplit(50), leaf(), inner))
    );
}

#[test]
fn boundary_detection_on_one_vertical_split() {
    let t = node(vsplit(50), leaf(), leaf());
    let z = wtftw_contrib::binary_space_partition::Zipper::from_tree(t);
    let left_leaf = z.go_to_nth_leaf(0).unwrap();
    let right_leaf = z.go_to_nth_leaf(1).unwrap();
    // the left leaf sits at the screen's left edge
    assert!(left_leaf.is_all_the_way(Direction::Left));
    // but its right edge is the split: it can still grow right
    assert!(!left_leaf.is_all_the_way(Direction::Right));
    // mirrored for the right leaf
    assert!(right_leaf.is_all_the_way(Direction::Right));
    assert!(!right_leaf.is_all_the_way(Direction::Left));
    // no vertical split helps an up or down move
    assert!(left_leaf.is_all_the_way(Direction::Up));
    assert!(left_leaf.is_all_the_way(Direction::Down));
}

#[test]
fn grow_moves_the_ratio_one_step() {
    let b = BinarySpacePartition::make(node(vsplit(50), leaf(), leaf()));
    let grown = b.grow_nth_towards(Direction::Right, 0);
    assert_eq!(
        grown,
        BinarySpacePartition::make(node(vsplit(55), leaf(), leaf()))
    );
    let shrunk = b.grow_nth_towards(Direction::Left, 1);
    assert_eq!(
        shrunk,
        BinarySpacePartition::make(node(vsplit(45), leaf(), leaf()))
    );
}

#[test]
fn grow_at_the_screen_edge_changes_nothing() {
    let b = BinarySpacePartition::make(node(vsplit(50), leaf(), leaf()));
    assert_eq!(b.grow_nth_towards(Direction::Right, 1), b);
    assert_eq!(b.grow_nth_towards(Direction::Up, 0), b);
    // at the root there is no ancestor to absorb the step
    let root = wtftw_contrib::binary_space_partition::Zipper::from_tree(leaf());
    assert!(root.expand_towards(Direction::Right).is_none());
}

#[test]
fn shrink_grows_the_neighbour_the_other_way() {
    let b = BinarySpacePartition::make(node(vsplit(50), leaf(), leaf()));
    // shrinking the left leaf from the right pulls the split left
    let shrunk = b.shrink_nth_from(Direction::Right, 0);
    assert_eq!(
        shrunk,
        BinarySpacePartition::make(node(vsplit(45), leaf(), leaf()))
    );
}

#[test]
fn rectangles_tile_in_pre_order() {
    let t = node(vsplit(50), node(hsplit(50), leaf(), leaf()), leaf());
    let b = BinarySpacePartition::make(t);
    let rs = b.rectangles(Rectangle(0, 0, 1200, 800));
    assert_eq!(
        rs,
        vec![
            Rectangle(0, 0, 600, 400),
            Rectangle(0, 400, 600, 400),
            Rectangle(600, 0, 600, 800),
        ]
    );
    assert!(BinarySpacePartition::empty()
        .rectangles(Rectangle(0, 0, 10, 10))
        .is_empty());
}

#[test]
fn tiling_covers_the_screen_with_uneven_ratios() {
    let t = node(
        vsplit(37),
        node(hsplit(61), leaf(), node(vsplit(13), leaf(), leaf())),
        node(hsplit(88), leaf(), leaf()),
    );
    let rs = BinarySpacePartition::make(t).rectangles(Rectangle(0, 0, 1201, 799));
    let total: u64 = rs.iter().map(|r| u64::from(r.2) * u64::from(r.3)).sum();
    assert_eq!(total, 1201 * 799);
}

#[test]
fn stack_integrate_keeps_screen_order() {
    // `up` is stored nearest-first: it comes back reversed
    let s = stack_of(vec![2, 1], 3, vec![4, 5]);
    assert_eq!(s.integrate(), vec![1, 2, 3, 4, 5]);
    assert_eq!(s.len(), 5);
}

#[test]
fn layout_pass_on_three_windows() {
    let mut b = BinarySpacePartition::empty();
    let stack = Some(stack_of(vec![], 10, vec![20, 30]));
    let pairs = b.layout_pass(Rectangle(0, 0, 1200, 800), &stack);
    assert_eq!(b.size(), 3);
    assert_eq!(
        pairs,
        vec![
            (10, Rectangle(0, 0, 600, 400)),
            (20, Rectangle(0, 400, 600, 400)),
            (30, Rectangle(600, 0, 600, 800)),
        ]
    );
    let total: u64 = pairs.iter().map(|(_, r)| u64::from(r.2) * u64::from(r.3)).sum();
    assert_eq!(total, 1200 * 800);
}

#[test]
fn layout_pass_shrinks_back_down() {
    let mut b = BinarySpacePartition::empty();
    let five = Some(stack_of(vec![], 1, vec![2, 3, 4, 5]));
    b.layout_pass(Rectangle(0, 0, 1000, 1000), &five);
    assert_eq!(b.size(), 5);
    let two = Some(stack_of(vec![1], 2, vec![]));
    let pairs = b.layout_pass(Rectangle(0, 0, 1000, 1000), &two);
    assert_eq!(b.size(), 2);
    assert_eq!(pairs.len(), 2);
    assert_eq!(pairs[0].0, 1);
    assert_eq!(pairs[1].0, 2);
}

#[test]
fn layout_pass_without_a_stack_does_nothing() {
    let mut b = BinarySpacePartition::make(node(vsplit(50), leaf(), leaf()));
    let before = b.clone();
    let pairs = b.layout_pass(Rectangle(0, 0, 100, 100), &None);
    assert!(pairs.is_empty());
    assert_eq!(b, before);
}

#[test]
fn messages_resolve_the_focused_leaf() {
    let mut b = BinarySpacePartition::make(node(vsplit(50), leaf(), leaf()));
    let stack = Some(stack_of(vec![], 1, vec![2]));
    // rotating the first leaf's parent turns the split horizontal
    assert!(b.handle_message(LayoutMessage::TreeRotate, &stack));
    assert_eq!(b, BinarySpacePartition::make(node(hsplit(50), leaf(), leaf())));
    assert!(b.handle_message(LayoutMessage::TreeRotate, &stack));
    assert_eq!(b, BinarySpacePartition::make(node(vsplit(50), leaf(), leaf())));
    // growing the focused leaf rightwards moves the ratio
    assert!(b.handle_message(
        LayoutMessage::TreeExpandTowards(Direction::Right),
        &stack
    ));
    assert_eq!(b, BinarySpacePartition::make(node(vsplit(55), leaf(), leaf())));
    assert!(b.handle_message(LayoutMessage::TreeShrinkFrom(Direction::Right), &stack));
    assert_eq!(b, BinarySpacePartition::make(node(vsplit(50), leaf(), leaf())));
}

#[test]
fn messages_without_a_stack_are_unhandled() {
    let mut b = BinarySpacePartition::make(node(vsplit(50), leaf(), leaf()));
    let before = b.clone();
    assert!(!b.handle_message(LayoutMessage::TreeRotate, &None));
    assert!(!b.handle_message(LayoutMessage::Next, &Some(stack_of(vec![], 1, vec![]))));
    assert_eq!(b, before);
}

#[test]
fn swap_message_exchanges_the_focused_pane() {
    let inner = node(hsplit(50), leaf(), leaf());
    let mut b = BinarySpacePartition::make(node(vsplit(50), inner.clone(), leaf()));
    // focus on the third leaf: its parent is the root
    let stack = Some(stack_of(vec![2, 1], 3, vec![]));
    assert!(b.handle_message(LayoutMessage::TreeSwap, &stack));
    assert_eq!(
        b,
        BinarySpacePartition::make(node(vsplit(50), leaf(), inner))
    );
}

#[test]
fn description_is_bsp() {
    let b = BinarySpacePartition::empty();
    assert_eq!(b.description(), "BSP");
}

#[test]
fn make_zipper_and_from_zipper_round_trip() {
    let t = node(vsplit(50), leaf(), leaf());
    let b = BinarySpacePartition::make(t);
    let z = b.make_zipper().unwrap();
    assert_eq!(BinarySpacePartition::from_zipper(Some(z)), b);
    assert!(BinarySpacePartition::empty().make_zipper().is_none());
    assert_eq!(
        BinarySpacePartition::from_zipper(None),
        BinarySpacePartition::empty()
    );
}

#[test]
fn do_to_nth_applies_the_edit() {
    let b = BinarySpacePartition::make(node(vsplit(50), leaf(), leaf()));
    let rotated = b.do_to_nth(0, |z| z.rotate_current_leaf());
    assert_eq!(
        rotated,
        BinarySpacePartition::make(node(hsplit(50), leaf(), leaf()))
    );
    let refused = b.do_to_nth(0, |_| None);
    assert_eq!(refused, BinarySpacePartition::empty());
}

#[test]
fn indexes_past_the_last_leaf_land_on_the_rightmost() {
    let t = node(vsplit(50), leaf(), node(hsplit(50), leaf(), leaf()));
    let z = wtftw_contrib::binary_space_partition::Zipper::from_tree(t.clone());
    // walking to leaf 99 of a three-leaf tree stops at the last leaf
    assert_eq!(z.go_to_nth_leaf(99).unwrap().to_tree(), t);
    let b = BinarySpacePartition::make(t);
    let grown = b.split_nth(99);
    assert_eq!(grown.size(), 4);
    // the rightmost leaf was the one split: under a horizontal parent the
    // new split is vertical
    assert_eq!(
        grown,
        BinarySpacePartition::make(node(
            vsplit(50),
            leaf(),
            node(hsplit(50), leaf(), node(vsplit(50), leaf(), leaf())),
        ))
    );
}

#[test]
fn operations_on_an_absent_tree() {
    let empty = BinarySpacePartition::empty();
    assert_eq!(empty.remove_nth(0), BinarySpacePartition::empty());
    assert_eq!(empty.rotate_nth(0), BinarySpacePartition::empty());
    assert_eq!(empty.swap_nth(0), BinarySpacePartition::empty());
    assert_eq!(
        empty.grow_nth_towards(Direction::Right, 0),
        BinarySpacePartition::empty()
    );
    assert_eq!(
        empty.shrink_nth_from(Direction::Left, 0),
        BinarySpacePartition::empty()
    );
    assert_eq!(empty.split_nth(0).size(), 1);
}
