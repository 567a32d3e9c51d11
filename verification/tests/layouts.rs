use wtftw_contrib::avoid_struts_layout::{get_strut, AvoidStrutsLayout, Strut};
use wtftw_contrib::binary_space_partition::BinarySpacePartition;
use wtftw_contrib::center_layout::CenterLayout;
use wtftw_contrib::full_layout::FullLayout;
use wtftw_contrib::gap_layout::GapLayout;
use wtftw_contrib::layout::{
    mirror_rect, Direction, GeneralConfig, Layout, LayoutMessage, Rectangle, Stack,
};
use wtftw_contrib::layout_collection::LayoutCollection;
use wtftw_contrib::mirror_layout::MirrorLayout;
use wtftw_contrib::no_borders_layout::NoBordersLayout;
use wtftw_contrib::with_borders_layout::WithBordersLayout;

fn config() -> GeneralConfig {
    GeneralConfig { border_width: 0 }
}

fn two_windows() -> Option<Stack> {
    Some(Stack::new(7, vec![], vec![8]))
}

fn one_window() -> Option<Stack> {
    Some(Stack::new(7, vec![], vec![]))
}

#[test]
fn mirror_rect_reflects_at_the_diagonal() {
    assert_eq!(mirror_rect(&Rectangle(1, 2, 30, 40)), Rectangle(2, 1, 40, 30));
    assert_eq!(
        mirror_rect(&mirror_rect(&Rectangle(1, 2, 30, 40))),
        Rectangle(1, 2, 30, 40)
    );
}

#[test]
fn full_layout_gives_the_focus_everything() {
    let mut full = FullLayout;
    let pairs = full.apply_layout(Rectangle(0, 0, 800, 600), &config(), &two_windows());
    assert_eq!(pairs, vec![(7, Rectangle(0, 0, 800, 600))]);
    // the border is pushed outside the screen
    let wide = GeneralConfig { border_width: 2 };
    let pairs = full.apply_layout(Rectangle(0, 0, 800, 600), &wide, &one_window());
    assert_eq!(pairs, vec![(7, Rectangle(0, 0, 804, 604))]);
    assert!(full
        .apply_layout(Rectangle(0, 0, 800, 600), &config(), &None)
        .is_empty());
    assert_eq!(full.description(), "Full");
    assert!(!full.apply_message(LayoutMessage::Increase, &None, &config()));
}

#[test]
fn gap_layout_shaves_every_side() {
    let mut gapped = GapLayout::new(10, FullLayout);
    let pairs = gapped.apply_layout(Rectangle(0, 0, 800, 600), &config(), &one_window());
    assert_eq!(pairs, vec![(7, Rectangle(10, 10, 780, 580))]);
}

#[test]
fn gap_messages_move_the_gap() {
    let mut gapped = GapLayout::new(10, FullLayout);
    assert!(gapped.apply_message(LayoutMessage::IncreaseGap, &None, &config()));
    assert!(gapped.apply_message(LayoutMessage::IncreaseGap, &None, &config()));
    let pairs = gapped.apply_layout(Rectangle(0, 0, 800, 600), &config(), &one_window());
    assert_eq!(pairs, vec![(7, Rectangle(12, 12, 776, 576))]);
    assert!(gapped.apply_message(LayoutMessage::DecreaseGap, &None, &config()));
    let pairs = gapped.apply_layout(Rectangle(0, 0, 800, 600), &config(), &one_window());
    assert_eq!(pairs, vec![(7, Rectangle(11, 11, 778, 578))]);
    // an unrelated message falls through to the inner layout
    assert!(!gapped.apply_message(LayoutMessage::Increase, &None, &config()));
}

#[test]
fn with_borders_passes_geometry_through() {
    let mut bordered = WithBordersLayout::new(3, FullLayout);
    assert_eq!(bordered.border_for(), 3);
    let pairs = bordered.apply_layout(Rectangle(0, 0, 800, 600), &config(), &one_window());
    assert_eq!(pairs, vec![(7, Rectangle(0, 0, 800, 600))]);
    assert_eq!(bordered.description(), "Full");
}

#[test]
fn no_borders_is_a_zero_border() {
    let bare = NoBordersLayout::boxed_new(FullLayout);
    assert_eq!(bare.border_for(), 0);
}

#[test]
fn mirror_layout_reflects_the_inner_layout() {
    let mut mirrored = MirrorLayout::new(FullLayout);
    // the inner layout sees the reflected screen; reflecting its answer
    // lands back on the original
    let pairs = mirrored.apply_layout(Rectangle(0, 0, 800, 600), &config(), &one_window());
    assert_eq!(pairs, vec![(7, Rectangle(0, 0, 800, 600))]);
    let mut mirrored_bsp = MirrorLayout::new(BinarySpacePartition::empty());
    let pairs = mirrored_bsp.apply_layout(Rectangle(0, 0, 1200, 800), &config(), &two_windows());
    // a vertical split of the mirrored screen comes back horizontal
    assert_eq!(
        pairs,
        vec![
            (7, Rectangle(0, 0, 1200, 400)),
            (8, Rectangle(0, 400, 1200, 400)),
        ]
    );
}

#[test]
fn center_layout_floats_the_focus() {
    let mut centered = CenterLayout::boxed_new(FullLayout);
    let pairs = centered.apply_layout(Rectangle(0, 0, 1000, 500), &config(), &two_windows());
    // the focus floats on four fifths of the screen, offset by a tenth
    assert_eq!(pairs[0], (7, Rectangle(100, 50, 800, 400)));
    // the remaining window fills the screen behind it
    assert_eq!(pairs[1], (8, Rectangle(0, 0, 1000, 500)));
    // a lone window is not centered
    let pairs = centered.apply_layout(Rectangle(0, 0, 1000, 500), &config(), &one_window());
    assert_eq!(pairs, vec![(7, Rectangle(0, 0, 1000, 500))]);
}

#[test]
fn layout_collection_cycles() {
    let mut coll = LayoutCollection::boxed_new(vec![
        GapLayout::new(10, FullLayout),
        GapLayout::new(50, FullLayout),
    ]);
    let screen = Rectangle(0, 0, 800, 600);
    let pairs = coll.apply_layout(screen, &config(), &one_window());
    assert_eq!(pairs, vec![(7, Rectangle(10, 10, 780, 580))]);
    assert!(coll.apply_message(LayoutMessage::Next, &None, &config()));
    let pairs = coll.apply_layout(screen, &config(), &one_window());
    assert_eq!(pairs, vec![(7, Rectangle(50, 50, 700, 500))]);
    assert!(coll.apply_message(LayoutMessage::Prev, &None, &config()));
    let pairs = coll.apply_layout(screen, &config(), &one_window());
    assert_eq!(pairs, vec![(7, Rectangle(10, 10, 780, 580))]);
    // other messages reach the current layout
    assert!(coll.apply_message(LayoutMessage::IncreaseGap, &None, &config()));
    let pairs = coll.apply_layout(screen, &config(), &one_window());
    assert_eq!(pairs, vec![(7, Rectangle(11, 11, 778, 578))]);
}

#[test]
fn parse_partial_struts_keeps_nonzero_sides() {
    let struts = get_strut(Some(vec![5, 0, 7, 0, 1, 2, 3, 4, 5, 6, 7, 8]), None);
    assert_eq!(
        struts,
        vec![Strut(Direction::Left, 5, 1, 2), Strut(Direction::Up, 7, 5, 6)]
    );
    // anything but twelve numbers means no struts
    assert!(get_strut(Some(vec![5, 0, 7]), None).is_empty());
}

#[test]
fn parse_simple_struts_pads_the_spans() {
    let struts = get_strut(None, Some(vec![5, 6, 0, 0]));
    // the spans default to the whole side, smallest to largest
    assert_eq!(
        struts,
        vec![
            Strut(Direction::Left, 5, u64::MIN, u64::MAX),
            Strut(Direction::Right, 6, u64::MIN, u64::MAX),
        ]
    );
    assert!(get_strut(None, Some(vec![1, 2, 3])).is_empty());
    assert!(get_strut(None, None).is_empty());
}

#[test]
fn struts_shave_the_avoided_sides() {
    let avoiding = AvoidStrutsLayout::new(
        vec![Direction::Up, Direction::Left],
        FullLayout,
    );
    let struts = vec![
        Strut(Direction::Up, 20, 0, 100),
        Strut(Direction::Left, 10, 0, 100),
        // the bottom is not avoided: this strut is ignored
        Strut(Direction::Down, 50, 0, 100),
    ];
    let shaved = avoiding.apply_struts(Rectangle(0, 0, 800, 600), &struts);
    assert_eq!(shaved, Rectangle(10, 20, 790, 580));
}

#[test]
fn an_empty_collection_stays_quiet() {
    let mut coll = LayoutCollection::boxed_new(Vec::<FullLayout>::new());
    assert!(coll
        .apply_layout(Rectangle(0, 0, 800, 600), &config(), &one_window())
        .is_empty());
    // cycling is still consumed, there is just nothing to cycle to
    assert!(coll.apply_message(LayoutMessage::Next, &None, &config()));
    assert!(!coll.apply_message(LayoutMessage::Increase, &None, &config()));
    assert_eq!(coll.description(), "");
}
