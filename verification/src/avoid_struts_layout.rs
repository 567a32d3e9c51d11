//! A decorator that keeps windows clear of dock-like neighbours: struts
//! reported by such windows shave the matching edge off the screen before
//! the inner layout runs.

use vstd::prelude::*;

use crate::layout::Direction;
use crate::layout::GeneralConfig;
use crate::layout::Layout;
use crate::layout::LayoutMessage;
use crate::layout::Rectangle;
use crate::layout::Stack;
use crate::layout::Window;

verus! {

/// One reserved screen edge: the side it claims, its depth, and the span
/// it covers along that side.
#[derive(Clone, Copy, Debug, PartialEq, Eq, Structural)]
pub struct Strut(pub Direction, pub u64, pub u64, pub u64);

/// Relies on num_traits::Bounded::min_value for u64: the smallest u64.
#[verifier::external_body]
fn u64_lower_bound() -> (r: u64)
    ensures
        r == u64::MIN,
{
    <u64 as num_traits::Bounded>::min_value()
}

/// Relies on num_traits::Bounded::max_value for u64: the largest u64.
#[verifier::external_body]
fn u64_upper_bound() -> (r: u64)
    ensures
        r == u64::MAX,
{
    <u64 as num_traits::Bounded>::max_value()
}

/// What a twelve-number strut property means: a strut per side, in the
/// order left, right, top, bottom, each with its span, keeping only the
/// sides whose depth is not zero. Anything but twelve numbers means none.
pub open spec fn parsed_struts(x: Seq<u64>) -> Seq<Strut> {
    if x.len() != 12 {
        Seq::empty()
    } else {
        (if x[0] != 0 {
            seq![Strut(Direction::Left, x[0], x[4], x[5])]
        } else {
            Seq::empty()
        }) + (if x[1] != 0 {
            seq![Strut(Direction::Right, x[1], x[6], x[7])]
        } else {
            Seq::empty()
        }) + (if x[2] != 0 {
            seq![Strut(Direction::Up, x[2], x[8], x[9])]
        } else {
            Seq::empty()
        }) + (if x[3] != 0 {
            seq![Strut(Direction::Down, x[3], x[10], x[11])]
        } else {
            Seq::empty()
        })
    }
}

/// A four-number strut property padded out to the twelve-number form: the
/// spans default to the whole side, from the smallest u64 to the largest.
pub open spec fn padded_strut_numbers(x: Seq<u64>) -> Seq<u64> {
    x + seq![
        u64::MIN,
        u64::MAX,
        u64::MIN,
        u64::MAX,
        u64::MIN,
        u64::MAX,
        u64::MIN,
        u64::MAX,
    ]
}

/// Read a twelve-number partial strut property.
fn parse_strut_partial(x: Vec<u64>) -> (r: Vec<Strut>)
    ensures
        r@ == parsed_struts(x@),
{
    let mut r: Vec<Strut> = Vec::new();
    if x.len() != 12 {
        return r;
    }
    if x[0] != 0 {
        r.push(Strut(Direction::Left, x[0], x[4], x[5]));
    }
    if x[1] != 0 {
        r.push(Strut(Direction::Right, x[1], x[6], x[7]));
    }
    if x[2] != 0 {
        r.push(Strut(Direction::Up, x[2], x[8], x[9]));
    }
    if x[3] != 0 {
        r.push(Strut(Direction::Down, x[3], x[10], x[11]));
    }
    proof {
        assert(r@ =~= parsed_struts(x@));
    }
    r
}

/// Read a four-number strut property by padding it out to twelve numbers.
fn parse_strut(x: Vec<u64>) -> (r: Vec<Strut>)
    ensures
        x@.len() == 4 ==> r@ == parsed_struts(padded_strut_numbers(x@)),
        x@.len() != 4 ==> r@.len() == 0,
{
    if x.len() != 4 {
        return Vec::new();
    }
    let lo = u64_lower_bound();
    let hi = u64_upper_bound();
    let ghost x0 = x@;
    let mut padded = x;
    padded.push(lo);
    padded.push(hi);
    padded.push(lo);
    padded.push(hi);
    padded.push(lo);
    padded.push(hi);
    padded.push(lo);
    padded.push(hi);
    proof {
        assert(padded@ =~= padded_strut_numbers(x0));
    }
    parse_strut_partial(padded)
}

/// What a strut does to the screen when its side is avoided: the claimed
/// depth, truncated to the rectangle's resolution, comes off that side.
/// The arithmetic wraps rather than stopping when a strut claims more than
/// the screen holds, as the host's does.
pub open spec fn strut_shrunk(r: Rectangle, s: Strut) -> Rectangle {
    let amt = s.1 as u32;
    match s.0 {
        Direction::Up => Rectangle(
            r.0,
            vstd::wrapping::i32_specs::wrapping_add_unsigned(r.1, amt),
            r.2,
            vstd::wrapping::u32_specs::wrapping_sub(r.3, amt),
        ),
        Direction::Down => Rectangle(
            r.0,
            r.1,
            r.2,
            vstd::wrapping::u32_specs::wrapping_sub(r.3, amt),
        ),
        Direction::Left => Rectangle(
            vstd::wrapping::i32_specs::wrapping_add_unsigned(r.0, amt),
            r.1,
            vstd::wrapping::u32_specs::wrapping_sub(r.2, amt),
            r.3,
        ),
        Direction::Right => Rectangle(
            r.0,
            r.1,
            vstd::wrapping::u32_specs::wrapping_sub(r.2, amt),
            r.3,
        ),
    }
}

/// The screen after every strut whose side is among `dirs` has shaved its
/// edge, first strut first.
pub open spec fn screen_after_struts(
    r: Rectangle,
    struts: Seq<Strut>,
    dirs: Seq<Direction>,
) -> Rectangle
    decreases struts.len(),
{
    if struts.len() == 0 {
        r
    } else {
        screen_after_struts(
            if dirs.contains(struts[0].0) {
                strut_shrunk(r, struts[0])
            } else {
                r
            },
            struts.skip(1),
            dirs,
        )
    }
}

/// Is `d` among the avoided sides?
fn dir_in(v: &Vec<Direction>, d: Direction) -> (r: bool)
    ensures
        r == v@.contains(d),
{
    let mut i: usize = 0;
    while i < v.len()
        invariant
            i <= v@.len(),
            forall|j: int| 0 <= j < i ==> v@[j] != d,
        decreases v@.len() - i,
    {
        if v[i] == d {
            return true;
        }
        i = i + 1;
    }
    false
}

/// An inner layout kept clear of the struts on the given sides.
pub struct AvoidStrutsLayout<L: Layout> {
    directions: Vec<Direction>,
    layout: L,
}

impl<L: Layout> AvoidStrutsLayout<L> {
    /// The sides this decorator keeps clear.
    pub closed spec fn dirs(self) -> Seq<Direction> {
        self.directions@
    }

    /// Wrap `layout`, avoiding struts on the sides in `d`.
    pub fn new(d: Vec<Direction>, layout: L) -> (r: Box<AvoidStrutsLayout<L>>)
        requires
            layout.valid(),
        ensures
            r.valid(),
            r.dirs() == d@,
    {
        Box::new(AvoidStrutsLayout { directions: d, layout })
    }

    /// The screen left over once the given struts, on the avoided sides,
    /// have shaved their edges off.
    pub fn apply_struts(&self, screen: Rectangle, struts: &Vec<Strut>) -> (r: Rectangle)
        ensures
            r == screen_after_struts(screen, struts@, self.dirs()),
    {
        let mut acc = screen;
        let mut i: usize = 0;
        proof {
            assert(struts@.skip(0) =~= struts@);
        }
        while i < struts.len()
            invariant
                i <= struts@.len(),
                screen_after_struts(acc, struts@.skip(i as int), self.dirs())
                    == screen_after_struts(screen, struts@, self.dirs()),
            decreases struts@.len() - i,
        {
            let Strut(d, depth, _, _) = struts[i];
            proof {
                assert(struts@.skip(i as int)[0] == struts@[i as int]);
                assert(struts@.skip(i as int).skip(1) =~= struts@.skip(i as int + 1));
            }
            if dir_in(&self.directions, d) {
                let amt = #[verifier::truncate] (depth as u32);
                let Rectangle(x, y, w, h) = acc;
                acc = match d {
                    Direction::Up => Rectangle(
                        x,
                        y.wrapping_add_unsigned(amt),
                        w,
                        h.wrapping_sub(amt),
                    ),
                    Direction::Down => Rectangle(x, y, w, h.wrapping_sub(amt)),
                    Direction::Left => Rectangle(
                        x.wrapping_add_unsigned(amt),
                        y,
                        w.wrapping_sub(amt),
                        h,
                    ),
                    Direction::Right => Rectangle(x, y, w.wrapping_sub(amt), h),
                };
            }
            i = i + 1;
        }
        acc
    }
}

impl<L: Layout> Layout for AvoidStrutsLayout<L> {
    closed spec fn valid(&self) -> bool {
        self.layout.valid()
    }

    fn apply_layout(
        &mut self,
        screen: Rectangle,
        config: &GeneralConfig,
        stack: &Option<Stack>,
    ) -> (r: Vec<(Window, Rectangle)>) {
        // querying the window system for dock windows and their struts is
        // the host's part: when a stack is present it collects them with
        // `get_strut`, shaves the screen with `apply_struts`, and hands
        // the remainder in here; without a stack the screen stays whole
        self.layout.apply_layout(screen, config, stack)
    }

    fn apply_message(
        &mut self,
        message: LayoutMessage,
        stack: &Option<Stack>,
        config: &GeneralConfig,
    ) -> (r: bool) {
        self.layout.apply_message(message, stack, config)
    }

    fn description(&self) -> (d: String) {
        self.layout.description()
    }

    fn unhook(&self, stack: &Option<Stack>, config: &GeneralConfig) {
        self.layout.unhook(stack, config)
    }
}

/// The struts a window claims: read the twelve-number partial property
/// when the window carries it, else the four-number one, else none.
pub fn get_strut(partial_strut: Option<Vec<u64>>, strut: Option<Vec<u64>>) -> (r: Vec<
    Strut,
>)
    ensures
        partial_strut matches Some(ps) ==> r@ == parsed_struts(ps@),
        partial_strut is None ==> (match strut {
            Option::Some(s) => if s@.len() == 4 {
                r@ == parsed_struts(padded_strut_numbers(s@))
            } else {
                r@.len() == 0
            },
            Option::None => r@.len() == 0,
        }),
{
    match partial_strut {
        Option::Some(ps) => parse_strut_partial(ps),
        Option::None => {
            match strut {
                Option::Some(s) => parse_strut(s),
                Option::None => Vec::new(),
            }
        },
    }
}

} // verus!
