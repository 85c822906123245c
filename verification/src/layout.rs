//! Flag layouts and the seeded choice of a whole flag: layout, palette and
//! the phase of the fabric's wave.
//!
//! Random fractions are kept as the raw generator draws they come from; a
//! draw `d` stands for the fraction `d / u32::MAX`. Origins of a rising sun
//! are kept in quarters of the flag's width and height.

use vstd::prelude::*;

use crate::palette::{is_color, is_metal, pick_tincture, tincture, Rgb};
use crate::rng::{nth_state, seed_state, xorshift, Rng};

verus! {

/// A flag's division of the field, with its randomized parameters.
#[derive(Clone, Copy, Debug, PartialEq, Eq, Structural)]
pub enum Layout {
    /// `bands` horizontal stripes; with three bands and `wide_middle`, the
    /// middle band takes half the height.
    HorizontalStripes { bands: u32, wide_middle: bool },
    /// Three vertical stripes; with `wide_middle` the middle one takes half
    /// the width.
    VerticalStripes { wide_middle: bool },
    /// A Nordic cross whose arm thickness is 10% to 18% of the smaller side,
    /// by the draw `thickness_draw`.
    NordicCross { thickness_draw: u32 },
    /// A canton in the upper hoist.
    Canton,
    /// `rays` alternating sectors around an origin given in quarters of the
    /// width (`cx_quarters`) and of the height (`cy_quarters`).
    RisingSun { rays: u32, cx_quarters: u32, cy_quarters: u32 },
    /// A Nordic cross with a five-pointed star at its crossing; the star's
    /// radius is 8% to 18% of the smaller side, by the draw `scale_draw`.
    NordicStar { thickness_draw: u32, scale_draw: u32 },
    /// A chevron from the hoist.
    Chevron,
}

/// Number of layouts to choose from.
pub const LAYOUT_COUNT: u32 = 7;

/// Number of origins a rising sun can have.
pub const SUN_ORIGIN_COUNT: u32 = 5;

/// Horizontal position, in quarters, of the rising sun origin `o`: the
/// centre, the lower hoist corner, the middle of the hoist, the middle of
/// the bottom edge, and the point a quarter in and three quarters down.
pub open spec fn sun_origin_cx(o: u32) -> u32 {
    if o == 0 { 2 } else if o == 1 { 0 } else if o == 2 { 0 } else if o == 3 { 2 } else { 1 }
}

/// Vertical position, in quarters, of the rising sun origin `o`.
pub open spec fn sun_origin_cy(o: u32) -> u32 {
    if o == 0 { 2 } else if o == 1 { 4 } else if o == 2 { 2 } else if o == 3 { 4 } else { 3 }
}

/// The layout drawn from state `s`, and the state after it: one draw below
/// seven picks the kind, then the kind's own parameters are drawn in order.
pub open spec fn layout_pick(s: u32) -> (Layout, u32) {
    let s1 = xorshift(s);
    let kind = s1 % LAYOUT_COUNT;
    let s2 = xorshift(s1);
    let s3 = xorshift(s2);
    if kind == 0 {
        (Layout::HorizontalStripes { bands: if s2 % 2 == 0 { 2 } else { 3 }, wide_middle: s3 % 3 == 0 }, s3)
    } else if kind == 1 {
        (Layout::VerticalStripes { wide_middle: s2 % 3 == 0 }, s2)
    } else if kind == 2 {
        (Layout::NordicCross { thickness_draw: s2 }, s2)
    } else if kind == 3 {
        (Layout::Canton, s1)
    } else if kind == 4 {
        let o = s2 % SUN_ORIGIN_COUNT;
        (Layout::RisingSun { rays: (s3 % 19 + 6) as u32, cx_quarters: sun_origin_cx(o), cy_quarters: sun_origin_cy(o) }, s3)
    } else if kind == 5 {
        (Layout::NordicStar { thickness_draw: s2, scale_draw: s3 }, s3)
    } else {
        (Layout::Chevron, s1)
    }
}

/// Number of palette entries a layout uses.
pub open spec fn spec_colors_needed(layout: Layout) -> nat {
    match layout {
        Layout::HorizontalStripes { bands, .. } => bands as nat,
        Layout::VerticalStripes { .. } => 3,
        Layout::NordicStar { .. } => 3,
        _ => 2,
    }
}

/// The parameters of a layout lie in the ranges its drawing gives them.
pub open spec fn layout_in_range(layout: Layout) -> bool {
    match layout {
        Layout::HorizontalStripes { bands, .. } => bands == 2 || bands == 3,
        Layout::RisingSun { rays, cx_quarters, cy_quarters } => {
            &&& 6 <= rays <= 24
            &&& exists|o: u32| o < SUN_ORIGIN_COUNT && cx_quarters == #[trigger] sun_origin_cx(o)
                && cy_quarters == sun_origin_cy(o)
        },
        _ => true,
    }
}

/// The rising sun origin `o`, in quarters of width and height.
fn sun_origin(o: u32) -> (q: (u32, u32))
    requires
        o < SUN_ORIGIN_COUNT,
    ensures
        q == (sun_origin_cx(o), sun_origin_cy(o)),
{
    match o {
        0 => (2, 2),
        1 => (0, 4),
        2 => (0, 2),
        3 => (2, 4),
        _ => (1, 3),
    }
}

/// The five rising sun origins, in order, are the centre (2, 2), the lower
/// hoist corner (0, 4), the middle of the hoist (0, 2), the middle of the
/// bottom edge (2, 4) and the point (1, 3), in quarters of width and height.
pub proof fn lemma_sun_origins(o: u32)
    requires
        o < 5,
    ensures
        sun_origin_cx(o) == seq![2u32, 0, 0, 2, 1][o as int],
        sun_origin_cy(o) == seq![2u32, 4, 2, 4, 3][o as int],
{
}

/// How the draws set a layout, for every state `s` (draw `k` is the state
/// `k` steps after `s`): the first draw mod 7 picks, in order, horizontal
/// stripes, vertical stripes, a Nordic cross, a canton, a rising sun, a
/// Nordic star or a chevron; the draws after it set the parameters, and a
/// cross's thickness and a star's scale are the next draws. Horizontal
/// stripes: two bands exactly when the second draw is even, a wide middle
/// exactly when the third is a multiple of three. A rising sun: the origin
/// is entry (second draw mod 5) of the five origins, and the ray count is
/// 6 plus the third draw mod 19, odd and even counts alike.
pub proof fn lemma_layout_parameters(s: u32)
    ensures
        nth_state(s, 1) % 7 == 0 ==> layout_pick(s).0 == (Layout::HorizontalStripes {
            bands: if nth_state(s, 2) % 2 == 0 { 2 } else { 3 },
            wide_middle: nth_state(s, 3) % 3 == 0,
        }),
        nth_state(s, 1) % 7 == 4 ==> layout_pick(s).0 == (Layout::RisingSun {
            rays: (6 + nth_state(s, 3) % 19) as u32,
            cx_quarters: seq![2u32, 0, 0, 2, 1][(nth_state(s, 2) % 5) as int],
            cy_quarters: seq![2u32, 4, 2, 4, 3][(nth_state(s, 2) % 5) as int],
        }),
        nth_state(s, 1) % 7 == 4 ==> layout_pick(s).1 == nth_state(s, 3),
        nth_state(s, 1) % 7 == 1 ==> layout_pick(s).0 == (Layout::VerticalStripes {
            wide_middle: nth_state(s, 2) % 3 == 0,
        }),
        nth_state(s, 1) % 7 == 2 ==> layout_pick(s).0 == (Layout::NordicCross {
            thickness_draw: nth_state(s, 2),
        }),
        nth_state(s, 1) % 7 == 3 ==> layout_pick(s).0 == Layout::Canton,
        nth_state(s, 1) % 7 == 5 ==> layout_pick(s).0 == (Layout::NordicStar {
            thickness_draw: nth_state(s, 2),
            scale_draw: nth_state(s, 3),
        }),
        nth_state(s, 1) % 7 == 6 ==> layout_pick(s).0 == Layout::Chevron,
{
    assert(nth_state(s, 0) == s);
    assert(nth_state(s, 1) == xorshift(s));
    assert(nth_state(s, 2) == xorshift(xorshift(s)));
    assert(nth_state(s, 3) == xorshift(xorshift(xorshift(s))));
    lemma_sun_origins(nth_state(s, 2) % 5);
}

/// Draws a layout.
pub fn pick_layout(rng: &mut Rng) -> (layout: Layout)
    ensures
        (layout, final(rng).state()) == layout_pick(old(rng).state()),
        layout_in_range(layout),
{
    let kind = rng.range(LAYOUT_COUNT);
    if kind == 0 {
        let bands: u32 = if rng.range(2) == 0 { 2 } else { 3 };
        let wide_middle = rng.range(3) == 0;
        Layout::HorizontalStripes { bands, wide_middle }
    } else if kind == 1 {
        Layout::VerticalStripes { wide_middle: rng.range(3) == 0 }
    } else if kind == 2 {
        Layout::NordicCross { thickness_draw: rng.next_u32() }
    } else if kind == 3 {
        Layout::Canton
    } else if kind == 4 {
        let o = rng.range(SUN_ORIGIN_COUNT);
        let q = sun_origin(o);
        let rays = rng.range(19) + 6;
        assert(q.0 == sun_origin_cx(o) && q.1 == sun_origin_cy(o));
        Layout::RisingSun { rays, cx_quarters: q.0, cy_quarters: q.1 }
    } else if kind == 5 {
        let thickness_draw = rng.next_u32();
        let scale_draw = rng.next_u32();
        Layout::NordicStar { thickness_draw, scale_draw }
    } else {
        Layout::Chevron
    }
}

/// Number of palette entries a layout uses.
pub fn colors_needed(layout: &Layout) -> (n: usize)
    ensures
        n == spec_colors_needed(*layout),
{
    match layout {
        Layout::HorizontalStripes { bands, .. } => *bands as usize,
        Layout::VerticalStripes { .. } => 3,
        Layout::NordicCross { .. } | Layout::Canton | Layout::Chevron => 2,
        Layout::RisingSun { .. } => 2,
        Layout::NordicStar { .. } => 3,
    }
}

/// Everything a seed decides of a flag: its layout, its palette, and the
/// draw that sets the phase of the fabric's wave (the phase is the draw's
/// fraction of a full turn).
#[derive(Debug)]
pub struct FlagSpec {
    pub layout: Layout,
    pub palette: Vec<Rgb>,
    pub phase_draw: u32,
}

/// The layout that the seed bits `bits` give.
pub open spec fn flag_layout(bits: u32) -> Layout {
    layout_pick(seed_state(bits)).0
}

/// The palette that the seed bits `bits` give.
pub open spec fn flag_palette(bits: u32) -> Seq<Rgb> {
    tincture(layout_pick(seed_state(bits)).1, spec_colors_needed(flag_layout(bits))).0
}

/// The phase draw that the seed bits `bits` give.
pub open spec fn flag_phase_draw(bits: u32) -> u32 {
    xorshift(tincture(layout_pick(seed_state(bits)).1, spec_colors_needed(flag_layout(bits))).1)
}

/// The flag that the bit pattern `seed_bits` of a seed stands for: a
/// generator seeded with it draws the layout, then as many palette entries
/// as the layout uses, then the phase.
pub fn build_flag_spec(seed_bits: u32) -> (spec: FlagSpec)
    ensures
        spec.layout == flag_layout(seed_bits),
        spec.palette@ == flag_palette(seed_bits),
        spec.phase_draw == flag_phase_draw(seed_bits),
        layout_in_range(spec.layout),
        spec.palette@.len() == spec_colors_needed(spec.layout),
        2 <= spec.palette@.len() <= 3,
        forall|i: int|
            0 <= i < spec.palette@.len() - 1 ==> (is_metal(#[trigger] spec.palette@[i]) <==> is_color(
                spec.palette@[i + 1],
            )),
{
    let mut rng = Rng::from_seed_bits(seed_bits);
    let layout = pick_layout(&mut rng);
    let palette = pick_tincture(&mut rng, colors_needed(&layout));
    let phase_draw = rng.next_u32();
    FlagSpec { layout, palette, phase_draw }
}

} // verus!
