//! Colours, the two tincture pools, and the palette choice that follows the
//! rule of tincture: a metal is never set next to a metal, nor a colour next
//! to a colour.

use vstd::prelude::*;

use crate::rng::{nth_state, xorshift, Rng};

verus! {

/// An opaque 8-bit RGB colour.
#[derive(Clone, Copy, Debug, PartialEq, Eq, Structural)]
pub struct Rgb {
    pub r: u8,
    pub g: u8,
    pub b: u8,
}

/// Number of metals (white, gold, orange).
pub const METAL_COUNT: u32 = 3;

/// Number of colours.
pub const COLOR_COUNT: u32 = 9;

/// Squared distance under which a drawn colour counts as too close to the
/// one before it: 160 squared.
pub const CONTRAST_THRESHOLD: u32 = 25600;

/// Draws that a palette entry gets to find a colour far enough from the
/// entry before it.
pub const CONTRAST_TRIES: u32 = 16;

/// The metals, by index.
pub open spec fn metal_at(i: int) -> Rgb {
    if i == 0 {
        Rgb { r: 255, g: 255, b: 255 }
    } else if i == 1 {
        Rgb { r: 255, g: 215, b: 0 }
    } else {
        Rgb { r: 255, g: 153, b: 51 }
    }
}

/// The colours, by index.
pub open spec fn color_at(i: int) -> Rgb {
    if i == 0 {
        Rgb { r: 0, g: 40, b: 104 }
    } else if i == 1 {
        Rgb { r: 191, g: 10, b: 48 }
    } else if i == 2 {
        Rgb { r: 34, g: 139, b: 34 }
    } else if i == 3 {
        Rgb { r: 12, g: 12, b: 12 }
    } else if i == 4 {
        Rgb { r: 0, g: 35, b: 149 }
    } else if i == 5 {
        Rgb { r: 206, g: 17, b: 38 }
    } else if i == 6 {
        Rgb { r: 0, g: 153, b: 0 }
    } else if i == 7 {
        Rgb { r: 65, g: 137, b: 221 }
    } else {
        Rgb { r: 128, g: 0, b: 32 }
    }
}

/// `c` is one of the metals.
pub open spec fn is_metal(c: Rgb) -> bool {
    exists|i: int| 0 <= i < METAL_COUNT && #[trigger] metal_at(i) == c
}

/// `c` is one of the colours.
pub open spec fn is_color(c: Rgb) -> bool {
    exists|i: int| 0 <= i < COLOR_COUNT && #[trigger] color_at(i) == c
}

/// Size of the metal pool (`metal == true`) or of the colour pool.
pub open spec fn pool_len(metal: bool) -> u32 {
    if metal { METAL_COUNT } else { COLOR_COUNT }
}

/// Entry `i` of the metal pool or of the colour pool.
pub open spec fn pool_at(metal: bool, i: int) -> Rgb {
    if metal { metal_at(i) } else { color_at(i) }
}

/// Squared Euclidean distance of two colours in RGB space.
pub open spec fn dist_sq(a: Rgb, b: Rgb) -> int {
    (a.r - b.r) * (a.r - b.r) + (a.g - b.g) * (a.g - b.g) + (a.b - b.b) * (a.b - b.b)
}

/// Entry `i` of the metal pool or of the colour pool.
pub fn pool_color(metal: bool, i: u32) -> (c: Rgb)
    requires
        i < pool_len(metal),
    ensures
        c == pool_at(metal, i as int),
{
    if metal {
        match i {
            0 => Rgb { r: 255, g: 255, b: 255 },
            1 => Rgb { r: 255, g: 215, b: 0 },
            _ => Rgb { r: 255, g: 153, b: 51 },
        }
    } else {
        match i {
            0 => Rgb { r: 0, g: 40, b: 104 },
            1 => Rgb { r: 191, g: 10, b: 48 },
            2 => Rgb { r: 34, g: 139, b: 34 },
            3 => Rgb { r: 12, g: 12, b: 12 },
            4 => Rgb { r: 0, g: 35, b: 149 },
            5 => Rgb { r: 206, g: 17, b: 38 },
            6 => Rgb { r: 0, g: 153, b: 0 },
            7 => Rgb { r: 65, g: 137, b: 221 },
            _ => Rgb { r: 128, g: 0, b: 32 },
        }
    }
}

/// Squared Euclidean distance of two colours in RGB space.
pub fn color_dist_sq(a: Rgb, b: Rgb) -> (d: u32)
    ensures
        d == dist_sq(a, b),
{
    let dr: i32 = a.r as i32 - b.r as i32;
    let dg: i32 = a.g as i32 - b.g as i32;
    let db: i32 = a.b as i32 - b.b as i32;
    assert(0 <= dr * dr <= 65025) by (nonlinear_arith)
        requires
            -255 <= dr <= 255,
    ;
    assert(0 <= dg * dg <= 65025) by (nonlinear_arith)
        requires
            -255 <= dg <= 255,
    ;
    assert(0 <= db * db <= 65025) by (nonlinear_arith)
        requires
            -255 <= db <= 255,
    ;
    (dr * dr + dg * dg + db * db) as u32
}

/// The redraws for one palette entry, from draw `k` on: the first drawn
/// entry of the pool that is farther than the threshold from `prev`, or
/// `best` when none of the remaining draws is. Returns the entry and the
/// generator state after the last draw made.
pub open spec fn retry_pick(metal: bool, prev: Rgb, best: Rgb, s: u32, k: nat) -> (Rgb, u32)
    decreases CONTRAST_TRIES - k,
{
    if k >= CONTRAST_TRIES {
        (best, s)
    } else {
        let s1 = xorshift(s);
        let c = pool_at(metal, (s1 % pool_len(metal)) as int);
        if dist_sq(c, prev) > CONTRAST_THRESHOLD {
            (c, s1)
        } else {
            retry_pick(metal, prev, best, s1, k + 1)
        }
    }
}

/// One palette entry after `prev`, drawn from the metal pool or the colour
/// pool from state `s`: a first draw is the fallback, then up to
/// `CONTRAST_TRIES` redraws look for a colour far enough from `prev`.
#[verifier::opaque]
pub open spec fn next_pick(metal: bool, prev: Rgb, s: u32) -> (Rgb, u32) {
    let s1 = xorshift(s);
    retry_pick(metal, prev, pool_at(metal, (s1 % pool_len(metal)) as int), s1, 0)
}

/// The first palette entry from state `s`: a coin decides the pool, then an
/// entry is drawn from it. Returns the entry, its pool and the state after.
pub open spec fn first_pick(s: u32) -> (Rgb, bool, u32) {
    let s1 = xorshift(s);
    let metal = s1 % 2 == 0;
    let s2 = xorshift(s1);
    (pool_at(metal, (s2 % pool_len(metal)) as int), metal, s2)
}

/// `n` further palette entries after `prev`, which came from the pool
/// `metal`: each entry comes from the other pool than the one before it.
pub open spec fn tincture_from(prev: Rgb, metal: bool, s: u32, n: nat) -> (Seq<Rgb>, u32)
    decreases n,
{
    if n == 0 {
        (Seq::empty(), s)
    } else {
        let pick = next_pick(!metal, prev, s);
        let rest = tincture_from(pick.0, !metal, pick.1, (n - 1) as nat);
        (seq![pick.0] + rest.0, rest.1)
    }
}

/// The palette of `count` entries (at least one) drawn from state `s`, and
/// the state after it.
pub open spec fn tincture(s: u32, count: nat) -> (Seq<Rgb>, u32) {
    let first = first_pick(s);
    let rest = tincture_from(
        first.0,
        first.1,
        first.2,
        if count == 0 { 0 } else { (count - 1) as nat },
    );
    (seq![first.0] + rest.0, rest.1)
}

/// No colour is also a metal.
pub proof fn lemma_metal_not_color(c: Rgb)
    ensures
        !(is_metal(c) && is_color(c)),
{
    if is_metal(c) && is_color(c) {
        let i = choose|i: int| 0 <= i < METAL_COUNT && #[trigger] metal_at(i) == c;
        let j = choose|j: int| 0 <= j < COLOR_COUNT && #[trigger] color_at(j) == c;
        assert(c.r == 255);
        assert(color_at(j).r != 255);
    }
}

/// Every entry of a pool is a metal or a colour according to the pool.
pub proof fn lemma_pool_at_class(metal: bool, i: int)
    requires
        0 <= i < pool_len(metal),
    ensures
        metal ==> is_metal(pool_at(metal, i)),
        !metal ==> is_color(pool_at(metal, i)),
{
    if metal {
        assert(metal_at(i) == pool_at(metal, i));
    } else {
        assert(color_at(i) == pool_at(metal, i));
    }
}

/// The redraws keep to their pool.
proof fn lemma_retry_class(metal: bool, prev: Rgb, best: Rgb, s: u32, k: nat)
    requires
        metal ==> is_metal(best),
        !metal ==> is_color(best),
    ensures
        metal ==> is_metal(retry_pick(metal, prev, best, s, k).0),
        !metal ==> is_color(retry_pick(metal, prev, best, s, k).0),
    decreases CONTRAST_TRIES - k,
{
    if k < CONTRAST_TRIES {
        let s1 = xorshift(s);
        lemma_pool_at_class(metal, (s1 % pool_len(metal)) as int);
        lemma_retry_class(metal, prev, best, s1, k + 1);
    }
}

/// An entry drawn after `prev` comes from the pool it was drawn from.
pub proof fn lemma_next_pick_class(metal: bool, prev: Rgb, s: u32)
    ensures
        metal ==> is_metal(next_pick(metal, prev, s).0),
        !metal ==> is_color(next_pick(metal, prev, s).0),
{
    reveal(next_pick);
    let s1 = xorshift(s);
    lemma_pool_at_class(metal, (s1 % pool_len(metal)) as int);
    lemma_retry_class(metal, prev, pool_at(metal, (s1 % pool_len(metal)) as int), s1, 0);
}

/// The entries after an entry of pool `metal` have `n` elements and
/// alternate pools, starting with the other one.
proof fn lemma_tincture_from_alternates(prev: Rgb, metal: bool, s: u32, n: nat)
    ensures
        tincture_from(prev, metal, s, n).0.len() == n,
        forall|i: int|
            0 <= i < n ==> (#[trigger] is_metal(tincture_from(prev, metal, s, n).0[i])
                <==> (metal <==> i % 2 == 1)),
        forall|i: int|
            0 <= i < n ==> (#[trigger] is_color(tincture_from(prev, metal, s, n).0[i])
                <==> (metal <==> i % 2 == 0)),
    decreases n,
{
    if n > 0 {
        let pick = next_pick(!metal, prev, s);
        lemma_next_pick_class(!metal, prev, s);
        lemma_metal_not_color(pick.0);
        lemma_tincture_from_alternates(pick.0, !metal, pick.1, (n - 1) as nat);
        let rest = tincture_from(pick.0, !metal, pick.1, (n - 1) as nat).0;
        let all = tincture_from(prev, metal, s, n).0;
        assert(all == seq![pick.0] + rest);
        assert forall|i: int| 0 <= i < n implies (#[trigger] is_metal(all[i]) <==> (metal <==> i
            % 2 == 1)) && (is_color(all[i]) <==> (metal <==> i % 2 == 0)) by {
            if i > 0 {
                assert(all[i] == rest[i - 1]);
                assert(is_metal(rest[i - 1]) <==> (!metal <==> (i - 1) % 2 == 1));
                assert(is_color(rest[i - 1]) <==> (!metal <==> (i - 1) % 2 == 0));
            }
        }
    }
}

/// Rule of tincture: a palette drawn from any state has `count` entries
/// (one where `count` is zero), each a metal or a colour, and no two
/// neighbours are both metals or both colours.
pub proof fn lemma_rule_of_tincture(s: u32, count: nat)
    ensures
        tincture(s, count).0.len() == if count == 0 { 1 } else { count },
        forall|i: int|
            0 <= i < tincture(s, count).0.len() ==> is_metal(#[trigger] tincture(s, count).0[i])
                || is_color(tincture(s, count).0[i]),
        forall|i: int|
            0 <= i < tincture(s, count).0.len() - 1 ==> (is_metal(
                #[trigger] tincture(s, count).0[i],
            ) <==> is_color(tincture(s, count).0[i + 1])),
{
    let first = first_pick(s);
    let n: nat = if count == 0 { 0 } else { (count - 1) as nat };
    let s1 = xorshift(s);
    let s2 = xorshift(s1);
    lemma_pool_at_class(first.1, (s2 % pool_len(first.1)) as int);
    lemma_metal_not_color(first.0);
    lemma_tincture_from_alternates(first.0, first.1, first.2, n);
    let rest = tincture_from(first.0, first.1, first.2, n).0;
    let all = tincture(s, count).0;
    assert(all == seq![first.0] + rest);
    assert forall|i: int| 0 <= i < all.len() implies (is_metal(#[trigger] all[i]) <==> (first.1
        <==> i % 2 == 0)) && (is_color(all[i]) <==> (first.1 <==> i % 2 == 1)) by {
        if i > 0 {
            assert(all[i] == rest[i - 1]);
            assert(is_metal(rest[i - 1]) <==> (first.1 <==> (i - 1) % 2 == 1));
            assert(is_color(rest[i - 1]) <==> (first.1 <==> (i - 1) % 2 == 0));
        }
    }
    assert forall|i: int| 0 <= i < all.len() - 1 implies (is_metal(#[trigger] all[i])
        <==> is_color(all[i + 1])) by {
        assert(is_metal(all[i]) <==> (first.1 <==> i % 2 == 0));
        assert(is_color(all[i + 1]) <==> (first.1 <==> (i + 1) % 2 == 1));
    }
}


/// The entry before entry `i` of `entries`, where `prev` comes before them.
pub open spec fn entry_before(prev: Rgb, entries: Seq<Rgb>, i: int) -> Rgb {
    if i == 0 { prev } else { entries[i - 1] }
}

/// `c` is what drawing an entry of `c`'s own pool after `before` gives, from
/// some generator state.
pub open spec fn picked_after(c: Rgb, before: Rgb) -> bool {
    exists|st: u32| c == #[trigger] next_pick(is_metal(c), before, st).0
}

proof fn lemma_tincture_from_picks(prev: Rgb, metal: bool, s: u32, n: nat)
    ensures
        forall|i: int|
            0 <= i < n ==> picked_after(
                #[trigger] tincture_from(prev, metal, s, n).0[i],
                entry_before(prev, tincture_from(prev, metal, s, n).0, i),
            ),
    decreases n,
{
    if n > 0 {
        let pick = next_pick(!metal, prev, s);
        lemma_next_pick_class(!metal, prev, s);
        lemma_metal_not_color(pick.0);
        lemma_tincture_from_picks(pick.0, !metal, pick.1, (n - 1) as nat);
        lemma_tincture_from_alternates(pick.0, !metal, pick.1, (n - 1) as nat);
        let rest = tincture_from(pick.0, !metal, pick.1, (n - 1) as nat).0;
        let all = tincture_from(prev, metal, s, n).0;
        assert(all == seq![pick.0] + rest);
        assert forall|i: int| 0 <= i < n implies picked_after(
            #[trigger] all[i],
            entry_before(prev, all, i),
        ) by {
            if i == 0 {
                assert(is_metal(all[0]) == !metal);
                assert(all[0] == next_pick(is_metal(all[0]), prev, s).0);
            } else {
                assert(all[i] == rest[i - 1]);
                if i >= 2 {
                    assert(all[i - 1] == rest[i - 2]);
                }
                assert(picked_after(rest[i - 1], entry_before(pick.0, rest, i - 1)));
                assert(entry_before(pick.0, rest, i - 1) == entry_before(prev, all, i));
            }
        }
    }
}

/// Every palette entry after the first is the pick, by the contrast rule of
/// `lemma_entry_contrasts`, from its own pool after the entry before it, for
/// some generator state.
pub proof fn lemma_tincture_entries_contrast(s: u32, count: nat)
    ensures
        forall|i: int|
            1 <= i < tincture(s, count).0.len() ==> picked_after(
                #[trigger] tincture(s, count).0[i],
                tincture(s, count).0[i - 1],
            ),
{
    let first = first_pick(s);
    let n: nat = if count == 0 { 0 } else { (count - 1) as nat };
    lemma_tincture_from_picks(first.0, first.1, first.2, n);
    lemma_tincture_from_alternates(first.0, first.1, first.2, n);
    let rest = tincture_from(first.0, first.1, first.2, n).0;
    let all = tincture(s, count).0;
    assert(all == seq![first.0] + rest);
    assert forall|i: int| 1 <= i < all.len() implies picked_after(
        #[trigger] all[i],
        all[i - 1],
    ) by {
        assert(all[i] == rest[i - 1]);
        if i >= 2 {
            assert(all[i - 1] == rest[i - 2]);
        }
        assert(picked_after(rest[i - 1], entry_before(first.0, rest, i - 1)));
    }
}

/// The first palette entry is a metal exactly when the first draw is even,
/// and it is entry (second draw mod 3) of the metals, or entry (second draw
/// mod 9) of the colours.
pub proof fn lemma_first_entry(s: u32, count: nat)
    ensures
        is_metal(tincture(s, count).0[0]) <==> nth_state(s, 1) % 2 == 0,
        nth_state(s, 1) % 2 == 0 ==> tincture(s, count).0[0] == metal_at(
            (nth_state(s, 2) % 3) as int,
        ),
        nth_state(s, 1) % 2 != 0 ==> tincture(s, count).0[0] == color_at(
            (nth_state(s, 2) % 9) as int,
        ),
{
    assert(nth_state(s, 0) == s);
    assert(nth_state(s, 1) == xorshift(s));
    assert(nth_state(s, 2) == xorshift(xorshift(s)));
    let first = first_pick(s);
    lemma_pool_at_class(first.1, (xorshift(xorshift(s)) % pool_len(first.1)) as int);
    lemma_metal_not_color(first.0);
    assert(tincture(s, count).0[0] == first.0);
}

/// Redraw `k` (counting from zero) for an entry drawn from state `s`: the
/// pool entry picked by the generator state `k + 2` steps after `s`. The
/// state one step after `s` picks the fallback.
pub open spec fn redraw_candidate(metal: bool, s: u32, k: int) -> Rgb {
    let n: u32 = if metal { 3 } else { 9 };
    pool_at(metal, (nth_state(s, (k + 2) as nat) % n) as int)
}

/// `c` is farther than 160 from `prev` in RGB space.
pub open spec fn far_from(c: Rgb, prev: Rgb) -> bool {
    (c.r - prev.r) * (c.r - prev.r) + (c.g - prev.g) * (c.g - prev.g) + (c.b - prev.b) * (c.b
        - prev.b) > 160 * 160
}

proof fn lemma_retry_first_far(metal: bool, prev: Rgb, best: Rgb, s: u32, k: nat)
    requires
        k <= 16,
    ensures
        forall|j: int|
            k <= j < 16 && far_from(#[trigger] redraw_candidate(metal, s, j), prev) && (forall|
                i: int,
            | k <= i < j ==> !far_from(#[trigger] redraw_candidate(metal, s, i), prev)) ==> retry_pick(
                metal,
                prev,
                best,
                nth_state(s, k + 1),
                k,
            ) == (redraw_candidate(metal, s, j), nth_state(s, (j + 2) as nat)),
        (forall|i: int| k <= i < 16 ==> !far_from(#[trigger] redraw_candidate(metal, s, i), prev))
            ==> retry_pick(metal, prev, best, nth_state(s, k + 1), k) == (best, nth_state(s, 17)),
        (exists|i: int| k <= i < 16 && far_from(#[trigger] redraw_candidate(metal, s, i), prev))
            ==> far_from(retry_pick(metal, prev, best, nth_state(s, k + 1), k).0, prev),
    decreases 16 - k,
{
    if k < 16 {
        lemma_retry_first_far(metal, prev, best, s, k + 1);
        let s1 = xorshift(nth_state(s, k + 1));
        assert(s1 == nth_state(s, k + 2));
        let c = pool_at(metal, (s1 % pool_len(metal)) as int);
        assert(c == redraw_candidate(metal, s, k as int));
        assert(dist_sq(c, prev) > CONTRAST_THRESHOLD <==> far_from(c, prev));
        assert forall|j: int|
            k <= j < 16 && far_from(#[trigger] redraw_candidate(metal, s, j), prev) && (forall|
                i: int,
            | k <= i < j ==> !far_from(#[trigger] redraw_candidate(metal, s, i), prev)) implies retry_pick(
            metal,
            prev,
            best,
            nth_state(s, k + 1),
            k,
        ) == (redraw_candidate(metal, s, j), nth_state(s, (j + 2) as nat)) by {
            if j > k {
                assert(!far_from(redraw_candidate(metal, s, k as int), prev));
            }
        }
        if exists|i: int| k <= i < 16 && far_from(#[trigger] redraw_candidate(metal, s, i), prev) {
            let i = choose|i: int| k <= i < 16 && far_from(#[trigger] redraw_candidate(metal, s, i), prev);
            if i > k && !far_from(c, prev) {
                assert(k + 1 <= i < 16 && far_from(redraw_candidate(metal, s, i), prev));
            }
        }
    }
}

/// Contrast of a palette entry with the one before it: the entry drawn after
/// `prev` from state `s` is the first of its sixteen redraws that is farther
/// than 160 from `prev` in RGB space, whether it is a metal or a colour; only
/// when no redraw is that far is it the fallback drawn first. So whenever
/// some redraw contrasts with `prev`, the entry does.
pub proof fn lemma_entry_contrasts(metal: bool, prev: Rgb, s: u32)
    ensures
        forall|j: int|
            0 <= j < 16 && far_from(#[trigger] redraw_candidate(metal, s, j), prev) && (forall|
                i: int,
            | 0 <= i < j ==> !far_from(#[trigger] redraw_candidate(metal, s, i), prev))
                ==> next_pick(metal, prev, s) == (
                redraw_candidate(metal, s, j),
                nth_state(s, (j + 2) as nat),
            ),
        (forall|i: int| 0 <= i < 16 ==> !far_from(#[trigger] redraw_candidate(metal, s, i), prev))
            ==> next_pick(metal, prev, s) == (
            pool_at(metal, (nth_state(s, 1) % (if metal { 3u32 } else { 9u32 })) as int),
            nth_state(s, 17),
        ),
        (exists|i: int| 0 <= i < 16 && far_from(#[trigger] redraw_candidate(metal, s, i), prev))
            ==> far_from(next_pick(metal, prev, s).0, prev),
{
    reveal(next_pick);
    let s1 = xorshift(s);
    assert(nth_state(s, 0) == s);
    assert(s1 == nth_state(s, 1));
    let best = pool_at(metal, (s1 % pool_len(metal)) as int);
    lemma_retry_first_far(metal, prev, best, s, 0);
}

/// One palette entry after `prev` from the metal pool or the colour pool:
/// a first draw is kept unless one of up to `CONTRAST_TRIES` redraws is
/// farther than the threshold from `prev`.
fn pick_contrasting(rng: &mut Rng, metal: bool, prev: Rgb) -> (c: Rgb)
    ensures
        (c, final(rng).state()) == next_pick(metal, prev, old(rng).state()),
{
    let n: u32 = if metal { METAL_COUNT } else { COLOR_COUNT };
    let ghost s0 = rng.state();
    let mut best = pool_color(metal, rng.range(n));
    let ghost target = next_pick(metal, prev, s0);
    proof {
        reveal(next_pick);
    }
    let mut tries: u32 = 0;
    let mut found = false;
    while tries < CONTRAST_TRIES && !found
        invariant
            n == pool_len(metal),
            tries <= CONTRAST_TRIES,
            target == next_pick(metal, prev, s0),
            found ==> target == (best, rng.state()),
            !found ==> target == retry_pick(metal, prev, best, rng.state(), tries as nat),
        decreases CONTRAST_TRIES - tries, if found { 0int } else { 1int },
    {
        let c = pool_color(metal, rng.range(n));
        if color_dist_sq(c, prev) > CONTRAST_THRESHOLD {
            best = c;
            found = true;
        } else {
            tries = tries + 1;
        }
    }
    best
}

/// A palette of `count` entries (one where `count` is zero) that keeps the
/// rule of tincture: the first entry is a metal or a colour by a coin, and
/// each later entry comes from the other pool than the entry before it.
pub fn pick_tincture(rng: &mut Rng, count: usize) -> (palette: Vec<Rgb>)
    ensures
        (palette@, final(rng).state()) == tincture(old(rng).state(), count as nat),
        palette@.len() == if count == 0 { 1 } else { count as int },
        forall|i: int| 0 <= i < palette@.len() ==> is_metal(#[trigger] palette@[i]) || is_color(
            palette@[i],
        ),
        forall|i: int|
            0 <= i < palette@.len() - 1 ==> (is_metal(#[trigger] palette@[i]) <==> is_color(
                palette@[i + 1],
            )),
        forall|i: int|
            1 <= i < palette@.len() ==> picked_after(#[trigger] palette@[i], palette@[i - 1]),
{
    let ghost s0 = rng.state();
    let mut out: Vec<Rgb> = Vec::new();
    let start_metal = rng.range(2) == 0;
    let first = if start_metal {
        pool_color(true, rng.range(METAL_COUNT))
    } else {
        pool_color(false, rng.range(COLOR_COUNT))
    };
    out.push(first);
    let mut is_metal = start_metal;
    let mut i: usize = 1;
    let ghost rest_len: nat = if count == 0 { 0 } else { (count - 1) as nat };
    assert(first_pick(s0) == (first, start_metal, rng.state()));
    while i < count
        invariant
            1 <= i,
            count == 0 || i <= count,
            out@.len() == i,
            rest_len == if count == 0 { 0 } else { (count - 1) as nat },
            tincture(s0, count as nat) == ({
                let rest = tincture_from(
                    out@.last(),
                    is_metal,
                    rng.state(),
                    (rest_len - (i - 1)) as nat,
                );
                (out@ + rest.0, rest.1)
            }),
        decreases count - i,
    {
        let ghost before = out@;
        let ghost s = rng.state();
        is_metal = !is_metal;
        let prev = out[out.len() - 1];
        let c = pick_contrasting(rng, is_metal, prev);
        out.push(c);
        i = i + 1;
        proof {
            let r = (rest_len - (i - 1)) as nat;
            assert(before + tincture_from(prev, !is_metal, s, r + 1).0 =~= out@ + tincture_from(
                c,
                is_metal,
                rng.state(),
                r,
            ).0);
        }
    }
    proof {
        assert(out@ + Seq::<Rgb>::empty() =~= out@);
        lemma_rule_of_tincture(s0, count as nat);
        lemma_tincture_entries_contrast(s0, count as nat);
    }
    out
}

} // verus!
