//! The xorshift32 generator that drives every random choice of a flag.

use vstd::prelude::*;

verus! {

/// One step of xorshift32 (shifts 13, 17, 5).
pub open spec fn xorshift(x: u32) -> u32 {
    let a = x ^ (x << 13u32);
    let b = a ^ (a >> 17u32);
    b ^ (b << 5u32)
}

/// The state after `n` steps from `s`.
pub open spec fn nth_state(s: u32, n: nat) -> u32
    decreases n,
{
    if n == 0 {
        s
    } else {
        xorshift(nth_state(s, (n - 1) as nat))
    }
}

/// Addition modulo 2^32.
pub open spec fn wrap_add(x: u32, y: u32) -> u32 {
    ((x as nat + y as nat) % 0x1_0000_0000nat) as u32
}

/// Multiplication modulo 2^32.
pub open spec fn wrap_mul(x: u32, y: u32) -> u32 {
    ((x as nat * y as nat) % 0x1_0000_0000nat) as u32
}

/// The hash that turns the bit pattern of a seed into a first state,
/// before a zero state is replaced.
pub open spec fn seed_hash(bits: u32) -> u32 {
    let x0 = wrap_add(bits, 0x9E37_79B9u32);
    let x1 = x0 ^ (x0 >> 16u32);
    let x2 = wrap_mul(x1, 0x7feb_352du32);
    let x3 = x2 ^ (x2 >> 15u32);
    let x4 = wrap_mul(x3, 0x846c_a68bu32);
    x4 ^ (x4 >> 16u32)
}

/// The state a generator starts from for the seed bits `bits`: the hash of
/// the bits, or `0xDEAD_BEEF` where the hash is zero.
pub open spec fn seed_state(bits: u32) -> u32 {
    if seed_hash(bits) == 0 { 0xDEAD_BEEFu32 } else { seed_hash(bits) }
}

/// A seed's first state is never zero; it is the hash of the seed bits
/// unless that hash is zero.
pub proof fn lemma_seed_state(bits: u32)
    ensures
        seed_state(bits) != 0,
        seed_hash(bits) != 0 ==> seed_state(bits) == seed_hash(bits),
        seed_hash(bits) == 0 ==> seed_state(bits) == 0xDEAD_BEEFu32,
{
}

/// A xorshift step maps a nonzero state to a nonzero state.
pub proof fn lemma_xorshift_nonzero(x: u32)
    requires
        x != 0,
    ensures
        xorshift(x) != 0,
{
    assert(x != 0 ==> (x ^ (x << 13u32)) != 0) by (bit_vector);
    let a = x ^ (x << 13u32);
    assert(a != 0 ==> (a ^ (a >> 17u32)) != 0) by (bit_vector);
    let b = a ^ (a >> 17u32);
    assert(b != 0 ==> (b ^ (b << 5u32)) != 0) by (bit_vector);
}

/// A xorshift32 generator. Its state is never zero, the one state from
/// which xorshift would only ever produce zero.
pub struct Rng {
    state: u32,
}

impl Rng {
    #[verifier::type_invariant]
    spec fn state_nonzero(self) -> bool {
        self.state != 0
    }

    /// The current state.
    pub closed spec fn state(self) -> u32 {
        self.state
    }

    /// A generator seeded with the bit pattern of a seed.
    pub fn from_seed_bits(bits: u32) -> (rng: Rng)
        ensures
            rng.state() == seed_state(bits),
            rng.state() != 0,
    {
        let mut x = bits.wrapping_add(0x9E37_79B9);
        x = x ^ (x >> 16);
        x = x.wrapping_mul(0x7feb_352d);
        x = x ^ (x >> 15);
        x = x.wrapping_mul(0x846c_a68b);
        x = x ^ (x >> 16);
        Rng { state: if x == 0 { 0xDEAD_BEEF } else { x } }
    }

    /// Advances the state by one xorshift step and returns the new state.
    pub fn next_u32(&mut self) -> (r: u32)
        ensures
            r == xorshift(old(self).state()),
            r != 0,
            final(self).state() == r,
    {
        proof {
            use_type_invariant(&*self);
            lemma_xorshift_nonzero(self.state);
        }
        let mut x = self.state;
        x = x ^ (x << 13);
        x = x ^ (x >> 17);
        x = x ^ (x << 5);
        self.state = x;
        x
    }

    /// A draw below `n`: the next state modulo `n`.
    pub fn range(&mut self, n: u32) -> (r: u32)
        requires
            n > 0,
        ensures
            r == xorshift(old(self).state()) % n,
            r < n,
            final(self).state() == xorshift(old(self).state()),
    {
        self.next_u32() % n
    }
}

} // verus!
