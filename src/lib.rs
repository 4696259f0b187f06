//! A small pseudo-random number generator built on a linear-feedback shift
//! register (LFSR) over a 128-bit state.
//!
//! The generator is deterministic and not fit for any use where security
//! matters.
use vstd::prelude::*;

verus! {

/// The complete state of a generator.
pub type Seed = u128;

/// One step of the register: shift right by one and put the feedback bit,
/// taken from bits 0, 1, 2 and 7, into the top position.
pub open spec fn next_state(s: u128) -> u128 {
    (s >> 1u128) | (((s ^ (s >> 1u128) ^ (s >> 2u128) ^ (s >> 7u128)) & 1u128) << 127u128)
}

/// The state reached from `s` after `n` steps.
pub open spec fn state_after(s: u128, n: nat) -> u128
    decreases n,
{
    if n == 0 {
        s
    } else {
        next_state(state_after(s, (n - 1) as nat))
    }
}

/// Two steps of the register.
pub proof fn lemma_two_steps(s: u128)
    ensures
        state_after(s, 2) == next_state(next_state(s)),
{
    assert(state_after(s, 0) == s);
    assert(state_after(s, 1) == next_state(s));
}

/// One step never takes a nonzero state to zero, and zero stays zero.
pub proof fn lemma_step_nonzero(s: u128)
    ensures
        s != 0 <==> next_state(s) != 0,
{
    assert(s != 0 <==> (s >> 1u128) | (((s ^ (s >> 1u128) ^ (s >> 2u128) ^ (s >> 7u128)) & 1u128)
        << 127u128) != 0) by (bit_vector);
}

/// A nonzero state never reaches zero, however many steps are taken; the
/// all-zero state is a fixed point, reached only from itself.
pub proof fn lemma_nonzero_forever(s: u128, n: nat)
    ensures
        s != 0 <==> state_after(s, n) != 0,
    decreases n,
{
    if n > 0 {
        lemma_nonzero_forever(s, (n - 1) as nat);
        lemma_step_nonzero(state_after(s, (n - 1) as nat));
    }
}

/// Generators made from the same manual seed pass through the same states,
/// so the same calls give the same numbers.
pub proof fn lemma_manual_seed_determines_walk(v: u128, a: u128, b: u128, n: nat)
    requires
        seed_of(RandomSeedSource::Manual(v), a),
        seed_of(RandomSeedSource::Manual(v), b),
    ensures
        a == v,
        a == b,
        state_after(a, n) == state_after(b, n),
{
}

/// The top bit of a state, which a boolean sample reads.
pub open spec fn top_bit(s: u128) -> bool {
    (s >> 127u128) & 1u128 == 1u128
}

/// A signed sample: the magnitude comes from the state `a`, the sign from the
/// top bit of the following state `b`.
pub open spec fn signed_value(a: u128, b: u128, m: u128) -> int
    recommends
        m > 0,
{
    if top_bit(b) {
        -((a % m) as int)
    } else {
        (a % m) as int
    }
}

/// The value of bytes read with the least significant byte first.
pub open spec fn le_value(b: Seq<u8>) -> int
    decreases b.len(),
{
    if b.len() == 0 {
        0
    } else {
        b[0] as int + 256 * le_value(b.drop_first())
    }
}

/// The value of bytes read with the most significant byte first.
pub open spec fn be_value(b: Seq<u8>) -> int
    decreases b.len(),
{
    if b.len() == 0 {
        0
    } else {
        be_value(b.drop_last()) * 256 + b.last() as int
    }
}

/// The absolute value of an integer.
pub open spec fn abs(x: int) -> int {
    if x < 0 {
        -x
    } else {
        x
    }
}

/// A source for the initial state of a generator.
///
/// The variants other than `Manual` carry what was read from outside the
/// process (the clock, the C library's `rand()`, an entropy device); the
/// library turns that reading into a seed.
pub enum RandomSeedSource {
    /// A value given by the caller.
    Manual(Seed),
    /// The current system time, in seconds.
    SystemTime(i64),
    /// A value of the C library's `rand()`, which starts from a fixed seed
    /// unless it is seeded again.
    Crand(i32),
    /// Bytes read from `/dev/urandom`.
    UrandomDev([u8; 16]),
    /// Bytes read from `/dev/random`.
    RandomDev([u8; 16]),
}

/// The seed that a source gives; a device's bytes may be taken in either
/// byte order, as the host's order is not known here.
pub open spec fn seed_of(src: RandomSeedSource, r: u128) -> bool {
    match src {
        RandomSeedSource::Manual(v) => r == v,
        RandomSeedSource::SystemTime(t) => r as int == abs(t as int),
        RandomSeedSource::Crand(c) => r as int == abs(c as int),
        RandomSeedSource::UrandomDev(b) => r as int == le_value(b@) || r as int == be_value(b@),
        RandomSeedSource::RandomDev(b) => r as int == le_value(b@) || r as int == be_value(b@),
    }
}

/// Relies on `u128::from_ne_bytes`: the bytes read in the host's byte order,
/// which is either little- or big-endian.
#[verifier::external_body]
fn u128_from_ne_bytes(b: [u8; 16]) -> (r: u128)
    ensures
        r as int == le_value(b@) || r as int == be_value(b@),
{
    u128::from_ne_bytes(b)
}

impl RandomSeedSource {
    /// The seed that this source gives.
    pub fn get_seed(&self) -> (r: Seed)
        ensures
            seed_of(*self, r),
    {
        match self {
            RandomSeedSource::Manual(n) => *n,
            RandomSeedSource::SystemTime(t) => {
                if *t < 0 {
                    (0i128 - *t as i128) as u128
                } else {
                    *t as u128
                }
            },
            RandomSeedSource::Crand(c) => {
                if *c < 0 {
                    (0i64 - *c as i64) as u128
                } else {
                    *c as u128
                }
            },
            RandomSeedSource::UrandomDev(b) => u128_from_ne_bytes(*b),
            RandomSeedSource::RandomDev(b) => u128_from_ne_bytes(*b),
        }
    }
}

/// A random number generator.
pub struct Random {
    seed: Seed,
}

impl View for Random {
    type V = u128;

    closed spec fn view(&self) -> u128 {
        self.seed
    }
}

impl Random {
    /// Create a generator whose state is the seed that `seed_src` gives.
    ///
    /// Generators made from the same seed give the same numbers; an all-zero
    /// seed is a fixed point of the register and gives only zeros.
    pub fn new(seed_src: RandomSeedSource) -> (r: Self)
        ensures
            seed_of(seed_src, r@),
    {
        Random { seed: seed_src.get_seed() }
    }

    /// The current state, without advancing it.
    pub fn state(&self) -> (r: Seed)
        ensures
            r == self@,
    {
        self.seed
    }

    /// Advance the state by one step and return it.
    pub fn random(&mut self) -> (r: Seed)
        ensures
            final(self)@ == next_state(old(self)@),
            r == final(self)@,
    {
        self.rotate();
        self.seed
    }

    /// The same as [`random`](Self::random).
    pub fn rand_u128(&mut self) -> (r: u128)
        ensures
            final(self)@ == next_state(old(self)@),
            r == final(self)@,
    {
        self.random()
    }

    /// A random boolean: the top bit of the next state.
    pub fn rand_bool(&mut self) -> (r: bool)
        ensures
            final(self)@ == next_state(old(self)@),
            r == top_bit(final(self)@),
    {
        let s = self.random();
        (s >> 127 & 1) == 1
    }

    /// A random `u8`: the next state modulo `u8::MAX`, so the largest `u8`
    /// never comes.
    pub fn rand_u8(&mut self) -> (r: u8)
        ensures
            final(self)@ == next_state(old(self)@),
            r as u128 == final(self)@ % (u8::MAX as u128),
            r < u8::MAX,
    {
        self.sample_mod(u8::MAX as u128) as u8
    }

    /// A random `u16`: the next state modulo `u16::MAX`, so the largest `u16`
    /// never comes.
    pub fn rand_u16(&mut self) -> (r: u16)
        ensures
            final(self)@ == next_state(old(self)@),
            r as u128 == final(self)@ % (u16::MAX as u128),
            r < u16::MAX,
    {
        self.sample_mod(u16::MAX as u128) as u16
    }

    /// A random `u32`: the next state modulo `u32::MAX`, so the largest `u32`
    /// never comes.
    pub fn rand_u32(&mut self) -> (r: u32)
        ensures
            final(self)@ == next_state(old(self)@),
            r as u128 == final(self)@ % (u32::MAX as u128),
            r < u32::MAX,
    {
        self.sample_mod(u32::MAX as u128) as u32
    }

    /// A random `u64`: the next state modulo `u64::MAX`, so the largest `u64`
    /// never comes.
    pub fn rand_u64(&mut self) -> (r: u64)
        ensures
            final(self)@ == next_state(old(self)@),
            r as u128 == final(self)@ % (u64::MAX as u128),
            r < u64::MAX,
    {
        self.sample_mod(u64::MAX as u128) as u64
    }

    /// A random `i8`: the next state modulo `i8::MAX`, negated when the top
    /// bit of the state after it is set. This takes two steps.
    pub fn rand_i8(&mut self) -> (r: i8)
        ensures
            final(self)@ == state_after(old(self)@, 2),
            final(self)@ == next_state(next_state(old(self)@)),
            r as int == signed_value(next_state(old(self)@), final(self)@, i8::MAX as u128),
    {
        proof {
            lemma_two_steps(self@);
        }
        self.signed_mod(i8::MAX as u128) as i8
    }

    /// A random `i16`: the next state modulo `i16::MAX`, negated when the top
    /// bit of the state after it is set. This takes two steps.
    pub fn rand_i16(&mut self) -> (r: i16)
        ensures
            final(self)@ == state_after(old(self)@, 2),
            final(self)@ == next_state(next_state(old(self)@)),
            r as int == signed_value(next_state(old(self)@), final(self)@, i16::MAX as u128),
    {
        proof {
            lemma_two_steps(self@);
        }
        self.signed_mod(i16::MAX as u128) as i16
    }

    /// A random `i32`: the next state modulo `i32::MAX`, negated when the top
    /// bit of the state after it is set. This takes two steps.
    pub fn rand_i32(&mut self) -> (r: i32)
        ensures
            final(self)@ == state_after(old(self)@, 2),
            final(self)@ == next_state(next_state(old(self)@)),
            r as int == signed_value(next_state(old(self)@), final(self)@, i32::MAX as u128),
    {
        proof {
            lemma_two_steps(self@);
        }
        self.signed_mod(i32::MAX as u128) as i32
    }

    /// A random `i64`: the next state modulo `i64::MAX`, negated when the top
    /// bit of the state after it is set. This takes two steps.
    pub fn rand_i64(&mut self) -> (r: i64)
        ensures
            final(self)@ == state_after(old(self)@, 2),
            final(self)@ == next_state(next_state(old(self)@)),
            r as int == signed_value(next_state(old(self)@), final(self)@, i64::MAX as u128),
    {
        proof {
            lemma_two_steps(self@);
        }
        self.signed_mod(i64::MAX as u128) as i64
    }

    /// A random `i128`: the next state modulo `i128::MAX`, negated when the top
    /// bit of the state after it is set. This takes two steps.
    pub fn rand_i128(&mut self) -> (r: i128)
        ensures
            final(self)@ == state_after(old(self)@, 2),
            final(self)@ == next_state(next_state(old(self)@)),
            r as int == signed_value(next_state(old(self)@), final(self)@, i128::MAX as u128),
    {
        proof {
            lemma_two_steps(self@);
        }
        self.signed_mod(i128::MAX as u128) as i128
    }

    /// The next state reduced modulo `m`.
    fn sample_mod(&mut self, m: u128) -> (r: u128)
        requires
            m > 0,
        ensures
            final(self)@ == next_state(old(self)@),
            r == final(self)@ % m,
            r < m,
    {
        self.random() % m
    }

    /// The next state reduced modulo `m`, negated when the top bit of the
    /// state after it is set; this takes two steps.
    fn signed_mod(&mut self, m: u128) -> (r: i128)
        requires
            0 < m <= i128::MAX,
        ensures
            final(self)@ == next_state(next_state(old(self)@)),
            r as int == signed_value(next_state(old(self)@), final(self)@, m),
            -(m as int) < r < m,
    {
        let n = self.sample_mod(m) as i128;
        if self.rand_bool() {
            -n
        } else {
            n
        }
    }

    fn rotate(&mut self)
        ensures
            final(self)@ == next_state(old(self)@),
    {
        let s = self.seed;
        let newbit = s ^ (s >> 1) ^ (s >> 2) ^ (s >> 7);
        self.seed = (s >> 1) | (newbit << 127);
        assert((s >> 1u128) | ((s ^ (s >> 1u128) ^ (s >> 2u128) ^ (s >> 7u128)) << 127u128)
            == next_state(s)) by (bit_vector);
    }
}

} // verus!
