//! The source of random numbers. Each worker owns one, so that no state is
//! shared between rays and a seed reproduces a sequence.

use vstd::prelude::*;
use crate::scalar::Scalar;
use crate::vec3::Vec3;

verus! {

/// The generator `rand::rngs::StdRng`, carried through as an opaque value.
#[verifier::external_type_specification]
#[verifier::external_body]
pub struct ExStdRng(rand::rngs::StdRng);

/// The word that the generator gives at its call number `k` from now, the
/// next call being number 0. A generator computes its words from its state
/// alone, so that its state fixes all of them.
pub uninterp spec fn generator_word(rng: rand::rngs::StdRng, k: nat) -> u32;

/// The word number `k`, counted from 0, of the stream that starts from the
/// seed `seed`.
pub uninterp spec fn seeded_word(seed: u64, k: nat) -> u32;

/// Calls `rand::SeedableRng::seed_from_u64` for `StdRng`, which expands the
/// seed to the key of the generator and never fails. The generator that comes
/// back is computed from the seed alone, and so are the words that it gives;
/// nothing else is claimed of them.
#[verifier::external_body]
fn seed_generator(seed: u64) -> (rng: rand::rngs::StdRng)
    ensures
        forall|k: nat| #[trigger] generator_word(rng, k) == seeded_word(seed, k),
{
    rand::SeedableRng::seed_from_u64(seed)
}

/// Calls `rand::RngCore::next_u32` on the generator, which returns its next
/// word and moves on by one word. It never fails. Nothing is claimed of the
/// word itself: it may be any.
#[verifier::external_body]
fn next_word(rng: &mut rand::rngs::StdRng) -> (w: u32)
    ensures
        w == generator_word(*old(rng), 0),
        forall|k: nat| #[trigger] generator_word(*final(rng), k) == generator_word(*old(rng), k + 1),
{
    rand::RngCore::next_u32(rng)
}

/// A stream of random numbers.
pub struct Sampler {
    rng: rand::rngs::StdRng,
}

/// The number in `[-1/2, 1/2)` that the word `w` stands for: `w` counted in
/// units of 2^-32, shifted down by 1/2.
pub open spec fn spec_half_open(w: u32) -> Scalar {
    Scalar { raw: (w - 0x8000_0000) as i64 }
}

/// Maps a random word to a number in `[-1/2, 1/2)`.
#[verifier::when_used_as_spec(spec_half_open)]
pub fn half_open(w: u32) -> (s: Scalar)
    ensures
        s == spec_half_open(w),
        -0x8000_0000 <= s@ < 0x8000_0000,
{
    Scalar { raw: w as i64 - 0x8000_0000i64 }
}

/// The number in `[-1, 1)` that the word `w` stands for: `w` counted in units
/// of 2^-31, shifted down by 1.
pub open spec fn spec_symmetric(w: u32) -> Scalar {
    Scalar { raw: (2 * w - 0x1_0000_0000) as i64 }
}

/// Maps a random word to a number in `[-1, 1)`.
#[verifier::when_used_as_spec(spec_symmetric)]
pub fn symmetric(w: u32) -> (s: Scalar)
    ensures
        s == spec_symmetric(w),
        -0x1_0000_0000 <= s@ < 0x1_0000_0000,
{
    Scalar { raw: 2 * (w as i64) - 0x1_0000_0000i64 }
}

/// Whether `p` lies in the unit ball and is not its centre.
pub open spec fn in_unit_ball(p: Vec3) -> bool {
    0 < p.norm_sq() <= 0x1_0000_0000 * 0x1_0000_0000
}

/// The direction that the three words stand for: the unit vector towards the
/// point with coordinates in `[-1, 1)` that they give, if that point lies in
/// the unit ball and is not its centre.
pub open spec fn spec_direction_from_words(a: u32, b: u32, c: u32) -> Option<Vec3> {
    let p = Vec3::new(symmetric(a), symmetric(b), symmetric(c));
    if in_unit_ball(p) {
        Some(p.unit())
    } else {
        None
    }
}

/// Maps three random words to a direction, by rejection: points outside the
/// unit ball give none, so that the directions are spread evenly.
#[verifier::when_used_as_spec(spec_direction_from_words)]
pub fn direction_from_words(a: u32, b: u32, c: u32) -> (d: Option<Vec3>)
    ensures
        d == spec_direction_from_words(a, b, c),
        d matches Some(v) ==> v.within_unit_box() && !v.is_zero(),
{
    let p = Vec3::new(symmetric(a), symmetric(b), symmetric(c));
    let sx: u128 = square_of(p.x);
    let sy: u128 = square_of(p.y);
    let sz: u128 = square_of(p.z);
    let n: u128 = sx + sy + sz;
    if 0 < n && n <= 0x1_0000_0000_0000_0000 {
        assert(!p.is_zero()) by (nonlinear_arith)
            requires
                p.x@ * p.x@ + p.y@ * p.y@ + p.z@ * p.z@ > 0,
        ;
        Some(p.unit())
    } else {
        None
    }
}

/// The square of the raw count of a number between -1 and 1.
fn square_of(s: Scalar) -> (r: u128)
    requires
        -0x1_0000_0000 <= s@ <= 0x1_0000_0000,
    ensures
        r == s@ * s@,
        r <= 0x1_0000_0000_0000_0000,
{
    let m: u128 = if s.raw >= 0 {
        s.raw as u128
    } else {
        (-s.raw) as u128
    };
    assert(m * m == s@ * s@) by (nonlinear_arith)
        requires
            m == s@ || m == -s@,
    ;
    assert(m * m <= 0x1_0000_0000 * 0x1_0000_0000) by (nonlinear_arith)
        requires
            0 <= m <= 0x1_0000_0000,
    ;
    m * m
}

/// The stream `words` without its first `n` words.
pub open spec fn shifted(words: Map<nat, u32>, n: nat) -> Map<nat, u32> {
    Map::total(|k: nat| words[k + n])
}

/// To drop `a` words and then `b` more is to drop `a + b` words.
pub proof fn lemma_shifted_twice(words: Map<nat, u32>, a: nat, b: nat)
    ensures
        shifted(shifted(words, a), b) == shifted(words, a + b),
{
    assert(shifted(shifted(words, a), b) =~= shifted(words, a + b));
}

/// To drop no word leaves a stream of all words as it is.
pub proof fn lemma_shifted_by_nothing(words: Map<nat, u32>)
    requires
        words.dom() == Set::<nat>::full(),
    ensures
        shifted(words, 0) == words,
{
    assert(shifted(words, 0) =~= words);
}

/// The stream that starts from the seed `seed`.
pub open spec fn seed_stream(seed: u64) -> Map<nat, u32> {
    Map::total(|k: nat| seeded_word(seed, k))
}

/// The direction along the x axis, which stands in where no direction was
/// found.
pub open spec fn x_axis() -> Vec3 {
    Vec3::new(Scalar::one(), Scalar::zero(), Scalar::zero())
}

/// The direction that the stream `words` gives within `tries` tries, and the
/// number of words that it takes. Each try takes three words; the first try
/// whose point lies in the unit ball gives the direction. Where none does,
/// the direction is that of the x axis.
pub open spec fn drawn_direction(words: Map<nat, u32>, tries: nat) -> (Vec3, nat)
    decreases tries,
{
    if tries == 0 {
        (x_axis(), 0)
    } else {
        match spec_direction_from_words(words[0], words[1], words[2]) {
            Some(d) => (d, 3),
            None => {
                let later = drawn_direction(shifted(words, 3), (tries - 1) as nat);
                (later.0, later.1 + 3)
            },
        }
    }
}

/// The first `n` directions that the stream `words` gives, one after the
/// other, each within the tries that `unit_vector` makes.
pub open spec fn drawn_directions(words: Map<nat, u32>, n: nat) -> Seq<Vec3>
    decreases n,
{
    if n == 0 {
        Seq::empty()
    } else {
        let first = drawn_direction(words, most_tries());
        seq![first.0] + drawn_directions(shifted(words, first.1), (n - 1) as nat)
    }
}

/// The number of tries that `unit_vector` makes at most.
pub open spec fn most_tries() -> nat {
    8
}

impl Sampler {
    /// The words that the stream will give, by their number from now on: the
    /// next word is number 0.
    pub closed spec fn stream(&self) -> Map<nat, u32> {
        Map::total(|k: nat| generator_word(self.rng, k))
    }

    /// The word that the stream gives at draw number `k` from now, the next
    /// draw being number 0.
    pub open spec fn upcoming(&self, k: nat) -> u32 {
        self.stream()[k]
    }

    /// Whether this stream is the stream `before` after `n` draws: its words
    /// are those of `before` from number `n` on.
    pub open spec fn follows(&self, before: Sampler, n: nat) -> bool {
        self.stream() == shifted(before.stream(), n)
    }

    /// A stream holds a word for every number.
    pub proof fn lemma_stream_is_total(&self)
        ensures
            self.stream().dom() == Set::<nat>::full(),
    {
        assert(self.stream().dom() =~= Set::<nat>::full());
    }

    /// The stream that the seed determines: the same seed gives the same
    /// words.
    pub fn seeded(seed: u64) -> (s: Sampler)
        ensures
            s.stream() == seed_stream(seed),
    {
        let s = Sampler { rng: seed_generator(seed) };
        assert(s.stream() =~= seed_stream(seed));
        s
    }

    /// Draws the next word of the stream.
    pub fn word(&mut self) -> (w: u32)
        ensures
            w == old(self).upcoming(0),
            final(self).follows(*old(self), 1),
    {
        let w = next_word(&mut self.rng);
        assert(self.stream() =~= shifted(old(self).stream(), 1));
        w
    }

    /// Draws a random number in `[-1/2, 1/2)`: the number that the next word
    /// of the stream stands for.
    pub fn centered(&mut self) -> (s: Scalar)
        ensures
            s == half_open(old(self).upcoming(0)),
            final(self).follows(*old(self), 1),
            -0x8000_0000 <= s@ < 0x8000_0000,
    {
        half_open(self.word())
    }

    /// Draws a random direction: a unit vector, rounded down, with every
    /// component between -1 and 1. Draws points, three words each, until one
    /// lies in the unit ball, eight times at most; after that the direction
    /// is that of the x axis.
    pub fn unit_vector(&mut self) -> (d: Vec3)
        ensures
            d == drawn_direction(old(self).stream(), most_tries()).0,
            final(self).follows(
                *old(self),
                drawn_direction(old(self).stream(), most_tries()).1,
            ),
            d.within_unit_box(),
            !d.is_zero(),
    {
        let mut tries: u8 = 0;
        proof {
            self.lemma_stream_is_total();
            lemma_shifted_by_nothing(self.stream());
        }
        while tries < 8
            invariant
                tries <= 8,
                self.follows(*old(self), (3 * tries) as nat),
                drawn_direction(old(self).stream(), 8).0 == drawn_direction(
                    self.stream(),
                    (8 - tries) as nat,
                ).0,
                drawn_direction(old(self).stream(), 8).1 == drawn_direction(
                    self.stream(),
                    (8 - tries) as nat,
                ).1 + 3 * tries,
            decreases 8 - tries,
        {
            let ghost before = self.stream();
            let a = self.word();
            let b = self.word();
            let c = self.word();
            proof {
                lemma_shifted_twice(before, 1, 1);
                lemma_shifted_twice(before, 2, 1);
                lemma_shifted_twice(old(self).stream(), (3 * tries) as nat, 3);
                assert(self.stream() == shifted(before, 3));
            }
            match direction_from_words(a, b, c) {
                Some(d) => {
                    return d;
                },
                None => {},
            }
            tries += 1;
        }
        Vec3::new(Scalar::one(), Scalar::zero(), Scalar::zero())
    }
}

} // verus!
