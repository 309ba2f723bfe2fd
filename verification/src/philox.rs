use vstd::prelude::*;

use crate::bytes::{le_bytes_of_words, words_to_le_bytes};
use crate::counter::{inc_words, Counter};

verus! {

/// First round multiplier, fixed by the published constant set; chosen for
/// statistical quality and reproduced bit-for-bit.
pub const M0: u32 = 0xD2511F53;

/// Second round multiplier, fixed by the published constant set.
pub const M1: u32 = 0xCD9E8D57;

/// Per-round increment of the first key word: the fractional golden ratio.
pub const W0: u32 = 0x9E3779B9;

/// Per-round increment of the second key word: fractional sqrt(3) - 1.
pub const W1: u32 = 0xBB67AE85;

/// The round count that produces the officially standardized stream.
pub const STANDARD_ROUNDS: u32 = 10;

/// The high 32 bits of the 64-bit product of two 32-bit words.
pub open spec fn mul_hi(a: u32, b: u32) -> u32 {
    ((a * b) / 0x1_0000_0000) as u32
}

/// The low 32 bits of the 64-bit product of two 32-bit words.
pub open spec fn mul_lo(a: u32, b: u32) -> u32 {
    ((a * b) % 0x1_0000_0000) as u32
}

/// One multiply/xor mixing step on a 4-word counter under a 2-word key.
pub open spec fn round_words(c: Seq<u32>, k: Seq<u32>) -> Seq<u32>
    recommends
        c.len() == 4,
        k.len() == 2,
{
    seq![
        mul_hi(M1, c[2]) ^ c[1] ^ k[0],
        mul_lo(M1, c[2]),
        mul_hi(M0, c[0]) ^ c[3] ^ k[1],
        mul_lo(M0, c[0]),
    ]
}

/// One key-schedule step: each key word advances by its fixed odd constant,
/// modulo 2^32.
pub open spec fn key_step(k: Seq<u32>) -> Seq<u32>
    recommends
        k.len() == 2,
{
    seq![k[0].wrapping_add(W0), k[1].wrapping_add(W1)]
}

/// The counter after `rounds` mixing rounds, the key advancing once per round.
pub open spec fn mix_rounds(c: Seq<u32>, k: Seq<u32>, rounds: nat) -> Seq<u32>
    recommends
        c.len() == 4,
        k.len() == 2,
    decreases rounds,
{
    if rounds == 0 {
        c
    } else {
        mix_rounds(round_words(c, k), key_step(k), (rounds - 1) as nat)
    }
}

/// The two halves of a 64-bit product: high word, then low word.
pub struct HiLo(pub u32, pub u32);

/// Splits the full 64-bit product of two words into its high and low 32 bits.
pub fn mulhilo(a: u32, b: u32) -> (r: HiLo)
    ensures
        r.0 == mul_hi(a, b),
        r.1 == mul_lo(a, b),
{
    proof {
        assert((a as int) * (b as int) < 0x1_0000_0000_0000_0000) by (nonlinear_arith)
            requires
                a < 0x1_0000_0000,
                b < 0x1_0000_0000,
        ;
    }
    let p: u64 = (a as u64) * (b as u64);
    let hi: u32 = (p >> 32) as u32;
    let lo: u32 = p as u32;
    proof {
        assert(p >> 32 == p / 0x1_0000_0000 && p / 0x1_0000_0000 < 0x1_0000_0000
            && p as u32 == p % 0x1_0000_0000) by (bit_vector);
    }
    HiLo(hi, lo)
}

/// Applies one mixing round to the counter words in place.
fn round(key: &[u32; 2], ctr: &mut [u32; 4])
    ensures
        final(ctr)@ == round_words(old(ctr)@, key@),
{
    let HiLo(hi0, lo0) = mulhilo(M0, ctr[0]);
    let HiLo(hi1, lo1) = mulhilo(M1, ctr[2]);
    let next = [hi1 ^ ctr[1] ^ key[0], lo1, hi0 ^ ctr[3] ^ key[1], lo0];
    proof {
        assert(next@ =~= round_words(ctr@, key@));
    }
    *ctr = next;
}

/// Advances the key words in place by the fixed per-word constants.
fn update_key(key: &mut [u32; 2])
    ensures
        final(key)@ == key_step(old(key)@),
{
    let next = [key[0].wrapping_add(W0), key[1].wrapping_add(W1)];
    proof {
        assert(next@ =~= key_step(key@));
    }
    *key = next;
}

/// The stateless form of the generator: mixes `ctr` under `key` for `rounds`
/// rounds, owning and mutating no state. Callers that partition the counter
/// space may invoke it from many threads at once.
pub fn generate(key: [u32; 2], ctr: [u32; 4], rounds: u32) -> (out: [u32; 4])
    ensures
        out@ == mix_rounds(ctr@, key@, rounds as nat),
{
    let mut k = key;
    let mut c = ctr;
    let mut i: u32 = 0;
    while i < rounds
        invariant
            i <= rounds,
            mix_rounds(ctr@, key@, rounds as nat) == mix_rounds(c@, k@, (rounds - i) as nat),
        decreases rounds - i,
    {
        round(&k, &mut c);
        update_key(&mut k);
        i = i + 1;
    }
    c
}

/// A Philox4x32 generator: a fixed 2-word key, a 4-word little-endian counter
/// that advances by one per call, and a fixed round count.
pub struct Philox {
    key: [u32; 2],
    ctr: Counter,
    rounds: u32,
}

/// The canonical configuration: 4 words of 32 bits, 10 rounds.
pub type Philox4x32_10 = Philox;

/// The words one call of `next` returns: the stored counter mixed under the
/// stored key for the stored number of rounds.
pub open spec fn next_output(g: Philox) -> Seq<u32> {
    mix_rounds(g.spec_ctr(), g.spec_key(), g.spec_rounds())
}

impl Philox {
    /// The stored key, as a sequence of 2 words.
    pub closed spec fn spec_key(&self) -> Seq<u32> {
        self.key@
    }

    /// The stored counter, as a sequence of 4 little-endian words.
    pub closed spec fn spec_ctr(&self) -> Seq<u32> {
        self.ctr.0@
    }

    /// The round count fixed at construction.
    pub closed spec fn spec_rounds(&self) -> nat {
        self.rounds as nat
    }

    /// The all-zero key.
    pub fn key_default() -> (key: [u32; 2])
        ensures
            key@ == seq![0u32, 0u32],
    {
        let key = [0u32, 0u32];
        proof {
            assert(key@ =~= seq![0u32, 0u32]);
        }
        key
    }

    /// A generator over the given key, starting at the all-zero counter, with
    /// the standard round count. The word width and the key and counter
    /// lengths are fixed by the types, so no configuration can fail here.
    pub fn from_key(key: [u32; 2]) -> (g: Self)
        ensures
            g.spec_key() == key@,
            g.spec_ctr() == seq![0u32, 0u32, 0u32, 0u32],
            g.spec_rounds() == STANDARD_ROUNDS as nat,
    {
        let ctr = [0u32, 0u32, 0u32, 0u32];
        proof {
            assert(ctr@ =~= seq![0u32, 0u32, 0u32, 0u32]);
        }
        Philox { key, ctr: Counter(ctr), rounds: STANDARD_ROUNDS }
    }

    /// The same generator repositioned at the given counter.
    pub fn set_ctr(self, ctr: [u32; 4]) -> (g: Self)
        ensures
            g.spec_key() == self.spec_key(),
            g.spec_ctr() == ctr@,
            g.spec_rounds() == self.spec_rounds(),
    {
        Philox { key: self.key, ctr: Counter(ctr), rounds: self.rounds }
    }

    /// The same generator with another round count. Counts other than the
    /// standard one produce a different, non-standard stream.
    pub fn set_rounds(self, rounds: u32) -> (g: Self)
        ensures
            g.spec_key() == self.spec_key(),
            g.spec_ctr() == self.spec_ctr(),
            g.spec_rounds() == rounds as nat,
    {
        Philox { key: self.key, ctr: self.ctr, rounds }
    }

    /// The next output block: mixes local copies of the stored key and
    /// counter, then advances the stored counter by one. The stored key is
    /// never modified; every call restarts the key schedule from it.
    pub fn next(&mut self) -> (out: [u32; 4])
        ensures
            out@ == next_output(*old(self)),
            final(self).spec_key() == old(self).spec_key(),
            final(self).spec_ctr() == inc_words(old(self).spec_ctr()),
            final(self).spec_rounds() == old(self).spec_rounds(),
    {
        let out = generate(self.key, self.ctr.0, self.rounds);
        self.ctr.inc();
        out
    }

    /// The next output block as 16 bytes: each word of `next`'s output encoded
    /// as 4 little-endian bytes, in array order.
    pub fn next_bytes(&mut self) -> (out: [u8; 16])
        ensures
            out@ == le_bytes_of_words(next_output(*old(self))),
            final(self).spec_key() == old(self).spec_key(),
            final(self).spec_ctr() == inc_words(old(self).spec_ctr()),
            final(self).spec_rounds() == old(self).spec_rounds(),
    {
        let x = self.next();
        words_to_le_bytes(&x)
    }

    /// A read-only view of the stored counter: the stream position, without
    /// advancing it.
    pub fn ctr(&self) -> (c: &Counter)
        ensures
            c.0@ == self.spec_ctr(),
    {
        &self.ctr
    }
}

/// Stateless/stateful equivalence: what a generator returns from `next` is
/// exactly the stateless mix of its stored counter under its stored key, so
/// `generate` on a generator's key and counter agrees with that generator's
/// next output.
pub proof fn lemma_stateless_stateful_agree(g: Philox)
    ensures
        next_output(g) == mix_rounds(g.spec_ctr(), g.spec_key(), g.spec_rounds()),
{
}

/// Determinism: the mix is a function of the key, the counter and the round
/// count alone, so identical inputs give identical output.
pub proof fn lemma_generate_deterministic(
    key1: Seq<u32>,
    ctr1: Seq<u32>,
    rounds1: nat,
    key2: Seq<u32>,
    ctr2: Seq<u32>,
    rounds2: nat,
)
    requires
        key1 == key2,
        ctr1 == ctr2,
        rounds1 == rounds2,
    ensures
        mix_rounds(ctr1, key1, rounds1) == mix_rounds(ctr2, key2, rounds2),
{
}

/// The counter advanced by `n` increments.
pub open spec fn counter_plus(c: Seq<u32>, n: nat) -> Seq<u32>
    recommends
        c.len() == 4,
    decreases n,
{
    if n == 0 {
        c
    } else {
        inc_words(counter_plus(c, (n - 1) as nat))
    }
}

/// The output of the `n`-th call of `next` on a generator that starts at
/// counter `c`: each call mixes the current counter and then increments it.
pub open spec fn nth_output(key: Seq<u32>, c: Seq<u32>, rounds: nat, n: nat) -> Seq<u32>
    recommends
        c.len() == 4,
        key.len() == 2,
    decreases n,
{
    if n == 0 {
        mix_rounds(c, key, rounds)
    } else {
        nth_output(key, inc_words(c), rounds, (n - 1) as nat)
    }
}

/// Advancing by one and then by `n` is advancing by `n` and then by one.
proof fn lemma_counter_plus_shift(c: Seq<u32>, n: nat)
    ensures
        counter_plus(inc_words(c), n) == inc_words(counter_plus(c, n)),
    decreases n,
{
    if n > 0 {
        lemma_counter_plus_shift(c, (n - 1) as nat);
    }
}

/// Sequential stream equivalence: the `n`-th of repeated `next` calls from
/// counter `c` equals the stateless mix at counter `c` advanced `n` times.
pub proof fn lemma_sequential_stream(key: Seq<u32>, c: Seq<u32>, rounds: nat, n: nat)
    ensures
        nth_output(key, c, rounds, n) == mix_rounds(counter_plus(c, n), key, rounds),
    decreases n,
{
    if n > 0 {
        lemma_sequential_stream(key, inc_words(c), rounds, (n - 1) as nat);
        lemma_counter_plus_shift(c, (n - 1) as nat);
    }
}

} // verus!
