use vstd::prelude::*;

verus! {

/// A 4-word little-endian multi-word unsigned integer: word 0 is the least
/// significant. It is the generator's position in its output stream.
pub struct Counter(pub [u32; 4]);

/// The number a 4-word little-endian counter stands for.
pub open spec fn wval4(c: Seq<u32>) -> int
    recommends
        c.len() == 4,
{
    c[0] + 0x1_0000_0000 * c[1] + 0x1_0000_0000_0000_0000 * c[2]
        + 0x1_0000_0000_0000_0000_0000_0000 * c[3]
}

/// The 4 little-endian words of a number below 2^128.
pub open spec fn wdigits4(v: int) -> Seq<u32>
    recommends
        0 <= v < 0x1_0000_0000_0000_0000_0000_0000_0000_0000int,
{
    seq![
        (v % 0x1_0000_0000) as u32,
        ((v / 0x1_0000_0000) % 0x1_0000_0000) as u32,
        ((v / 0x1_0000_0000 / 0x1_0000_0000) % 0x1_0000_0000) as u32,
        ((v / 0x1_0000_0000 / 0x1_0000_0000 / 0x1_0000_0000) % 0x1_0000_0000) as u32,
    ]
}

/// Incrementing a 4-word counter by one: the standard little-endian
/// multi-precision increment, wrapping silently to all-zero past the largest
/// value.
pub open spec fn inc_words(c: Seq<u32>) -> Seq<u32>
    recommends
        c.len() == 4,
{
    wdigits4((wval4(c) + 1) % 0x1_0000_0000_0000_0000_0000_0000_0000_0000int)
}

/// Taking the digits of the value of 4 words gives the words back.
pub proof fn lemma_wdigits4_of_wval4(d0: u32, d1: u32, d2: u32, d3: u32)
    ensures
        wdigits4(
            d0 + 0x1_0000_0000 * d1 + 0x1_0000_0000_0000_0000 * d2
                + 0x1_0000_0000_0000_0000_0000_0000 * d3,
        ) =~= seq![d0, d1, d2, d3],
{
    let v = d0 + 0x1_0000_0000 * d1 + 0x1_0000_0000_0000_0000 * d2
        + 0x1_0000_0000_0000_0000_0000_0000 * d3;
    let t1 = d1 + 0x1_0000_0000 * d2 + 0x1_0000_0000_0000_0000 * d3;
    let t2 = d2 + 0x1_0000_0000 * d3;
    vstd::arithmetic::div_mod::lemma_fundamental_div_mod_converse(
        v,
        0x1_0000_0000,
        t1,
        d0 as int,
    );
    vstd::arithmetic::div_mod::lemma_fundamental_div_mod_converse(
        t1,
        0x1_0000_0000,
        t2,
        d1 as int,
    );
    vstd::arithmetic::div_mod::lemma_fundamental_div_mod_converse(
        t2,
        0x1_0000_0000,
        d3 as int,
        d2 as int,
    );
    vstd::arithmetic::div_mod::lemma_small_mod(d3 as nat, 0x1_0000_0000);
}

/// Taking the value of the digits of a number below 2^128 gives the number
/// back.
pub proof fn lemma_wval4_of_wdigits4(v: int)
    requires
        0 <= v < 0x1_0000_0000_0000_0000_0000_0000_0000_0000int,
    ensures
        wval4(wdigits4(v)) == v,
{
    let q1 = v / 0x1_0000_0000;
    let q2 = q1 / 0x1_0000_0000;
    let q3 = q2 / 0x1_0000_0000;
    vstd::arithmetic::div_mod::lemma_fundamental_div_mod(v, 0x1_0000_0000);
    vstd::arithmetic::div_mod::lemma_fundamental_div_mod(q1, 0x1_0000_0000);
    vstd::arithmetic::div_mod::lemma_fundamental_div_mod(q2, 0x1_0000_0000);
    vstd::arithmetic::div_mod::lemma_div_is_ordered(
        v,
        0x1_0000_0000_0000_0000_0000_0000_0000_0000int - 1,
        0x1_0000_0000,
    );
    vstd::arithmetic::div_mod::lemma_fundamental_div_mod_converse(
        0x1_0000_0000_0000_0000_0000_0000_0000_0000int - 1,
        0x1_0000_0000,
        0x1_0000_0000_0000_0000_0000_0000 - 1,
        0x1_0000_0000 - 1,
    );
    vstd::arithmetic::div_mod::lemma_div_is_ordered(
        q1,
        0x1_0000_0000_0000_0000_0000_0000 - 1,
        0x1_0000_0000,
    );
    vstd::arithmetic::div_mod::lemma_fundamental_div_mod_converse(
        0x1_0000_0000_0000_0000_0000_0000 - 1,
        0x1_0000_0000,
        0x1_0000_0000_0000_0000 - 1,
        0x1_0000_0000 - 1,
    );
    vstd::arithmetic::div_mod::lemma_div_is_ordered(
        q2,
        0x1_0000_0000_0000_0000 - 1,
        0x1_0000_0000,
    );
    vstd::arithmetic::div_mod::lemma_fundamental_div_mod_converse(
        0x1_0000_0000_0000_0000 - 1,
        0x1_0000_0000,
        0x1_0000_0000 - 1,
        0x1_0000_0000 - 1,
    );
    vstd::arithmetic::div_mod::lemma_small_mod(q3 as nat, 0x1_0000_0000);
}

/// Incrementing a counter adds one to its value, modulo 2^128.
pub proof fn lemma_inc_words_val(c: Seq<u32>)
    requires
        c.len() == 4,
    ensures
        wval4(inc_words(c)) == (wval4(c) + 1) % 0x1_0000_0000_0000_0000_0000_0000_0000_0000int,
{
    vstd::arithmetic::div_mod::lemma_mod_bound(
        wval4(c) + 1,
        0x1_0000_0000_0000_0000_0000_0000_0000_0000int,
    );
    lemma_wval4_of_wdigits4(
        (wval4(c) + 1) % 0x1_0000_0000_0000_0000_0000_0000_0000_0000int,
    );
}

/// The words written by one carry case of the increment are the little-endian
/// digits of the old value plus one, modulo 2^128.
proof fn lemma_inc_step(c: Seq<u32>, d: Seq<u32>)
    requires
        c.len() == 4,
        d.len() == 4,
        wval4(d) == (wval4(c) + 1) % 0x1_0000_0000_0000_0000_0000_0000_0000_0000int,
    ensures
        inc_words(c) == d,
{
    lemma_wdigits4_of_wval4(d[0], d[1], d[2], d[3]);
    assert(d =~= seq![d[0], d[1], d[2], d[3]]);
}

impl Counter {
    /// Ripple-carry increment by one; wraps silently to all-zero past the
    /// largest value.
    pub(crate) fn inc(&mut self)
        ensures
            final(self).0@ == inc_words(old(self).0@),
    {
        let c0 = self.0[0];
        let c1 = self.0[1];
        let c2 = self.0[2];
        let c3 = self.0[3];
        proof {
            assert(old(self).0@ =~= seq![c0, c1, c2, c3]);
        }
        let ghost v = wval4(old(self).0@);
        if c0 < u32::MAX {
            self.0 = [c0 + 1, c1, c2, c3];
            proof {
                assert(self.0@ =~= seq![(c0 + 1) as u32, c1, c2, c3]);
                vstd::arithmetic::div_mod::lemma_small_mod(
                    (v + 1) as nat,
                     0x1_0000_0000_0000_0000_0000_0000_0000_0000nat,
                );
                lemma_inc_step(old(self).0@, self.0@);
            }
        } else if c1 < u32::MAX {
            self.0 = [0, c1 + 1, c2, c3];
            proof {
                assert(self.0@ =~= seq![0u32, (c1 + 1) as u32, c2, c3]);
                vstd::arithmetic::div_mod::lemma_small_mod(
                    (v + 1) as nat,
                     0x1_0000_0000_0000_0000_0000_0000_0000_0000nat,
                );
                lemma_inc_step(old(self).0@, self.0@);
            }
        } else if c2 < u32::MAX {
            self.0 = [0, 0, c2 + 1, c3];
            proof {
                assert(self.0@ =~= seq![0u32, 0u32, (c2 + 1) as u32, c3]);
                vstd::arithmetic::div_mod::lemma_small_mod(
                    (v + 1) as nat,
                     0x1_0000_0000_0000_0000_0000_0000_0000_0000nat,
                );
                lemma_inc_step(old(self).0@, self.0@);
            }
        } else if c3 < u32::MAX {
            self.0 = [0, 0, 0, c3 + 1];
            proof {
                assert(self.0@ =~= seq![0u32, 0u32, 0u32, (c3 + 1) as u32]);
                vstd::arithmetic::div_mod::lemma_small_mod(
                    (v + 1) as nat,
                     0x1_0000_0000_0000_0000_0000_0000_0000_0000nat,
                );
                lemma_inc_step(old(self).0@, self.0@);
            }
        } else {
            self.0 = [0, 0, 0, 0];
            proof {
                assert(self.0@ =~= seq![0u32, 0u32, 0u32, 0u32]);
                vstd::arithmetic::div_mod::lemma_fundamental_div_mod_converse(
                    v + 1,
                    0x1_0000_0000_0000_0000_0000_0000_0000_0000int,
                    1,
                    0,
                );
                lemma_inc_step(old(self).0@, self.0@);
            }
        }
    }
}

} // verus!
