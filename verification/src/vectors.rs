use vstd::prelude::*;
use vstd::string::StrSliceExecFns;

verus! {

/// The published test-vector lines for the canonical 10-round configuration:
/// counter words, then key words, then output words, as hexadecimal.
pub fn split_test_vectors() -> (lines: Vec<String>)
    ensures
        lines@.len() == 3,
        lines@[0]@
            == "philox4x32 10 00000000 00000000 00000000 00000000 00000000 00000000 6627e8d5 e169c58d bc57ac4c 9b00dbd8"@,
        lines@[1]@
            == "philox4x32 10 ffffffff ffffffff ffffffff ffffffff ffffffff ffffffff 408f276d 41c83b0e a20bc7c6 6d5451fd"@,
        lines@[2]@
            == "philox4x32 10 243f6a88 85a308d3 13198a2e 03707344 a4093822 299f31d0 d16cfe09 94fdcceb 5001e420 24126ea1"@,
{
    let mut lines: Vec<String> = Vec::new();
    lines.push(
        "philox4x32 10 00000000 00000000 00000000 00000000 00000000 00000000 6627e8d5 e169c58d bc57ac4c 9b00dbd8".to_owned(),
    );
    lines.push(
        "philox4x32 10 ffffffff ffffffff ffffffff ffffffff ffffffff ffffffff 408f276d 41c83b0e a20bc7c6 6d5451fd".to_owned(),
    );
    lines.push(
        "philox4x32 10 243f6a88 85a308d3 13198a2e 03707344 a4093822 299f31d0 d16cfe09 94fdcceb 5001e420 24126ea1".to_owned(),
    );
    lines
}

/// The tokens of a line split at each single space, empty tokens kept.
pub open spec fn split_spaces(s: Seq<char>) -> Seq<Seq<char>>
    decreases s.len(),
{
    if s.len() == 0 {
        seq![Seq::empty()]
    } else if s.last() == ' ' {
        split_spaces(s.drop_last()).push(Seq::empty())
    } else {
        let r = split_spaces(s.drop_last());
        r.update(r.len() - 1, r.last().push(s.last()))
    }
}

/// Splitting yields at least one token.
pub proof fn lemma_split_spaces_len(s: Seq<char>)
    ensures
        split_spaces(s).len() >= 1,
    decreases s.len(),
{
    if s.len() > 0 {
        lemma_split_spaces_len(s.drop_last());
    }
}

/// A hexadecimal digit, in either case.
pub open spec fn is_hex_digit(c: char) -> bool {
    (48 <= c as u32 && c as u32 <= 57) || (97 <= c as u32 && c as u32 <= 102) || (65 <= c as u32
        && c as u32 <= 70)
}

/// The value of a hexadecimal digit.
pub open spec fn hex_digit_val(c: char) -> u32
    recommends
        is_hex_digit(c),
{
    if c as u32 <= 57 {
        (c as u32 - 48) as u32
    } else if 97 <= c as u32 {
        (c as u32 - 87) as u32
    } else {
        (c as u32 - 55) as u32
    }
}

/// A token that reads as one unsigned 32-bit hexadecimal word.
pub open spec fn is_hex_token(t: Seq<char>) -> bool {
    1 <= t.len() <= 8 && forall|i: int| 0 <= i < t.len() ==> is_hex_digit(#[trigger] t[i])
}

/// The number a big-endian string of hexadecimal digits stands for.
pub open spec fn hex_val(t: Seq<char>) -> nat
    decreases t.len(),
{
    if t.len() == 0 {
        0
    } else {
        16 * hex_val(t.drop_last()) + (hex_digit_val(t.last()) as nat)
    }
}

/// The word a line's `i`-th token stands for.
pub open spec fn hex_word(s: Seq<char>, i: int) -> u32 {
    hex_val(split_spaces(s)[i]) as u32
}

/// 16 to the power `n`.
pub open spec fn pow16(n: nat) -> nat
    decreases n,
{
    if n == 0 {
        1
    } else {
        16 * pow16((n - 1) as nat)
    }
}

/// A string of `n` hexadecimal digits stands for a number below 16^n.
pub proof fn lemma_hex_val_bound(t: Seq<char>)
    requires
        forall|i: int| 0 <= i < t.len() ==> is_hex_digit(#[trigger] t[i]),
    ensures
        hex_val(t) < pow16(t.len()),
    decreases t.len(),
{
    if t.len() > 0 {
        lemma_hex_val_bound(t.drop_last());
        assert(is_hex_digit(t.last()));
        assert(hex_digit_val(t.last()) <= 15);
    }
}

/// Powers of 16 do not decrease.
proof fn lemma_pow16_le(m: nat, n: nat)
    requires
        m <= n,
    ensures
        pow16(m) <= pow16(n),
    decreases n,
{
    if m < n {
        lemma_pow16_le(m, (n - 1) as nat);
    }
}

/// The value of a single hexadecimal digit character.
fn hex_digit(c: char) -> (d: u32)
    requires
        is_hex_digit(c),
    ensures
        d == hex_digit_val(c),
        d < 16,
{
    let u = c as u32;
    if u <= 57 {
        u - 48
    } else if u >= 97 {
        u - 87
    } else {
        u - 55
    }
}

/// Reads a token of at most 8 hexadecimal digits as a 32-bit word.
fn parse_hex_token(t: &Vec<char>) -> (v: u32)
    requires
        is_hex_token(t@),
    ensures
        v == hex_val(t@),
{
    let mut v: u32 = 0;
    let mut i: usize = 0;
    while i < t.len()
        invariant
            is_hex_token(t@),
            i <= t@.len(),
            v == hex_val(t@.subrange(0, i as int)),
        decreases t@.len() - i,
    {
        proof {
            assert(forall|k: int|
                0 <= k < i ==> is_hex_digit(#[trigger] t@.subrange(0, i as int)[k]));
            lemma_hex_val_bound(t@.subrange(0, i as int));
            lemma_pow16_le(i as nat, 7);
            assert(pow16(7) == 0x1000_0000) by {
                reveal_with_fuel(pow16, 8);
            }
        }
        let c = t[i];
        let d = hex_digit(c);
        v = v * 16 + d;
        i = i + 1;
        proof {
            assert(t@.subrange(0, i as int).drop_last() =~= t@.subrange(0, i - 1));
            assert(t@.subrange(0, i as int).last() == t@[i - 1]);
        }
    }
    proof {
        assert(t@.subrange(0, t@.len() as int) =~= t@);
    }
    v
}

/// Reads one test-vector line: returns the key words, the counter words and
/// the expected output words, in the order the line format fixes (tokens 6-7
/// are the key, 2-5 the counter, 8-11 the output).
pub fn parse_test_vector(s: &str) -> (r: ([u32; 2], [u32; 4], [u32; 4]))
    requires
        split_spaces(s@).len() >= 12,
        forall|i: int| 2 <= i < 12 ==> is_hex_token(#[trigger] split_spaces(s@)[i]),
    ensures
        r.0@ == seq![hex_word(s@, 6), hex_word(s@, 7)],
        r.1@ == seq![hex_word(s@, 2), hex_word(s@, 3), hex_word(s@, 4), hex_word(s@, 5)],
        r.2@ == seq![hex_word(s@, 8), hex_word(s@, 9), hex_word(s@, 10), hex_word(s@, 11)],
{
    let n = s.unicode_len();
    let mut toks: Vec<Vec<char>> = Vec::new();
    toks.push(Vec::new());
    proof {
        assert(s@.subrange(0, 0) =~= Seq::<char>::empty());
        assert(toks@[0]@ =~= split_spaces(s@.subrange(0, 0))[0]);
    }
    let mut j: usize = 0;
    while j < n
        invariant
            n == s@.len(),
            j <= n,
            toks@.len() == split_spaces(s@.subrange(0, j as int)).len(),
            forall|k: int|
                0 <= k < toks@.len() ==> #[trigger] toks@[k]@ == split_spaces(
                    s@.subrange(0, j as int),
                )[k],
        decreases n - j,
    {
        let ghost prefix = s@.subrange(0, j as int);
        proof {
            lemma_split_spaces_len(prefix);
        }
        let c = s.get_char(j);
        if c == ' ' {
            toks.push(Vec::new());
        } else {
            let mut last = toks.pop().unwrap();
            last.push(c);
            toks.push(last);
        }
        j = j + 1;
        proof {
            let prefix1 = s@.subrange(0, j as int);
            assert(prefix1.drop_last() =~= prefix);
            assert(prefix1.last() == c);
        }
    }
    proof {
        assert(s@.subrange(0, n as int) =~= s@);
    }
    let k6 = parse_hex_token(&toks[6]);
    let k7 = parse_hex_token(&toks[7]);
    let c2 = parse_hex_token(&toks[2]);
    let c3 = parse_hex_token(&toks[3]);
    let c4 = parse_hex_token(&toks[4]);
    let c5 = parse_hex_token(&toks[5]);
    let o8 = parse_hex_token(&toks[8]);
    let o9 = parse_hex_token(&toks[9]);
    let o10 = parse_hex_token(&toks[10]);
    let o11 = parse_hex_token(&toks[11]);
    let key = [k6, k7];
    let ctr = [c2, c3, c4, c5];
    let out = [o8, o9, o10, o11];
    proof {
        assert(forall|i: int|
            2 <= i < 12 ==> hex_val(#[trigger] split_spaces(s@)[i]) < 0x1_0000_0000) by {
            assert forall|i: int| 2 <= i < 12 implies hex_val(#[trigger] split_spaces(s@)[i])
                < 0x1_0000_0000 by {
                lemma_hex_val_bound(split_spaces(s@)[i]);
                lemma_pow16_le(split_spaces(s@)[i].len(), 8);
                assert(pow16(8) == 0x1_0000_0000) by {
                    reveal_with_fuel(pow16, 9);
                }
            }
        }
        assert(key@ =~= seq![hex_word(s@, 6), hex_word(s@, 7)]);
        assert(ctr@ =~= seq![hex_word(s@, 2), hex_word(s@, 3), hex_word(s@, 4), hex_word(s@, 5)]);
        assert(out@ =~= seq![hex_word(s@, 8), hex_word(s@, 9), hex_word(s@, 10), hex_word(
            s@,
            11,
        )]);
    }
    (key, ctr, out)
}

} // verus!
