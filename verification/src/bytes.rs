use vstd::prelude::*;

verus! {

/// The 4 little-endian bytes of a 32-bit word, least significant first.
pub open spec fn le_bytes_of_word(w: u32) -> Seq<u8> {
    seq![
        (w % 256) as u8,
        ((w / 256) % 256) as u8,
        ((w / 256 / 256) % 256) as u8,
        ((w / 256 / 256 / 256) % 256) as u8,
    ]
}

/// The 16-byte little-endian encoding of a 4-word block: each word's bytes in
/// array order, word 0's bytes first.
pub open spec fn le_bytes_of_words(ws: Seq<u32>) -> Seq<u8>
    recommends
        ws.len() == 4,
{
    le_bytes_of_word(ws[0]) + le_bytes_of_word(ws[1]) + le_bytes_of_word(ws[2])
        + le_bytes_of_word(ws[3])
}

/// The 32-bit word 4 little-endian bytes stand for.
pub open spec fn word_of_le_bytes(b: Seq<u8>) -> u32
    recommends
        b.len() == 4,
{
    (b[0] + 256 * b[1] + 0x1_0000 * b[2] + 0x100_0000 * b[3]) as u32
}

/// Decoding the little-endian bytes of a word gives the word back.
pub proof fn lemma_le_word_round_trip(w: u32)
    ensures
        word_of_le_bytes(le_bytes_of_word(w)) == w,
{
    assert(w % 256 < 256 && (w / 256) % 256 < 256 && (w / 256 / 256) % 256 < 256 && (w / 256
        / 256 / 256) % 256 < 256) by (bit_vector);
    assert((w % 256) + 256 * ((w / 256) % 256) + 0x1_0000 * ((w / 256 / 256) % 256) + 0x100_0000
        * ((w / 256 / 256 / 256) % 256) == w) by (bit_vector);
}

/// Decoding each 4-byte group of a block's encoding gives the block's words
/// back.
pub proof fn lemma_le_words_round_trip(ws: Seq<u32>)
    requires
        ws.len() == 4,
    ensures
        forall|j: int|
            0 <= j < 4 ==> word_of_le_bytes(
                le_bytes_of_words(ws).subrange(4 * j, 4 * j + 4),
            ) == ws[j],
{
    let b = le_bytes_of_words(ws);
    assert forall|j: int| 0 <= j < 4 implies word_of_le_bytes(b.subrange(4 * j, 4 * j + 4))
        == ws[j] by {
        assert(b.subrange(4 * j, 4 * j + 4) =~= le_bytes_of_word(ws[j]));
        lemma_le_word_round_trip(ws[j]);
    }
}

/// Encodes a 4-word block as 16 little-endian bytes, explicitly and without
/// reference to memory layout.
pub fn words_to_le_bytes(ws: &[u32; 4]) -> (out: [u8; 16])
    ensures
        out@ == le_bytes_of_words(ws@),
{
    let out = [
        (ws[0] % 256) as u8,
        ((ws[0] / 256) % 256) as u8,
        ((ws[0] / 256 / 256) % 256) as u8,
        ((ws[0] / 256 / 256 / 256) % 256) as u8,
        (ws[1] % 256) as u8,
        ((ws[1] / 256) % 256) as u8,
        ((ws[1] / 256 / 256) % 256) as u8,
        ((ws[1] / 256 / 256 / 256) % 256) as u8,
        (ws[2] % 256) as u8,
        ((ws[2] / 256) % 256) as u8,
        ((ws[2] / 256 / 256) % 256) as u8,
        ((ws[2] / 256 / 256 / 256) % 256) as u8,
        (ws[3] % 256) as u8,
        ((ws[3] / 256) % 256) as u8,
        ((ws[3] / 256 / 256) % 256) as u8,
        ((ws[3] / 256 / 256 / 256) % 256) as u8,
    ];
    proof {
        assert(out@ =~= le_bytes_of_words(ws@));
    }
    out
}

} // verus!
