//! Sixteen-bit data words and the bytes they carry, low byte first.

use vstd::prelude::*;

verus! {

/// The word that carries `low` in bits 0 to 7 and `high` in bits 8 to 15.
pub open spec fn word_of(low: u8, high: u8) -> u16 {
    (low as u16) | ((high as u16) << 8)
}

/// Bits 0 to 7 of a word.
pub open spec fn low_byte(word: u16) -> u8 {
    (word & 0xFF) as u8
}

/// Bits 8 to 15 of a word.
pub open spec fn high_byte(word: u16) -> u8 {
    (word >> 8) as u8
}

/// The words that carry a byte sequence of even length, two bytes a word.
pub open spec fn words_of(bytes: Seq<u8>) -> Seq<u16> {
    Seq::new((bytes.len() / 2) as nat, |i: int| word_of(bytes[2 * i], bytes[2 * i + 1]))
}

/// The bytes that a sequence of words carries.
pub open spec fn bytes_of(words: Seq<u16>) -> Seq<u8> {
    Seq::new(
        2 * words.len(),
        |i: int|
            if i % 2 == 0 {
                low_byte(words[i / 2])
            } else {
                high_byte(words[i / 2])
            },
    )
}

/// Packs two bytes into the word that carries them.
pub fn pack_word(low: u8, high: u8) -> (w: u16)
    ensures
        w == word_of(low, high),
        low_byte(w) == low,
        high_byte(w) == high,
{
    proof {
        lemma_unpack_pack(low, high);
    }
    (low as u16) | ((high as u16) << 8)
}

/// Splits a word into its low and its high byte.
pub fn unpack_word(word: u16) -> (r: (u8, u8))
    ensures
        r.0 == low_byte(word),
        r.1 == high_byte(word),
        word_of(r.0, r.1) == word,
{
    proof {
        lemma_pack_unpack(word);
    }
    let low: u16 = word & 0xFF;
    let high: u16 = word >> 8;
    assert(low <= 0xFF && high <= 0xFF) by (bit_vector)
        requires
            low == word & 0xFF,
            high == word >> 8,
    ;
    (low as u8, high as u8)
}

/// Unpacking a packed pair of bytes gives the pair back.
pub proof fn lemma_unpack_pack(low: u8, high: u8)
    ensures
        low_byte(word_of(low, high)) == low,
        high_byte(word_of(low, high)) == high,
{
    let w = word_of(low, high);
    assert((w & 0xFF) as u8 == low && (w >> 8) as u8 == high) by (bit_vector)
        requires
            w == (low as u16) | ((high as u16) << 8),
    ;
}

/// Packing the two bytes of a word gives the word back.
pub proof fn lemma_pack_unpack(word: u16)
    ensures
        word_of(low_byte(word), high_byte(word)) == word,
{
    let low = low_byte(word);
    let high = high_byte(word);
    assert(((low as u16) | ((high as u16) << 8)) == word) by (bit_vector)
        requires
            low == (word & 0xFF) as u8,
            high == (word >> 8) as u8,
    ;
}

/// A byte sequence of even length survives the way through words and back.
pub proof fn lemma_bytes_of_words_of(bytes: Seq<u8>)
    requires
        bytes.len() % 2 == 0,
    ensures
        bytes_of(words_of(bytes)) == bytes,
{
    let back = bytes_of(words_of(bytes));
    assert(back.len() == bytes.len());
    assert forall|i: int| 0 <= i < bytes.len() implies back[i] == bytes[i] by {
        let k = i / 2;
        lemma_unpack_pack(bytes[2 * k], bytes[2 * k + 1]);
    }
    assert(back =~= bytes);
}

/// A word sequence survives the way through bytes and back.
pub proof fn lemma_words_of_bytes_of(words: Seq<u16>)
    ensures
        words_of(bytes_of(words)) == words,
{
    let back = words_of(bytes_of(words));
    assert(back.len() == words.len());
    assert forall|i: int| 0 <= i < words.len() implies back[i] == words[i] by {
        lemma_pack_unpack(words[i]);
    }
    assert(back =~= words);
}

} // verus!
