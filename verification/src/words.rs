//! Thirty-two bit words and the bytes that they are made of.

use byteorder::{LittleEndian, ReadBytesExt};
use vstd::prelude::*;

verus! {

/// The word whose bytes, from the lowest to the highest, are `a`, `b`, `c` and `d`.
pub open spec fn word(a: u8, b: u8, c: u8, d: u8) -> int {
    a + 0x100 * b + 0x1_0000 * c + 0x100_0000 * d
}

/// The words that `bytes` spells when the lowest byte of each comes first.
pub open spec fn little_endian_words(bytes: Seq<u8>) -> Seq<u32> {
    Seq::new(
        bytes.len() / 4,
        |i: int| word(bytes[4 * i], bytes[4 * i + 1], bytes[4 * i + 2], bytes[4 * i + 3]) as u32,
    )
}

/// Byte `k` of `w`, counted from the lowest.
pub open spec fn byte_of_word(w: u32, k: int) -> u8 {
    if k == 0 {
        (w as int % 0x100) as u8
    } else if k == 1 {
        (w as int / 0x100 % 0x100) as u8
    } else if k == 2 {
        (w as int / 0x1_0000 % 0x100) as u8
    } else {
        (w as int / 0x100_0000) as u8
    }
}

/// The bytes of `words`, the lowest byte of each first.
pub open spec fn little_endian_bytes(words: Seq<u32>) -> Seq<u8> {
    Seq::new(4 * words.len(), |i: int| byte_of_word(words[i / 4], i % 4))
}

/// The bytes of `words`, the highest byte of each first.
pub open spec fn big_endian_bytes(words: Seq<u32>) -> Seq<u8> {
    Seq::new(4 * words.len(), |i: int| byte_of_word(words[i / 4], 3 - i % 4))
}

/// `bytes` with every group of four turned round.
pub open spec fn reversed_groups(bytes: Seq<u8>) -> Seq<u8> {
    Seq::new(bytes.len(), |i: int| bytes[i - i % 4 + (3 - i % 4)])
}

/// `w` with its four bytes in the opposite order.
pub open spec fn swapped(w: u32) -> u32 {
    word(byte_of_word(w, 3), byte_of_word(w, 2), byte_of_word(w, 1), byte_of_word(w, 0)) as u32
}

/// Calls `byteorder::ReadBytesExt::read_u32` for the little-endian order. It takes the first four
/// bytes off the reader and gives the word that they spell, the lowest byte first. Where fewer
/// are left it fails, so there must be four.
#[verifier::external_body]
fn read_word(reader: &mut &[u8]) -> (w: u32)
    requires
        old(reader)@.len() >= 4,
    ensures
        w == word(old(reader)@[0], old(reader)@[1], old(reader)@[2], old(reader)@[3]),
        final(reader)@ == old(reader)@.skip(4),
{
    reader.read_u32::<LittleEndian>().unwrap()
}

/// Calls `bytemuck::cast_slice` from words to bytes: the bytes of the words as they lie in memory.
/// Which byte of a word comes first depends on the machine: on each machine it is the lowest for
/// all words, or the highest for all.
#[verifier::external_body]
fn memory_bytes(words: &[u32]) -> (bytes: &[u8])
    ensures
        bytes@ == little_endian_bytes(words@) || bytes@ == big_endian_bytes(words@),
{
    bytemuck::cast_slice(words)
}

/// Calls `bytemuck::cast_slice` from signed to unsigned bytes: each byte keeps its bits.
#[verifier::external_body]
fn unsigned_bytes(bytes: &[i8]) -> (r: &[u8])
    ensures
        r@.len() == bytes@.len(),
        forall|i: int|
            0 <= i < bytes@.len() ==> #[trigger] r@[i] == crate::jvalue::byte_of(bytes@[i]),
{
    bytemuck::cast_slice(bytes)
}

/// The words that `bytes` spells, the lowest byte of each first.
pub fn read_words(bytes: &[u8]) -> (words: Vec<u32>)
    requires
        bytes@.len() % 4 == 0,
    ensures
        words@ == little_endian_words(bytes@),
{
    let count: usize = bytes.len() / 4;
    let mut reader: &[u8] = bytes;
    let mut words: Vec<u32> = Vec::with_capacity(count);
    let mut i: usize = 0;
    while i < count
        invariant
            i <= count,
            4 * count == bytes@.len(),
            reader@ == bytes@.skip(4 * i),
            words@ == little_endian_words(bytes@).take(i as int),
        decreases count - i,
    {
        let w: u32 = read_word(&mut reader);
        words.push(w);
        i = i + 1;
        assert(words@ =~= little_endian_words(bytes@).take(i as int));
        assert(reader@ =~= bytes@.skip(4 * i));
    }
    assert(words@ =~= little_endian_words(bytes@));
    words
}

proof fn lemma_word_of_its_bytes(w: u32)
    ensures
        word(byte_of_word(w, 0), byte_of_word(w, 1), byte_of_word(w, 2), byte_of_word(w, 3)) == w,
{
    let v = w as int;
    assert(v == v % 0x100 + 0x100 * (v / 0x100));
    assert(v / 0x100 == v / 0x100 % 0x100 + 0x100 * (v / 0x1_0000));
    assert(v / 0x1_0000 == v / 0x1_0000 % 0x100 + 0x100 * (v / 0x100_0000));
}

proof fn lemma_bytes_of_word(a: u8, b: u8, c: u8, d: u8)
    ensures
        0 <= word(a, b, c, d) <= u32::MAX,
        byte_of_word(word(a, b, c, d) as u32, 0) == a,
        byte_of_word(word(a, b, c, d) as u32, 1) == b,
        byte_of_word(word(a, b, c, d) as u32, 2) == c,
        byte_of_word(word(a, b, c, d) as u32, 3) == d,
{
    let w = word(a, b, c, d);
    assert(w % 0x100 == a && w / 0x100 == b + 0x100 * c + 0x1_0000 * d);
    assert(w / 0x100 % 0x100 == b && w / 0x1_0000 == c + 0x100 * d);
    assert(w / 0x1_0000 % 0x100 == c && w / 0x100_0000 == d);
}

/// Spelling words out, the lowest byte first, and reading them in the same order gives the words
/// back.
pub proof fn words_survive_their_bytes(words: Seq<u32>)
    ensures
        little_endian_words(little_endian_bytes(words)) == words,
{
    let back = little_endian_words(little_endian_bytes(words));
    assert forall|i: int| 0 <= i < words.len() implies back[i] == words[i] by {
        lemma_word_of_its_bytes(words[i]);
    }
    assert(back =~= words);
}

/// Reading words and spelling them out in the same order gives the bytes back.
pub proof fn bytes_survive_their_words(bytes: Seq<u8>)
    requires
        bytes.len() % 4 == 0,
    ensures
        little_endian_bytes(little_endian_words(bytes)) == bytes,
{
    let back = little_endian_bytes(little_endian_words(bytes));
    assert forall|i: int| 0 <= i < bytes.len() implies back[i] == bytes[i] by {
        let j = i / 4;
        lemma_bytes_of_word(bytes[4 * j], bytes[4 * j + 1], bytes[4 * j + 2], bytes[4 * j + 3]);
    }
    assert(back =~= bytes);
}

/// Spelling words out, the highest byte first, and reading them in the opposite order turns each
/// of them round.
pub proof fn words_swap_across_orders(words: Seq<u32>)
    ensures
        little_endian_words(big_endian_bytes(words)) == words.map_values(|w: u32| swapped(w)),
{
    assert(little_endian_words(big_endian_bytes(words)) =~= words.map_values(
        |w: u32| swapped(w),
    ));
}

/// Reading words, the lowest byte first, and spelling them out in the opposite order turns every
/// group of four bytes round.
pub proof fn bytes_reverse_across_orders(bytes: Seq<u8>)
    requires
        bytes.len() % 4 == 0,
    ensures
        big_endian_bytes(little_endian_words(bytes)) == reversed_groups(bytes),
{
    let turned = big_endian_bytes(little_endian_words(bytes));
    assert forall|i: int| 0 <= i < bytes.len() implies turned[i] == reversed_groups(bytes)[i] by {
        let j = i / 4;
        lemma_bytes_of_word(bytes[4 * j], bytes[4 * j + 1], bytes[4 * j + 2], bytes[4 * j + 3]);
    }
    assert(turned =~= reversed_groups(bytes));
}

/// The vertex data `bytes`, whose numbers are written with their lowest byte first, as it has to
/// lie in this machine's memory: unchanged, or with the bytes of every number turned round.
pub fn vertex_bytes(bytes: &[i8]) -> (r: Vec<u8>)
    requires
        bytes@.len() % 4 == 0,
    ensures
        r@ == crate::stream::unsigned(bytes@) || r@ == reversed_groups(
            crate::stream::unsigned(bytes@),
        ),
{
    let given: &[u8] = unsigned_bytes(bytes);
    assert(given@ =~= crate::stream::unsigned(bytes@));
    let words: Vec<u32> = read_words(given);
    proof {
        bytes_survive_their_words(given@);
        bytes_reverse_across_orders(given@);
    }
    vstd::slice::slice_to_vec(memory_bytes(words.as_slice()))
}

/// The words that this machine's memory holds for `words`, read with the lowest byte first: the
/// same words, or each of them turned round.
pub fn words_in_memory(words: &[u32]) -> (r: Vec<u32>)
    ensures
        r@ == words@ || r@ == words@.map_values(|w: u32| swapped(w)),
{
    let bytes: &[u8] = memory_bytes(words);
    assert(bytes@.len() == 4 * words@.len());
    let read: Vec<u32> = read_words(bytes);
    proof {
        if bytes@ == little_endian_bytes(words@) {
            words_survive_their_bytes(words@);
        } else {
            words_swap_across_orders(words@);
        }
    }
    read
}

/// Every four bytes make up the word at their place: the first counts once, and each of the others
/// 256 times as much as the one before it.
pub proof fn words_read_are_the_bytes(bytes: &[u8], words: Vec<u32>, i: int)
    requires
        call_ensures(read_words, (bytes,), words),
        bytes@.len() % 4 == 0,
        0 <= i < words@.len(),
    ensures
        4 * words@.len() == bytes@.len(),
        words@[i] == bytes@[4 * i] + 256 * (bytes@[4 * i + 1] + 256 * (bytes@[4 * i + 2] + 256
            * bytes@[4 * i + 3])),
{
    lemma_bytes_of_word(bytes@[4 * i], bytes@[4 * i + 1], bytes@[4 * i + 2], bytes@[4 * i + 3]);
}

/// Bytes that come in groups of four can be read as words, one for each group.
pub proof fn words_come_in_fours(bytes: &[u8], words: Vec<u32>)
    ensures
        bytes@.len() % 4 == 0 ==> call_requires(read_words, (bytes,)),
        call_ensures(read_words, (bytes,), words) ==> words@.len() == bytes@.len() / 4,
{
}

/// The bytes that words are spelled with add up to the words, in either order.
pub proof fn spelled_bytes_add_up(words: Seq<u32>, i: int)
    requires
        0 <= i < words.len(),
    ensures
        little_endian_bytes(words).len() == 4 * words.len(),
        big_endian_bytes(words).len() == 4 * words.len(),
        ({
            let b = little_endian_bytes(words);
            words[i] == b[4 * i] + 256 * (b[4 * i + 1] + 256 * (b[4 * i + 2] + 256 * b[4 * i + 3]))
        }),
        ({
            let b = big_endian_bytes(words);
            words[i] == b[4 * i + 3] + 256 * (b[4 * i + 2] + 256 * (b[4 * i + 1] + 256 * b[4 * i]))
        }),
{
    lemma_word_of_its_bytes(words[i]);
}

/// Vertex data keeps its length, and each of its bytes keeps its bits. All bytes stay where they
/// were, or every group of four is turned round.
pub proof fn vertex_bytes_stay_or_turn(bytes: &[i8], r: Vec<u8>)
    requires
        call_ensures(vertex_bytes, (bytes,), r),
        bytes@.len() % 4 == 0,
    ensures
        r@.len() == bytes@.len(),
        ({
            ||| forall|i: int|
                0 <= i < r@.len() ==> #[trigger] r@[i] == bytes@[i] || r@[i] - bytes@[i] == 0x100
            ||| forall|j: int, k: int|
                0 <= j && 0 <= k < 4 && 4 * j + 3 < r@.len() ==> #[trigger] r@[4 * j + k]
                    == bytes@[4 * j + 3 - k] || r@[4 * j + k] - bytes@[4 * j + 3 - k] == 0x100
        }),
{
    lemma_stay_or_turn(bytes@, r@);
}

/// What holds of bytes that stay where they are or are turned round in groups of four.
pub(crate) proof fn lemma_stay_or_turn(bytes: Seq<i8>, r: Seq<u8>)
    requires
        bytes.len() % 4 == 0,
        r == crate::stream::unsigned(bytes) || r == reversed_groups(crate::stream::unsigned(bytes)),
    ensures
        r.len() == bytes.len(),
        ({
            ||| forall|i: int|
                0 <= i < r.len() ==> #[trigger] r[i] == bytes[i] || r[i] - bytes[i] == 0x100
            ||| forall|j: int, k: int|
                0 <= j && 0 <= k < 4 && 4 * j + 3 < r.len() ==> #[trigger] r[4 * j + k] == bytes[4
                    * j + 3 - k] || r[4 * j + k] - bytes[4 * j + 3 - k] == 0x100
        }),
{
    let given = crate::stream::unsigned(bytes);
    assert forall|i: int| 0 <= i < given.len() implies #[trigger] given[i] == bytes[i] || given[i]
        - bytes[i] == 0x100 by {}
    if r != given {
        assert(r == reversed_groups(given));
        assert forall|j: int, k: int|
            0 <= j && 0 <= k < 4 && 4 * j + 3 < r.len() implies #[trigger] r[4 * j + k]
            == bytes[4 * j + 3 - k] || r[4 * j + k] - bytes[4 * j + 3 - k] == 0x100 by {
            assert(r[4 * j + k] == given[4 * j + 3 - k]);
        }
    }
}

/// Either all words are read from memory as they are, or each of them has its four bytes in the
/// opposite order.
pub proof fn words_in_memory_stay_or_turn(words: &[u32], r: Vec<u32>)
    requires
        call_ensures(words_in_memory, (words,), r),
    ensures
        r@.len() == words@.len(),
        r@ == words@ || forall|i: int|
            0 <= i < r@.len() ==> {
                &&& #[trigger] r@[i] % 0x100 == words@[i] / 0x100_0000
                &&& r@[i] / 0x100 % 0x100 == words@[i] / 0x1_0000 % 0x100
                &&& r@[i] / 0x1_0000 % 0x100 == words@[i] / 0x100 % 0x100
                &&& r@[i] / 0x100_0000 == words@[i] % 0x100
            },
{
    if r@ != words@ {
        assert forall|i: int| 0 <= i < r@.len() implies {
            &&& #[trigger] r@[i] % 0x100 == words@[i] / 0x100_0000
            &&& r@[i] / 0x100 % 0x100 == words@[i] / 0x1_0000 % 0x100
            &&& r@[i] / 0x1_0000 % 0x100 == words@[i] / 0x100 % 0x100
            &&& r@[i] / 0x100_0000 == words@[i] % 0x100
        } by {
            assert(r@[i] == swapped(words@[i]));
            swapped_bytes_change_places(words@[i]);
        }
    }
}

/// Turning a word round puts its lowest byte where the highest was, and so on inwards.
pub proof fn swapped_bytes_change_places(w: u32)
    ensures
        swapped(w) % 0x100 == w / 0x100_0000,
        swapped(w) / 0x100 % 0x100 == w / 0x1_0000 % 0x100,
        swapped(w) / 0x1_0000 % 0x100 == w / 0x100 % 0x100,
        swapped(w) / 0x100_0000 == w % 0x100,
{
    lemma_bytes_of_word(
        byte_of_word(w, 3),
        byte_of_word(w, 2),
        byte_of_word(w, 1),
        byte_of_word(w, 0),
    );
}

} // verus!
