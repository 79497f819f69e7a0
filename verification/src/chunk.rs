//! Chunks of blocks as they come in: one number for each block.

use vstd::prelude::*;

use crate::jvalue::{jint_from_word, word_from_jint};

verus! {

/// A block, by the key of its baked model.
#[derive(Clone, Copy, Debug, PartialEq, Eq, Structural)]
pub struct BlockState {
    pub packed_key: Option<u32>,
}

/// The block that a number stands for: the one whose key has the same bits.
pub open spec fn block_of(element: i32) -> BlockState {
    BlockState { packed_key: Some(crate::jvalue::word_of(element) as u32) }
}

/// The blocks of a chunk. There are none where the numbers are not exactly as many as a chunk has
/// blocks.
pub fn chunk_blocks(elements: &[i32], volume: usize) -> (r: Option<Vec<BlockState>>)
    ensures
        r is Some <==> elements@.len() == volume,
        r matches Some(blocks) ==> blocks@ == elements@.map_values(|e: i32| block_of(e)),
{
    let mut blocks: Vec<BlockState> = Vec::with_capacity(elements.len());
    let mut i: usize = 0;
    while i < elements.len()
        invariant
            i <= elements@.len(),
            blocks@ == elements@.map_values(|e: i32| block_of(e)).take(i as int),
        decreases elements@.len() - i,
    {
        blocks.push(BlockState { packed_key: Some(word_from_jint(elements[i])) });
        i = i + 1;
        assert(blocks@ =~= elements@.map_values(|e: i32| block_of(e)).take(i as int));
    }
    assert(blocks@ =~= elements@.map_values(|e: i32| block_of(e)));
    if blocks.len() == volume {
        Some(blocks)
    } else {
        None
    }
}

/// The numbers under which the keys of baked models are made known, each with the name of its
/// block: the signed number with the same bits as the key.
pub fn block_numbers(keys: &Vec<(String, u32)>) -> (r: Vec<(String, i32)>)
    ensures
        r@.len() == keys@.len(),
        forall|i: int|
            0 <= i < keys@.len() ==> (#[trigger] r@[i]).0@ == keys@[i].0@ && r@[i].1
                == crate::jvalue::int_of_word(keys@[i].1),
{
    let mut numbers: Vec<(String, i32)> = Vec::with_capacity(keys.len());
    let mut i: usize = 0;
    while i < keys.len()
        invariant
            i <= keys@.len(),
            numbers@.len() == i,
            forall|j: int|
                0 <= j < i ==> (#[trigger] numbers@[j]).0@ == keys@[j].0@ && numbers@[j].1
                    == crate::jvalue::int_of_word(keys@[j].1),
        decreases keys@.len() - i,
    {
        let name: String = keys[i].0.clone();
        let number: i32 = jint_from_word(keys[i].1);
        numbers.push((name, number));
        i = i + 1;
    }
    numbers
}

/// The number under which a key is made known stands for that key when a chunk brings it back.
pub proof fn keys_come_back(key: u32, number: i32)
    requires
        number == crate::jvalue::int_of_word(key),
    ensures
        block_of(number) == (BlockState { packed_key: Some(key) }),
{
}

/// A chunk is made exactly of as many numbers as it has blocks. Each number, in order, is the key
/// of one block, or differs from it by the number of keys there are.
pub proof fn blocks_have_the_keys_that_came(
    elements: &[i32],
    volume: usize,
    r: Option<Vec<BlockState>>,
)
    requires
        call_ensures(chunk_blocks, (elements, volume), r),
    ensures
        r is Some <==> elements@.len() == volume,
        r matches Some(blocks) ==> blocks@.len() == elements@.len() && forall|i: int|
            0 <= i < blocks@.len() ==> (#[trigger] blocks@[i]).packed_key is Some && (
            blocks@[i].packed_key->0 == elements@[i] || blocks@[i].packed_key->0 - elements@[i]
                == 0x1_0000_0000),
{
}

/// Every key is made known under the name of its block, in order, by a number that is the key or
/// differs from it by the number of keys there are. A chunk made of these numbers has these keys.
pub proof fn known_keys_come_back(
    keys: &Vec<(String, u32)>,
    numbers: Vec<(String, i32)>,
    elements: &[i32],
    blocks: Vec<BlockState>,
    i: int,
)
    requires
        call_ensures(block_numbers, (keys,), numbers),
        call_ensures(chunk_blocks, (elements, keys.len()), Some(blocks)),
        0 <= i < keys@.len(),
        elements@[i] == numbers@[i].1,
    ensures
        numbers@.len() == keys@.len(),
        numbers@[i].0@ == keys@[i].0@,
        numbers@[i].1 == keys@[i].1 || keys@[i].1 - numbers@[i].1 == 0x1_0000_0000,
        blocks@.len() == keys@.len(),
        blocks@[i].packed_key == Some(keys@[i].1),
{
}

} // verus!
