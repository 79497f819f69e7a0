use wgpu_mc_jni::chunk::{block_numbers, chunk_blocks, BlockState};

#[test]
fn blocks_keep_the_bits_of_their_numbers() {
    let blocks = chunk_blocks(&[0, 7, -1, i32::MIN], 4).unwrap();
    let keys: Vec<Option<u32>> = blocks.iter().map(|b| b.packed_key).collect();
    assert_eq!(keys, vec![Some(0), Some(7), Some(u32::MAX), Some(0x8000_0000)]);
}

#[test]
fn a_chunk_has_exactly_its_volume() {
    assert!(chunk_blocks(&[1, 2, 3], 4).is_none());
    assert!(chunk_blocks(&[1, 2, 3, 4, 5], 4).is_none());
    assert_eq!(chunk_blocks(&[], 0).unwrap(), Vec::<BlockState>::new());
}

#[test]
fn numbers_have_the_bits_of_the_keys() {
    let keys = vec![
        ("minecraft:stone".to_string(), 5),
        ("minecraft:dirt".to_string(), u32::MAX),
        ("minecraft:sand".to_string(), 0x8000_0000),
    ];
    assert_eq!(
        block_numbers(&keys),
        vec![
            ("minecraft:stone".to_string(), 5),
            ("minecraft:dirt".to_string(), -1),
            ("minecraft:sand".to_string(), i32::MIN),
        ]
    );
}

#[test]
fn keys_come_back_from_chunks() {
    for key in [0u32, 1, 0x7fff_ffff, 0x8000_0000, u32::MAX] {
        let numbers = block_numbers(&vec![("minecraft:stone".to_string(), key)]);
        let blocks = chunk_blocks(&[numbers[0].1], 1).unwrap();
        assert_eq!(blocks[0].packed_key, Some(key));
    }
}
