use wgpu_mc_jni::blit::{copy_rows, RowLayout};
use wgpu_mc_jni::jvalue::{
    address_from_jlong, byte_from_jbyte, index_from_jint, jbyte_from_byte, jint_from_word,
    low_half, word_from_jint,
};
use wgpu_mc_jni::words::{read_words, vertex_bytes, words_in_memory};

#[test]
fn casts_keep_the_bits() {
    assert_eq!(word_from_jint(-2), 0xffff_fffe);
    assert_eq!(jint_from_word(0xffff_fffe), -2);
    assert_eq!(byte_from_jbyte(-2), 254);
    assert_eq!(jbyte_from_byte(254), -2);
    assert_eq!(index_from_jint(7), 7);
    assert_eq!(index_from_jint(-1), usize::MAX);
    assert_eq!(address_from_jlong(-1), usize::MAX);
    assert_eq!(address_from_jlong(0x1234), 0x1234);
    assert_eq!(low_half(0x1_0003), 3);
    assert_eq!(low_half(-1), 0xffff);
}

#[test]
fn words_are_read_with_the_lowest_byte_first() {
    let words = [1u32, 0x0102_0304, u32::MAX];
    let expected: Vec<u32> = words.iter().map(|w| u32::from_le_bytes(w.to_ne_bytes())).collect();
    assert_eq!(words_in_memory(&words), expected);
}

#[test]
fn bytes_spell_words_from_the_lowest_on() {
    assert_eq!(read_words(&[]), Vec::<u32>::new());
    assert_eq!(read_words(&[1, 2, 3, 4]), vec![0x0403_0201]);
    assert_eq!(read_words(&[0, 0, 128, 63, 255, 0, 0, 1]), vec![1.0f32.to_bits(), 0x0100_00ff]);
}

#[test]
fn vertex_bytes_are_laid_out_for_this_machine() {
    let given = [1i8, 2, 3, -4];
    let expected = u32::from_le_bytes([1, 2, 3, 252]).to_ne_bytes();
    assert_eq!(vertex_bytes(&given), expected.to_vec());
}

#[test]
fn rows_are_copied_to_their_places() {
    let layout = RowLayout { start: 1, stride: 3, row_len: 2, rows: 2 };
    let mut data = vec![0; 7];
    copy_rows(layout, &mut data, &vec![1, 2, 3, 4]);
    assert_eq!(data, vec![0, 1, 2, 0, 3, 4, 0]);
}
