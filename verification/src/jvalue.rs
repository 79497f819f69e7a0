//! Numbers as they cross the border to the virtual machine: the same bits, read as another type.

use vstd::prelude::*;

verus! {

/// The word that has the same bits as the signed 32-bit value `v`.
pub open spec fn word_of(v: i32) -> int {
    if v >= 0 {
        v as int
    } else {
        v + 0x1_0000_0000
    }
}

/// The signed value that has the same bits as the word `w`.
pub open spec fn int_of_word(w: u32) -> int {
    if w <= i32::MAX {
        w as int
    } else {
        w - 0x1_0000_0000
    }
}

/// The unsigned byte that has the same bits as the signed byte `b`.
pub open spec fn byte_of(b: i8) -> int {
    if b >= 0 {
        b as int
    } else {
        b + 256
    }
}

/// The machine-sized index that a signed 32-bit value becomes: its own value, or, below zero,
/// its distance from the top of the index range.
pub open spec fn index_of(v: i32) -> int {
    if v >= 0 {
        v as int
    } else {
        v + usize::MAX + 1
    }
}

/// The machine address that a 64-bit value names: its low bits, as many as an address has.
pub open spec fn address_of(v: i64) -> int {
    v as int % (usize::MAX + 1)
}

/// The word with the same bits as `v`.
pub fn word_from_jint(v: i32) -> (w: u32)
    ensures
        w == word_of(v),
{
    assert(v >= 0 ==> (v as u32) == v) by (bit_vector);
    assert(v < 0 ==> (v as u32) == v + 0x1_0000_0000) by (bit_vector);
    #[verifier::truncate]
    (v as u32)
}

/// The signed value with the same bits as `w`.
pub fn jint_from_word(w: u32) -> (v: i32)
    ensures
        v == int_of_word(w),
{
    assert(w <= 0x7fff_ffffu32 ==> (w as i32) == w) by (bit_vector);
    assert(w > 0x7fff_ffffu32 ==> (w as i32) == w - 0x1_0000_0000) by (bit_vector);
    #[verifier::truncate]
    (w as i32)
}

/// The unsigned byte with the same bits as `b`.
pub fn byte_from_jbyte(b: i8) -> (r: u8)
    ensures
        r == byte_of(b),
{
    assert(b >= 0 ==> (b as u8) == b) by (bit_vector);
    assert(b < 0 ==> (b as u8) == b + 256) by (bit_vector);
    #[verifier::truncate]
    (b as u8)
}

/// The signed byte with the same bits as `b`.
pub fn jbyte_from_byte(b: u8) -> (r: i8)
    ensures
        byte_of(r) == b,
{
    assert(b <= 127 ==> (b as i8) == b) by (bit_vector);
    assert(b > 127 ==> (b as i8) == b - 256) by (bit_vector);
    #[verifier::truncate]
    (b as i8)
}

/// The machine-sized index that `v` becomes.
pub fn index_from_jint(v: i32) -> (r: usize)
    ensures
        r == index_of(v),
{
    assert(v >= 0 ==> (v as usize) == v) by (bit_vector);
    assert(v < 0 && usize::BITS == 32 ==> (v as usize) == v + 0x1_0000_0000) by (bit_vector);
    assert(v < 0 && usize::BITS == 64 ==> (v as usize) == v + 0x1_0000_0000_0000_0000)
        by (bit_vector);
    #[verifier::truncate]
    (v as usize)
}

/// The machine address that `v` names.
pub fn address_from_jlong(v: i64) -> (r: usize)
    ensures
        r == address_of(v),
{
    assert(usize::BITS == 32 ==> (v as usize) == (v as int) % 0x1_0000_0000) by (bit_vector);
    assert(usize::BITS == 64 ==> (v as usize) == (v as int) % 0x1_0000_0000_0000_0000)
        by (bit_vector);
    #[verifier::truncate]
    (v as usize)
}

/// The low half of the bits of `v`.
pub fn low_half(v: i32) -> (r: u16)
    ensures
        r == v as int % 0x1_0000,
{
    assert((v as u16) == (v as int) % 0x1_0000) by (bit_vector);
    #[verifier::truncate]
    (v as u16)
}

/// A word and the signed value with the same bits are each known by the other.
pub proof fn words_and_ints_correspond(w: u32, v: i32)
    ensures
        v == int_of_word(w) <==> w == word_of(v),
{
}

/// A signed value and the word that it becomes differ by nothing or by the number of words there
/// are, and the word becomes the value again.
pub proof fn ints_survive_as_words(v: i32, w: u32, back: i32)
    requires
        call_ensures(word_from_jint, (v,), w),
        call_ensures(jint_from_word, (w,), back),
    ensures
        w == v || w - v == 0x1_0000_0000,
        back == v,
{
}

/// A word and the signed value that it becomes differ by nothing or by the number of words there
/// are, and the value becomes the word again.
pub proof fn words_survive_as_ints(w: u32, v: i32, back: u32)
    requires
        call_ensures(jint_from_word, (w,), v),
        call_ensures(word_from_jint, (v,), back),
    ensures
        w == v || w - v == 0x1_0000_0000,
        back == w,
{
}

/// A signed byte and the unsigned byte that it becomes differ by nothing or by the number of bytes
/// there are, and the unsigned byte becomes the signed one again.
pub proof fn signed_bytes_survive(b: i8, r: u8, back: i8)
    requires
        call_ensures(byte_from_jbyte, (b,), r),
        call_ensures(jbyte_from_byte, (r,), back),
    ensures
        r == b || r - b == 0x100,
        back == b,
{
}

/// An unsigned byte and the signed byte that it becomes differ by nothing or by the number of bytes
/// there are, and the signed byte becomes the unsigned one again.
pub proof fn unsigned_bytes_survive(r: u8, b: i8, back: u8)
    requires
        call_ensures(jbyte_from_byte, (r,), b),
        call_ensures(byte_from_jbyte, (b,), back),
    ensures
        r == b || r - b == 0x100,
        back == r,
{
}

/// A value that is not negative is its own index, and one below zero is counted from the top of the
/// index range.
pub proof fn indices_are_their_values(v: i32, r: usize)
    requires
        call_ensures(index_from_jint, (v,), r),
    ensures
        v >= 0 ==> r == v,
        v < 0 ==> r - v == usize::MAX + 1,
{
}

/// Different values become different indices.
pub proof fn indices_tell_values_apart(v: i32, r: usize, other: i32, other_r: usize)
    requires
        call_ensures(index_from_jint, (v,), r),
        call_ensures(index_from_jint, (other,), other_r),
    ensures
        r == other_r <==> v == other,
{
}

/// A value that is an address names that address. Every value differs from the address that it
/// names by a multiple of the number of addresses there are.
pub proof fn addresses_are_their_values(v: i64, r: usize)
    requires
        call_ensures(address_from_jlong, (v,), r),
    ensures
        0 <= v <= usize::MAX ==> r == v,
        v < 0 && -v <= usize::MAX ==> r - v == usize::MAX + 1,
        (v - r) % (usize::MAX + 1) == 0,
{
    let (n, count) = (v as int, usize::MAX + 1);
    vstd::arithmetic::div_mod::lemma_fundamental_div_mod(n, count);
    vstd::arithmetic::div_mod::lemma_mod_multiples_basic(n / count, count);
    assert(n - n % count == (n / count) * count) by (nonlinear_arith)
        requires
            n == count * (n / count) + n % count,
    ;
    if 0 <= v <= usize::MAX {
        vstd::arithmetic::div_mod::lemma_small_mod(n as nat, count as nat);
    }
    if v < 0 && -v <= usize::MAX {
        vstd::arithmetic::div_mod::lemma_mod_add_multiples_vanish(n, count);
        vstd::arithmetic::div_mod::lemma_small_mod((n + count) as nat, count as nat);
    }
}

/// A value that fits into half the bits is its own low half. Every value differs from its low half
/// by a multiple of the number of halves there are.
pub proof fn low_halves_are_their_values(v: i32, r: u16)
    requires
        call_ensures(low_half, (v,), r),
    ensures
        0 <= v <= u16::MAX ==> r == v,
        (v - r) % 0x1_0000 == 0,
{
}

} // verus!
