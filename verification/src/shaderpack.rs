//! The configuration of a shader pack.

use linked_hash_map::LinkedHashMap;
use vstd::arithmetic::power::{lemma_pow0, pow};
use vstd::prelude::*;

verus! {

/// The version of the configuration format.
pub const CONFIG_VERSION: &'static str = "v0.0.1";

/// The version of the configuration format: major, minor and patch.
pub const CONFIG_VERSION_TRIPLE: (u32, u32, u32) = (0, 0, 1);

/// Three rows of three double-precision numbers, each held as its bits.
pub type Mat3 = [[u64; 3]; 3];

/// Four rows of four double-precision numbers, each held as its bits.
pub type Mat4 = [[u64; 4]; 4];

/// Declares `linked_hash_map::LinkedHashMap`, a map that keeps its entries in the order in which
/// they were inserted. Nothing is claimed of its contents.
#[verifier::external_type_specification]
#[verifier::external_body]
#[verifier::reject_recursive_types(K)]
#[verifier::reject_recursive_types(V)]
#[verifier::reject_recursive_types(S)]
pub struct ExLinkedHashMap<K, V, S>(LinkedHashMap<K, V, S>);

#[derive(Debug)]
pub struct ShaderPackConfig {
    pub version: String,
    pub support: String,
    pub resources: ResourcesConfig,
    pub pipelines: PipelinesConfig,
}

/// The resources by their names, in the order of the file.
#[derive(Debug)]
pub struct ResourcesConfig {
    pub resources: LinkedHashMap<String, ShorthandResourceConfig>,
}

/// A resource: a bare value, or a description.
#[derive(Debug)]
pub enum ShorthandResourceConfig {
    Int(i64),
    /// The bits of a double-precision number.
    Float(u64),
    Mat3(Mat3),
    Mat4(Mat4),
    Longhand(LonghandResourceConfig),
}

#[derive(Debug)]
pub struct LonghandResourceConfig {
    pub common: CommonResourceConfig,
    pub typed: TypeResourceConfig,
}

#[derive(Debug)]
pub struct CommonResourceConfig {
    pub desc: String,
    pub show: bool,
}

/// What a resource is, by its type. Double-precision numbers are held as their bits.
#[derive(Debug)]
pub enum TypeResourceConfig {
    Texture3d { src: String, clear_after_frame: bool },
    Texture2d { src: String, clear_after_frame: bool },
    TextureDepth { src: String, clear_after_frame: bool },
    Float { range: [u64; 2], value: u64 },
    Int { range: [i64; 2], value: i64 },
    Mat3(Mat3ValueOrMult),
    Mat4(Mat4ValueOrMult),
}

/// A matrix, or the names of the matrices that it is the product of.
#[derive(Debug)]
pub enum Mat3ValueOrMult {
    Value { value: Mat3 },
    Mult { mult: Vec<String> },
}

/// A matrix, or the names of the matrices that it is the product of.
#[derive(Debug)]
pub enum Mat4ValueOrMult {
    Value { value: Mat4 },
    Mult { mult: Vec<String> },
}

/// The pipelines by their names, in the order of the file.
#[derive(Debug)]
pub struct PipelinesConfig {
    pub pipelines: LinkedHashMap<String, PipelineConfig>,
}

#[derive(Debug)]
pub struct PipelineConfig {
    pub geometry: String,
    pub output: Vec<String>,
    pub depth: String,
    pub uniforms: LinkedHashMap<u64, Uniform>,
}

#[derive(Debug)]
pub struct Uniform {
    pub resource: String,
    pub visibility: Vec<UniformVisibility>,
}

/// The shader stage that sees a uniform.
#[derive(Clone, Copy, Debug, PartialEq, Eq, Hash, Structural)]
pub enum UniformVisibility {
    Vert,
    Frag,
}

/// Whether `c` is one of the ten digits.
pub open spec fn is_digit(c: char) -> bool {
    '0' <= c <= '9'
}

/// The number that the digits `s` spell.
pub open spec fn digits_value(s: Seq<char>) -> nat
    decreases s.len(),
{
    if s.len() == 0 {
        0
    } else {
        10 * digits_value(s.drop_last()) + (s.last() as nat - '0' as nat) as nat
    }
}

/// Whether `s` is a number as semantic versions have them: digits, at least one, without a zero at
/// the front unless it is the only digit. Its value must be one that 32 bits can hold.
pub open spec fn is_number(s: Seq<char>) -> bool {
    &&& s.len() > 0
    &&& forall|i: int| 0 <= i < s.len() ==> is_digit(#[trigger] s[i])
    &&& s.len() > 1 ==> s[0] != '0'
    &&& digits_value(s) <= u32::MAX
}

/// The number that `s` is, if it is one.
pub open spec fn number_of(s: Seq<char>) -> Option<u32> {
    if is_number(s) {
        Some(digits_value(s) as u32)
    } else {
        None
    }
}

/// The parts of `s` between its dots. There is one more than there are dots.
pub open spec fn dotted_parts(s: Seq<char>) -> Seq<Seq<char>>
    decreases s.len(),
{
    if s.len() == 0 {
        seq![seq![]]
    } else {
        let parts = dotted_parts(s.drop_last());
        if s.last() == '.' {
            parts.push(seq![])
        } else {
            parts.drop_last().push(parts.last().push(s.last()))
        }
    }
}

/// Whether `version` is a `v` followed by three numbers with dots between them, and the first two
/// are those of this configuration format. The third may be any number.
pub open spec fn version_fits(version: Seq<char>) -> bool {
    let parts = dotted_parts(version.skip(1));
    &&& version.len() > 0
    &&& version[0] == 'v'
    &&& parts.len() == 3
    &&& is_number(parts[0]) && digits_value(parts[0]) == CONFIG_VERSION_TRIPLE.0
    &&& is_number(parts[1]) && digits_value(parts[1]) == CONFIG_VERSION_TRIPLE.1
    &&& is_number(parts[2])
}

proof fn lemma_digits_value_grows(s: Seq<char>, k: int)
    requires
        0 <= k <= s.len(),
        forall|i: int| 0 <= i < s.len() ==> is_digit(#[trigger] s[i]),
    ensures
        digits_value(s.take(k)) <= digits_value(s),
    decreases s.len(),
{
    if k < s.len() {
        lemma_digits_value_grows(s.drop_last(), k);
        assert(s.drop_last().take(k) =~= s.take(k));
    } else {
        assert(s.take(k) =~= s);
    }
}

/// The number that the characters from `from` to `to` spell, if they spell one.
fn parse_number(chars: &Vec<char>, from: usize, to: usize) -> (r: Option<u32>)
    requires
        from <= to <= chars@.len(),
    ensures
        r == number_of(chars@.subrange(from as int, to as int)),
{
    let ghost digits = chars@.subrange(from as int, to as int);
    if from == to || (to - from > 1 && chars[from] == '0') {
        assert(to - from > 1 ==> digits[0] == '0');
        return None;
    }
    let mut value: u64 = 0;
    let mut i: usize = from;
    while i < to
        invariant
            from <= i <= to,
            from < to,
            to <= chars@.len(),
            digits == chars@.subrange(from as int, to as int),
            forall|j: int| 0 <= j < i - from ==> is_digit(#[trigger] digits[j]),
            value == digits_value(digits.take(i - from)),
            value <= u32::MAX,
        decreases to - i,
    {
        let c: char = chars[i];
        assert(digits[i - from] == c);
        if !('0' <= c && c <= '9') {
            assert(!is_digit(digits[i - from]));
            return None;
        }
        assert(digits.take(i - from + 1).drop_last() =~= digits.take(i - from));
        value = 10 * value + (c as u64 - '0' as u64);
        i = i + 1;
        if value > u32::MAX as u64 {
            proof {
                if forall|j: int| 0 <= j < digits.len() ==> is_digit(#[trigger] digits[j]) {
                    lemma_digits_value_grows(digits, i - from);
                }
            }
            return None;
        }
    }
    assert(digits.take(i - from) =~= digits);
    Some(value as u32)
}

/// The numbers between the dots of the characters from `from` on, with none in the place of each
/// part that is not a number.
fn dotted_numbers(chars: &Vec<char>, from: usize) -> (r: Vec<Option<u32>>)
    requires
        from <= chars@.len(),
    ensures
        r@ == dotted_parts(chars@.skip(from as int)).map_values(
            |s: Seq<char>| number_of(s),
        ),
{
    let ghost text = chars@.skip(from as int);
    let mut numbers: Vec<Option<u32>> = Vec::new();
    let mut part_start: usize = from;
    let mut i: usize = from;
    assert(text.take(0) =~= seq![]);
    while i < chars.len()
        invariant
            from <= part_start <= i <= chars@.len(),
            text == chars@.skip(from as int),
            dotted_parts(text.take(i - from)).len() == numbers@.len() + 1,
            dotted_parts(text.take(i - from)).last() == chars@.subrange(
                part_start as int,
                i as int,
            ),
            forall|j: int|
                0 <= j < numbers@.len() ==> #[trigger] numbers@[j] == number_of(
                    dotted_parts(text.take(i - from))[j],
                ),
        decreases chars@.len() - i,
    {
        let ghost before = dotted_parts(text.take(i - from));
        assert(text.take(i - from + 1).drop_last() =~= text.take(i - from));
        assert(text.take(i - from + 1).last() == chars@[i as int]);
        if chars[i] == '.' {
            numbers.push(parse_number(chars, part_start, i));
            part_start = i + 1;
            assert(dotted_parts(text.take(i - from + 1)) == before.push(seq![]));
            assert(chars@.subrange(part_start as int, i + 1) =~= seq![]);
        } else {
            assert(dotted_parts(text.take(i - from + 1)) == before.drop_last().push(
                before.last().push(chars@[i as int]),
            ));
            assert(chars@.subrange(part_start as int, i + 1) =~= chars@.subrange(
                part_start as int,
                i as int,
            ).push(chars@[i as int]));
        }
        i = i + 1;
    }
    assert(text.take(i - from) =~= text);
    numbers.push(parse_number(chars, part_start, i));
    assert(numbers@ =~= dotted_parts(text).map_values(|s: Seq<char>| number_of(s)));
    numbers
}

/// The characters of `text`.
fn chars_of(text: &str) -> (r: Vec<char>)
    ensures
        r@ == text@,
{
    let len: usize = text.unicode_len();
    let mut chars: Vec<char> = Vec::with_capacity(len);
    let mut i: usize = 0;
    while i < len
        invariant
            i <= len,
            len == text@.len(),
            chars@ == text@.take(i as int),
        decreases len - i,
    {
        chars.push(text.get_char(i));
        i = i + 1;
        assert(chars@ =~= text@.take(i as int));
    }
    assert(chars@ =~= text@);
    chars
}

impl ShaderPackConfig {
    /// Returns true if the first two numbers (major and minor) are as expected.
    /// If the format is incorrect or they're different, this returns false.
    pub fn is_correct_version(&self) -> (r: bool)
        ensures
            r == version_fits(self.version@),
    {
        let chars: Vec<char> = chars_of(self.version.as_str());
        if chars.len() == 0 || chars[0] != 'v' {
            return false;
        }
        let numbers: Vec<Option<u32>> = dotted_numbers(&chars, 1);
        let ghost parts = dotted_parts(chars@.skip(1));
        assert(numbers@.len() == parts.len());
        proof {
            if parts.len() == 3 {
                assert(numbers@[0] == number_of(parts[0]));
                assert(numbers@[1] == number_of(parts[1]));
                assert(numbers@[2] == number_of(parts[2]));
            }
        }
        numbers.len() == 3 && numbers[0] == Some(CONFIG_VERSION_TRIPLE.0) && numbers[1] == Some(
            CONFIG_VERSION_TRIPLE.1,
        ) && numbers[2].is_some()
    }
}

/// Whether `s` holds no dot.
pub open spec fn has_no_dot(s: Seq<char>) -> bool {
    forall|i: int| 0 <= i < s.len() ==> #[trigger] s[i] != '.'
}

/// The version text of three parts: a `v`, and the parts with dots between them.
pub open spec fn version_text(major: Seq<char>, minor: Seq<char>, patch: Seq<char>) -> Seq<char> {
    seq!['v'] + major + seq!['.'] + minor + seq!['.'] + patch
}

/// Whether the three parts are numbers of a version that fits.
pub open spec fn parts_fit(major: Seq<char>, minor: Seq<char>, patch: Seq<char>) -> bool {
    &&& is_number(major) && digits_value(major) == CONFIG_VERSION_TRIPLE.0
    &&& is_number(minor) && digits_value(minor) == CONFIG_VERSION_TRIPLE.1
    &&& is_number(patch)
}

/// Three parts without dots make up a version that fits exactly if the parts fit.
pub proof fn version_of_three_parts(major: Seq<char>, minor: Seq<char>, patch: Seq<char>)
    requires
        has_no_dot(major),
        has_no_dot(minor),
        has_no_dot(patch),
    ensures
        version_fits(version_text(major, minor, patch)) <==> parts_fit(major, minor, patch),
{
    let text = version_text(major, minor, patch);
    assert(text.skip(1) =~= (major + seq!['.'] + minor) + seq!['.'] + patch);
    lemma_parts_of_dotless(major);
    lemma_parts_after_dot(major, minor);
    lemma_parts_after_dot(major + seq!['.'] + minor, patch);
    assert(dotted_parts(text.skip(1)) =~= seq![major, minor, patch]);
}

/// A version fits only if it is a `v` and three parts without dots that fit.
pub proof fn fitting_version_has_three_parts(version: Seq<char>)
    requires
        version_fits(version),
    ensures
        exists|major: Seq<char>, minor: Seq<char>, patch: Seq<char>|
            has_no_dot(major) && has_no_dot(minor) && has_no_dot(patch) && version
                == #[trigger] version_text(major, minor, patch) && parts_fit(major, minor, patch),
{
    let text = version.skip(1);
    let parts = dotted_parts(text);
    let (major, minor, patch) = (parts[0], parts[1], parts[2]);
    assert(parts_fit(major, minor, patch));
    lemma_parts_make_up_the_text(text);
    lemma_three_parts_joined(parts);
    assert(has_no_dot(major) && has_no_dot(minor) && has_no_dot(patch));
    assert(version =~= seq!['v'] + text);
    lemma_version_text(major, minor, patch);
    assert(version == version_text(major, minor, patch));
}

/// Which patch number a version has does not decide whether it fits.
pub proof fn patch_does_not_decide(
    major: Seq<char>,
    minor: Seq<char>,
    patch: Seq<char>,
    other_patch: Seq<char>,
)
    requires
        has_no_dot(major),
        has_no_dot(minor),
        has_no_dot(patch),
        has_no_dot(other_patch),
        is_number(patch),
        is_number(other_patch),
    ensures
        version_fits(version_text(major, minor, patch)) == version_fits(
            version_text(major, minor, other_patch),
        ),
{
    version_of_three_parts(major, minor, patch);
    version_of_three_parts(major, minor, other_patch);
}

proof fn lemma_parts_of_dotless(s: Seq<char>)
    requires
        has_no_dot(s),
    ensures
        dotted_parts(s) == seq![s],
    decreases s.len(),
{
    if s.len() > 0 {
        lemma_parts_of_dotless(s.drop_last());
        assert(s.drop_last().push(s.last()) =~= s);
        assert(dotted_parts(s) =~= seq![s]);
    } else {
        assert(s =~= seq![]);
    }
}

proof fn lemma_parts_after_dot(front: Seq<char>, part: Seq<char>)
    requires
        has_no_dot(part),
    ensures
        dotted_parts(front + seq!['.'] + part) == dotted_parts(front).push(part),
    decreases part.len(),
{
    let s = front + seq!['.'] + part;
    if part.len() == 0 {
        assert(s.drop_last() =~= front);
        assert(part =~= seq![]);
    } else {
        lemma_parts_after_dot(front, part.drop_last());
        assert(s.drop_last() =~= front + seq!['.'] + part.drop_last());
        assert(part.drop_last().push(part.last()) =~= part);
        assert(dotted_parts(s) =~= dotted_parts(front).push(part));
    }
}

/// The parts with dots between them.
spec fn joined(parts: Seq<Seq<char>>) -> Seq<char>
    decreases parts.len(),
{
    if parts.len() == 0 {
        seq![]
    } else if parts.len() == 1 {
        parts[0]
    } else {
        joined(parts.drop_last()) + seq!['.'] + parts.last()
    }
}

proof fn lemma_version_text(major: Seq<char>, minor: Seq<char>, patch: Seq<char>)
    ensures
        version_text(major, minor, patch) == seq!['v'] + (major + seq!['.'] + minor + seq!['.']
            + patch),
{
    assert(version_text(major, minor, patch) =~= seq!['v'] + (major + seq!['.'] + minor + seq!['.']
        + patch));
}

proof fn lemma_three_parts_joined(parts: Seq<Seq<char>>)
    requires
        parts.len() == 3,
    ensures
        joined(parts) == parts[0] + seq!['.'] + parts[1] + seq!['.'] + parts[2],
{
    reveal_with_fuel(joined, 3);
    assert(parts.drop_last().drop_last() =~= seq![parts[0]]);
}

proof fn lemma_parts_make_up_the_text(s: Seq<char>)
    ensures
        dotted_parts(s).len() > 0,
        joined(dotted_parts(s)) == s,
        forall|i: int|
            0 <= i < dotted_parts(s).len() ==> has_no_dot(#[trigger] dotted_parts(s)[i]),
    decreases s.len(),
{
    if s.len() > 0 {
        let before = dotted_parts(s.drop_last());
        let parts = dotted_parts(s);
        lemma_parts_make_up_the_text(s.drop_last());
        if s.last() == '.' {
            assert(parts.drop_last() =~= before);
            assert(joined(parts) =~= s);
        } else {
            assert(parts.drop_last() =~= before.drop_last());
            assert(joined(parts) =~= joined(before).push(s.last()));
            assert(joined(parts) =~= s);
        }
    } else {
        assert(joined(dotted_parts(s)) =~= s);
    }
}

/// Whether every character of `s` is one of the ten digits.
pub open spec fn all_digits(s: Seq<char>) -> bool {
    forall|i: int| 0 <= i < s.len() ==> '0' <= #[trigger] s[i] <= '9'
}

/// A single digit is worth its distance from the digit zero.
pub proof fn digits_are_worth_their_distance_from_zero(digit: char)
    requires
        '0' <= digit <= '9',
    ensures
        digits_value(seq![digit]) == digit as int - '0' as int,
{
    assert(seq![digit].drop_last() =~= seq![]);
    assert(digits_value(seq![]) == 0);
}

/// Digits count by their place: what stands in front of others is worth ten times as much for each
/// of them.
pub proof fn digits_count_by_their_place(front: Seq<char>, back: Seq<char>)
    requires
        all_digits(front),
        all_digits(back),
    ensures
        digits_value(front + back) == digits_value(front) * pow(10, back.len()) + digits_value(
            back,
        ),
    decreases back.len(),
{
    if back.len() == 0 {
        assert(front + back =~= front);
        lemma_pow0(10);
    } else {
        let shorter = back.drop_last();
        digits_count_by_their_place(front, shorter);
        assert((front + back).drop_last() =~= front + shorter);
        assert((front + back).last() == back.last());
        lemma_pow_by_ten(shorter.len());
        let (f, p) = (digits_value(front) as int, pow(10, shorter.len()));
        assert(10 * (f * p) == f * (10 * p)) by (nonlinear_arith);
    }
}

proof fn lemma_pow_by_ten(n: nat)
    ensures
        pow(10, n + 1) == 10 * pow(10, n),
        pow(10, n) >= 1,
{
    vstd::arithmetic::power::lemma_pow_positive(10, n);
    vstd::arithmetic::power::lemma_pow_adds(10, 1, n);
    vstd::arithmetic::power::lemma_pow1(10);
}

/// As many digits as there are keep the value below the next power of ten.
pub proof fn values_stay_below_the_next_power(s: Seq<char>)
    requires
        all_digits(s),
    ensures
        digits_value(s) < pow(10, s.len()),
    decreases s.len(),
{
    if s.len() == 0 {
        lemma_pow0(10);
    } else {
        values_stay_below_the_next_power(s.drop_last());
        lemma_pow_by_ten((s.len() - 1) as nat);
    }
}

proof fn lemma_value_reaches_its_power(s: Seq<char>)
    requires
        all_digits(s),
        s.len() > 0,
        s[0] != '0',
    ensures
        pow(10, (s.len() - 1) as nat) <= digits_value(s),
{
    let rest = s.skip(1);
    assert(s =~= seq![s[0]] + rest);
    digits_are_worth_their_distance_from_zero(s[0]);
    digits_count_by_their_place(seq![s[0]], rest);
    lemma_pow_by_ten(rest.len());
    let (d, p) = (digits_value(seq![s[0]]) as int, pow(10, rest.len()));
    assert(p <= d * p) by (nonlinear_arith)
        requires
            1 <= d,
            1 <= p,
    ;
}

proof fn lemma_same_length_same_value(a: Seq<char>, b: Seq<char>)
    requires
        all_digits(a),
        all_digits(b),
        a.len() == b.len(),
        digits_value(a) == digits_value(b),
    ensures
        a == b,
    decreases a.len(),
{
    if a.len() > 0 {
        lemma_same_length_same_value(a.drop_last(), b.drop_last());
        assert(a =~= a.drop_last().push(a.last()));
        assert(b =~= b.drop_last().push(b.last()));
    } else {
        assert(a =~= b);
    }
}

/// A number is made of digits, at least one and without a zero at the front of others, and its
/// value fits into 32 bits. Every such text is a number.
pub proof fn numbers_are_plain_digits(s: Seq<char>)
    ensures
        is_number(s) <==> s.len() > 0 && all_digits(s) && (s[0] == '0' ==> s.len() == 1)
            && digits_value(s) <= 0xffff_ffff,
{
    if all_digits(s) {
        assert forall|i: int| 0 <= i < s.len() implies is_digit(#[trigger] s[i]) by {}
    }
    if is_number(s) {
        assert forall|i: int| 0 <= i < s.len() implies '0' <= #[trigger] s[i] <= '9' by {
            assert(is_digit(s[i]));
        }
    }
}

/// Up to nine digits without a zero at the front of others are a number.
pub proof fn short_digits_are_numbers(s: Seq<char>)
    requires
        all_digits(s),
        0 < s.len() <= 9,
        s[0] == '0' ==> s.len() == 1,
    ensures
        is_number(s),
{
    values_stay_below_the_next_power(s);
    vstd::arithmetic::power::lemma_pow_increases(10, s.len(), 9);
    assert(pow(10, 9) == 1_000_000_000) by {
        reveal_with_fuel(pow, 10);
    }
    numbers_are_plain_digits(s);
}

/// Different numbers have different values.
pub proof fn numbers_are_known_by_their_values(a: Seq<char>, b: Seq<char>)
    requires
        is_number(a),
        is_number(b),
    ensures
        digits_value(a) == digits_value(b) <==> a == b,
{
    numbers_are_plain_digits(a);
    numbers_are_plain_digits(b);
    if digits_value(a) == digits_value(b) {
        if a.len() < b.len() {
            lemma_shorter_is_less(a, b);
        } else if b.len() < a.len() {
            lemma_shorter_is_less(b, a);
        }
        lemma_same_length_same_value(a, b);
    }
}

proof fn lemma_shorter_is_less(a: Seq<char>, b: Seq<char>)
    requires
        all_digits(a),
        all_digits(b),
        a.len() < b.len(),
        b[0] != '0',
    ensures
        digits_value(a) < digits_value(b),
{
    values_stay_below_the_next_power(a);
    lemma_value_reaches_its_power(b);
    vstd::arithmetic::power::lemma_pow_increases(10, a.len(), (b.len() - 1) as nat);
}

/// The only number of value zero is the digit zero.
pub proof fn only_zero_is_worth_nothing(s: Seq<char>)
    requires
        is_number(s),
    ensures
        digits_value(s) == 0 <==> s == seq!['0'],
{
    let zero = seq!['0'];
    digits_are_worth_their_distance_from_zero('0');
    numbers_are_plain_digits(zero);
    numbers_are_known_by_their_values(s, zero);
}

/// Every value that 32 bits can hold has a number.
pub proof fn every_value_has_a_number(n: u32)
    ensures
        exists|s: Seq<char>| #[trigger] is_number(s) && digits_value(s) == n,
{
    let s = lemma_text_of_value(n as nat);
    numbers_are_plain_digits(s);
    assert(is_number(s) && digits_value(s) == n);
}

proof fn lemma_text_of_value(n: nat) -> (s: Seq<char>)
    ensures
        s.len() > 0,
        all_digits(s),
        s[0] == '0' ==> s.len() == 1 && n == 0,
        digits_value(s) == n,
    decreases n,
{
    let digit = ('0' as int + n % 10) as char;
    assert('0' <= digit <= '9' && digit as int == '0' as int + n % 10);
    digits_are_worth_their_distance_from_zero(digit);
    if n < 10 {
        seq![digit]
    } else {
        let front = lemma_text_of_value(n / 10);
        let s = front.push(digit);
        assert(s.drop_last() =~= front);
        s
    }
}

/// A version is correct exactly if it is a `v`, the digit zero, a dot, the digit zero, a dot, and a
/// number, which may be any.
pub proof fn correct_versions_begin_with_zeroes(config: ShaderPackConfig, r: bool)
    requires
        call_ensures(ShaderPackConfig::is_correct_version, (&config,), r),
    ensures
        r <==> config.version@.len() > 5 && config.version@.take(5) == seq!['v', '0', '.', '0', '.']
            && is_number(config.version@.skip(5)),
{
    let version = config.version@;
    let zero = seq!['0'];
    if r {
        fitting_version_has_three_parts(version);
        let (major, minor, patch) = choose|major: Seq<char>, minor: Seq<char>, patch: Seq<char>|
            has_no_dot(major) && has_no_dot(minor) && has_no_dot(patch) && version
                == #[trigger] version_text(major, minor, patch) && parts_fit(major, minor, patch);
        only_zero_is_worth_nothing(major);
        only_zero_is_worth_nothing(minor);
        assert(version =~= seq!['v', '0', '.', '0', '.'] + patch);
        assert(version.take(5) =~= seq!['v', '0', '.', '0', '.']);
        assert(version.skip(5) =~= patch);
    }
    if version.len() > 5 && version.take(5) == seq!['v', '0', '.', '0', '.'] && is_number(
        version.skip(5),
    ) {
        let patch = version.skip(5);
        digits_are_worth_their_distance_from_zero('0');
        numbers_are_plain_digits(zero);
        numbers_are_plain_digits(patch);
        assert(version =~= version.take(5) + patch);
        assert(version =~= version_text(zero, zero, patch));
        version_of_three_parts(zero, zero, patch);
    }
}

/// The version of the configuration format itself is correct.
pub proof fn the_own_version_is_correct(config: ShaderPackConfig, r: bool)
    requires
        config.version@ == CONFIG_VERSION@,
        call_ensures(ShaderPackConfig::is_correct_version, (&config,), r),
    ensures
        r,
{
    reveal_strlit("v0.0.1");
    let version = config.version@;
    correct_versions_begin_with_zeroes(config, r);
    assert(version.take(5) =~= seq!['v', '0', '.', '0', '.']);
    assert(version.skip(5) =~= seq!['1']);
    short_digits_are_numbers(version.skip(5));
}

} // verus!
