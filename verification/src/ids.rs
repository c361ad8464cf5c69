//! Random identifiers: version-4 UUIDs, rendered by the `uuid` crate.
use vstd::prelude::*;
use vstd::arithmetic::power2::pow2;
use vstd::string::StringExecFns;

verus! {

/// The lowercase hexadecimal digit of `d` (taken modulo 16).
pub open spec fn hex_digit(d: int) -> char {
    let n = d % 16;
    if n == 0 { '0' }
    else if n == 1 { '1' }
    else if n == 2 { '2' }
    else if n == 3 { '3' }
    else if n == 4 { '4' }
    else if n == 5 { '5' }
    else if n == 6 { '6' }
    else if n == 7 { '7' }
    else if n == 8 { '8' }
    else if n == 9 { '9' }
    else if n == 10 { 'a' }
    else if n == 11 { 'b' }
    else if n == 12 { 'c' }
    else if n == 13 { 'd' }
    else if n == 14 { 'e' }
    else { 'f' }
}

/// Whether `c` is a lowercase hexadecimal digit.
pub open spec fn is_lower_hex(c: char) -> bool {
    ('0' <= c && c <= '9') || ('a' <= c && c <= 'f')
}

/// The `i`-th hexadecimal digit of `bits`, most significant first (`0 <= i < 32`).
pub open spec fn nibble(bits: u128, i: int) -> int {
    (bits as int / pow2((4 * (31 - i)) as nat) as int) % 16
}

/// The 32 lowercase hexadecimal digits of `bits`, most significant first: the "simple" text
/// of the UUID whose big-endian value is `bits`.
pub open spec fn uuid_simple_spec(bits: u128) -> Seq<char> {
    Seq::new(32, |i: int| hex_digit(nibble(bits, i)))
}

/// The position among the 32 digits of character `j` of the hyphenated text.
pub open spec fn hyphenated_digit_index(j: int) -> int {
    if j < 8 { j } else if j < 13 { j - 1 } else if j < 18 { j - 2 } else if j < 23 { j - 3 } else { j - 4 }
}

/// The hyphenated text (8-4-4-4-12 digits) of the UUID whose big-endian value is `bits`.
pub open spec fn uuid_hyphenated_spec(bits: u128) -> Seq<char> {
    Seq::new(
        36,
        |j: int|
            if j == 8 || j == 13 || j == 18 || j == 23 {
                '-'
            } else {
                hex_digit(nibble(bits, hyphenated_digit_index(j)))
            },
    )
}

/// The digit that carries a version-4 UUID's variant bits `10`: one of `8`, `9`, `a`, `b`.
pub open spec fn is_variant_digit(c: char) -> bool {
    c == '8' || c == '9' || c == 'a' || c == 'b'
}

/// `s` is the simple text of a version-4 UUID: 32 lowercase hexadecimal digits, the
/// thirteenth (index 12) `4` for the version and the seventeenth (index 16) a variant digit.
pub open spec fn is_simple_uuid_text(s: Seq<char>) -> bool {
    &&& s.len() == 32
    &&& forall|i: int| 0 <= i < 32 ==> is_lower_hex(#[trigger] s[i])
    &&& s[12] == '4'
    &&& is_variant_digit(s[16])
}

/// `s` is the hyphenated text of a version-4 UUID: 36 characters, dashes at 8, 13, 18 and
/// 23, lowercase hexadecimal digits elsewhere, `4` at 14 for the version and a variant digit
/// at 19.
pub open spec fn is_hyphenated_uuid_text(s: Seq<char>) -> bool {
    &&& s.len() == 36
    &&& forall|j: int| 0 <= j < 36 ==> if j == 8 || j == 13 || j == 18 || j == 23 {
        #[trigger] s[j] == '-'
    } else {
        is_lower_hex(s[j])
    }
    &&& s[14] == '4'
    &&& is_variant_digit(s[19])
}

/// The version and variant bits of a version-4 UUID show in its digits: digit 12 is `4` and
/// digit 16 is a variant digit.
proof fn lemma_v4_digits(bits: u128)
    requires
        (bits >> 76u128) & 0xf == 4,
        (bits >> 62u128) & 0x3 == 2,
    ensures
        hex_digit(nibble(bits, 12)) == '4',
        is_variant_digit(hex_digit(nibble(bits, 16))),
{
    vstd::bits::lemma_u128_shr_is_div(bits, 76);
    vstd::bits::lemma_u128_shr_is_div(bits, 60);
    let a = bits >> 76u128;
    let b = bits >> 60u128;
    assert(a & 0xf == a % 16) by (bit_vector);
    assert(8 <= b % 16 && b % 16 <= 11) by (bit_vector)
        requires
            (bits >> 62u128) & 0x3 == 2,
            b == bits >> 60u128,
    ;
    assert(nibble(bits, 12) == a as int % 16);
    assert(nibble(bits, 16) == b as int % 16);
}

/// `uuid::Uuid::new_v4`, read as its big-endian `u128`: a random version-4 UUID; the
/// version nibble is 4 and the variant bits are `10`.
#[verifier::external_body]
fn new_v4_bits() -> (bits: u128)
    ensures
        (bits >> 76u128) & 0xf == 4,
        (bits >> 62u128) & 0x3 == 2,
{
    uuid::Uuid::new_v4().as_u128()
}

/// The `Display` of `uuid::fmt::Simple` for the UUID with big-endian value `bits`: its 32
/// lowercase hexadecimal digits.
#[verifier::external_body]
fn uuid_simple_text(bits: u128) -> (s: String)
    ensures
        s@ == uuid_simple_spec(bits),
{
    uuid::Uuid::from_u128(bits).simple().to_string()
}

/// The `Display` of `uuid::Uuid` with big-endian value `bits`: its hyphenated lowercase text.
#[verifier::external_body]
fn uuid_hyphenated_text(bits: u128) -> (s: String)
    ensures
        s@ == uuid_hyphenated_spec(bits),
{
    uuid::Uuid::from_u128(bits).to_string()
}

proof fn lemma_hex_digit_is_lower_hex(d: int)
    ensures
        is_lower_hex(hex_digit(d)),
{
}

/// Returns `prefix` followed by the simple text of a fresh random version-4 UUID.
pub fn prefixed_random_id(prefix: &str) -> (id: String)
    ensures
        id@.len() == prefix@.len() + 32,
        id@.subrange(0, prefix@.len() as int) == prefix@,
        is_simple_uuid_text(id@.subrange(prefix@.len() as int, id@.len() as int)),
{
    let bits = new_v4_bits();
    let text = uuid_simple_text(bits);
    let id = String::from_str(prefix).concat(text.as_str());
    proof {
        assert(id@.subrange(0, prefix@.len() as int) =~= prefix@);
        assert(id@.subrange(prefix@.len() as int, id@.len() as int) =~= text@);
        assert forall|i: int| 0 <= i < 32 implies is_lower_hex(#[trigger] text@[i]) by {
            lemma_hex_digit_is_lower_hex(nibble(bits, i));
        }
        lemma_v4_digits(bits);
        assert(text@[12] == hex_digit(nibble(bits, 12)));
        assert(text@[16] == hex_digit(nibble(bits, 16)));
    }
    id
}

/// Returns the hyphenated text of a fresh random version-4 UUID.
pub fn random_token() -> (token: String)
    ensures
        is_hyphenated_uuid_text(token@),
{
    let bits = new_v4_bits();
    let token = uuid_hyphenated_text(bits);
    proof {
        assert forall|j: int| 0 <= j < 36 implies if j == 8 || j == 13 || j == 18 || j == 23 {
            #[trigger] token@[j] == '-'
        } else {
            is_lower_hex(token@[j])
        } by {
            lemma_hex_digit_is_lower_hex(nibble(bits, hyphenated_digit_index(j)));
        }
        lemma_v4_digits(bits);
        assert(token@[14] == hex_digit(nibble(bits, 12)));
        assert(token@[19] == hex_digit(nibble(bits, 16)));
    }
    token
}

} // verus!
