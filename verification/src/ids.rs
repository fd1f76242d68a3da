//! Identifiers: UUIDs held as their 128-bit value (big-endian, as
//! `uuid::Uuid::as_u128` gives it).

use crate::text::ascii_lower;
use vstd::arithmetic::power::pow;
use vstd::prelude::*;

verus! {

/// The nil UUID (`Uuid::nil()`), all bits zero.
pub const NIL_ID: u128 = 0;

/// The lower-case hexadecimal digit for `d` (0 to 15).
pub open spec fn hex_digit(d: nat) -> char {
    if d < 10 {
        ((48 + d) as u32) as char
    } else {
        ((87 + d) as u32) as char
    }
}

/// The `k`-th hexadecimal digit of `u`, most significant first (0 to 31).
pub open spec fn nibble(u: u128, k: nat) -> nat {
    (((u as nat) / (pow(16, (31 - k) as nat) as nat)) % 16) as nat
}

/// The 32 lower-case hexadecimal digits of `u`.
pub open spec fn hex32(u: u128) -> Seq<char> {
    Seq::new(32, |k: int| hex_digit(nibble(u, k as nat)))
}

/// The hyphenated form of a UUID, as `Uuid`'s `Display` writes it: 8-4-4-4-12
/// lower-case hexadecimal digits.
pub open spec fn uuid_hyphenated(u: u128) -> Seq<char> {
    let h = hex32(u);
    h.subrange(0, 8) + seq!['-'] + h.subrange(8, 12) + seq!['-'] + h.subrange(12, 16) + seq!['-']
        + h.subrange(16, 20) + seq!['-'] + h.subrange(20, 32)
}

/// The version field of a UUID (bits 76 to 79 of its value).
pub open spec fn uuid_version(u: u128) -> u128 {
    (u >> 76u128) & 15u128
}

/// The variant field of a UUID (bits 62 and 63 of its value).
pub open spec fn uuid_variant(u: u128) -> u128 {
    (u >> 62u128) & 3u128
}

/// `Uuid::from_u128(id).to_string()`: the hyphenated lower-case form.
#[verifier::external_body]
pub(crate) fn uuid_to_string(id: u128) -> (s: String)
    ensures
        s@ == uuid_hyphenated(id),
{
    uuid::Uuid::from_u128(id).to_string()
}

/// The value of a hexadecimal digit of either case, or `None`.
pub open spec fn hex_value(c: char) -> Option<nat> {
    if '0' <= c && c <= '9' {
        Some(((c as u32) - 48) as nat)
    } else if 'a' <= c && c <= 'f' {
        Some(((c as u32) - 87) as nat)
    } else if 'A' <= c && c <= 'F' {
        Some(((c as u32) - 55) as nat)
    } else {
        None
    }
}

/// Every character is a hexadecimal digit.
pub open spec fn all_hex(h: Seq<char>) -> bool {
    forall|i: int| 0 <= i < h.len() ==> #[trigger] hex_value(h[i]) is Some
}

/// The number that the hexadecimal digits `h` write, most significant first.
pub open spec fn hex_number(h: Seq<char>) -> nat
    decreases h.len(),
{
    if h.len() == 0 {
        0
    } else {
        hex_number(h.drop_last()) * 16 + hex_value(h.last()).unwrap()
    }
}

/// The value of 32 hexadecimal digits, or `None`.
pub open spec fn simple_value(h: Seq<char>) -> Option<u128> {
    if h.len() == 32 && all_hex(h) {
        Some(hex_number(h) as u128)
    } else {
        None
    }
}

/// The value of a hyphenated text (8-4-4-4-12 hexadecimal digits), or `None`.
pub open spec fn hyphenated_value(s: Seq<char>) -> Option<u128> {
    if s.len() == 36 && s[8] == '-' && s[13] == '-' && s[18] == '-' && s[23] == '-' {
        simple_value(
            s.subrange(0, 8) + s.subrange(9, 13) + s.subrange(14, 18) + s.subrange(19, 23)
                + s.subrange(24, 36),
        )
    } else {
        None
    }
}

/// What `Uuid::parse_str` reads from a text: 32 hexadecimal digits, the
/// hyphenated form, the hyphenated form in braces, or `urn:uuid:` (of any
/// ASCII case) and the hyphenated form; digits of either case.
pub open spec fn uuid_parse(s: Seq<char>) -> Option<u128> {
    if s.len() == 32 {
        simple_value(s)
    } else if s.len() == 36 {
        hyphenated_value(s)
    } else if s.len() == 38 && s[0] == '{' && s[37] == '}' {
        hyphenated_value(s.subrange(1, 37))
    } else if s.len() == 45 && s.take(9).map_values(|c: char| ascii_lower(c)) == "urn:uuid:"@ {
        hyphenated_value(s.skip(9))
    } else {
        None
    }
}

/// `Uuid::parse_str`, as a 128-bit value.
#[verifier::external_body]
pub(crate) fn parse_uuid(s: &str) -> (r: Option<u128>)
    ensures
        r == uuid_parse(s@),
{
    match uuid::Uuid::parse_str(s) {
        Ok(u) => Some(u.as_u128()),
        Err(_) => None,
    }
}

proof fn lemma_hex_digit_value(d: nat)
    requires
        d < 16,
    ensures
        hex_value(hex_digit(d)) == Some(d),
{
}

proof fn lemma_hex32_prefix(u: u128, k: nat)
    requires
        k <= 32,
    ensures
        hex_number(hex32(u).take(k as int)) == (u as nat) / (pow(16, (32 - k) as nat) as nat),
    decreases k,
{
    broadcast use vstd::arithmetic::power::lemma_pow_positive;

    let h = hex32(u);
    if k == 0 {
        assert(h.take(0) =~= Seq::<char>::empty());
        assert(pow(16, 32) == 0x1_0000_0000_0000_0000_0000_0000_0000_0000) by {
            reveal_with_fuel(pow, 33);
        }
        assert((u as int) / 0x1_0000_0000_0000_0000_0000_0000_0000_0000int == 0) by {
            vstd::arithmetic::div_mod::lemma_basic_div(u as int, 0x1_0000_0000_0000_0000_0000_0000_0000_0000int);
        }
    } else {
        let j = (k - 1) as nat;
        lemma_hex32_prefix(u, j);
        assert(h.take(k as int).drop_last() =~= h.take(j as int));
        let p = pow(16, (31 - j) as nat);
        let q = (u as nat) / (p as nat);
        lemma_hex_digit_value(nibble(u, j));
        assert(pow(16, (32 - j) as nat) == p * 16) by {
            vstd::arithmetic::power::lemma_pow_adds(16, (31 - j) as nat, 1);
            vstd::arithmetic::power::lemma_pow1(16);
        }
        assert(q / 16 == (u as int) / (p * 16)) by {
            vstd::arithmetic::div_mod::lemma_div_denominator(u as int, p, 16);
        }
        assert(q == 16 * (q / 16) + q % 16) by {
            vstd::arithmetic::div_mod::lemma_fundamental_div_mod(q as int, 16);
        }
        assert(h[j as int] == hex_digit(nibble(u, j)));
        assert(nibble(u, j) == q % 16);
        assert(hex_number(h.take(j as int)) == q / 16);
        assert(hex_number(h.take(k as int)) == hex_number(h.take(j as int)) * 16 + nibble(u, j));
    }
}

/// The hyphenated form of a UUID reads back as that UUID.
pub proof fn hyphenated_form_parses_back(u: u128)
    ensures
        uuid_parse(uuid_hyphenated(u)) == Some(u),
{
    let h = hex32(u);
    let s = uuid_hyphenated(u);
    assert(s.len() == 36);
    assert(s[8] == '-' && s[13] == '-' && s[18] == '-' && s[23] == '-');
    assert(s.subrange(0, 8) + s.subrange(9, 13) + s.subrange(14, 18) + s.subrange(19, 23)
        + s.subrange(24, 36) =~= h);
    assert(all_hex(h)) by {
        assert forall|i: int| 0 <= i < h.len() implies #[trigger] hex_value(h[i]) is Some by {
            lemma_hex_digit_value(nibble(u, i as nat));
        }
    }
    lemma_hex32_prefix(u, 32);
    assert(h.take(32) =~= h);
    assert(pow(16, (32 - 32) as nat) == 1) by {
        vstd::arithmetic::power::lemma_pow0(16);
    }
    assert(hex_number(h) == (u as nat) / 1nat);
    assert(hex_number(h) == u);
    assert(simple_value(h) == Some(u));
}

/// `Uuid::new_v4().as_u128()`: a random version-4, RFC 4122 variant UUID.
#[verifier::external_body]
pub(crate) fn new_uuid_v4() -> (id: u128)
    ensures
        uuid_version(id) == 4,
        uuid_variant(id) == 2,
{
    uuid::Uuid::new_v4().as_u128()
}

} // verus!
