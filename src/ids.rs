use vstd::prelude::*;

verus! {

/// The hex digit of a value below sixteen, in lower case.
pub open spec fn hex_digit(d: nat) -> char {
    if d < 10 {
        (('0' as nat) + d) as char
    } else {
        (('a' as nat) + (d - 10)) as char
    }
}

/// The last `n` hex digits of `v`, most significant first.
pub open spec fn hex_digits(v: nat, n: nat) -> Seq<char>
    decreases n,
{
    if n == 0 {
        Seq::empty()
    } else {
        hex_digits(v / 16, (n - 1) as nat).push(hex_digit(v % 16))
    }
}

/// The token's canonical hyphenated text: 32 lower-case hex digits in groups
/// of 8, 4, 4, 4 and 12, joined by hyphens.
pub open spec fn hyphenated_digits(v: nat) -> Seq<char> {
    hex_digits(v / 0x1_0000_0000_0000_0000_0000_0000, 8) + seq!['-'] + hex_digits(
        v / 0x1_0000_0000_0000_0000_0000,
        4,
    ) + seq!['-'] + hex_digits(v / 0x1_0000_0000_0000_0000, 4) + seq!['-'] + hex_digits(
        v / 0x1_0000_0000_0000,
        4,
    ) + seq!['-'] + hex_digits(v, 12)
}

/// Whether a token carries the marks of a random (version 4, RFC 4122
/// variant) uuid.
pub open spec fn is_random_uuid(v: u128) -> bool {
    &&& (v >> 76u128) & 15u128 == 4
    &&& (v >> 62u128) & 3u128 == 2
}

/// The 128-bit value that uuid's parser reads from a text, if it accepts it.
pub uninterp spec fn parsed_uuid(s: Seq<char>) -> Option<u128>;

/// Relies on uuid::Uuid::new_v4: a fresh random identifier, taken as its
/// 128-bit value. Of the value only the version and variant bits that
/// new_v4 sets are known.
#[verifier::external_body]
pub(crate) fn random_id() -> (r: u128)
    ensures
        is_random_uuid(r),
{
    uuid::Uuid::new_v4().as_u128()
}

/// Relies on uuid::Uuid::parse_str (simple, hyphenated and urn forms, hex
/// digits in either case), read back through as_u128. The lower-case simple
/// and hyphenated texts of a value read back as that value.
#[verifier::external_body]
pub(crate) fn parse_id(s: &str) -> (r: Option<u128>)
    ensures
        r == parsed_uuid(s@),
        forall|v: u128|
            #![trigger hex_digits(v as nat, 32)]
            #![trigger hyphenated_digits(v as nat)]
            s@ == hex_digits(v as nat, 32) || s@ == hyphenated_digits(v as nat) ==> r == Some(v),
{
    uuid::Uuid::parse_str(s).ok().map(|u| u.as_u128())
}

/// Relies on uuid's simple adapter (Uuid::from_u128, to_simple): the 32
/// lower-case hex digits of the value, most significant first.
#[verifier::external_body]
pub(crate) fn simple_text(v: u128) -> (r: String)
    ensures
        r@ == hex_digits(v as nat, 32),
{
    uuid::Uuid::from_u128(v).to_simple().to_string()
}

} // verus!
