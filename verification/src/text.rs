//! Building text: string appends, decimal and hex renderings, and fresh
//! identifiers.

use vstd::prelude::*;

verus! {

/// The lowercase hex digit of a value below 16.
pub open spec fn hex_digit(n: u8) -> char {
    if n < 10 {
        (n + 48) as char
    } else {
        (n + 87) as char
    }
}

/// The lowercase hex rendering of `bytes`: two digits per byte, high nibble first.
pub open spec fn spec_hex(bytes: Seq<u8>) -> Seq<char>
    decreases bytes.len(),
{
    if bytes.len() == 0 {
        seq![]
    } else {
        seq![hex_digit(bytes[0] / 16), hex_digit(bytes[0] % 16)] + spec_hex(bytes.drop_first())
    }
}

/// The decimal digit of a value below 10.
pub open spec fn decimal_digit(n: nat) -> char {
    (n + 48) as char
}

/// The decimal rendering of `n`, left-padded with zeros to at least `width` digits.
pub open spec fn spec_decimal(n: nat, width: nat) -> Seq<char>
    decreases n, width,
{
    if n < 10 && width <= 1 {
        seq![decimal_digit(n)]
    } else {
        spec_decimal(n / 10, if width > 0 { (width - 1) as nat } else { 0 }).push(
            decimal_digit(n % 10),
        )
    }
}

/// Appends `t` to `s`, by `String::push_str`.
#[verifier::external_body]
pub(crate) fn string_push_str(s: &mut String, t: &str)
    ensures
        final(s)@ == old(s)@ + t@,
{
    s.push_str(t);
}

/// Appends `c` to `s`, by `String::push`.
#[verifier::external_body]
pub(crate) fn string_push(s: &mut String, c: char)
    ensures
        final(s)@ == old(s)@.push(c),
{
    s.push(c);
}

/// Calls `hex::encode`, which renders `data` as lowercase hex, two digits per
/// byte, high nibble first.
#[verifier::external_body]
pub(crate) fn hex_encode(data: &[u8]) -> (r: String)
    ensures
        r@ == spec_hex(data@),
{
    hex::encode(data)
}

/// Whether `c` is a lowercase hexadecimal digit.
pub open spec fn is_lower_hex_digit(c: char) -> bool {
    ('0' <= c && c <= '9') || ('a' <= c && c <= 'f')
}

/// Whether `s` is a version-4 UUID in lowercase hyphenated form: 36
/// characters, hyphens at positions 8, 13, 18 and 23, lowercase hex digits
/// elsewhere, the version digit `4` at position 14 and a variant digit of
/// `8`, `9`, `a` or `b` at position 19.
pub open spec fn is_uuid_v4_text(s: Seq<char>) -> bool {
    &&& s.len() == 36
    &&& forall|i: int|
        0 <= i < 36 ==> (if i == 8 || i == 13 || i == 18 || i == 23 {
            s[i] == '-'
        } else {
            is_lower_hex_digit(#[trigger] s[i])
        })
    &&& s[14] == '4'
    &&& (s[19] == '8' || s[19] == '9' || s[19] == 'a' || s[19] == 'b')
}

/// Calls `uuid::Uuid::new_v4` and renders the result with `to_string`: a
/// random version-4 UUID (its version and variant bits set by `new_v4`), in
/// the lowercase hyphenated form that `Display` writes. Which UUID comes out
/// is chance, and nothing is promised of it beyond that form.
#[verifier::external_body]
pub(crate) fn new_uuid_v4() -> (r: String)
    ensures
        is_uuid_v4_text(r@),
{
    uuid::Uuid::new_v4().to_string()
}

/// The decimal rendering of `n`, zero-padded to at least `width` digits.
pub fn format_decimal(n: u64, width: usize) -> (r: String)
    ensures
        r@ == spec_decimal(n as nat, width as nat),
    decreases n, width,
{
    let d = n % 10;
    let c: char = if d == 0 {
        '0'
    } else if d == 1 {
        '1'
    } else if d == 2 {
        '2'
    } else if d == 3 {
        '3'
    } else if d == 4 {
        '4'
    } else if d == 5 {
        '5'
    } else if d == 6 {
        '6'
    } else if d == 7 {
        '7'
    } else if d == 8 {
        '8'
    } else {
        '9'
    };
    assert(c == decimal_digit(d as nat));
    if n < 10 && width <= 1 {
        let mut s = String::new();
        string_push(&mut s, c);
        assert(s@ =~= seq![c]);
        s
    } else {
        let w = if width > 0 {
            width - 1
        } else {
            0
        };
        let mut s = format_decimal(n / 10, w);
        string_push(&mut s, c);
        s
    }
}

} // verus!
