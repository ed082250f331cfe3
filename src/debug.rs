//! Helpers for looking at packets while debugging.
use vstd::prelude::*;
use vstd::string::StringExecFns;
use vstd::utf8::{decode_utf8, valid_utf8};

verus! {

/// The decimal digits of `n`, most significant first.
pub open spec fn decimal(n: nat) -> Seq<char>
    decreases n,
{
    if n < 10 {
        seq![((n + 48) as u8) as char]
    } else {
        decimal(n / 10).push((((n % 10) + 48) as u8) as char)
    }
}

/// The description given of bytes that are not text: their length.
pub open spec fn raw_bytes_label(n: nat) -> Seq<char> {
    "<raw bytes :: len: "@ + decimal(n) + ">"@
}

/// Relies on `std::str::from_utf8`: it accepts exactly the well-formed UTF-8
/// encodings (no overlong forms, no surrogates, nothing above U+10FFFF) and
/// yields the characters they encode.
#[verifier::external_body]
fn utf8_to_string(bytes: &[u8]) -> (r: Option<String>)
    ensures
        r is None <==> !valid_utf8(bytes@),
        r matches Some(s) ==> s@ == decode_utf8(bytes@),
{
    std::str::from_utf8(bytes).ok().map(|s| s.to_string())
}

/// Relies on `usize`'s `Display`, through `to_string`: the number in decimal.
#[verifier::external_body]
fn usize_decimal(n: usize) -> (r: String)
    ensures
        r@ == decimal(n as nat),
{
    n.to_string()
}

fn describe_raw_bytes(len: usize) -> (r: String)
    ensures
        r@ == raw_bytes_label(len as nat),
{
    let digits = usize_decimal(len);
    let mut r = String::from_str("<raw bytes :: len: ");
    r.append(digits.as_str());
    r.append(">");
    proof {
        reveal_strlit("<raw bytes :: len: ");
        reveal_strlit(">");
    }
    r
}

/// The packet as text where it is valid UTF-8; otherwise a description that
/// gives its length.
pub fn bytes_to_string(bytes: &[u8]) -> (r: String)
    ensures
        valid_utf8(bytes@) ==> r@ == decode_utf8(bytes@),
        !valid_utf8(bytes@) ==> r@ == raw_bytes_label(bytes@.len()),
{
    match utf8_to_string(bytes) {
        Some(s) => s,
        None => describe_raw_bytes(bytes.len()),
    }
}

} // verus!
