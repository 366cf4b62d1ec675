//! The building blocks of the canonical text of a block: decimal numbers,
//! fixed literals and JSON strings, all as UTF-8 bytes.

use vstd::prelude::*;
use vstd::string::StringSliceAdditionalSpecFns;

verus! {

/// The ASCII code of the decimal digit `d`.
pub open spec fn digit(d: nat) -> u8 {
    (48 + d) as u8
}

/// `n` in decimal, without sign or leading zeros.
pub open spec fn decimal(n: nat) -> Seq<u8>
    decreases n,
{
    if n < 10 {
        seq![digit(n)]
    } else {
        decimal(n / 10).push(digit(n % 10))
    }
}

/// The last `width` decimal digits of `n`, with leading zeros.
pub open spec fn padded_decimal(n: nat, width: nat) -> Seq<u8>
    decreases width,
{
    if width == 0 {
        Seq::empty()
    } else {
        padded_decimal(n / 10, (width - 1) as nat).push(digit(n % 10))
    }
}

/// The text of a string as JSON: what `serde_json` writes for a string value,
/// quotes and escapes included, in UTF-8. JSON leaves a writer the choice
/// between several escapes; which ones `serde_json` takes is its own matter,
/// so its text is named here and not spelled out.
pub uninterp spec fn json_string(text: Seq<char>) -> Seq<u8>;

/// Makes a `serde_json::Value` of the string and renders it with the value's
/// `Display`, which writes compact JSON. The result is a function of the
/// characters of `text` alone.
#[verifier::external_body]
pub(crate) fn json_quote(text: &str) -> (out: Vec<u8>)
    ensures
        out@ == json_string(text@),
{
    serde_json::Value::from(text).to_string().into_bytes()
}

/// Appends the UTF-8 bytes of `text`.
pub fn push_text(out: &mut Vec<u8>, text: &str)
    ensures
        final(out)@ == old(out)@ + text.spec_bytes(),
{
    out.extend_from_slice(text.as_bytes());
}

/// Appends `bytes`.
pub fn push_bytes(out: &mut Vec<u8>, bytes: &[u8])
    ensures
        final(out)@ == old(out)@ + bytes@,
{
    out.extend_from_slice(bytes);
}

/// Appends `n` in decimal.
pub fn push_decimal(out: &mut Vec<u8>, n: u64)
    ensures
        final(out)@ == old(out)@ + decimal(n as nat),
    decreases n,
{
    if n >= 10 {
        push_decimal(out, n / 10);
    }
    out.push(48 + (n % 10) as u8);
}

/// Appends the last `width` decimal digits of `n`, with leading zeros.
pub fn push_padded_decimal(out: &mut Vec<u8>, n: u32, width: u8)
    ensures
        final(out)@ == old(out)@ + padded_decimal(n as nat, width as nat),
    decreases width,
{
    if width > 0 {
        push_padded_decimal(out, n / 10, width - 1);
        out.push(48 + (n % 10) as u8);
    }
}

} // verus!
