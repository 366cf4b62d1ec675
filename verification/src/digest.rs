//! SHA-256 digests as values: byte-wise equality and lowercase hexadecimal text.

use vstd::prelude::*;

verus! {

/// Number of bytes in a SHA-256 digest.
pub const DIGEST_LEN: usize = 32;

/// SHA-256 is defined for messages shorter than 2^64 bits, that is 2^61 bytes.
pub const MAX_MESSAGE_LEN: u64 = 0x2000_0000_0000_0000;

/// The SHA-256 digest of a message, as computed by `ring::digest::digest`
/// with `ring::digest::SHA256`.
pub uninterp spec fn sha256(message: Seq<u8>) -> Seq<u8>;

/// Calls `ring::digest::digest(&SHA256, message)` and copies the 32 bytes it
/// yields. ring refuses (by panicking) a message of 2^61 bytes or more, so
/// such a message is excluded; for every other message the result is the
/// SHA-256 digest, a function of the message bytes alone.
#[verifier::external_body]
fn sha256_bytes(message: &[u8]) -> (out: [u8; 32])
    requires
        message@.len() < MAX_MESSAGE_LEN,
    ensures
        out@ == sha256(message@),
{
    let mut out = [0u8; 32];
    out.copy_from_slice(ring::digest::digest(&ring::digest::SHA256, message).as_ref());
    out
}

/// The lowercase hexadecimal digit for a value from 0 to 15.
pub open spec fn hex_digit(nibble: int) -> char {
    seq!['0', '1', '2', '3', '4', '5', '6', '7', '8', '9', 'a', 'b', 'c', 'd', 'e', 'f'][nibble]
}

/// Two lowercase hexadecimal digits for each byte, the high half first.
pub open spec fn hex_lower(bytes: Seq<u8>) -> Seq<char> {
    Seq::new(
        2 * bytes.len(),
        |i: int| hex_digit(if i % 2 == 0 { bytes[i / 2] as int / 16 } else { bytes[i / 2] as int % 16 }),
    )
}

/// The digest that a text stands for: the 32 bytes whose lowercase
/// hexadecimal form the text is, if there are such bytes.
pub open spec fn parse_hex(text: Seq<char>) -> Option<Seq<u8>> {
    if exists|bytes: Seq<u8>| bytes.len() == DIGEST_LEN && hex_lower(bytes) == text {
        Some(choose|bytes: Seq<u8>| bytes.len() == DIGEST_LEN && hex_lower(bytes) == text)
    } else {
        None
    }
}

/// The ASCII code of the lowercase hexadecimal digit for a value from 0 to
/// 15.
spec fn hex_code(nibble: int) -> u8 {
    if nibble < 10 {
        (48 + nibble) as u8
    } else {
        (87 + nibble) as u8
    }
}

/// The hexadecimal digits are sixteen different ASCII characters.
proof fn lemma_hex_digits(nibble: int)
    requires
        0 <= nibble < 16,
    ensures
        hex_digit(nibble) as u8 == hex_code(nibble),
        hex_digit(nibble) as u32 == hex_code(nibble) as u32,
        hex_digit(nibble) <= '\u{7f}',
{
}

/// Different bytes have different hexadecimal forms.
pub proof fn lemma_hex_is_injective(first: Seq<u8>, second: Seq<u8>)
    requires
        hex_lower(first) == hex_lower(second),
    ensures
        first == second,
{
    assert(hex_lower(first).len() == 2 * first.len());
    assert(hex_lower(second).len() == 2 * second.len());
    assert forall|k: int| 0 <= k < first.len() implies first[k] == second[k] by {
        lemma_hex_digits(first[k] as int / 16);
        lemma_hex_digits(second[k] as int / 16);
        lemma_hex_digits(first[k] as int % 16);
        lemma_hex_digits(second[k] as int % 16);
        assert(hex_lower(first)[2 * k] == hex_digit(first[k] as int / 16));
        assert(hex_lower(second)[2 * k] == hex_digit(second[k] as int / 16));
        assert(hex_lower(first)[2 * k + 1] == hex_digit(first[k] as int % 16));
        assert(hex_lower(second)[2 * k + 1] == hex_digit(second[k] as int % 16));
    }
}

/// Parsing undoes writing: the hexadecimal form of 32 bytes stands for these
/// bytes and no others.
pub proof fn lemma_parse_hex_undoes_hex_lower(bytes: Seq<u8>)
    requires
        bytes.len() == DIGEST_LEN,
    ensures
        parse_hex(hex_lower(bytes)) == Some(bytes),
{
    let found = parse_hex(hex_lower(bytes))->0;
    lemma_hex_is_injective(found, bytes);
}

/// A text with a character beyond ASCII is the hexadecimal form of no bytes.
proof fn lemma_not_hex(text: Seq<char>)
    requires
        !vstd::utf8::is_ascii_chars(text),
    ensures
        parse_hex(text) is None,
{
    let at = choose|i: int| 0 <= i < text.len() && !('\0' <= #[trigger] text[i] <= '\u{7f}');
    assert forall|bytes: Seq<u8>| bytes.len() == 32 implies hex_lower(bytes) != text by {
        if hex_lower(bytes) == text {
            lemma_hex_digits(bytes[at / 2] as int / 16);
            lemma_hex_digits(bytes[at / 2] as int % 16);
        }
    }
}

/// The value of the hexadecimal digit with the given ASCII code, if the code
/// is that of a digit from `0123456789abcdef`.
fn nibble_of(code: u8) -> (value: Option<u8>)
    ensures
        value matches Some(nibble) ==> nibble < 16 && hex_code(nibble as int) == code,
        value is None ==> forall|nibble: int| 0 <= nibble < 16 ==> hex_code(nibble) != code,
{
    if 48 <= code && code <= 57 {
        Some(code - 48)
    } else if 97 <= code && code <= 102 {
        Some(code - 87)
    } else {
        None
    }
}

/// Calls `data_encoding::HEXLOWER.encode` on the 32 bytes, which writes each
/// byte as two digits from `0123456789abcdef`, the high half first.
#[verifier::external_body]
fn hex_lower_text(bytes: &[u8; 32]) -> (text: String)
    ensures
        text@ == hex_lower(bytes@),
{
    data_encoding::HEXLOWER.encode(bytes)
}

/// A 32-byte SHA-256 digest.
#[derive(Clone, Copy, Debug)]
pub struct Hash {
    pub digest: [u8; 32],
}

impl View for Hash {
    type V = Seq<u8>;

    open spec fn view(&self) -> Seq<u8> {
        self.digest@
    }
}

impl Hash {
    /// Hashes `message` with SHA-256.
    pub fn new(message: &[u8]) -> (hash: Hash)
        requires
            message@.len() < MAX_MESSAGE_LEN,
        ensures
            hash@ == sha256(message@),
    {
        Hash { digest: sha256_bytes(message) }
    }

    /// Reads a digest from its 64 lowercase hexadecimal digits; `None` for
    /// any other text.
    pub fn from_hex(text: &str) -> (parsed: Option<Hash>)
        ensures
            parsed is Some <==> parse_hex(text@) is Some,
            parsed matches Some(hash) ==> Some(hash@) == parse_hex(text@),
    {
        if !text.is_ascii() {
            proof {
                lemma_not_hex(text@);
            }
            return None;
        }
        let codes = text.as_bytes();
        proof {
            vstd::utf8::is_ascii_chars_encode_utf8(text@);
        }
        if codes.len() != 64 {
            return None;
        }
        let mut digest = [0u8; 32];
        let mut i: usize = 0;
        while i < 32
            invariant
                i <= 32,
                codes@.len() == 64,
                text@.len() == 64,
                vstd::utf8::is_ascii_chars(text@),
                forall|j: int| 0 <= j < 64 ==> text@[j] as u8 == #[trigger] codes@[j],
                forall|k: int|
                    0 <= k < i ==> hex_digit(#[trigger] digest@[k] as int / 16) == text@[2 * k],
                forall|k: int|
                    0 <= k < i ==> hex_digit(#[trigger] digest@[k] as int % 16) == text@[2 * k + 1],
            decreases 32 - i,
        {
            let high = nibble_of(codes[2 * i]);
            let low = nibble_of(codes[2 * i + 1]);
            match (high, low) {
                (Some(high), Some(low)) => {
                    proof {
                        lemma_hex_digits(high as int);
                        lemma_hex_digits(low as int);
                    }
                    digest[i] = high * 16 + low;
                },
                _ => {
                    proof {
                        let at = if high is None { 2 * i } else { 2 * i + 1 };
                        assert forall|bytes: Seq<u8>| bytes.len() == 32 implies hex_lower(bytes)
                            != text@ by {
                            lemma_hex_digits(bytes[at / 2] as int / 16);
                            lemma_hex_digits(bytes[at / 2] as int % 16);
                        }
                    }
                    return None;
                },
            }
            i += 1;
        }
        let hash = Hash { digest };
        proof {
            assert(hex_lower(hash@) =~= text@);
            lemma_hex_is_injective(parse_hex(text@)->0, hash@);
        }
        Some(hash)
    }

    /// The digest as 64 lowercase hexadecimal digits.
    pub fn to_hex(&self) -> (text: String)
        ensures
            text@ == hex_lower(self@),
    {
        hex_lower_text(&self.digest)
    }
}

impl PartialEq for Hash {
    /// Byte-wise comparison of the two digests.
    fn eq(&self, other: &Hash) -> (same: bool) {
        let mut i: usize = 0;
        while i < 32
            invariant
                i <= 32,
                forall|k: int| 0 <= k < i ==> self.digest@[k] == other.digest@[k],
            decreases 32 - i,
        {
            if self.digest[i] != other.digest[i] {
                return false;
            }
            i += 1;
        }
        assert(self.digest@ =~= other.digest@);
        true
    }
}

impl vstd::std_specs::cmp::PartialEqSpecImpl for Hash {
    open spec fn obeys_eq_spec() -> bool {
        true
    }

    open spec fn eq_spec(&self, other: &Hash) -> bool {
        self@ == other@
    }
}

impl Eq for Hash {}

} // verus!
