//! The proof-of-work puzzle: a proof is valid for the proof before it when the
//! SHA-256 digest of both, written as little-endian 64-bit integers one after
//! the other, starts with `DIFFICULTY` zero bytes.

use byteorder::{ByteOrder, LittleEndian};
use vstd::prelude::*;

use crate::digest;
use crate::digest::sha256;

verus! {

/// Number of leading zero bytes a digest must have.
pub const DIFFICULTY: usize = 2;

/// The 8 bytes of `n` in little-endian order: the least significant first.
pub open spec fn le_bytes(n: u64) -> Seq<u8> {
    seq![
        (n % 0x100) as u8,
        (n / 0x100 % 0x100) as u8,
        (n / 0x1_0000 % 0x100) as u8,
        (n / 0x100_0000 % 0x100) as u8,
        (n / 0x1_0000_0000 % 0x100) as u8,
        (n / 0x100_0000_0000 % 0x100) as u8,
        (n / 0x1_0000_0000_0000 % 0x100) as u8,
        (n / 0x100_0000_0000_0000 % 0x100) as u8,
    ]
}

/// The 16 bytes that are hashed for a guess: `last_proof`, then `proof`, each
/// as 8 little-endian bytes.
pub open spec fn guess(last_proof: u64, proof: u64) -> Seq<u8> {
    le_bytes(last_proof) + le_bytes(proof)
}

/// The first `count` bytes of `digest` are all zero.
pub open spec fn leading_zero_bytes(digest: Seq<u8>, count: int) -> bool {
    forall|i: int| 0 <= i < count ==> digest[i] == 0
}

/// `proof` solves the puzzle posed by `last_proof`.
pub open spec fn is_valid_proof(last_proof: u64, proof: u64) -> bool {
    leading_zero_bytes(sha256(guess(last_proof, proof)), DIFFICULTY as int)
}

/// `proof` is the smallest solution of the puzzle posed by `last_proof`.
pub open spec fn is_least_proof(last_proof: u64, proof: u64) -> bool {
    &&& is_valid_proof(last_proof, proof)
    &&& forall|smaller: u64| smaller < proof ==> !is_valid_proof(last_proof, smaller)
}

/// Calls `byteorder::LittleEndian::write_u64` on a fresh 8-byte buffer, which
/// fills it with the little-endian bytes of `n`.
#[verifier::external_body]
fn le_u64(n: u64) -> (out: [u8; 8])
    ensures
        out@ == le_bytes(n),
{
    let mut out = [0u8; 8];
    LittleEndian::write_u64(&mut out, n);
    out
}

/// Builds the buffer that is hashed for a guess.
pub fn guess_bytes(last_proof: u64, proof: u64) -> (buf: [u8; 16])
    ensures
        buf@ == guess(last_proof, proof),
{
    let head = le_u64(last_proof);
    let tail = le_u64(proof);
    let mut buf = [0u8; 16];
    let mut i: usize = 0;
    while i < 8
        invariant
            i <= 8,
            forall|k: int| 0 <= k < i ==> buf@[k] == head@[k],
            forall|k: int| 0 <= k < i ==> buf@[k + 8] == tail@[k],
        decreases 8 - i,
    {
        buf[i] = head[i];
        buf[i + 8] = tail[i];
        i += 1;
    }
    buf
}

/// Tells whether a digest starts with `DIFFICULTY` zero bytes.
pub fn meets_difficulty(hash: &digest::Hash) -> (ok: bool)
    ensures
        ok == leading_zero_bytes(hash@, DIFFICULTY as int),
{
    let mut i: usize = 0;
    while i < DIFFICULTY
        invariant
            i <= DIFFICULTY,
            leading_zero_bytes(hash@, i as int),
        decreases DIFFICULTY - i,
    {
        if hash.digest[i] != 0 {
            return false;
        }
        i += 1;
    }
    true
}

/// Tells whether `proof` solves the puzzle posed by `last_proof`.
pub fn valid_proof(last_proof: u64, proof: u64) -> (ok: bool)
    ensures
        ok == is_valid_proof(last_proof, proof),
{
    let buf = guess_bytes(last_proof, proof);
    let hash = digest::Hash::new(buf.as_slice());
    meets_difficulty(&hash)
}

/// Searches upwards from zero for the smallest proof that solves the puzzle
/// posed by `last_proof`.
///
/// The search counts in 64 bits, so it is defined only when some 64-bit proof
/// solves the puzzle; about one guess in 65536 does.
pub fn proof_of_work(last_proof: u64) -> (proof: u64)
    requires
        exists|p: u64| is_valid_proof(last_proof, p),
    ensures
        is_least_proof(last_proof, proof),
{
    let ghost bound: u64 = choose|p: u64| is_valid_proof(last_proof, p);
    let mut proof: u64 = 0;
    while !valid_proof(last_proof, proof)
        invariant
            is_valid_proof(last_proof, bound),
            proof <= bound,
            forall|smaller: u64| smaller < proof ==> !is_valid_proof(last_proof, smaller),
        decreases bound - proof,
    {
        proof += 1;
    }
    proof
}

/// Given any proof that solves the puzzle posed by `last_proof`, returns the
/// smallest one; returns `None` when `known` does not solve it.
pub fn least_proof(last_proof: u64, known: u64) -> (least: Option<u64>)
    ensures
        least is Some <==> is_valid_proof(last_proof, known),
        least matches Some(proof) ==> is_least_proof(last_proof, proof) && proof <= known,
{
    if valid_proof(last_proof, known) {
        Some(proof_of_work(last_proof))
    } else {
        None
    }
}

/// No puzzle has two smallest solutions: every search agrees on the proof.
pub proof fn lemma_least_proof_unique(last_proof: u64, first: u64, second: u64)
    requires
        is_least_proof(last_proof, first),
        is_least_proof(last_proof, second),
    ensures
        first == second,
{
}

} // verus!
