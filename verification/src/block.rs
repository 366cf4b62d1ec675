//! Blocks: a batch of transactions, a proof and the hash of the block before.
//! A block's own hash is never stored; it is derived from the canonical text
//! of the block whenever it is needed.

use vstd::prelude::*;
use vstd::string::StringSliceAdditionalSpecFns;
use vstd::utf8::encode_utf8;

use crate::canon::{decimal, push_bytes, push_decimal, push_text};
use crate::clock::{Timestamp, TimestampView};
use crate::digest;
use crate::digest::{hex_lower, sha256, MAX_MESSAGE_LEN};
use crate::transaction::{encode_all_into, encoding_of_all, views_of, Transaction, TransactionView};

verus! {

/// One record of the chain.
#[derive(Clone, Debug, PartialEq, Eq)]
pub struct Block {
    /// Position in the chain, counted from 1.
    pub index: u64,
    /// When the block was made.
    pub timestamp: Timestamp,
    /// Solution of the puzzle posed by the proof of the block before.
    pub proof: u64,
    /// Hash of the block before.
    pub previous_hash: digest::Hash,
    /// The transactions committed by this block, in arrival order.
    pub transactions: Vec<Transaction>,
}

/// What a `Block` holds.
pub struct BlockView {
    pub index: u64,
    pub timestamp: TimestampView,
    pub proof: u64,
    pub previous_hash: Seq<u8>,
    pub transactions: Seq<TransactionView>,
}

impl View for Block {
    type V = BlockView;

    open spec fn view(&self) -> BlockView {
        BlockView {
            index: self.index,
            timestamp: self.timestamp@,
            proof: self.proof,
            previous_hash: self.previous_hash@,
            transactions: views_of(self.transactions@),
        }
    }
}

/// The canonical text of a block, given the text of its list of
/// transactions: a JSON object with the keys `index`, `timestamp`, `proof`,
/// `previous_hash` and `transactions`, in this order, the hash in lowercase
/// hexadecimal.
pub open spec fn block_frame(
    index: u64,
    timestamp: TimestampView,
    proof: u64,
    previous_hash: Seq<u8>,
    transactions: Seq<u8>,
) -> Seq<u8> {
    "{\"index\":".spec_bytes() + decimal(index as nat) + ",\"timestamp\":".spec_bytes()
        + timestamp.encoding() + ",\"proof\":".spec_bytes() + decimal(proof as nat)
        + ",\"previous_hash\":\"".spec_bytes() + encode_utf8(hex_lower(previous_hash))
        + "\",\"transactions\":[".spec_bytes() + transactions + "]}".spec_bytes()
}

impl BlockView {
    /// The canonical text of the block.
    pub open spec fn encoding(self) -> Seq<u8> {
        block_frame(
            self.index,
            self.timestamp,
            self.proof,
            self.previous_hash,
            encoding_of_all(self.transactions),
        )
    }

    /// The same block but for the hash of the block before.
    pub open spec fn with_previous_hash(self, previous_hash: Seq<u8>) -> BlockView {
        BlockView {
            index: self.index,
            timestamp: self.timestamp,
            proof: self.proof,
            previous_hash,
            transactions: self.transactions,
        }
    }

    /// The canonical text is short enough for SHA-256.
    pub open spec fn hashable(self) -> bool {
        self.encoding().len() < MAX_MESSAGE_LEN
    }

    /// The hash of the block: the SHA-256 digest of its canonical text.
    pub open spec fn hash(self) -> Seq<u8> {
        sha256(self.encoding())
    }
}

/// The canonical text of a block whose list of transactions is given as
/// text.
pub fn frame_block(
    index: u64,
    timestamp: &Timestamp,
    proof: u64,
    previous_hash: &digest::Hash,
    transactions: &[u8],
) -> (text: Vec<u8>)
    ensures
        text@ == block_frame(index, timestamp@, proof, previous_hash@, transactions@),
{
    let mut text = Vec::new();
    push_text(&mut text, "{\"index\":");
    push_decimal(&mut text, index);
    push_text(&mut text, ",\"timestamp\":");
    timestamp.encode_into(&mut text);
    push_text(&mut text, ",\"proof\":");
    push_decimal(&mut text, proof);
    push_text(&mut text, ",\"previous_hash\":\"");
    let hex = previous_hash.to_hex();
    push_text(&mut text, hex.as_str());
    push_text(&mut text, "\",\"transactions\":[");
    push_bytes(&mut text, transactions);
    push_text(&mut text, "]}");
    text
}

impl Block {
    /// A block of the given content.
    pub fn new(
        index: u64,
        timestamp: Timestamp,
        proof: u64,
        previous_hash: digest::Hash,
        transactions: Vec<Transaction>,
    ) -> (block: Block)
        ensures
            block.index == index,
            block.timestamp == timestamp,
            block.proof == proof,
            block.previous_hash == previous_hash,
            block.transactions == transactions,
    {
        Block { index, timestamp, proof, previous_hash, transactions }
    }

    /// The canonical text of the block.
    pub fn encode(&self) -> (text: Vec<u8>)
        ensures
            text@ == self@.encoding(),
    {
        let mut listed = Vec::new();
        encode_all_into(self.transactions.as_slice(), &mut listed);
        frame_block(self.index, &self.timestamp, self.proof, &self.previous_hash, listed.as_slice())
    }

    /// The hash of the block, for a block whose canonical text SHA-256 can
    /// take.
    pub fn hash(&self) -> (hash: digest::Hash)
        requires
            self@.hashable(),
        ensures
            hash@ == self@.hash(),
    {
        let text = self.encode();
        digest::Hash::new(text.as_slice())
    }

    /// The hash of the block, or `None` when its canonical text is too long
    /// for SHA-256.
    pub fn checked_hash(&self) -> (hash: Option<digest::Hash>)
        ensures
            hash is Some <==> self@.hashable(),
            hash matches Some(h) ==> h@ == self@.hash(),
    {
        let text = self.encode();
        if (text.len() as u64) < MAX_MESSAGE_LEN {
            Some(self.hash())
        } else {
            None
        }
    }
}

} // verus!
