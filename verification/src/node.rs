//! The ledger: a chain of blocks that starts with the genesis block, and the
//! pool of transactions that wait for the next block.

use vstd::prelude::*;
use vstd::string::StringSliceAdditionalSpecFns;

use crate::block::{Block, BlockView};
use crate::clock::{ClockError, Timestamp, TimestampView};
use crate::digest;
use crate::digest::sha256;
use crate::pow::{is_valid_proof, valid_proof};
use crate::transaction::{views_of, Transaction, TransactionView};

verus! {

/// The proof carried by the genesis block.
pub const GENESIS_PROOF: u64 = 100;

/// The bytes whose SHA-256 digest the genesis block carries as the hash of
/// its predecessor, since it has none: the text `first`.
pub open spec fn genesis_seed() -> Seq<u8> {
    "first".spec_bytes()
}

/// The genesis block made at `timestamp`.
pub open spec fn genesis_block(timestamp: TimestampView) -> BlockView {
    BlockView {
        index: 1,
        timestamp,
        proof: GENESIS_PROOF,
        previous_hash: sha256(genesis_seed()),
        transactions: Seq::empty(),
    }
}

/// `cur` may follow `prev`: it carries the hash of `prev`, and its proof
/// solves the puzzle posed by the proof of `prev`.
pub open spec fn linked(prev: BlockView, cur: BlockView) -> bool {
    &&& prev.hashable()
    &&& cur.previous_hash == prev.hash()
    &&& is_valid_proof(prev.proof, cur.proof)
}

/// Every block but the first may follow the block before it.
pub open spec fn chain_valid(chain: Seq<BlockView>) -> bool {
    forall|i: int| 1 <= i < chain.len() ==> linked(#[trigger] chain[i - 1], chain[i])
}

/// The views of a sequence of blocks, in the same order.
pub open spec fn block_views(blocks: Seq<Block>) -> Seq<BlockView> {
    blocks.map_values(|b: Block| b@)
}

/// What a `Node` holds: the chain and the pending pool.
pub struct NodeView {
    pub chain: Seq<BlockView>,
    pub pending: Seq<TransactionView>,
}

impl NodeView {
    /// The chain starts with a genesis block, and each block carries its
    /// position, counted from 1, as its index.
    pub open spec fn well_formed(self) -> bool {
        &&& 1 <= self.chain.len() < u64::MAX
        &&& self.chain[0] == genesis_block(self.chain[0].timestamp)
        &&& forall|i: int| 0 <= i < self.chain.len() ==> (#[trigger] self.chain[i]).index == i + 1
    }

    /// The index of one more block still fits in 64 bits, with the index
    /// after it.
    pub open spec fn has_room(self) -> bool {
        self.chain.len() + 1 < u64::MAX
    }

    /// A fresh ledger: the genesis block made at `timestamp`, and an empty
    /// pool.
    pub open spec fn genesis(timestamp: TimestampView) -> NodeView {
        NodeView { chain: seq![genesis_block(timestamp)], pending: Seq::empty() }
    }

    /// The ledger after `transaction` has joined the pool.
    pub open spec fn submit(self, transaction: TransactionView) -> NodeView {
        NodeView { chain: self.chain, pending: self.pending.push(transaction) }
    }

    /// The block that a commit appends.
    pub open spec fn next_block(
        self,
        proof: u64,
        previous_hash: Seq<u8>,
        timestamp: TimestampView,
    ) -> BlockView {
        BlockView {
            index: (self.chain.len() + 1) as u64,
            timestamp,
            proof,
            previous_hash,
            transactions: self.pending,
        }
    }

    /// The ledger after a commit: the whole pool has moved, in order, into one
    /// new block at the end of the chain.
    pub open spec fn commit(
        self,
        proof: u64,
        previous_hash: Seq<u8>,
        timestamp: TimestampView,
    ) -> NodeView {
        NodeView {
            chain: self.chain.push(self.next_block(proof, previous_hash, timestamp)),
            pending: Seq::empty(),
        }
    }

    /// The hash links and the proofs of the chain hold.
    pub open spec fn valid(self) -> bool {
        chain_valid(self.chain)
    }
}

/// Walks the blocks from the second to the last and tells whether each one
/// may follow the block before it. Hashes are computed afresh from the
/// blocks; a block whose canonical text is too long to be hashed has no
/// valid successor.
pub fn check_chain(blocks: &[Block]) -> (ok: bool)
    ensures
        ok == chain_valid(block_views(blocks@)),
{
    let ghost chain = block_views(blocks@);
    let mut index: usize = 1;
    while index < blocks.len()
        invariant
            1 <= index,
            chain == block_views(blocks@),
            forall|i: int| 1 <= i < index && i < chain.len() ==> linked(#[trigger] chain[i - 1], chain[i]),
        decreases blocks.len() - index,
    {
        let last_block = &blocks[index - 1];
        let block = &blocks[index];
        assert(chain[index - 1] == last_block@ && chain[index as int] == block@);
        match last_block.checked_hash() {
            Some(hash) => {
                if block.previous_hash != hash {
                    return false;
                }
            },
            None => {
                return false;
            },
        }
        if !valid_proof(last_block.proof, block.proof) {
            return false;
        }
        index += 1;
    }
    true
}

/// The ledger.
pub struct Node {
    blockchain: Vec<Block>,
    transactions: Vec<Transaction>,
}

impl View for Node {
    type V = NodeView;

    closed spec fn view(&self) -> NodeView {
        NodeView { chain: block_views(self.blockchain@), pending: views_of(self.transactions@) }
    }
}

impl Node {
    /// The invariant of the ledger.
    pub open spec fn well_formed(&self) -> bool {
        self@.well_formed()
    }

    /// A fresh ledger whose genesis block carries the given time: one block,
    /// an empty pool, a valid chain.
    pub fn genesis_at(timestamp: Timestamp) -> (node: Node)
        ensures
            node.well_formed(),
            node@ == NodeView::genesis(timestamp@),
            node@.chain.len() == 1,
            node@.valid(),
    {
        let seed = "first";
        proof {
            reveal_strlit("first");
            vstd::utf8::is_ascii_chars_encode_utf8(seed@);
        }
        let first = Block::new(
            1,
            timestamp,
            GENESIS_PROOF,
            digest::Hash::new(seed.as_bytes()),
            Vec::new(),
        );
        assert(first@.transactions =~= Seq::empty());
        let mut blockchain = Vec::new();
        blockchain.push(first);
        let node = Node { blockchain, transactions: Vec::new() };
        assert(node@.chain =~= seq![genesis_block(timestamp@)]);
        node
    }

    /// A fresh ledger whose genesis block carries the time of the wall clock.
    /// Fails, making no ledger, when the clock cannot be read.
    pub fn new() -> (made: Result<Node, ClockError>)
        ensures
            made matches Ok(node) ==> node.well_formed(),
            made matches Ok(node) ==> node@ == NodeView::genesis(node@.chain[0].timestamp),
            made matches Ok(node) ==> node@.chain.len() == 1 && node@.valid(),
    {
        match Timestamp::now() {
            Ok(timestamp) => Ok(Node::genesis_at(timestamp)),
            Err(error) => Err(error),
        }
    }

    /// The number of blocks in the chain.
    pub fn len(&self) -> (len: usize)
        ensures
            len == self@.chain.len(),
    {
        self.blockchain.len()
    }

    /// Tells whether the chain can take one more block.
    pub fn has_room(&self) -> (room: bool)
        ensures
            room == self@.has_room(),
    {
        (self.blockchain.len() as u64) < u64::MAX - 1
    }

    /// The blocks of the chain, from the genesis block on.
    pub fn chain(&self) -> (blocks: &[Block])
        ensures
            block_views(blocks@) == self@.chain,
    {
        self.blockchain.as_slice()
    }

    /// The pending transactions, in arrival order.
    pub fn pending(&self) -> (transactions: &[Transaction])
        ensures
            views_of(transactions@) == self@.pending,
    {
        self.transactions.as_slice()
    }

    /// The block that was appended last.
    pub fn last_block(&self) -> (block: &Block)
        requires
            self.well_formed(),
        ensures
            block@ == self@.chain.last(),
    {
        &self.blockchain[self.blockchain.len() - 1]
    }

    /// Puts `trans` at the end of the pool and returns the index of the block
    /// that will hold it if the next commit comes before anything else.
    pub fn add_transaction(&mut self, trans: Transaction) -> (index: u64)
        requires
            old(self).well_formed(),
        ensures
            final(self).well_formed(),
            final(self)@ == old(self)@.submit(trans@),
            index == old(self)@.chain.len() + 1,
    {
        self.transactions.push(trans);
        assert(self@.pending =~= old(self)@.pending.push(trans@));
        self.last_block().index + 1
    }

    /// Takes all pending transactions out of the pool, in arrival order.
    fn drain_pending(&mut self) -> (drained: Vec<Transaction>)
        ensures
            views_of(drained@) == old(self)@.pending,
            final(self)@.pending == Seq::<TransactionView>::empty(),
            final(self)@.chain == old(self)@.chain,
    {
        let mut drained = Vec::new();
        std::mem::swap(&mut drained, &mut self.transactions);
        drained
    }

    /// Appends a block made at `timestamp` that carries `proof`, `last_hash`
    /// and the whole pool, and returns it. Neither `proof` nor `last_hash` is
    /// checked against the chain.
    pub fn new_block_at(
        &mut self,
        proof: u64,
        last_hash: digest::Hash,
        timestamp: Timestamp,
    ) -> (block: &Block)
        requires
            old(self).well_formed(),
            old(self)@.has_room(),
        ensures
            final(self).well_formed(),
            final(self)@ == old(self)@.commit(proof, last_hash@, timestamp@),
            block@ == old(self)@.next_block(proof, last_hash@, timestamp@),
    {
        let transactions = self.drain_pending();
        let block = Block::new(self.len() as u64 + 1, timestamp, proof, last_hash, transactions);
        self.blockchain.push(block);
        assert(self@.chain =~= old(self)@.chain.push(block@));
        &self.blockchain[self.blockchain.len() - 1]
    }

    /// Appends a block made now that carries `proof`, `last_hash` and the
    /// whole pool, and returns it. Neither `proof` nor `last_hash` is checked
    /// against the chain. When the clock cannot be read the ledger stays as it
    /// was.
    pub fn new_block(
        &mut self,
        proof: u64,
        last_hash: digest::Hash,
    ) -> (made: Result<&Block, ClockError>)
        requires
            old(self).well_formed(),
            old(self)@.has_room(),
        ensures
            final(self).well_formed(),
            made matches Ok(block) ==> final(self)@ == old(self)@.commit(
                proof,
                last_hash@,
                block@.timestamp,
            ),
            made matches Ok(block) ==> block@ == final(self)@.chain.last(),
            made is Err ==> final(self)@ == old(self)@,
    {
        match Timestamp::now() {
            Ok(timestamp) => Ok(self.new_block_at(proof, last_hash, timestamp)),
            Err(error) => Err(error),
        }
    }

    /// Tells whether the hash links and the proofs of the whole chain hold,
    /// from hashes computed afresh.
    pub fn valid_chain(&self) -> (ok: bool)
        ensures
            ok == self@.valid(),
    {
        check_chain(self.blockchain.as_slice())
    }

    /// First half of mining: the proof and the hash of the last block, which
    /// the search for the next proof and the later commit need. The search
    /// itself needs no access to the ledger. `None` when the last block is too
    /// long to be hashed.
    pub fn begin_mine(&self) -> (task: Option<(u64, digest::Hash)>)
        requires
            self.well_formed(),
        ensures
            task is Some <==> self@.chain.last().hashable(),
            task matches Some((last_proof, _)) ==> last_proof == self@.chain.last().proof,
            task matches Some((_, last_hash)) ==> last_hash@ == self@.chain.last().hash(),
    {
        let last_block = self.last_block();
        match last_block.checked_hash() {
            Some(last_hash) => Some((last_block.proof, last_hash)),
            None => None,
        }
    }

    /// Second half of mining, with the time given: puts the miner's reward at
    /// the end of the pool and commits the pool as a block made at
    /// `timestamp`, which it returns.
    pub fn finish_mine_at(
        &mut self,
        proof: u64,
        previous_hash: digest::Hash,
        reward: Transaction,
        timestamp: Timestamp,
    ) -> (block: &Block)
        requires
            old(self).well_formed(),
            old(self)@.has_room(),
        ensures
            final(self).well_formed(),
            final(self)@ == old(self)@.submit(reward@).commit(proof, previous_hash@, timestamp@),
            block@ == old(self)@.submit(reward@).next_block(proof, previous_hash@, timestamp@),
    {
        self.add_transaction(reward);
        self.new_block_at(proof, previous_hash, timestamp)
    }

    /// Second half of mining: puts the miner's reward at the end of the pool
    /// and commits the pool as a block made now. When the clock cannot be read
    /// the ledger stays as it was, without the reward.
    pub fn finish_mine(
        &mut self,
        proof: u64,
        previous_hash: digest::Hash,
        reward: Transaction,
    ) -> (made: Result<&Block, ClockError>)
        requires
            old(self).well_formed(),
            old(self)@.has_room(),
        ensures
            final(self).well_formed(),
            made matches Ok(block) ==> final(self)@ == old(self)@.submit(reward@).commit(
                proof,
                previous_hash@,
                block@.timestamp,
            ),
            made matches Ok(block) ==> block@ == final(self)@.chain.last(),
            made is Err ==> final(self)@ == old(self)@,
    {
        match Timestamp::now() {
            Ok(timestamp) => Ok(self.finish_mine_at(proof, previous_hash, reward, timestamp)),
            Err(error) => Err(error),
        }
    }
}

} // verus!
