//! What holds of every ledger: of a fresh one, of submissions and commits,
//! and of the validity of chains.

use vstd::prelude::*;

use crate::block::{Block, BlockView};
use crate::clock::TimestampView;
use crate::digest::sha256;
use crate::node::{chain_valid, genesis_seed, linked, NodeView};
use crate::pow::is_valid_proof;
use crate::transaction::TransactionView;

verus! {

/// One change of a ledger.
pub enum Step {
    /// A transaction joins the pool.
    Submit(TransactionView),
    /// The pool is committed as a block.
    Commit { proof: u64, previous_hash: Seq<u8>, timestamp: TimestampView },
}

impl NodeView {
    /// The ledger after one change.
    pub open spec fn step(self, step: Step) -> NodeView {
        match step {
            Step::Submit(transaction) => self.submit(transaction),
            Step::Commit { proof, previous_hash, timestamp } => self.commit(
                proof,
                previous_hash,
                timestamp,
            ),
        }
    }

    /// The ledger after the changes, made in order.
    pub open spec fn run(self, steps: Seq<Step>) -> NodeView
        decreases steps.len(),
    {
        if steps.len() == 0 {
            self
        } else {
            self.run(steps.drop_last()).step(steps.last())
        }
    }

    /// The change is in sequence: a commit carries the hash of the last block
    /// and a proof for its proof. Any submission is.
    pub open spec fn in_sequence(self, step: Step) -> bool {
        match step {
            Step::Submit(_) => true,
            Step::Commit { proof, previous_hash, timestamp } => linked(
                self.chain.last(),
                self.next_block(proof, previous_hash, timestamp),
            ),
        }
    }

    /// Each of the changes is in sequence for the ledger that the changes
    /// before it have made.
    pub open spec fn all_in_sequence(self, steps: Seq<Step>) -> bool {
        forall|i: int| 0 <= i < steps.len() ==> (#[trigger] self.run(steps.take(i))).in_sequence(steps[i])
    }

    /// The ledger after the transactions have joined the pool one by one.
    pub open spec fn submit_all(self, transactions: Seq<TransactionView>) -> NodeView
        decreases transactions.len(),
    {
        if transactions.len() == 0 {
            self
        } else {
            self.submit_all(transactions.drop_last()).submit(transactions.last())
        }
    }
}

/// A fresh ledger holds one block, which carries the SHA-256 digest of the
/// genesis seed as the hash of its predecessor; it is well formed and valid.
pub proof fn lemma_fresh_ledger(timestamp: TimestampView)
    ensures
        NodeView::genesis(timestamp).chain.len() == 1,
        NodeView::genesis(timestamp).chain[0].previous_hash == sha256(genesis_seed()),
        NodeView::genesis(timestamp).pending.len() == 0,
        NodeView::genesis(timestamp).well_formed(),
        NodeView::genesis(timestamp).valid(),
{
}

/// Submitting and committing keep a ledger well formed.
pub proof fn lemma_well_formed_is_kept(
    node: NodeView,
    transaction: TransactionView,
    proof: u64,
    previous_hash: Seq<u8>,
    timestamp: TimestampView,
)
    requires
        node.well_formed(),
    ensures
        node.submit(transaction).well_formed(),
        node.has_room() ==> node.commit(proof, previous_hash, timestamp).well_formed(),
{
}

/// A commit yields a valid chain exactly when the chain was valid before and
/// the new block may follow the last one. So a chain stays valid through any
/// number of commits that each carry the hash of the last block and a proof
/// for its proof, and one commit that carries anything else breaks it.
pub proof fn lemma_commit_validity(
    node: NodeView,
    proof: u64,
    previous_hash: Seq<u8>,
    timestamp: TimestampView,
)
    requires
        node.chain.len() >= 1,
    ensures
        node.commit(proof, previous_hash, timestamp).valid() <==> node.valid() && linked(
            node.chain.last(),
            node.next_block(proof, previous_hash, timestamp),
        ),
{
    let after = node.commit(proof, previous_hash, timestamp);
    let n = node.chain.len() as int;
    if after.valid() {
        assert forall|i: int| 1 <= i < node.chain.len() implies linked(
            #[trigger] node.chain[i - 1],
            node.chain[i],
        ) by {
            assert(after.chain[i - 1] == node.chain[i - 1]);
        }
        assert(linked(after.chain[n - 1], after.chain[n]));
    }
    if node.valid() && linked(node.chain.last(), node.next_block(proof, previous_hash, timestamp)) {
        assert forall|i: int| 1 <= i < after.chain.len() implies linked(
            #[trigger] after.chain[i - 1],
            after.chain[i],
        ) by {
            if i < n {
                assert(linked(node.chain[i - 1], node.chain[i]));
            }
        }
    }
}

/// A commit that carries the hash of the last block and a proof for its proof
/// keeps a valid chain valid.
pub proof fn lemma_honest_commit_keeps_valid(node: NodeView, proof: u64, timestamp: TimestampView)
    requires
        node.chain.len() >= 1,
        node.valid(),
        node.chain.last().hashable(),
        is_valid_proof(node.chain.last().proof, proof),
    ensures
        node.commit(proof, node.chain.last().hash(), timestamp).valid(),
{
    lemma_commit_validity(node, proof, node.chain.last().hash(), timestamp);
}

/// A valid chain stays valid through any number of submissions and commits
/// that are each in sequence.
pub proof fn lemma_history_in_sequence_is_valid(node: NodeView, steps: Seq<Step>)
    requires
        node.chain.len() >= 1,
        node.valid(),
        node.all_in_sequence(steps),
    ensures
        node.run(steps).valid(),
        node.run(steps).chain.len() >= 1,
    decreases steps.len(),
{
    if steps.len() > 0 {
        let earlier = steps.drop_last();
        assert forall|i: int| 0 <= i < earlier.len() implies (#[trigger] node.run(
            earlier.take(i),
        )).in_sequence(earlier[i]) by {
            assert(earlier.take(i) =~= steps.take(i));
        }
        lemma_history_in_sequence_is_valid(node, earlier);
        let before = node.run(earlier);
        match steps.last() {
            Step::Submit(_) => {},
            Step::Commit { proof, previous_hash, timestamp } => {
                lemma_commit_validity(before, proof, previous_hash, timestamp);
            },
        }
    }
}

/// Replacing the predecessor hash that a block other than the first carries
/// by any other value makes a valid chain invalid.
pub proof fn lemma_forged_hash_is_found(chain: Seq<BlockView>, position: int, forged: Seq<u8>)
    requires
        chain_valid(chain),
        1 <= position < chain.len(),
        forged != chain[position].previous_hash,
    ensures
        !chain_valid(chain.update(position, chain[position].with_previous_hash(forged))),
{
    let tampered = chain.update(position, chain[position].with_previous_hash(forged));
    assert(!linked(tampered[position - 1], tampered[position]));
}

/// Submitting transactions one by one appends them to the pool in order and
/// leaves the chain alone.
pub proof fn lemma_submit_all(node: NodeView, transactions: Seq<TransactionView>)
    ensures
        node.submit_all(transactions).pending == node.pending + transactions,
        node.submit_all(transactions).chain == node.chain,
    decreases transactions.len(),
{
    if transactions.len() > 0 {
        lemma_submit_all(node, transactions.drop_last());
        assert(node.pending + transactions =~= (node.pending + transactions.drop_last()).push(
            transactions.last(),
        ));
    }
}

/// After any number of submissions and one commit the pool is empty and the
/// new block holds what was pending before, then the submitted transactions,
/// in submission order; a second commit right after yields a block without
/// transactions.
pub proof fn lemma_pool_drains(
    node: NodeView,
    transactions: Seq<TransactionView>,
    proof: u64,
    previous_hash: Seq<u8>,
    timestamp: TimestampView,
    next_proof: u64,
    next_hash: Seq<u8>,
    next_timestamp: TimestampView,
)
    ensures
        ({
            let once = node.submit_all(transactions).commit(proof, previous_hash, timestamp);
            let twice = once.commit(next_proof, next_hash, next_timestamp);
            &&& once.pending.len() == 0
            &&& once.chain.len() == node.chain.len() + 1
            &&& once.chain.last().transactions == node.pending + transactions
            &&& twice.pending.len() == 0
            &&& twice.chain.len() == node.chain.len() + 2
            &&& twice.chain.last().transactions.len() == 0
        }),
{
    lemma_submit_all(node, transactions);
}

/// Blocks that hold the same values have the same canonical text and the same
/// hash.
pub proof fn lemma_hash_is_a_function_of_content(first: Block, second: Block)
    requires
        first@ == second@,
    ensures
        first@.encoding() == second@.encoding(),
        first@.hash() == second@.hash(),
{
}

} // verus!
