//! Transactions: a sender, a recipient and an amount.

use vstd::prelude::*;
use vstd::string::StringSliceAdditionalSpecFns;

use crate::canon::{decimal, json_quote, json_string, push_bytes, push_decimal, push_text};

verus! {

/// A transfer of an amount from `sender` to `recipient`. Nothing is checked
/// of its content. By convention the sender `"0"` marks a mining reward.
///
/// The amount is a real number, held as the 64 bits of its IEEE 754 double
/// precision form; the ledger carries the bits and never computes with them.
#[derive(Clone, Debug, PartialEq, Eq)]
pub struct Transaction {
    sender: String,
    recipient: String,
    amount_bits: u64,
}

/// What a `Transaction` holds.
pub struct TransactionView {
    pub sender: Seq<char>,
    pub recipient: Seq<char>,
    pub amount_bits: u64,
}

impl View for Transaction {
    type V = TransactionView;

    closed spec fn view(&self) -> TransactionView {
        TransactionView {
            sender: self.sender@,
            recipient: self.recipient@,
            amount_bits: self.amount_bits,
        }
    }
}

/// The views of a sequence of transactions, in the same order.
pub open spec fn views_of(transactions: Seq<Transaction>) -> Seq<TransactionView> {
    transactions.map_values(|t: Transaction| t@)
}

/// The canonical text of a transaction, given its sender and recipient
/// already written as JSON strings: a JSON object with the keys `sender`,
/// `recipient` and `amount`, in this order, the amount as the bits of the
/// number read as an integer.
pub open spec fn transaction_frame(
    sender: Seq<u8>,
    recipient: Seq<u8>,
    amount_bits: u64,
) -> Seq<u8> {
    "{\"sender\":".spec_bytes() + sender + ",\"recipient\":".spec_bytes() + recipient
        + ",\"amount\":".spec_bytes() + decimal(amount_bits as nat) + "}".spec_bytes()
}

impl TransactionView {
    /// The canonical text of the transaction.
    pub open spec fn encoding(self) -> Seq<u8> {
        transaction_frame(json_string(self.sender), json_string(self.recipient), self.amount_bits)
    }
}

/// The canonical texts of the transactions, separated by commas.
pub open spec fn encoding_of_all(transactions: Seq<TransactionView>) -> Seq<u8>
    decreases transactions.len(),
{
    if transactions.len() == 0 {
        Seq::empty()
    } else if transactions.len() == 1 {
        transactions[0].encoding()
    } else {
        encoding_of_all(transactions.drop_last()) + ",".spec_bytes()
            + transactions.last().encoding()
    }
}

/// Appends the canonical text of a transaction whose sender and recipient
/// are given as JSON strings.
pub fn frame_transaction(out: &mut Vec<u8>, sender: &[u8], recipient: &[u8], amount_bits: u64)
    ensures
        final(out)@ == old(out)@ + transaction_frame(sender@, recipient@, amount_bits),
{
    push_text(out, "{\"sender\":");
    push_bytes(out, sender);
    push_text(out, ",\"recipient\":");
    push_bytes(out, recipient);
    push_text(out, ",\"amount\":");
    push_decimal(out, amount_bits);
    push_text(out, "}");
}

impl Transaction {
    /// A transaction from `sender` to `recipient` of the amount with the given
    /// bits.
    pub fn new(sender: &str, recipient: &str, amount_bits: u64) -> (transaction: Transaction)
        ensures
            transaction@ == (TransactionView {
                sender: sender@,
                recipient: recipient@,
                amount_bits,
            }),
    {
        Transaction { sender: sender.to_owned(), recipient: recipient.to_owned(), amount_bits }
    }

    /// Who pays.
    pub fn sender(&self) -> (sender: &str)
        ensures
            sender@ == self@.sender,
    {
        self.sender.as_str()
    }

    /// Who is paid.
    pub fn recipient(&self) -> (recipient: &str)
        ensures
            recipient@ == self@.recipient,
    {
        self.recipient.as_str()
    }

    /// The bits of the amount.
    pub fn amount_bits(&self) -> (amount_bits: u64)
        ensures
            amount_bits == self@.amount_bits,
    {
        self.amount_bits
    }

    /// Appends the canonical text of the transaction.
    pub fn encode_into(&self, out: &mut Vec<u8>)
        ensures
            final(out)@ == old(out)@ + self@.encoding(),
    {
        let sender = json_quote(self.sender.as_str());
        let recipient = json_quote(self.recipient.as_str());
        frame_transaction(out, sender.as_slice(), recipient.as_slice(), self.amount_bits);
    }

    /// The canonical text of the transaction.
    pub fn encode(&self) -> (text: Vec<u8>)
        ensures
            text@ == self@.encoding(),
    {
        let mut text = Vec::new();
        self.encode_into(&mut text);
        text
    }
}

/// Appends the canonical texts of the transactions, separated by commas.
pub fn encode_all_into(transactions: &[Transaction], out: &mut Vec<u8>)
    ensures
        final(out)@ == old(out)@ + encoding_of_all(views_of(transactions@)),
{
    let ghost all = views_of(transactions@);
    let mut i: usize = 0;
    while i < transactions.len()
        invariant
            i <= transactions.len(),
            all == views_of(transactions@),
            out@ == old(out)@ + encoding_of_all(all.take(i as int)),
        decreases transactions.len() - i,
    {
        if i > 0 {
            push_text(out, ",");
        }
        transactions[i].encode_into(out);
        proof {
            let now = all.take(i + 1);
            assert(now.drop_last() =~= all.take(i as int));
        }
        i += 1;
    }
    assert(all.take(i as int) =~= all);
}

} // verus!
