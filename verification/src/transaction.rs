//! Transactions and their textual rendering inside a block's hash input.

use vstd::prelude::*;
use vstd::string::*;

use crate::text::decimal;
use crate::text::push_decimal;

verus! {

/// A transfer of `amount` from `sender` to `recipient`. The fields are plain
/// data: empty names and any amount are accepted.
#[derive(Clone, Debug, PartialEq, Eq)]
pub struct Transaction {
    pub sender: String,
    pub recipient: String,
    pub amount: u32,
}

/// The mathematical content of a [`Transaction`].
pub struct TransactionView {
    pub sender: Seq<char>,
    pub recipient: Seq<char>,
    pub amount: nat,
}

impl View for Transaction {
    type V = TransactionView;

    open spec fn view(&self) -> TransactionView {
        TransactionView {
            sender: self.sender@,
            recipient: self.recipient@,
            amount: self.amount as nat,
        }
    }
}

/// The contents of a list of transactions, in order.
pub open spec fn transaction_views(txs: Seq<Transaction>) -> Seq<TransactionView> {
    txs.map_values(|t: Transaction| t@)
}

/// The quoted, escaped form that the standard library's `Debug` formatting
/// gives a string.
pub uninterp spec fn str_debug(s: Seq<char>) -> Seq<char>;

/// Formats `s` with the standard library's `{:?}`. The contract is taken on
/// trust: the output is a function of the characters of `s` alone.
#[verifier::external_body]
pub(crate) fn debug_quoted(s: &str) -> (out: String)
    ensures
        out@ == str_debug(s@),
{
    format!("{:?}", s)
}

/// The text of one transaction, given its two names already quoted.
pub open spec fn transaction_text(
    sender_quoted: Seq<char>,
    recipient_quoted: Seq<char>,
    amount: nat,
) -> Seq<char> {
    "Transaction { sender: "@ + sender_quoted + ", recipient: "@ + recipient_quoted
        + ", amount: "@ + decimal(amount) + " }"@
}

/// The text of one transaction.
pub open spec fn render_transaction(t: TransactionView) -> Seq<char> {
    transaction_text(str_debug(t.sender), str_debug(t.recipient), t.amount)
}

/// The texts of the transactions in order, separated by a comma and a space.
pub open spec fn render_items(txs: Seq<TransactionView>) -> Seq<char>
    decreases txs.len(),
{
    if txs.len() == 0 {
        Seq::empty()
    } else if txs.len() == 1 {
        render_transaction(txs[0])
    } else {
        render_items(txs.drop_last()) + ", "@ + render_transaction(txs.last())
    }
}

/// The text of a list of transactions: the items between square brackets.
pub open spec fn render_transactions(txs: Seq<TransactionView>) -> Seq<char> {
    "["@ + render_items(txs) + "]"@
}

/// Appends the text of one transaction to `out`, given its two names
/// already quoted.
pub fn push_transaction_text(
    out: &mut String,
    sender_quoted: &str,
    recipient_quoted: &str,
    amount: u32,
)
    ensures
        final(out)@ == old(out)@ + transaction_text(
            sender_quoted@,
            recipient_quoted@,
            amount as nat,
        ),
{
    out.append("Transaction { sender: ");
    out.append(sender_quoted);
    out.append(", recipient: ");
    out.append(recipient_quoted);
    out.append(", amount: ");
    push_decimal(out, amount as u64);
    out.append(" }");
    assert(out@ =~= old(out)@ + transaction_text(
        sender_quoted@,
        recipient_quoted@,
        amount as nat,
    ));
}

impl Transaction {
    /// A transaction with the given fields.
    pub fn new(sender: String, recipient: String, amount: u32) -> (t: Transaction)
        ensures
            t@ == (TransactionView { sender: sender@, recipient: recipient@, amount: amount as nat }),
    {
        Transaction { sender, recipient, amount }
    }

    /// Appends this transaction's text to `out`.
    pub fn push_text(&self, out: &mut String)
        ensures
            final(out)@ == old(out)@ + render_transaction(self@),
    {
        let sender_quoted = debug_quoted(self.sender.as_str());
        let recipient_quoted = debug_quoted(self.recipient.as_str());
        push_transaction_text(
            out,
            sender_quoted.as_str(),
            recipient_quoted.as_str(),
            self.amount,
        );
    }
}

/// Appends the text of a list of transactions to `out`.
pub fn push_transactions(out: &mut String, txs: &Vec<Transaction>)
    ensures
        final(out)@ == old(out)@ + render_transactions(transaction_views(txs@)),
{
    let ghost views = transaction_views(txs@);
    out.append("[");
    let mut i: usize = 0;
    assert(out@ =~= old(out)@ + "["@ + render_items(views.take(0)));
    while i < txs.len()
        invariant
            i <= txs.len(),
            views == transaction_views(txs@),
            out@ == old(out)@ + "["@ + render_items(views.take(i as int)),
        decreases txs.len() - i,
    {
        let ghost before = out@;
        if i > 0 {
            out.append(", ");
        }
        txs[i].push_text(out);
        proof {
            let next = views.take(i + 1);
            assert(next.drop_last() =~= views.take(i as int));
            assert(next.last() == txs@[i as int]@);
            if i == 0 {
                assert(render_items(views.take(0)) =~= Seq::<char>::empty());
            }
            assert(out@ =~= old(out)@ + "["@ + render_items(next));
        }
        i += 1;
    }
    assert(views.take(i as int) =~= views);
    out.append("]");
    assert(out@ =~= old(out)@ + render_transactions(views));
}

} // verus!
