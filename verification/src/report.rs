//! A plain-text listing of a chain, one paragraph per block.

use vstd::prelude::*;
use vstd::string::*;

use crate::block::Block;
use crate::block::BlockView;
use crate::chain::block_views;
use crate::chain::Blockchain;
use crate::text::decimal;
use crate::text::push_decimal;
use crate::transaction::push_transactions;
use crate::transaction::render_transactions;

verus! {

/// The paragraph that lists one block: a heading with the index, then one
/// indented line per field.
pub open spec fn block_report(b: BlockView) -> Seq<char> {
    "Block #"@ + decimal(b.index) + ": \n  Timestamp: "@ + decimal(b.timestamp)
        + "\n  Transactions: "@ + render_transactions(b.transactions) + "\n  Previous Hash: "@
        + b.prev_hash + "\n  Current Hash: "@ + b.hash + "\n  Nonce: "@ + decimal(b.nonce) + "\n"@
}

/// The listing of a chain: the paragraphs of its blocks in order, each
/// followed by an empty line.
pub open spec fn chain_report(blocks: Seq<BlockView>) -> Seq<char>
    decreases blocks.len(),
{
    if blocks.len() == 0 {
        Seq::empty()
    } else {
        chain_report(blocks.drop_last()) + block_report(blocks.last()) + "\n"@
    }
}

impl Block {
    /// Appends the paragraph that lists this block to `out`.
    pub fn push_report(&self, out: &mut String)
        ensures
            final(out)@ == old(out)@ + block_report(self@),
    {
        out.append("Block #");
        push_decimal(out, self.index as u64);
        out.append(": \n  Timestamp: ");
        push_decimal(out, self.timestamp);
        out.append("\n  Transactions: ");
        push_transactions(out, &self.transactions);
        out.append("\n  Previous Hash: ");
        out.append(self.prev_hash.as_str());
        out.append("\n  Current Hash: ");
        out.append(self.hash.as_str());
        out.append("\n  Nonce: ");
        push_decimal(out, self.nonce as u64);
        out.append("\n");
        assert(out@ =~= old(out)@ + block_report(self@));
    }

    /// The paragraph that lists this block.
    pub fn report(&self) -> (text: String)
        ensures
            text@ == block_report(self@),
    {
        let mut text = String::new();
        self.push_report(&mut text);
        assert(text@ =~= block_report(self@));
        text
    }
}

impl Blockchain {
    /// The listing of the whole chain.
    pub fn report(&self) -> (text: String)
        ensures
            text@ == chain_report(self@.blocks),
    {
        let mut text = String::new();
        let ghost blocks = block_views(self.chain@);
        let mut i: usize = 0;
        assert(text@ =~= chain_report(blocks.take(0)));
        while i < self.chain.len()
            invariant
                i <= self.chain.len(),
                blocks == block_views(self.chain@),
                text@ == chain_report(blocks.take(i as int)),
            decreases self.chain.len() - i,
        {
            self.chain[i].push_report(&mut text);
            text.append("\n");
            proof {
                let next = blocks.take(i + 1);
                assert(next.drop_last() =~= blocks.take(i as int));
                assert(next.last() == self.chain@[i as int]@);
                assert(text@ =~= chain_report(next));
            }
            i += 1;
        }
        assert(blocks.take(i as int) =~= blocks);
        text
    }
}

} // verus!
