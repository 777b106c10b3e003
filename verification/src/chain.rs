//! The chain: a genesis block followed by mined blocks, each naming the
//! hash of the one before it.

use vstd::prelude::*;
use vstd::string::*;

use crate::block::block_digest;
use crate::block::meets_target;
use crate::block::Block;
use crate::block::BlockView;
use crate::clock::unix_seconds;
use crate::digest::HASH_HEX_LEN;
use crate::error::LedgerError;
use crate::transaction::transaction_views;
use crate::transaction::Transaction;
use crate::transaction::TransactionView;

verus! {

/// An append-only sequence of blocks and the difficulty at which new blocks
/// are mined. The fields are open to inspection, and to tampering: whether
/// the blocks still hold together is what [`Blockchain::validate_chain`]
/// tells.
#[derive(Clone, Debug)]
pub struct Blockchain {
    pub chain: Vec<Block>,
    pub difficulty: usize,
}

/// The mathematical content of a [`Blockchain`].
pub struct ChainView {
    pub blocks: Seq<BlockView>,
    pub difficulty: nat,
}

/// The contents of a list of blocks, in order.
pub open spec fn block_views(blocks: Seq<Block>) -> Seq<BlockView> {
    blocks.map_values(|b: Block| b@)
}

impl View for Blockchain {
    type V = ChainView;

    open spec fn view(&self) -> ChainView {
        ChainView { blocks: block_views(self.chain@), difficulty: self.difficulty as nat }
    }
}

/// A sealed, unmined block with the given fields and nonce zero.
pub open spec fn fresh_block(
    index: nat,
    timestamp: nat,
    transactions: Seq<TransactionView>,
    prev_hash: Seq<char>,
) -> BlockView {
    (BlockView { index, timestamp, transactions, prev_hash, hash: Seq::empty(), nonce: 0 }).resealed(
        0,
    )
}

/// The genesis block created at `timestamp`: index zero, no transactions,
/// previous hash `"0"`, sealed but not mined.
pub open spec fn genesis(timestamp: nat) -> BlockView {
    fresh_block(0, timestamp, Seq::empty(), "0"@)
}

/// True when every block but the first is sealed and names the stored hash
/// of the block before it. The first block is checked in no way, and no
/// hash is held to the difficulty.
pub open spec fn chain_valid(blocks: Seq<BlockView>) -> bool {
    forall|i: int|
        1 <= i < blocks.len() ==> (#[trigger] blocks[i]).is_sealed() && blocks[i].prev_hash
            == blocks[i - 1].hash
}

impl ChainView {
    /// The block that is mined to extend this chain: it follows the last
    /// block's index and names the last block's stored hash.
    pub open spec fn candidate(self, transactions: Seq<TransactionView>, timestamp: nat) -> BlockView {
        fresh_block(
            self.blocks.last().index + 1,
            timestamp,
            transactions,
            self.blocks.last().hash,
        )
    }

    /// Why this chain cannot be extended whatever the block, if so. The
    /// checks come in this order.
    pub open spec fn blocked(self) -> Option<LedgerError> {
        if self.blocks.len() == 0 {
            Some(LedgerError::EmptyChain)
        } else if self.difficulty > HASH_HEX_LEN {
            Some(LedgerError::Configuration)
        } else if self.blocks.last().index >= u32::MAX {
            Some(LedgerError::IndexOverflow)
        } else {
            None
        }
    }

    /// Why extending this chain with the given block is refused, if it is.
    pub open spec fn refusal(
        self,
        transactions: Seq<TransactionView>,
        timestamp: nat,
    ) -> Option<LedgerError> {
        if self.blocked() is Some {
            self.blocked()
        } else if self.candidate(transactions, timestamp).unminable(self.difficulty) {
            Some(LedgerError::NonceExhausted)
        } else {
            None
        }
    }

    /// True when `after` is this chain extended by the mined candidate.
    pub open spec fn extends_to(
        self,
        transactions: Seq<TransactionView>,
        timestamp: nat,
        after: ChainView,
    ) -> bool {
        &&& self.blocked() is None
        &&& after.difficulty == self.difficulty
        &&& after.blocks.len() == self.blocks.len() + 1
        &&& after.blocks.drop_last() == self.blocks
        &&& self.candidate(transactions, timestamp).mines_to(self.difficulty, after.blocks.last())
    }

    /// What a chain built only by construction and appending satisfies: a
    /// genesis block first, indices counting up from zero, every block
    /// sealed, every block naming the one before it, and every block after
    /// the genesis mined at the chain's difficulty.
    pub open spec fn well_formed(self) -> bool {
        &&& self.blocks.len() >= 1
        &&& self.difficulty <= HASH_HEX_LEN
        &&& self.blocks[0] == genesis(self.blocks[0].timestamp)
        &&& forall|i: int| 0 <= i < self.blocks.len() ==> (#[trigger] self.blocks[i]).index == i
        &&& forall|i: int| 0 <= i < self.blocks.len() ==> (#[trigger] self.blocks[i]).is_sealed()
        &&& forall|i: int|
            1 <= i < self.blocks.len() ==> (#[trigger] self.blocks[i]).prev_hash == self.blocks[i
                - 1].hash
        &&& forall|i: int|
            1 <= i < self.blocks.len() ==> meets_target(
                (#[trigger] self.blocks[i]).hash,
                self.difficulty,
            )
    }
}

impl Blockchain {
    /// A chain holding only a genesis block stamped with the current time.
    ///
    /// A difficulty above the length of a hash is refused. The genesis
    /// block is sealed but not mined.
    pub fn new(difficulty: usize) -> (made: Result<Blockchain, LedgerError>)
        ensures
            match made {
                Ok(c) => {
                    &&& difficulty <= HASH_HEX_LEN
                    &&& c@.difficulty == difficulty
                    &&& c@.blocks == seq![genesis(c@.blocks[0].timestamp)]
                    &&& c@.well_formed()
                },
                Err(e) => e == if difficulty > HASH_HEX_LEN {
                    LedgerError::Configuration
                } else {
                    LedgerError::ClockBeforeEpoch
                },
            },
            difficulty > HASH_HEX_LEN ==> made is Err,
    {
        if difficulty > HASH_HEX_LEN {
            return Err(LedgerError::Configuration);
        }
        match unix_seconds() {
            Some(timestamp) => Blockchain::with_genesis_at(difficulty, timestamp),
            None => Err(LedgerError::ClockBeforeEpoch),
        }
    }

    /// A chain holding only a genesis block stamped `timestamp`, or a
    /// configuration error when `difficulty` exceeds the length of a hash.
    pub fn with_genesis_at(difficulty: usize, timestamp: u64) -> (made: Result<
        Blockchain,
        LedgerError,
    >)
        ensures
            match made {
                Ok(c) => {
                    &&& difficulty <= HASH_HEX_LEN
                    &&& c@ == (ChainView {
                        blocks: seq![genesis(timestamp as nat)],
                        difficulty: difficulty as nat,
                    })
                    &&& c@.well_formed()
                },
                Err(e) => difficulty > HASH_HEX_LEN && e == LedgerError::Configuration,
            },
    {
        if difficulty > HASH_HEX_LEN {
            return Err(LedgerError::Configuration);
        }
        let mut made = Blockchain { chain: Vec::new(), difficulty };
        made.create_genesis_block_at(timestamp);
        proof {
            assert(made@.blocks =~= seq![genesis(timestamp as nat)]);
            lemma_genesis_chain_well_formed(difficulty as nat, timestamp as nat);
        }
        Ok(made)
    }

    /// Appends a genesis block stamped with the current time, or leaves the
    /// chain as it is when the clock reads a time before the epoch.
    pub fn create_genesis_block(&mut self) -> (outcome: Result<(), LedgerError>)
        ensures
            match outcome {
                Ok(()) => final(self)@ == (ChainView {
                    blocks: old(self)@.blocks.push(genesis(final(self)@.blocks.last().timestamp)),
                    ..old(self)@
                }),
                Err(e) => e == LedgerError::ClockBeforeEpoch && final(self)@ == old(self)@,
            },
    {
        match unix_seconds() {
            Some(timestamp) => {
                self.create_genesis_block_at(timestamp);
                Ok(())
            },
            None => Err(LedgerError::ClockBeforeEpoch),
        }
    }

    /// Appends a genesis block stamped `timestamp`.
    pub fn create_genesis_block_at(&mut self, timestamp: u64)
        ensures
            final(self)@ == (ChainView {
                blocks: old(self)@.blocks.push(genesis(timestamp as nat)),
                ..old(self)@
            }),
    {
        let block = Block::new(0, timestamp, Vec::new(), "0".to_owned());
        assert(block@.transactions =~= Seq::empty());
        assert(block@ == genesis(timestamp as nat));
        self.chain.push(block);
        assert(self@.blocks =~= old(self)@.blocks.push(genesis(timestamp as nat)));
    }

    /// Tells why the chain cannot be extended whatever the block, if so.
    pub fn check_extendable(&self) -> (outcome: Result<(), LedgerError>)
        ensures
            outcome == match self@.blocked() {
                Some(e) => Err::<(), LedgerError>(e),
                None => Ok(()),
            },
    {
        let len = self.chain.len();
        if len == 0 {
            return Err(LedgerError::EmptyChain);
        }
        if self.difficulty > HASH_HEX_LEN {
            return Err(LedgerError::Configuration);
        }
        assert(self@.blocks.last() == self.chain@[len - 1]@);
        if self.chain[len - 1].index == u32::MAX {
            return Err(LedgerError::IndexOverflow);
        }
        Ok(())
    }

    /// Mines a block holding `transactions`, stamped with the current time,
    /// on top of the last block and appends it. A refused call leaves the
    /// chain as it is.
    pub fn add_block(&mut self, transactions: Vec<Transaction>) -> (outcome: Result<
        (),
        LedgerError,
    >)
        ensures
            match outcome {
                Ok(()) => old(self)@.extends_to(
                    transaction_views(transactions@),
                    final(self)@.blocks.last().timestamp,
                    final(self)@,
                ),
                Err(e) => {
                    &&& final(self)@ == old(self)@
                    &&& match old(self)@.blocked() {
                        Some(b) => e == b,
                        None => e == LedgerError::ClockBeforeEpoch || (e
                            == LedgerError::NonceExhausted && exists|timestamp: nat|
                            (#[trigger] old(self)@.candidate(
                                transaction_views(transactions@),
                                timestamp,
                            )).unminable(old(self)@.difficulty)),
                    }
                },
            },
            old(self)@.blocked() is Some ==> outcome is Err,
            outcome is Ok && chain_valid(old(self)@.blocks) ==> chain_valid(final(self)@.blocks),
            outcome is Ok && old(self)@.well_formed() ==> final(self)@.well_formed(),
    {
        match self.check_extendable() {
            Err(e) => {
                return Err(e);
            },
            Ok(()) => {},
        }
        match unix_seconds() {
            Some(timestamp) => {
                let ghost txs = transaction_views(transactions@);
                let outcome = self.add_block_at(transactions, timestamp);
                assert(outcome is Err ==> old(self)@.candidate(txs, timestamp as nat).unminable(
                    old(self)@.difficulty,
                ));
                outcome
            },
            None => Err(LedgerError::ClockBeforeEpoch),
        }
    }

    /// Mines a block holding `transactions`, stamped `timestamp`, on top of
    /// the last block and appends it.
    ///
    /// The new block takes the index after the last block's and names the
    /// last block's stored hash; it is sealed at nonce zero and then mined
    /// at the chain's difficulty. The call is refused, and the chain left
    /// as it is, when the chain is empty, when its difficulty exceeds the
    /// length of a hash, when the last index cannot be followed, or when no
    /// nonce meets the difficulty.
    pub fn add_block_at(&mut self, transactions: Vec<Transaction>, timestamp: u64) -> (outcome:
        Result<(), LedgerError>)
        ensures
            match outcome {
                Ok(()) => {
                    &&& old(self)@.refusal(transaction_views(transactions@), timestamp as nat)
                        is None
                    &&& old(self)@.extends_to(
                        transaction_views(transactions@),
                        timestamp as nat,
                        final(self)@,
                    )
                },
                Err(e) => {
                    &&& old(self)@.refusal(transaction_views(transactions@), timestamp as nat)
                        == Some(e)
                    &&& final(self)@ == old(self)@
                },
            },
            outcome is Ok && chain_valid(old(self)@.blocks) ==> chain_valid(final(self)@.blocks),
            outcome is Ok && old(self)@.well_formed() ==> final(self)@.well_formed(),
    {
        match self.check_extendable() {
            Err(e) => {
                return Err(e);
            },
            Ok(()) => {},
        }
        let len = self.chain.len();
        let ghost txs = transaction_views(transactions@);
        assert(self@.blocks.last() == self.chain@[len - 1]@);
        let mut block = Block::new(
            self.chain[len - 1].index + 1,
            timestamp,
            transactions,
            self.chain[len - 1].hash.clone(),
        );
        assert(block@ == self@.candidate(txs, timestamp as nat));
        match block.mine_block(self.difficulty) {
            Err(e) => Err(e),
            Ok(()) => {
                let ghost mined = block@;
                self.chain.push(block);
                proof {
                    assert(self@.blocks =~= old(self)@.blocks.push(mined));
                    assert(self@.blocks.drop_last() =~= old(self)@.blocks);
                    lemma_extension_keeps_valid(old(self)@, txs, timestamp as nat, self@);
                    if old(self)@.well_formed() {
                        lemma_extension_keeps_well_formed(
                            old(self)@,
                            txs,
                            timestamp as nat,
                            self@,
                        );
                    }
                }
                Ok(())
            },
        }
    }

    /// Tells whether the chain holds together: every block but the first
    /// must carry the hash of its own current fields and name the stored
    /// hash of the block before it. Nothing is changed.
    pub fn validate_chain(&self) -> (valid: bool)
        ensures
            valid == chain_valid(self@.blocks),
    {
        let mut i: usize = 1;
        while i < self.chain.len()
            invariant
                1 <= i,
                forall|j: int|
                    1 <= j < i && j < self@.blocks.len() ==> (#[trigger] self@.blocks[j]).is_sealed()
                        && self@.blocks[j].prev_hash == self@.blocks[j - 1].hash,
            decreases self.chain.len() - i,
        {
            let current = &self.chain[i];
            let previous = &self.chain[i - 1];
            assert(self@.blocks[i as int] == current@);
            assert(self@.blocks[i - 1] == previous@);
            let recomputed = current.calculate_hash();
            if !(current.hash == recomputed) {
                return false;
            }
            if !(current.prev_hash == previous.hash) {
                return false;
            }
            i += 1;
        }
        true
    }
}

/// One step of a chain's growth: `after` is `before` extended by some
/// block.
pub open spec fn is_extension(before: ChainView, after: ChainView) -> bool {
    exists|transactions: Seq<TransactionView>, timestamp: nat| #[trigger]
        before.extends_to(transactions, timestamp, after)
}

/// True when `steps[i + 1]` is `steps[i]` extended by some block.
pub open spec fn grows_at(steps: Seq<ChainView>, i: int) -> bool {
    is_extension(steps[i], steps[i + 1])
}

/// True when `steps` records how a chain was built: first a chain holding
/// only a genesis block, at a difficulty no greater than the length of a
/// hash, then each chain the one before it extended by a block.
pub open spec fn is_history(steps: Seq<ChainView>) -> bool {
    &&& steps.len() >= 1
    &&& steps[0].difficulty <= HASH_HEX_LEN
    &&& steps[0].blocks == seq![genesis(steps[0].blocks[0].timestamp)]
    &&& forall|i: int| 0 <= i < steps.len() - 1 ==> #[trigger] grows_at(steps, i)
}

/// A chain that holds only a genesis block is well formed.
pub proof fn lemma_genesis_chain_well_formed(difficulty: nat, timestamp: nat)
    requires
        difficulty <= HASH_HEX_LEN,
    ensures
        (ChainView { blocks: seq![genesis(timestamp)], difficulty }).well_formed(),
{
}

/// Extending a well-formed chain gives a well-formed chain.
pub proof fn lemma_extension_keeps_well_formed(
    before: ChainView,
    transactions: Seq<TransactionView>,
    timestamp: nat,
    after: ChainView,
)
    requires
        before.well_formed(),
        before.extends_to(transactions, timestamp, after),
    ensures
        after.well_formed(),
{
    let n = before.blocks.len() as int;
    let candidate = before.candidate(transactions, timestamp);
    assert(candidate.is_sealed());
    assert(after.blocks[n] == after.blocks.last());
    assert forall|i: int| 0 <= i < n implies after.blocks[i] == before.blocks[i] by {
        assert(after.blocks.drop_last()[i] == after.blocks[i]);
    }
    assert(before.blocks.last() == before.blocks[n - 1]);
}

/// Extending a chain that holds together gives a chain that holds
/// together.
pub proof fn lemma_extension_keeps_valid(
    before: ChainView,
    transactions: Seq<TransactionView>,
    timestamp: nat,
    after: ChainView,
)
    requires
        before.extends_to(transactions, timestamp, after),
    ensures
        chain_valid(before.blocks) ==> chain_valid(after.blocks),
{
    let n = before.blocks.len() as int;
    let candidate = before.candidate(transactions, timestamp);
    assert(candidate.is_sealed());
    assert(after.blocks[n] == after.blocks.last());
    assert forall|i: int| 0 <= i < n implies after.blocks[i] == before.blocks[i] by {
        assert(after.blocks.drop_last()[i] == after.blocks[i]);
    }
    assert(before.blocks.last() == before.blocks[n - 1]);
}

/// A well-formed chain holds together.
pub proof fn lemma_well_formed_is_valid(chain: ChainView)
    requires
        chain.well_formed(),
    ensures
        chain_valid(chain.blocks),
{
}

/// A chain built from a genesis block by appending blocks, and not touched
/// otherwise, holds together however long it has grown: it has one block
/// per step, it is well formed, and validation accepts it.
pub proof fn lemma_fresh_chain_is_valid(steps: Seq<ChainView>)
    requires
        is_history(steps),
    ensures
        steps.last().blocks.len() == steps.len(),
        steps.last().well_formed(),
        chain_valid(steps.last().blocks),
    decreases steps.len(),
{
    if steps.len() == 1 {
        lemma_genesis_chain_well_formed(steps[0].difficulty, steps[0].blocks[0].timestamp);
    } else {
        let earlier = steps.drop_last();
        assert forall|i: int| 0 <= i < earlier.len() - 1 implies #[trigger] grows_at(
            earlier,
            i,
        ) by {
            assert(grows_at(steps, i));
        }
        lemma_fresh_chain_is_valid(earlier);
        let k = steps.len() - 2;
        assert(grows_at(steps, k));
        let before = steps[k];
        let after = steps[k + 1];
        assert(before == earlier.last());
        let (transactions, timestamp) = choose|transactions: Seq<TransactionView>, timestamp: nat| #[trigger]
            before.extends_to(transactions, timestamp, after);
        lemma_extension_keeps_well_formed(before, transactions, timestamp, after);
    }
    lemma_well_formed_is_valid(steps.last());
}

/// Tampering is detected. Take a chain that holds together and replace a
/// block after the first by one with the same stored hash: the chain no
/// longer holds together if the replacement names another previous hash,
/// or if its fields hash to something else than those of the block it
/// replaced.
pub proof fn lemma_tampering_detected(blocks: Seq<BlockView>, i: int, tampered: BlockView)
    requires
        chain_valid(blocks),
        1 <= i < blocks.len(),
        tampered.hash == blocks[i].hash,
        tampered.prev_hash != blocks[i].prev_hash || block_digest(tampered) != block_digest(
            blocks[i],
        ),
    ensures
        !chain_valid(blocks.update(i, tampered)),
{
    let now = blocks.update(i, tampered);
    assert(blocks[i].is_sealed() && blocks[i].prev_hash == blocks[i - 1].hash);
    assert(now[i] == tampered);
    assert(now[i - 1] == blocks[i - 1]);
    assert(!(now[i].is_sealed() && now[i].prev_hash == now[i - 1].hash));
}

/// Validation is a function of the chain's contents: two chains with the
/// same contents are both accepted or both rejected, so validating an
/// unchanged chain again gives the same answer.
pub proof fn lemma_validation_determined_by_contents(a: Blockchain, b: Blockchain)
    requires
        a@ == b@,
    ensures
        chain_valid(a@.blocks) == chain_valid(b@.blocks),
{
}

} // verus!
