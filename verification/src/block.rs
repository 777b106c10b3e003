//! Blocks: the content hash that seals one, and the proof-of-work search
//! that makes the hash meet a difficulty target.

use vstd::prelude::*;
use vstd::string::*;
use vstd::utf8::encode_utf8;

use crate::digest::hash_hex;
use crate::digest::is_lower_hex;
use crate::digest::sha256_hex;
use crate::digest::HASH_HEX_LEN;
use crate::error::LedgerError;
use crate::text::decimal;
use crate::text::lemma_decimal_injective;
use crate::text::push_decimal;
use crate::transaction::push_transactions;
use crate::transaction::render_transactions;
use crate::transaction::transaction_views;
use crate::transaction::Transaction;
use crate::transaction::TransactionView;

verus! {

/// One record of the ledger. `hash` is meant to hold the content hash of the
/// other fields; whether it does is what validation checks, so nothing here
/// assumes it.
#[derive(Clone, Debug, PartialEq, Eq)]
pub struct Block {
    pub index: u32,
    /// Seconds since the Unix epoch.
    pub timestamp: u64,
    pub transactions: Vec<Transaction>,
    pub prev_hash: String,
    pub hash: String,
    pub nonce: u32,
}

/// The mathematical content of a [`Block`].
pub struct BlockView {
    pub index: nat,
    pub timestamp: nat,
    pub transactions: Seq<TransactionView>,
    pub prev_hash: Seq<char>,
    pub hash: Seq<char>,
    pub nonce: nat,
}

impl View for Block {
    type V = BlockView;

    open spec fn view(&self) -> BlockView {
        BlockView {
            index: self.index as nat,
            timestamp: self.timestamp as nat,
            transactions: transaction_views(self.transactions@),
            prev_hash: self.prev_hash@,
            hash: self.hash@,
            nonce: self.nonce as nat,
        }
    }
}

/// The part of the hash input that mining leaves alone: index, timestamp,
/// transactions and previous hash, written one after the other.
pub open spec fn input_prefix(
    index: nat,
    timestamp: nat,
    transactions: Seq<TransactionView>,
    prev_hash: Seq<char>,
) -> Seq<char> {
    decimal(index) + decimal(timestamp) + render_transactions(transactions) + prev_hash
}

/// The text that is hashed for a block with the given nonce: every field
/// but the stored hash, in a fixed order, the nonce last.
pub open spec fn hash_input(b: BlockView, nonce: nat) -> Seq<char> {
    input_prefix(b.index, b.timestamp, b.transactions, b.prev_hash) + decimal(nonce)
}

/// The content hash of `b`'s fields with `nonce` in place of its own.
pub open spec fn digest_at(b: BlockView, nonce: nat) -> Seq<char> {
    hash_hex(encode_utf8(hash_input(b, nonce)))
}

/// The content hash of `b`'s current fields. The stored hash is no part of it.
pub open spec fn block_digest(b: BlockView) -> Seq<char> {
    digest_at(b, b.nonce)
}

/// True when the first `difficulty` characters of `hash` exist and are all `0`.
pub open spec fn meets_target(hash: Seq<char>, difficulty: nat) -> bool {
    &&& difficulty <= hash.len()
    &&& forall|i: int| 0 <= i < difficulty ==> hash[i] == '0'
}

impl BlockView {
    /// True when the stored hash is the content hash of the other fields.
    pub open spec fn is_sealed(self) -> bool {
        self.hash == block_digest(self)
    }

    /// This block with `nonce` in place of its own and the hash recomputed.
    pub open spec fn resealed(self, nonce: nat) -> BlockView {
        BlockView { nonce, hash: digest_at(self, nonce), ..self }
    }

    /// True when hashing with `nonce` meets `difficulty`.
    pub open spec fn wins(self, difficulty: nat, nonce: nat) -> bool {
        meets_target(digest_at(self, nonce), difficulty)
    }

    /// True when `nonce` is the first one after this block's own that wins.
    pub open spec fn first_win(self, difficulty: nat, nonce: nat) -> bool {
        &&& self.nonce < nonce <= u32::MAX
        &&& self.wins(difficulty, nonce)
        &&& forall|n: nat| self.nonce < n < nonce ==> !#[trigger] self.wins(difficulty, n)
    }

    /// True when neither the stored hash nor any later nonce meets
    /// `difficulty`.
    pub open spec fn unminable(self, difficulty: nat) -> bool {
        &&& !meets_target(self.hash, difficulty)
        &&& forall|n: nat| self.nonce < n <= u32::MAX ==> !#[trigger] self.wins(difficulty, n)
    }

    /// What mining at `difficulty` turns this block into: itself when the
    /// stored hash already meets the target, else the block resealed at the
    /// first winning nonce.
    pub open spec fn mines_to(self, difficulty: nat, after: BlockView) -> bool {
        if meets_target(self.hash, difficulty) {
            after == self
        } else {
            &&& self.first_win(difficulty, after.nonce)
            &&& after == self.resealed(after.nonce)
        }
    }
}

/// Tells whether the first `difficulty` characters of `hash` exist and are
/// all `0`.
pub fn has_leading_zeros(hash: &str, difficulty: usize) -> (met: bool)
    ensures
        met == meets_target(hash@, difficulty as nat),
{
    if difficulty == 0 {
        return true;
    }
    if difficulty > hash.unicode_len() {
        return false;
    }
    let mut i: usize = 0;
    while i < difficulty
        invariant
            i <= difficulty <= hash@.len(),
            forall|j: int| 0 <= j < i ==> hash@[j] == '0',
        decreases difficulty - i,
    {
        if hash.get_char(i) != '0' {
            return false;
        }
        i += 1;
    }
    true
}

/// Builds the part of the hash input that precedes the nonce.
fn build_input_prefix(
    index: u32,
    timestamp: u64,
    transactions: &Vec<Transaction>,
    prev_hash: &str,
) -> (out: String)
    ensures
        out@ == input_prefix(
            index as nat,
            timestamp as nat,
            transaction_views(transactions@),
            prev_hash@,
        ),
{
    let mut out = String::new();
    push_decimal(&mut out, index as u64);
    push_decimal(&mut out, timestamp);
    push_transactions(&mut out, transactions);
    out.append(prev_hash);
    assert(out@ =~= input_prefix(
        index as nat,
        timestamp as nat,
        transaction_views(transactions@),
        prev_hash@,
    ));
    out
}

/// Completes a hash input with `nonce` and hashes it.
pub fn hash_with_nonce(prefix: &String, nonce: u32) -> (hash: String)
    ensures
        hash@ == hash_hex(encode_utf8(prefix@ + decimal(nonce as nat))),
        hash@.len() == HASH_HEX_LEN,
        is_lower_hex(hash@),
{
    let mut data = prefix.clone();
    push_decimal(&mut data, nonce as u64);
    sha256_hex(data.as_str().as_bytes())
}

impl Block {
    /// A block with the given fields, nonce zero, and the hash of exactly
    /// that state. The block is sealed but not mined.
    pub fn new(index: u32, timestamp: u64, transactions: Vec<Transaction>, prev_hash: String) -> (block:
        Block)
        ensures
            block@.index == index,
            block@.timestamp == timestamp,
            block@.transactions == transaction_views(transactions@),
            block@.prev_hash == prev_hash@,
            block@.nonce == 0,
            block@.is_sealed(),
    {
        let mut block = Block {
            index,
            timestamp,
            transactions,
            prev_hash,
            hash: String::new(),
            nonce: 0,
        };
        block.hash = block.calculate_hash();
        block
    }

    /// The text that is hashed for this block.
    pub fn canonical_input(&self) -> (text: String)
        ensures
            text@ == hash_input(self@, self@.nonce),
    {
        let mut text = build_input_prefix(
            self.index,
            self.timestamp,
            &self.transactions,
            self.prev_hash.as_str(),
        );
        push_decimal(&mut text, self.nonce as u64);
        text
    }

    /// The content hash of the block's current fields: 64 lowercase
    /// hexadecimal characters. The stored hash is neither read nor changed.
    pub fn calculate_hash(&self) -> (hash: String)
        ensures
            hash@ == block_digest(self@),
            hash@.len() == HASH_HEX_LEN,
            is_lower_hex(hash@),
    {
        let prefix = build_input_prefix(
            self.index,
            self.timestamp,
            &self.transactions,
            self.prev_hash.as_str(),
        );
        hash_with_nonce(&prefix, self.nonce)
    }

    /// Searches for a nonce whose hash starts with `difficulty` zeros.
    ///
    /// A stored hash that already meets the target is kept, and the block
    /// with it. Otherwise the nonce is raised one by one and the hash
    /// recomputed until it meets the target. The search is refused when
    /// `difficulty` exceeds the length of a hash, and gives up when the
    /// nonce cannot be raised further; either way the block is untouched.
    pub fn mine_block(&mut self, difficulty: usize) -> (outcome: Result<(), LedgerError>)
        ensures
            match outcome {
                Ok(()) => {
                    &&& difficulty <= HASH_HEX_LEN
                    &&& old(self)@.mines_to(difficulty as nat, final(self)@)
                },
                Err(e) => {
                    &&& final(self)@ == old(self)@
                    &&& e == if difficulty > HASH_HEX_LEN {
                        LedgerError::Configuration
                    } else {
                        LedgerError::NonceExhausted
                    }
                    &&& difficulty <= HASH_HEX_LEN ==> old(self)@.unminable(difficulty as nat)
                },
            },
            outcome is Ok ==> meets_target(final(self)@.hash, difficulty as nat),
            outcome is Ok && old(self)@.is_sealed() ==> final(self)@.is_sealed(),
    {
        if difficulty > HASH_HEX_LEN {
            return Err(LedgerError::Configuration);
        }
        if has_leading_zeros(self.hash.as_str(), difficulty) {
            return Ok(());
        }
        let prefix = build_input_prefix(
            self.index,
            self.timestamp,
            &self.transactions,
            self.prev_hash.as_str(),
        );
        let mut nonce: u32 = self.nonce;
        while nonce < u32::MAX
            invariant
                *self == *old(self),
                self.nonce <= nonce,
                !meets_target(self@.hash, difficulty as nat),
                prefix@ == input_prefix(
                    self@.index,
                    self@.timestamp,
                    self@.transactions,
                    self@.prev_hash,
                ),
                forall|n: nat|
                    self@.nonce < n <= nonce ==> !#[trigger] self@.wins(difficulty as nat, n),
            decreases u32::MAX - nonce,
        {
            nonce += 1;
            let candidate = hash_with_nonce(&prefix, nonce);
            if has_leading_zeros(candidate.as_str(), difficulty) {
                self.nonce = nonce;
                self.hash = candidate;
                assert(self@ == old(self)@.resealed(nonce as nat));
                return Ok(());
            }
        }
        Err(LedgerError::NonceExhausted)
    }
}

/// The content hash is a function of index, timestamp, transactions,
/// previous hash and nonce: two blocks that agree on these have the same
/// hash, whatever hash each has stored.
pub proof fn lemma_digest_determined_by_fields(a: BlockView, b: BlockView)
    requires
        a.index == b.index,
        a.timestamp == b.timestamp,
        a.transactions == b.transactions,
        a.prev_hash == b.prev_hash,
        a.nonce == b.nonce,
    ensures
        block_digest(a) == block_digest(b),
{
}

/// Every nonce gives a block its own hash input: mining never hashes the
/// same text twice.
pub proof fn lemma_hash_input_differs_by_nonce(b: BlockView, first: nat, second: nat)
    requires
        first != second,
    ensures
        hash_input(b, first) != hash_input(b, second),
{
    let prefix = input_prefix(b.index, b.timestamp, b.transactions, b.prev_hash);
    let n = prefix.len() as int;
    if hash_input(b, first) == hash_input(b, second) {
        let one = prefix + decimal(first);
        let two = prefix + decimal(second);
        assert(one.subrange(n, one.len() as int) =~= decimal(first));
        assert(two.subrange(n, two.len() as int) =~= decimal(second));
        lemma_decimal_injective(first, second);
    }
}

/// A mined block's hash meets the difficulty. It is also the content hash
/// of the mined block, unless the block went in with a stored hash that
/// met the difficulty without being its content hash.
pub proof fn lemma_mined_block(before: BlockView, difficulty: nat, after: BlockView)
    requires
        before.mines_to(difficulty, after),
    ensures
        meets_target(after.hash, difficulty),
        before.is_sealed() || !meets_target(before.hash, difficulty) ==> after.is_sealed(),
        after.index == before.index,
        after.timestamp == before.timestamp,
        after.transactions == before.transactions,
        after.prev_hash == before.prev_hash,
        after.nonce >= before.nonce,
{
}

/// With difficulty zero every stored hash meets the target, so mining
/// changes nothing, the nonce included.
pub proof fn lemma_zero_difficulty_keeps_block(before: BlockView, after: BlockView)
    requires
        before.mines_to(0, after),
    ensures
        after == before,
{
}

/// Mining has one outcome: a block cannot be mined to two different
/// blocks, and a block that can be mined is not unminable.
pub proof fn lemma_mining_outcome_unique(
    before: BlockView,
    difficulty: nat,
    a: BlockView,
    b: BlockView,
)
    requires
        before.mines_to(difficulty, a),
    ensures
        !before.unminable(difficulty),
        before.mines_to(difficulty, b) ==> a == b,
{
    if !meets_target(before.hash, difficulty) {
        assert(before.wins(difficulty, a.nonce));
        if before.mines_to(difficulty, b) {
            assert(before.wins(difficulty, b.nonce));
            assert(a.nonce == b.nonce);
        }
    }
}

} // verus!
