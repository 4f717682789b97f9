//! A block of the ledger: its fields, its commitment and the proof-of-work
//! search that seals it.

use crate::clock::unix_timestamp;
use crate::hashing::{digest, digest_string, lemma_digest_len, HASH_LEN};
use vstd::prelude::*;

verus! {

/// One record of the ledger.
#[derive(Debug, Clone, PartialEq, Eq)]
pub struct Block {
    /// Position in the ledger; the genesis block has index 0.
    pub index: u64,
    /// Seconds since the Unix epoch at which the block was built.
    pub timestamp: u64,
    /// The payload.
    pub data: String,
    /// Commitment of the block before this one; `"0"` for the genesis block.
    pub previous_hash: String,
    /// Commitment to all other fields.
    pub hash: String,
    /// The mining counter.
    pub nonce: u64,
}

/// The mathematical value of a [`Block`].
pub struct BlockView {
    pub index: u64,
    pub timestamp: u64,
    pub data: Seq<char>,
    pub previous_hash: Seq<char>,
    pub hash: Seq<char>,
    pub nonce: u64,
}

impl View for Block {
    type V = BlockView;

    open spec fn view(&self) -> BlockView {
        BlockView {
            index: self.index,
            timestamp: self.timestamp,
            data: self.data@,
            previous_hash: self.previous_hash@,
            hash: self.hash@,
            nonce: self.nonce,
        }
    }
}

/// Whether `hash` has at least `difficulty` characters and its first
/// `difficulty` characters are all `'0'`.
pub open spec fn meets_target(hash: Seq<char>, difficulty: nat) -> bool {
    &&& difficulty <= hash.len()
    &&& forall|i: int| 0 <= i < difficulty ==> hash[i] == '0'
}

impl BlockView {
    /// The block as it is first built: mining counter 0 and the commitment
    /// to the fields given.
    pub open spec fn fresh(
        index: u64,
        timestamp: u64,
        data: Seq<char>,
        previous_hash: Seq<char>,
    ) -> BlockView {
        BlockView {
            index,
            timestamp,
            data,
            previous_hash,
            hash: digest(index, timestamp, data, previous_hash, 0),
            nonce: 0,
        }
    }

    /// The commitment recomputed from the fields other than `hash`.
    pub open spec fn computed_hash(self) -> Seq<char> {
        digest(self.index, self.timestamp, self.data, self.previous_hash, self.nonce)
    }

    /// Whether the stored commitment is the one recomputed from the fields.
    pub open spec fn is_consistent(self) -> bool {
        self.hash == self.computed_hash()
    }

    /// The block with its mining counter set to `nonce` and its commitment
    /// recomputed.
    pub open spec fn with_nonce(self, nonce: u64) -> BlockView {
        BlockView {
            nonce,
            hash: digest(self.index, self.timestamp, self.data, self.previous_hash, nonce),
            ..self
        }
    }

    /// What the search examines at counter `nonce`: the block as it stands at
    /// its own counter, the block recomputed at any other.
    pub open spec fn attempt(self, nonce: u64) -> BlockView {
        if nonce == self.nonce {
            self
        } else {
            self.with_nonce(nonce)
        }
    }

    /// Whether the search, started at this block, succeeds at counter
    /// `nonce`.
    pub open spec fn seals_at(self, difficulty: nat, nonce: u64) -> bool {
        self.nonce <= nonce && meets_target(self.attempt(nonce).hash, difficulty)
    }

    /// Whether `nonce` is the first counter, from the block's own upwards, at
    /// which the search succeeds.
    pub open spec fn first_seal(self, difficulty: nat, nonce: u64) -> bool {
        &&& self.seals_at(difficulty, nonce)
        &&& forall|m: u64| self.nonce <= m < nonce ==> !#[trigger] self.seals_at(difficulty, m)
    }

    /// The sealed block: the attempt at the first counter that meets the
    /// target, or `None` when no counter up to `u64::MAX` does.
    pub open spec fn sealed(self, difficulty: nat) -> Option<BlockView> {
        if exists|n: u64| #[trigger] self.first_seal(difficulty, n) {
            Some(self.attempt(choose|n: u64| #[trigger] self.first_seal(difficulty, n)))
        } else {
            None
        }
    }
}

/// The first sealing counter is unique, so `sealed` is the attempt at it.
pub proof fn lemma_first_seal_is_sealed(block: BlockView, difficulty: nat, nonce: u64)
    requires
        block.first_seal(difficulty, nonce),
    ensures
        block.sealed(difficulty) == Some(block.attempt(nonce)),
{
    let chosen = choose|n: u64| #[trigger] block.first_seal(difficulty, n);
    assert(block.first_seal(difficulty, chosen));
    if chosen < nonce {
        assert(!block.seals_at(difficulty, chosen));
    } else if nonce < chosen {
        assert(!block.seals_at(difficulty, nonce));
    }
}

/// Tests whether the first `difficulty` characters of `hash` are all `'0'`.
pub fn hash_meets_target(hash: &str, difficulty: usize) -> (ok: bool)
    ensures
        ok == meets_target(hash@, difficulty as nat),
{
    let len = hash.unicode_len();
    if difficulty > len {
        return false;
    }
    let mut i: usize = 0;
    while i < difficulty
        invariant
            i <= difficulty <= len,
            len == hash@.len(),
            forall|k: int| 0 <= k < i ==> hash@[k] == '0',
        decreases difficulty - i,
    {
        if hash.get_char(i) != '0' {
            return false;
        }
        i += 1;
    }
    true
}

impl Block {
    /// Builds a block with the given timestamp: mining counter 0 and the
    /// commitment to its fields.
    pub fn with_timestamp(
        index: u64,
        timestamp: u64,
        data: String,
        previous_hash: String,
    ) -> (block: Block)
        ensures
            block@ == BlockView::fresh(index, timestamp, data@, previous_hash@),
            block@.is_consistent(),
    {
        let hash = digest_string(index, timestamp, data.as_str(), previous_hash.as_str(), 0);
        Block { index, timestamp, data, previous_hash, hash, nonce: 0 }
    }

    /// Builds a block stamped with the current time, or `None` when the clock
    /// cannot be read. Which timestamp it gets depends on the clock; whatever
    /// it is, the block is the fresh block for that timestamp.
    pub fn new(index: u64, data: String, previous_hash: String) -> (built: Option<Block>)
        ensures
            built matches Some(block) ==> {
                &&& block@ == BlockView::fresh(index, block.timestamp, data@, previous_hash@)
                &&& block@.is_consistent()
            },
    {
        match unix_timestamp() {
            Some(timestamp) => Some(Block::with_timestamp(index, timestamp, data, previous_hash)),
            None => None,
        }
    }

    /// Recomputes the commitment from the block's current fields.
    pub fn calculate_hash(&self) -> (hash: String)
        ensures
            hash@ == self@.computed_hash(),
            hash@.len() == HASH_LEN,
    {
        digest_string(
            self.index,
            self.timestamp,
            self.data.as_str(),
            self.previous_hash.as_str(),
            self.nonce,
        )
    }

    /// Seals the block: searches, from the block's own counter upwards, for
    /// the first counter at which the commitment starts with `difficulty`
    /// zeros. The stored commitment is examined first, as it stands; every
    /// later counter is examined with the commitment recomputed.
    ///
    /// Returns `true` and leaves the block at that counter when there is one,
    /// and returns `false` with the block unchanged when no counter up to
    /// `u64::MAX` meets the target. A difficulty above `HASH_LEN` that the
    /// stored commitment does not meet is answered at once: no recomputed
    /// commitment is that long.
    pub fn mine_block(&mut self, difficulty: usize) -> (sealed: bool)
        ensures
            sealed == old(self)@.sealed(difficulty as nat).is_some(),
            sealed ==> old(self)@.sealed(difficulty as nat) == Some(final(self)@),
            sealed ==> meets_target(final(self)@.hash, difficulty as nat),
            sealed ==> old(self)@.first_seal(difficulty as nat, final(self).nonce),
            !sealed ==> final(self)@ == old(self)@,
            difficulty == 0 ==> sealed && final(self)@ == old(self)@,
            old(self)@.is_consistent() ==> final(self)@.is_consistent(),
    {
        let ghost start = self@;
        if hash_meets_target(self.hash.as_str(), difficulty) {
            proof {
                lemma_first_seal_is_sealed(start, difficulty as nat, start.nonce);
            }
            return true;
        }
        if difficulty > HASH_LEN {
            proof {
                assert forall|m: u64| !#[trigger] start.first_seal(difficulty as nat, m) by {
                    lemma_digest_len(
                        start.index,
                        start.timestamp,
                        start.data,
                        start.previous_hash,
                        m,
                    );
                }
            }
            return false;
        }
        let mut n: u64 = self.nonce;
        while n < u64::MAX
            invariant
                start == old(self)@,
                self@ == start,
                start.nonce <= n,
                forall|m: u64|
                    start.nonce <= m <= n ==> !#[trigger] start.seals_at(difficulty as nat, m),
            decreases u64::MAX - n,
        {
            n = n + 1;
            let candidate = digest_string(
                self.index,
                self.timestamp,
                self.data.as_str(),
                self.previous_hash.as_str(),
                n,
            );
            if hash_meets_target(candidate.as_str(), difficulty) {
                self.nonce = n;
                self.hash = candidate;
                proof {
                    assert(!start.seals_at(difficulty as nat, start.nonce));
                    lemma_first_seal_is_sealed(start, difficulty as nat, n);
                }
                return true;
            }
        }
        false
    }
}

} // verus!
