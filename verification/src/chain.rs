//! The ledger: an ordered sequence of blocks with a mining difficulty, the
//! operations that grow it and the check that walks it.

use crate::block::{meets_target, Block, BlockView};
use crate::clock::unix_timestamp;
use crate::hashing::HASH_LEN;
use crate::laws::lemma_excessive_difficulty_never_seals;
use vstd::prelude::*;

verus! {

/// An append-only sequence of blocks and the difficulty its blocks are
/// sealed against.
#[derive(Debug, Clone, PartialEq, Eq)]
pub struct Blockchain {
    /// The blocks, in the order in which they were appended.
    pub chain: Vec<Block>,
    /// Number of leading zeros asked of a sealed commitment.
    pub difficulty: usize,
}

/// The mathematical value of a [`Blockchain`].
pub struct BlockchainView {
    pub chain: Seq<BlockView>,
    pub difficulty: nat,
}

impl View for Blockchain {
    type V = BlockchainView;

    open spec fn view(&self) -> BlockchainView {
        BlockchainView {
            chain: Seq::new(self.chain@.len(), |i: int| self.chain@[i]@),
            difficulty: self.difficulty as nat,
        }
    }
}

/// Which of the two checks a block failed.
#[derive(Debug, Clone, Copy, PartialEq, Eq)]
pub enum FaultKind {
    /// The stored commitment is not the one recomputed from the fields.
    HashMismatch,
    /// The stored previous commitment is not the commitment of the block
    /// before.
    BrokenLink,
}

/// The first position at which a ledger fails its check, and how.
#[derive(Debug, Clone, Copy, PartialEq, Eq)]
pub struct ChainFault {
    pub index: usize,
    pub kind: FaultKind,
}

/// Why a block was not appended.
#[derive(Debug, Clone, Copy, PartialEq, Eq)]
pub enum AppendError {
    /// The clock could not be read, so the block has no timestamp.
    ClockUnavailable,
    /// No mining counter up to `u64::MAX` gives a commitment that meets the
    /// difficulty.
    Unsealable,
}

/// The payload of every genesis block.
pub open spec fn genesis_data() -> Seq<char> {
    "Genesis Block"@
}

/// The previous commitment of every genesis block.
pub open spec fn genesis_previous_hash() -> Seq<char> {
    "0"@
}

/// The genesis block built at `timestamp`. It is never mined.
pub open spec fn genesis(timestamp: u64) -> BlockView {
    BlockView::fresh(0, timestamp, genesis_data(), genesis_previous_hash())
}

/// The check that position `i` of `chain` fails, if any. The commitment is
/// examined before the link.
pub open spec fn fault_at(chain: Seq<BlockView>, i: int) -> Option<FaultKind> {
    if !chain[i].is_consistent() {
        Some(FaultKind::HashMismatch)
    } else if chain[i].previous_hash != chain[i - 1].hash {
        Some(FaultKind::BrokenLink)
    } else {
        None
    }
}

/// Whether every block after the first passes both checks. The first block
/// is not examined, so a chain of at most one block is valid.
pub open spec fn chain_valid(chain: Seq<BlockView>) -> bool {
    forall|i: int| 1 <= i < chain.len() ==> #[trigger] fault_at(chain, i) is None
}

/// Whether `i` is the first position of `chain` that fails a check, and
/// `kind` the check it fails.
pub open spec fn is_first_fault(chain: Seq<BlockView>, i: int, kind: FaultKind) -> bool {
    &&& 1 <= i < chain.len()
    &&& fault_at(chain, i) == Some(kind)
    &&& forall|j: int| 1 <= j < i ==> #[trigger] fault_at(chain, j) is None
}

impl BlockchainView {
    /// What holds of a ledger that was created with its genesis block and
    /// has grown by appends alone: it starts with a genesis block, every
    /// block's index is its position, every block after the first meets the
    /// difficulty, and the chain is valid.
    pub open spec fn well_formed(self) -> bool {
        &&& self.chain.len() > 0
        &&& self.chain[0] == genesis(self.chain[0].timestamp)
        &&& forall|i: int| 0 <= i < self.chain.len() ==> (#[trigger] self.chain[i]).index == i
        &&& forall|i: int|
            1 <= i < self.chain.len() ==> meets_target(
                (#[trigger] self.chain[i]).hash,
                self.difficulty,
            )
        &&& chain_valid(self.chain)
    }

    /// The block that an append builds before sealing it: one past the
    /// latest index, linked to the latest commitment.
    pub open spec fn next_block(self, data: Seq<char>, timestamp: u64) -> BlockView {
        BlockView::fresh(
            (self.chain.last().index + 1) as u64,
            timestamp,
            data,
            self.chain.last().hash,
        )
    }

    /// The ledger after appending `data` at `timestamp`, or `None` when the
    /// new block cannot be sealed.
    pub open spec fn appended(self, data: Seq<char>, timestamp: u64) -> Option<BlockchainView> {
        match self.next_block(data, timestamp).sealed(self.difficulty) {
            Some(block) => Some(BlockchainView { chain: self.chain.push(block), ..self }),
            None => None,
        }
    }
}

impl Blockchain {
    /// A ledger of the given difficulty that holds the genesis block built at
    /// `timestamp`.
    pub fn new_at(difficulty: usize, timestamp: u64) -> (ledger: Blockchain)
        ensures
            ledger@.difficulty == difficulty,
            ledger@.chain == seq![genesis(timestamp)],
            chain_valid(ledger@.chain),
            ledger@.well_formed(),
    {
        let mut ledger = Blockchain { chain: Vec::new(), difficulty };
        ledger.create_genesis_block_at(timestamp);
        ledger
    }

    /// A ledger of the given difficulty that holds the genesis block built
    /// now, or `None` when the clock cannot be read.
    pub fn new(difficulty: usize) -> (created: Option<Blockchain>)
        ensures
            created matches Some(ledger) ==> {
                &&& ledger@.difficulty == difficulty
                &&& ledger@.chain == seq![genesis(ledger@.chain[0].timestamp)]
                &&& chain_valid(ledger@.chain)
                &&& ledger@.well_formed()
            },
    {
        match unix_timestamp() {
            Some(timestamp) => Some(Blockchain::new_at(difficulty, timestamp)),
            None => None,
        }
    }

    /// Appends the genesis block built at `timestamp`. It is not mined.
    pub fn create_genesis_block_at(&mut self, timestamp: u64)
        ensures
            final(self)@.difficulty == old(self)@.difficulty,
            final(self)@.chain == old(self)@.chain.push(genesis(timestamp)),
    {
        let genesis_block = Block::with_timestamp(
            0,
            timestamp,
            String::from_str("Genesis Block"),
            String::from_str("0"),
        );
        self.chain.push(genesis_block);
        assert(self@.chain =~= old(self)@.chain.push(genesis(timestamp)));
    }

    /// Appends the genesis block built now. Returns `false`, with the ledger
    /// unchanged, when the clock cannot be read.
    pub fn create_genesis_block(&mut self) -> (created: bool)
        ensures
            final(self)@.difficulty == old(self)@.difficulty,
            created ==> final(self)@.chain == old(self)@.chain.push(
                genesis(final(self)@.chain.last().timestamp),
            ),
            !created ==> final(self)@ == old(self)@,
    {
        match unix_timestamp() {
            Some(timestamp) => {
                self.create_genesis_block_at(timestamp);
                true
            },
            None => false,
        }
    }

    /// The block appended last.
    pub fn get_latest_block(&self) -> (latest: &Block)
        requires
            self@.chain.len() > 0,
        ensures
            latest@ == self@.chain.last(),
    {
        &self.chain[self.chain.len() - 1]
    }

    /// Builds the next block at `timestamp`, seals it against the ledger's
    /// difficulty and appends it. When the block cannot be sealed the ledger
    /// is left as it was.
    pub fn add_block_at(
        &mut self,
        data: String,
        timestamp: u64,
    ) -> (outcome: Result<(), AppendError>)
        requires
            old(self)@.chain.len() > 0,
            old(self)@.chain.last().index < u64::MAX,
        ensures
            match old(self)@.appended(data@, timestamp) {
                Some(next) => outcome is Ok && final(self)@ == next,
                None => outcome matches Err(AppendError::Unsealable) && final(self)@ == old(self)@,
            },
            outcome is Ok ==> {
                let added = final(self)@.chain.last();
                &&& final(self)@.chain == old(self)@.chain.push(added)
                &&& added.index == old(self)@.chain.last().index + 1
                &&& added.timestamp == timestamp
                &&& added.data == data@
                &&& added.previous_hash == old(self)@.chain.last().hash
                &&& added.is_consistent()
                &&& meets_target(added.hash, old(self)@.difficulty)
            },
            outcome is Ok && chain_valid(old(self)@.chain) ==> chain_valid(final(self)@.chain),
            old(self)@.well_formed() ==> final(self)@.well_formed(),
            old(self)@.difficulty == 0 ==> outcome is Ok && final(self)@.chain.last().nonce == 0,
            old(self)@.difficulty > HASH_LEN ==> outcome is Err,
    {
        let latest = self.get_latest_block();
        let index = latest.index + 1;
        let previous_hash = latest.hash.clone();
        let mut block = Block::with_timestamp(index, timestamp, data, previous_hash);
        proof {
            if self.difficulty > HASH_LEN {
                lemma_excessive_difficulty_never_seals(block@, self.difficulty as nat);
            }
        }
        if block.mine_block(self.difficulty) {
            self.chain.push(block);
            proof {
                assert(self@.chain =~= old(self)@.chain.push(block@));
                assert forall|i: int| 1 <= i < old(self)@.chain.len() implies fault_at(
                    self@.chain,
                    i,
                ) == fault_at(old(self)@.chain, i) by {}
            }
            Ok(())
        } else {
            Err(AppendError::Unsealable)
        }
    }

    /// Builds the next block now, seals it against the ledger's difficulty
    /// and appends it. On either error the ledger is left as it was.
    pub fn add_block(&mut self, data: String) -> (outcome: Result<(), AppendError>)
        requires
            old(self)@.chain.len() > 0,
            old(self)@.chain.last().index < u64::MAX,
        ensures
            outcome is Ok ==> old(self)@.appended(data@, final(self)@.chain.last().timestamp)
                == Some(final(self)@),
            outcome is Ok ==> {
                let added = final(self)@.chain.last();
                &&& final(self)@.chain == old(self)@.chain.push(added)
                &&& added.index == old(self)@.chain.last().index + 1
                &&& added.data == data@
                &&& added.previous_hash == old(self)@.chain.last().hash
                &&& added.is_consistent()
                &&& meets_target(added.hash, old(self)@.difficulty)
            },
            outcome is Ok && chain_valid(old(self)@.chain) ==> chain_valid(final(self)@.chain),
            old(self)@.well_formed() ==> final(self)@.well_formed(),
            outcome is Err ==> final(self)@ == old(self)@,
            outcome matches Err(AppendError::Unsealable) ==> exists|t: u64|
                #[trigger] old(self)@.appended(data@, t) is None,
            old(self)@.difficulty == 0 ==> !(outcome matches Err(AppendError::Unsealable)),
            old(self)@.difficulty == 0 && outcome is Ok ==> final(self)@.chain.last().nonce == 0,
            old(self)@.difficulty > HASH_LEN ==> outcome is Err,
    {
        match unix_timestamp() {
            Some(timestamp) => self.add_block_at(data, timestamp),
            None => Err(AppendError::ClockUnavailable),
        }
    }

    /// Finds the first block, from the second on, whose stored commitment is
    /// not the one recomputed from its fields or whose previous commitment is
    /// not the commitment of the block before it. `None` means that every
    /// block passes.
    pub fn first_fault(&self) -> (fault: Option<ChainFault>)
        ensures
            fault is None <==> chain_valid(self@.chain),
            fault matches Some(found) ==> is_first_fault(
                self@.chain,
                found.index as int,
                found.kind,
            ),
    {
        let mut i: usize = 1;
        while i < self.chain.len()
            invariant
                1 <= i,
                forall|j: int| 1 <= j < i && j < self@.chain.len() ==> #[trigger] fault_at(
                    self@.chain,
                    j,
                ) is None,
            decreases self.chain.len() - i,
        {
            let current = &self.chain[i];
            let previous = &self.chain[i - 1];
            let recomputed = current.calculate_hash();
            if current.hash != recomputed {
                assert(fault_at(self@.chain, i as int) == Some(FaultKind::HashMismatch));
                return Some(ChainFault { index: i, kind: FaultKind::HashMismatch });
            }
            if current.previous_hash != previous.hash {
                assert(fault_at(self@.chain, i as int) == Some(FaultKind::BrokenLink));
                return Some(ChainFault { index: i, kind: FaultKind::BrokenLink });
            }
            i += 1;
        }
        None
    }

    /// Whether every block after the genesis block passes both checks.
    pub fn is_chain_valid(&self) -> (valid: bool)
        ensures
            valid == chain_valid(self@.chain),
    {
        self.first_fault().is_none()
    }
}

} // verus!
