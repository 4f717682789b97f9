//! What holds of sealing, of appending and of the validity check, for every
//! block and every ledger.

use crate::block::{lemma_first_seal_is_sealed, meets_target, BlockView};
use crate::chain::{chain_valid, fault_at, is_first_fault, BlockchainView, FaultKind};
use crate::hashing::{digest, digest_text, lemma_digest_len, HASH_LEN};
use crate::text::decimal;
use vstd::prelude::*;

verus! {

/// A sealed block starts its commitment with `difficulty` zeros, whatever the
/// difficulty. Sealing changes the mining counter and the commitment only,
/// and never lowers the counter.
pub proof fn lemma_sealed_meets_target(block: BlockView, difficulty: nat)
    requires
        block.sealed(difficulty) is Some,
    ensures
        ({
            let sealed = block.sealed(difficulty)->0;
            &&& meets_target(sealed.hash, difficulty)
            &&& sealed.index == block.index
            &&& sealed.timestamp == block.timestamp
            &&& sealed.data == block.data
            &&& sealed.previous_hash == block.previous_hash
            &&& sealed.nonce >= block.nonce
            &&& block.first_seal(difficulty, sealed.nonce)
        }),
{
    let nonce = choose|n: u64| #[trigger] block.first_seal(difficulty, n);
    assert(block.first_seal(difficulty, nonce));
}

/// Recomputing the commitment of a freshly built block gives the commitment
/// it stores.
pub proof fn lemma_fresh_block_is_consistent(
    index: u64,
    timestamp: u64,
    data: Seq<char>,
    previous_hash: Seq<char>,
)
    ensures
        BlockView::fresh(index, timestamp, data, previous_hash).is_consistent(),
{
}

/// Sealing keeps the stored commitment equal to the recomputed one.
pub proof fn lemma_sealing_keeps_consistency(block: BlockView, difficulty: nat)
    requires
        block.is_consistent(),
        block.sealed(difficulty) is Some,
    ensures
        block.sealed(difficulty)->0.is_consistent(),
{
    lemma_sealed_meets_target(block, difficulty);
}

/// At difficulty 0 every block is sealed as it stands: the search stops at
/// its first look, and the mining counter stays where it was.
pub proof fn lemma_zero_difficulty_seals_at_once(block: BlockView)
    ensures
        block.sealed(0) == Some(block),
{
    assert(block.first_seal(0, block.nonce));
    lemma_first_seal_is_sealed(block, 0, block.nonce);
}

/// A difficulty above the length of every commitment cannot be met: a block
/// whose stored commitment is shorter than the difficulty is never sealed.
pub proof fn lemma_excessive_difficulty_never_seals(block: BlockView, difficulty: nat)
    requires
        difficulty > HASH_LEN,
        difficulty > block.hash.len(),
    ensures
        block.sealed(difficulty) is None,
{
    assert forall|n: u64| !#[trigger] block.first_seal(difficulty, n) by {
        lemma_digest_len(block.index, block.timestamp, block.data, block.previous_hash, n);
    }
}

/// A chain of at most one block is valid, whatever that block holds: a
/// ledger is valid as soon as it is created.
pub proof fn lemma_short_chain_is_valid(chain: Seq<BlockView>)
    requires
        chain.len() <= 1,
    ensures
        chain_valid(chain),
{
}

/// After an append the ledger is one block longer; the new block carries the
/// commitment of the block that was last before it as its previous
/// commitment and an index one greater; it is consistent and meets the
/// ledger's difficulty; and the blocks before it are as they were.
pub proof fn lemma_append_links_to_latest(ledger: BlockchainView, data: Seq<char>, timestamp: u64)
    requires
        ledger.chain.len() > 0,
        ledger.chain.last().index < u64::MAX,
        ledger.appended(data, timestamp) is Some,
    ensures
        ({
            let next = ledger.appended(data, timestamp)->0;
            let added = next.chain.last();
            &&& next.difficulty == ledger.difficulty
            &&& next.chain == ledger.chain.push(added)
            &&& added.index == ledger.chain.last().index + 1
            &&& added.timestamp == timestamp
            &&& added.data == data
            &&& added.previous_hash == ledger.chain.last().hash
            &&& added.is_consistent()
            &&& meets_target(added.hash, ledger.difficulty)
        }),
{
    let block = ledger.next_block(data, timestamp);
    lemma_sealed_meets_target(block, ledger.difficulty);
    lemma_sealing_keeps_consistency(block, ledger.difficulty);
}

/// Appending to a valid ledger gives a valid ledger.
pub proof fn lemma_append_keeps_validity(ledger: BlockchainView, data: Seq<char>, timestamp: u64)
    requires
        ledger.chain.len() > 0,
        ledger.chain.last().index < u64::MAX,
        chain_valid(ledger.chain),
        ledger.appended(data, timestamp) is Some,
    ensures
        chain_valid(ledger.appended(data, timestamp)->0.chain),
{
    lemma_append_links_to_latest(ledger, data, timestamp);
    let next = ledger.appended(data, timestamp)->0.chain;
    assert forall|i: int| 1 <= i < next.len() implies #[trigger] fault_at(next, i) is None by {
        if i < ledger.chain.len() {
            assert(fault_at(next, i) == fault_at(ledger.chain, i));
        }
    }
}

/// Appending to a well-formed ledger gives a well-formed ledger.
pub proof fn lemma_append_keeps_well_formedness(
    ledger: BlockchainView,
    data: Seq<char>,
    timestamp: u64,
)
    requires
        ledger.well_formed(),
        ledger.chain.last().index < u64::MAX,
        ledger.appended(data, timestamp) is Some,
    ensures
        ledger.appended(data, timestamp)->0.well_formed(),
{
    lemma_append_links_to_latest(ledger, data, timestamp);
    lemma_append_keeps_validity(ledger, data, timestamp);
}

/// In a well-formed ledger, recomputing the commitment of any block from its
/// stored fields gives the commitment it stores.
pub proof fn lemma_well_formed_blocks_are_consistent(ledger: BlockchainView, i: int)
    requires
        ledger.well_formed(),
        0 <= i < ledger.chain.len(),
    ensures
        ledger.chain[i].is_consistent(),
{
    if i > 0 {
        assert(fault_at(ledger.chain, i) is None);
    }
}

/// Altering a block after the genesis block while keeping its stored
/// commitment is caught at that block's position, whenever the alteration
/// changes the previous commitment or the recomputed commitment. (Two
/// different sets of fields with one and the same recomputed commitment are
/// not told apart by any check on commitments.)
pub proof fn lemma_altered_block_is_caught(chain: Seq<BlockView>, i: int, altered: BlockView)
    requires
        chain_valid(chain),
        1 <= i < chain.len(),
        altered.hash == chain[i].hash,
        altered.computed_hash() != chain[i].computed_hash() || altered.previous_hash
            != chain[i].previous_hash,
    ensures
        !chain_valid(chain.update(i, altered)),
        exists|kind: FaultKind| is_first_fault(chain.update(i, altered), i, kind),
        altered.computed_hash() != chain[i].computed_hash() ==> is_first_fault(
            chain.update(i, altered),
            i,
            FaultKind::HashMismatch,
        ),
{
    let tampered = chain.update(i, altered);
    assert(fault_at(chain, i) is None);
    assert forall|j: int| 1 <= j < i implies #[trigger] fault_at(tampered, j) is None by {
        assert(fault_at(tampered, j) == fault_at(chain, j));
    }
    assert(fault_at(tampered, i) is Some);
    assert(is_first_fault(tampered, i, fault_at(tampered, i)->0));
}

/// An alteration that keeps the stored commitment, the previous commitment
/// and the recomputed commitment passes the check: the ledger stays valid.
/// These are the alterations that `lemma_altered_block_is_caught` leaves out.
pub proof fn lemma_alteration_with_same_commitment_passes(
    chain: Seq<BlockView>,
    i: int,
    altered: BlockView,
)
    requires
        chain_valid(chain),
        1 <= i < chain.len(),
        altered.hash == chain[i].hash,
        altered.previous_hash == chain[i].previous_hash,
        altered.computed_hash() == chain[i].computed_hash(),
    ensures
        chain_valid(chain.update(i, altered)),
{
    let tampered = chain.update(i, altered);
    assert forall|j: int| 1 <= j < tampered.len() implies #[trigger] fault_at(tampered, j)
        is None by {
        assert(fault_at(chain, j) is None);
    }
}

/// Such alterations exist. The digest text joins its parts with nothing
/// between them, so two different sets of fields can have one text and
/// therefore one commitment: index 1 with timestamp 23 reads as index 12 with
/// timestamp 3.
pub proof fn lemma_digest_text_can_coincide(data: Seq<char>, previous_hash: Seq<char>, nonce: u64)
    ensures
        digest_text(1, 23, data, previous_hash, nonce) == digest_text(
            12,
            3,
            data,
            previous_hash,
            nonce,
        ),
        digest(1, 23, data, previous_hash, nonce) == digest(12, 3, data, previous_hash, nonce),
{
    reveal_with_fuel(decimal, 2);
    assert(decimal(1) + decimal(23) =~= decimal(12) + decimal(3));
}

/// Overwriting the stored commitment of a block after the genesis block,
/// every other field left alone, is caught at that block's position by the
/// recomputation of its commitment.
pub proof fn lemma_forged_hash_is_caught(chain: Seq<BlockView>, i: int, forged: Seq<char>)
    requires
        chain_valid(chain),
        1 <= i < chain.len(),
        forged != chain[i].hash,
    ensures
        !chain_valid(chain.update(i, BlockView { hash: forged, ..chain[i] })),
        is_first_fault(
            chain.update(i, BlockView { hash: forged, ..chain[i] }),
            i,
            FaultKind::HashMismatch,
        ),
{
    let tampered = chain.update(i, BlockView { hash: forged, ..chain[i] });
    assert(fault_at(chain, i) is None);
    assert forall|j: int| 1 <= j < i implies #[trigger] fault_at(tampered, j) is None by {
        assert(fault_at(tampered, j) == fault_at(chain, j));
    }
    assert(tampered[i].computed_hash() == chain[i].computed_hash());
    assert(fault_at(tampered, i) == Some(FaultKind::HashMismatch));
}

} // verus!
