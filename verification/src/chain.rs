//! The hash-linked ledger: blocks, the chain that owns them, append with
//! rollback, and whole-chain verification.
//!
//! Two invariants tie the chain together. Every block stores a fingerprint of
//! its own authenticated fields (self-consistency), and every non-genesis
//! block stores the fingerprint of its predecessor (linkage). The ledger
//! additionally keeps an aggregate seal over its own length and timestamp.

use vstd::prelude::*;
use crate::digest::{
    digest_of, lemma_mix_fold_concat, lemma_mix_fold_push, lemma_mix_fold_singleton, mix_fold,
    mix_one, mix_step, hex_string, MIX_SEED,
};
use vstd::string::StrSliceExecFns;

verus! {

/// One immutable, signed record in the chain.
///
/// The fields are public so that a host may display them, and so that a test
/// may simulate out-of-band tampering; the library itself never mutates a
/// block after it is signed.
#[derive(Debug)]
pub struct Block {
    /// Position in the chain; the genesis block has index 0.
    pub index: usize,
    /// Milliseconds since a fixed epoch at creation time.
    pub timestamp: u128,
    /// The payload: arbitrary caller-supplied text.
    pub data: String,
    /// Fingerprint of the immediately preceding block; empty for genesis.
    pub previous_hash: String,
    /// Fingerprint of this block's own authenticated fields.
    pub hash: String,
}

/// The mathematical value of a [`Block`].
#[verifier::ext_equal]
pub ghost struct BlockModel {
    pub index: int,
    pub timestamp: int,
    pub data: Seq<char>,
    pub previous_hash: Seq<char>,
    pub hash: Seq<char>,
}

impl View for Block {
    type V = BlockModel;

    open spec fn view(&self) -> BlockModel {
        BlockModel {
            index: self.index as int,
            timestamp: self.timestamp as int,
            data: self.data@,
            previous_hash: self.previous_hash@,
            hash: self.hash@,
        }
    }
}

/// Each character of a text as one word for the mix.
pub open spec fn chars_words(s: Seq<char>) -> Seq<u64> {
    Seq::new(s.len(), |i: int| s[i] as u64)
}

/// A 128-bit value as two words, high half first.
pub open spec fn u128_words(t: int) -> Seq<u64> {
    seq![(t / 0x1_0000_0000_0000_0000) as u64, (t % 0x1_0000_0000_0000_0000) as u64]
}

/// The words a block's authenticated fields contribute to the mix: index,
/// timestamp, then each text length-prefixed. The stored fingerprint itself
/// is deliberately not among them: a field cannot authenticate its own value.
pub open spec fn block_words(
    index: int,
    timestamp: int,
    data: Seq<char>,
    previous_hash: Seq<char>,
) -> Seq<u64> {
    seq![index as u64] + u128_words(timestamp) + seq![data.len() as u64] + chars_words(data)
        + seq![previous_hash.len() as u64] + chars_words(previous_hash)
}

/// The fingerprint of a block's authenticated fields.
pub open spec fn block_digest(
    index: int,
    timestamp: int,
    data: Seq<char>,
    previous_hash: Seq<char>,
) -> Seq<char> {
    digest_of(block_words(index, timestamp, data, previous_hash))
}

/// The words the ledger's aggregate seal is computed over: its length and
/// its last-modification timestamp only.
pub open spec fn chain_words(length: int, timestamp: int) -> Seq<u64> {
    seq![length as u64] + u128_words(timestamp)
}

/// The ledger's aggregate seal over `(length, timestamp)`.
pub open spec fn chain_digest(length: int, timestamp: int) -> Seq<char> {
    digest_of(chain_words(length, timestamp))
}

/// A block is self-consistent when its stored fingerprint equals the
/// fingerprint of its authenticated fields.
pub open spec fn block_signed(b: BlockModel) -> bool {
    b.hash == block_digest(b.index, b.timestamp, b.data, b.previous_hash)
}

/// Fold every character of a text into the running mix state.
fn mix_chars(h0: u64, s: &str) -> (r: u64)
    ensures
        r == mix_fold(h0, chars_words(s@)),
{
    let n = s.unicode_len();
    let mut h = h0;
    let mut i: usize = 0;
    while i < n
        invariant
            i <= n,
            n == s@.len(),
            h == mix_fold(h0, chars_words(s@).take(i as int)),
        decreases n - i,
    {
        let c = s.get_char(i);
        proof {
            assert(chars_words(s@).take(i + 1) =~= chars_words(s@).take(i as int).push(
                c as u64,
            ));
            lemma_mix_fold_push(h0, chars_words(s@).take(i as int), c as u64);
        }
        h = mix_one(h, c as u64);
        i += 1;
    }
    proof {
        assert(chars_words(s@).take(n as int) =~= chars_words(s@));
    }
    h
}

/// Fold a 128-bit value into the running mix state, high half first.
fn mix_u128(h0: u64, t: u128) -> (r: u64)
    ensures
        r == mix_fold(h0, u128_words(t as int)),
{
    let hi: u64 = (t / 0x1_0000_0000_0000_0000u128) as u64;
    let lo: u64 = (t % 0x1_0000_0000_0000_0000u128) as u64;
    let h = mix_one(mix_one(h0, hi), lo);
    proof {
        assert(u128_words(t as int) =~= seq![hi] + seq![lo]);
        lemma_mix_fold_concat(h0, seq![hi], seq![lo]);
        lemma_mix_fold_singleton(h0, hi);
        lemma_mix_fold_singleton(mix_step(h0, hi), lo);
    }
    h
}

/// Compute the fingerprint of a block's authenticated fields.
pub fn compute_block_digest(
    index: usize,
    timestamp: u128,
    data: &str,
    previous_hash: &str,
) -> (r: String)
    ensures
        r@ == block_digest(index as int, timestamp as int, data@, previous_hash@),
        r@.len() == 16,
{
    let ghost w_index: Seq<u64> = seq![index as u64];
    let ghost w_ts: Seq<u64> = u128_words(timestamp as int);
    let ghost w_dlen: Seq<u64> = seq![data@.len() as u64];
    let ghost w_data: Seq<u64> = chars_words(data@);
    let ghost w_plen: Seq<u64> = seq![previous_hash@.len() as u64];
    let ghost w_prev: Seq<u64> = chars_words(previous_hash@);

    let mut h = mix_one(MIX_SEED, index as u64);
    proof {
        lemma_mix_fold_singleton(MIX_SEED, index as u64);
    }
    h = mix_u128(h, timestamp);
    let dlen = data.unicode_len();
    let ghost h_before_dlen: u64 = h;
    h = mix_one(h, dlen as u64);
    proof {
        lemma_mix_fold_singleton(h_before_dlen, dlen as u64);
    }
    h = mix_chars(h, data);
    let plen = previous_hash.unicode_len();
    let ghost h_before_plen: u64 = h;
    h = mix_one(h, plen as u64);
    proof {
        lemma_mix_fold_singleton(h_before_plen, plen as u64);
    }
    h = mix_chars(h, previous_hash);
    proof {
        let all = block_words(index as int, timestamp as int, data@, previous_hash@);
        lemma_mix_fold_concat(MIX_SEED, w_index, w_ts);
        lemma_mix_fold_concat(MIX_SEED, w_index + w_ts, w_dlen);
        lemma_mix_fold_concat(MIX_SEED, w_index + w_ts + w_dlen, w_data);
        lemma_mix_fold_concat(MIX_SEED, w_index + w_ts + w_dlen + w_data, w_plen);
        lemma_mix_fold_concat(MIX_SEED, w_index + w_ts + w_dlen + w_data + w_plen, w_prev);
        assert(all =~= w_index + w_ts + w_dlen + w_data + w_plen + w_prev);
        assert(h == mix_fold(MIX_SEED, all));
    }
    hex_string(h, 16)
}

/// Compute the ledger's aggregate seal over `(length, timestamp)`.
pub fn compute_chain_digest(length: usize, timestamp: u128) -> (r: String)
    ensures
        r@ == chain_digest(length as int, timestamp as int),
        r@.len() == 16,
{
    let h = mix_one(MIX_SEED, length as u64);
    proof {
        lemma_mix_fold_singleton(MIX_SEED, length as u64);
    }
    let h = mix_u128(h, timestamp);
    proof {
        let all = chain_words(length as int, timestamp as int);
        lemma_mix_fold_concat(MIX_SEED, seq![length as u64], u128_words(timestamp as int));
        assert(all =~= seq![length as u64] + u128_words(timestamp as int));
        assert(h == mix_fold(MIX_SEED, all));
    }
    hex_string(h, 16)
}

impl Block {
    /// Sign the block: the fingerprint of its authenticated fields.
    ///
    /// The stored `hash` field takes no part in the computation, so signing
    /// an unsigned block and signing the same block after its fingerprint was
    /// stored give the same result.
    pub fn sign(&self) -> (r: String)
        ensures
            r@ == block_digest(self@.index, self@.timestamp, self@.data, self@.previous_hash),
            r@.len() == 16,
    {
        compute_block_digest(
            self.index,
            self.timestamp,
            self.data.as_str(),
            self.previous_hash.as_str(),
        )
    }

    /// Whether the stored fingerprint equals a fresh one over the block's
    /// authenticated fields (self-consistency).
    pub fn is_valid(&self) -> (r: bool)
        ensures
            r == block_signed(self@),
    {
        let fresh = self.sign();
        self.hash == fresh
    }
}

/// The error reported when an appended block fails the immediate re-check
/// and the ledger is rolled back to its prior state. Recoverable: the caller
/// may retry or abandon.
#[derive(Debug, PartialEq, Eq, Structural, Clone, Copy)]
pub struct AppendRejected;

/// The outcome of one whole-chain verification walk, with the place of the
/// first failure. Purely observational: detecting corruption never changes
/// the ledger.
#[derive(Debug, PartialEq, Eq, Structural, Clone, Copy)]
pub enum ChainStatus {
    /// Every check passed.
    Valid,
    /// The ledger's aggregate seal does not match a fresh computation.
    SealMismatch,
    /// The block at `index` is not self-consistent.
    BlockTampered { index: usize },
    /// The block at `index` does not store the fingerprint of its
    /// predecessor at `previous_index`.
    LinkBroken { index: usize, previous_index: usize },
}

/// A chain of blocks plus the ledger's own metadata.
///
/// The fields are public for display and for out-of-band tamper simulation;
/// under normal operation the sequence only grows at the back, and shrinks
/// only as the rollback of a failed append.
#[derive(Debug)]
pub struct Blockchain {
    /// The blocks, in chain order.
    pub blocks: Vec<Block>,
    /// Timestamp of the most recent successful structural change.
    pub timestamp: u128,
    /// Aggregate seal over the ledger's length and timestamp.
    pub hash: String,
}

/// The mathematical value of a [`Blockchain`].
#[verifier::ext_equal]
pub ghost struct ChainModel {
    pub blocks: Seq<BlockModel>,
    pub timestamp: int,
    pub hash: Seq<char>,
}

impl View for Blockchain {
    type V = ChainModel;

    open spec fn view(&self) -> ChainModel {
        ChainModel {
            blocks: self.blocks@.map_values(|b: Block| b@),
            timestamp: self.timestamp as int,
            hash: self.hash@,
        }
    }
}

/// The ledger's stored seal equals a fresh one over its length and timestamp.
pub open spec fn chain_sealed(c: ChainModel) -> bool {
    c.hash == chain_digest(c.blocks.len() as int, c.timestamp)
}

/// Every block is self-consistent.
pub open spec fn blocks_signed(blocks: Seq<BlockModel>) -> bool {
    forall|i: int| 0 <= i < blocks.len() ==> block_signed(#[trigger] blocks[i])
}

/// Every non-genesis block stores the fingerprint of its predecessor.
pub open spec fn blocks_linked(blocks: Seq<BlockModel>) -> bool {
    forall|i: int|
        0 < i < blocks.len() ==> (#[trigger] blocks[i]).previous_hash == blocks[i - 1].hash
}

/// The whole chain is in order: sealed, self-consistent, and linked.
pub open spec fn chain_valid(c: ChainModel) -> bool {
    chain_sealed(c) && blocks_signed(c.blocks) && blocks_linked(c.blocks)
}

/// The outcome of walking the blocks from position `i` on: the first
/// self-consistency or linkage failure, or [`ChainStatus::Valid`] when the
/// rest of the walk passes.
pub open spec fn scan_status(blocks: Seq<BlockModel>, i: int) -> ChainStatus
    decreases blocks.len() - i,
{
    if i < 0 || i >= blocks.len() {
        ChainStatus::Valid
    } else if !block_signed(blocks[i]) {
        ChainStatus::BlockTampered { index: i as usize }
    } else if i > 0 && blocks[i].previous_hash != blocks[i - 1].hash {
        ChainStatus::LinkBroken { index: i as usize, previous_index: (i - 1) as usize }
    } else {
        scan_status(blocks, i + 1)
    }
}

/// The outcome of one whole verification walk: the seal first, then the
/// blocks front to back.
pub open spec fn chain_status(c: ChainModel) -> ChainStatus {
    if !chain_sealed(c) {
        ChainStatus::SealMismatch
    } else {
        scan_status(c.blocks, 0)
    }
}

/// A walk from position `i` passes exactly when every later block is
/// self-consistent and linked to its predecessor.
pub proof fn lemma_scan_status_valid(blocks: Seq<BlockModel>, i: int)
    requires
        0 <= i <= blocks.len(),
    ensures
        scan_status(blocks, i) == ChainStatus::Valid <==> (forall|j: int|
            i <= j < blocks.len() ==> block_signed(#[trigger] blocks[j]) && (j > 0
                ==> blocks[j].previous_hash == blocks[j - 1].hash)),
    decreases blocks.len() - i,
{
    if i < blocks.len() {
        lemma_scan_status_valid(blocks, i + 1);
    }
}

/// The verification walk reports [`ChainStatus::Valid`] exactly when the
/// chain's invariants all hold. This is the sense in which the walk is a
/// complete check: nothing beyond the seal, self-consistency and linkage can
/// make it fail, and any failure of one of those is found.
pub proof fn lemma_status_characterizes_validity(c: ChainModel)
    ensures
        chain_status(c) == ChainStatus::Valid <==> chain_valid(c),
{
    lemma_scan_status_valid(c.blocks, 0);
}

impl Clone for Block {
    /// A field-for-field copy; the copy has the same mathematical value.
    fn clone(&self) -> (r: Self)
        ensures
            r@ == self@,
    {
        Block {
            index: self.index,
            timestamp: self.timestamp,
            data: self.data.clone(),
            previous_hash: self.previous_hash.clone(),
            hash: self.hash.clone(),
        }
    }
}

/// The block a valid append would place at the back of chain `c`: next index,
/// the given timestamp and payload, linked to the current tail (or to the
/// empty fingerprint when the chain is empty), signed over those four fields.
pub open spec fn next_block_model(c: ChainModel, data: Seq<char>, now: int) -> BlockModel {
    let prev = if c.blocks.len() > 0 {
        c.blocks.last().hash
    } else {
        Seq::<char>::empty()
    };
    BlockModel {
        index: c.blocks.len() as int,
        timestamp: now,
        data: data,
        previous_hash: prev,
        hash: block_digest(c.blocks.len() as int, now, data, prev),
    }
}

/// The ledger after block `b` was pushed onto chain `c` and the ledger's
/// metadata was refreshed: one block longer, timestamp taken from the block,
/// seal recomputed.
pub open spec fn pushed_model(c: ChainModel, b: BlockModel) -> ChainModel {
    ChainModel {
        blocks: c.blocks.push(b),
        timestamp: b.timestamp,
        hash: chain_digest(c.blocks.len() as int + 1, b.timestamp),
    }
}

impl Blockchain {
    /// The ledger's aggregate seal: the fingerprint of its length and its
    /// last-modification timestamp.
    pub fn sign(&self) -> (r: String)
        ensures
            r@ == chain_digest(self@.blocks.len() as int, self@.timestamp),
            r@.len() == 16,
    {
        compute_chain_digest(self.blocks.len(), self.timestamp)
    }

    /// Walk the whole ledger once and report the first failure, or
    /// [`ChainStatus::Valid`]: the seal first, then each block's
    /// self-consistency and its linkage to its predecessor, front to back.
    ///
    /// Purely a read: the ledger is not changed.
    pub fn validate(&self) -> (r: ChainStatus)
        ensures
            r == chain_status(self@),
    {
        let fresh = self.sign();
        if !(self.hash == fresh) {
            return ChainStatus::SealMismatch;
        }
        let n = self.blocks.len();
        let mut i: usize = 0;
        while i < n
            invariant
                i <= n,
                n == self@.blocks.len(),
                chain_sealed(self@),
                scan_status(self@.blocks, 0) == scan_status(self@.blocks, i as int),
            decreases n - i,
        {
            let block = &self.blocks[i];
            assert(block@ == self@.blocks[i as int]);
            if !block.is_valid() {
                return ChainStatus::BlockTampered { index: i };
            }
            if i > 0 {
                let previous_block = &self.blocks[i - 1];
                assert(previous_block@ == self@.blocks[i as int - 1]);
                if !(block.previous_hash == previous_block.hash) {
                    return ChainStatus::LinkBroken { index: i, previous_index: i - 1 };
                }
            }
            i += 1;
        }
        ChainStatus::Valid
    }

    /// Whether the whole chain is in order: the seal matches, every block is
    /// self-consistent, and every non-genesis block is linked to its
    /// predecessor.
    pub fn is_valid(&self) -> (r: bool)
        ensures
            r == chain_valid(self@),
            r == (chain_status(self@) == ChainStatus::Valid),
    {
        let status = self.validate();
        proof {
            lemma_status_characterizes_validity(self@);
        }
        status == ChainStatus::Valid
    }

    /// The last block of the chain, as a copy; `None` when the chain is
    /// empty.
    pub fn last_block(&self) -> (r: Option<Block>)
        ensures
            match r {
                Option::None => self@.blocks.len() == 0,
                Option::Some(b) => self@.blocks.len() > 0 && b@ == self@.blocks.last(),
            },
    {
        if self.blocks.is_empty() {
            None
        } else {
            let last: Block = self.blocks[self.blocks.len() - 1].clone();
            Some(last)
        }
    }

    /// Tentatively push a block, refresh the ledger's timestamp and seal,
    /// and immediately re-verify the whole chain. On failure the push is
    /// rolled back: the just-added block is removed and the timestamp and
    /// seal are restored from snapshots, so a rejected append leaves no
    /// trace.
    ///
    /// The re-check recomputes the seal before judging, so acceptance
    /// depends exactly on the blocks: the walk over the chain-to-be must
    /// pass.
    pub fn add_block(&mut self, block: Block) -> (r: Result<(), AppendRejected>)
        ensures
            r is Ok <==> scan_status(old(self)@.blocks.push(block@), 0) == ChainStatus::Valid,
            r is Ok ==> final(self)@ == pushed_model(old(self)@, block@),
            r is Err ==> final(self)@ == old(self)@,
    {
        let snapshot_timestamp: u128 = self.timestamp;
        let snapshot_hash: String = self.hash.clone();
        let block_timestamp: u128 = block.timestamp;
        self.blocks.push(block);
        self.timestamp = block_timestamp;
        self.hash = self.sign();
        assert(self@.blocks =~= old(self)@.blocks.push(block@));
        let valid = self.is_valid();
        proof {
            lemma_status_characterizes_validity(self@);
            assert(chain_sealed(self@));
            assert(chain_status(self@) == scan_status(self@.blocks, 0));
        }
        if valid {
            proof {
                assert(self@ =~= pushed_model(old(self)@, block@));
            }
            Ok(())
        } else {
            self.blocks.pop();
            self.timestamp = snapshot_timestamp;
            self.hash = snapshot_hash;
            proof {
                assert(self@.blocks =~= old(self)@.blocks);
                assert(self@ =~= old(self)@);
            }
            Err(AppendRejected)
        }
    }

    /// Mine a new block: build and sign the successor of the current tail
    /// with the given payload and timestamp, then commit it through
    /// [`Blockchain::add_block`].
    ///
    /// On a ledger whose blocks all pass the walk the append is accepted:
    /// the chain grows by exactly the expected block, carries the new
    /// timestamp, and is valid again. Otherwise the append is rejected and
    /// the ledger is left exactly as it was.
    pub fn mine(&mut self, data: String, now: u128) -> (r: Result<(), AppendRejected>)
        ensures
            r is Ok <==> scan_status(old(self)@.blocks, 0) == ChainStatus::Valid,
            r is Ok ==> final(self)@ == pushed_model(
                old(self)@,
                next_block_model(old(self)@, data@, now as int),
            ),
            r is Err ==> final(self)@ == old(self)@,
            chain_valid(old(self)@) ==> r is Ok && final(self)@.blocks.len() == old(
                self,
            )@.blocks.len() + 1 && chain_valid(final(self)@),
    {
        let index = self.blocks.len();
        let previous_hash: String = match self.last_block() {
            Some(b) => b.hash,
            None => String::new(),
        };
        let mut new_block = Block {
            index,
            timestamp: now,
            data,
            previous_hash,
            hash: String::new(),
        };
        let fresh = new_block.sign();
        new_block.hash = fresh;
        assert(new_block@ =~= next_block_model(self@, new_block@.data, now as int));
        let ghost tentative: Seq<BlockModel> = self@.blocks.push(new_block@);
        proof {
            lemma_scan_status_valid(self@.blocks, 0);
            lemma_scan_status_valid(tentative, 0);
            let ghost olds: Seq<BlockModel> = self@.blocks;
            assert(forall|j: int| 0 <= j < olds.len() ==> tentative[j] == olds[j]);
            assert(block_signed(new_block@));
            if scan_status(tentative, 0) == ChainStatus::Valid {
                assert forall|j: int|
                    0 <= j < olds.len() implies block_signed(#[trigger] olds[j]) && (j > 0
                    ==> olds[j].previous_hash == olds[j - 1].hash) by {
                    assert(block_signed(tentative[j]) && (j > 0 ==> tentative[j].previous_hash
                        == tentative[j - 1].hash));
                }
            }
            if scan_status(olds, 0) == ChainStatus::Valid {
                assert forall|j: int|
                    0 <= j < tentative.len() implies block_signed(#[trigger] tentative[j]) && (
                j > 0 ==> tentative[j].previous_hash == tentative[j - 1].hash) by {
                    if j < olds.len() {
                        assert(block_signed(olds[j]) && (j > 0 ==> olds[j].previous_hash
                            == olds[j - 1].hash));
                    } else {
                        assert(tentative[j] == new_block@);
                        if j > 0 {
                            assert(tentative[j - 1] == olds[j - 1]);
                            assert(new_block@.previous_hash == olds.last().hash);
                        }
                    }
                }
            }
            assert(scan_status(tentative, 0) == ChainStatus::Valid <==> scan_status(
                olds,
                0,
            ) == ChainStatus::Valid);
        }
        let r = self.add_block(new_block);
        proof {
            if chain_valid(old(self)@) {
                lemma_status_characterizes_validity(old(self)@);
                lemma_scan_status_valid(self@.blocks, 0);
            }
        }
        r
    }

    /// A new ledger holding exactly one signed genesis block: index 0, the
    /// fixed genesis payload, an empty predecessor fingerprint, and the
    /// given creation timestamp, with the ledger sealed over it.
    pub fn new(now: u128) -> (r: Blockchain)
        ensures
            r@.blocks.len() == 1,
            r@.blocks[0].index == 0,
            r@.blocks[0].timestamp == now as int,
            r@.blocks[0].data == "Genesis block"@,
            r@.blocks[0].previous_hash == Seq::<char>::empty(),
            block_signed(r@.blocks[0]),
            r@.timestamp == now as int,
            chain_valid(r@),
    {
        let mut blockchain = Blockchain {
            blocks: Vec::new(),
            timestamp: now,
            hash: String::new(),
        };
        assert(blockchain@.blocks =~= Seq::<BlockModel>::empty());
        assert(scan_status(Seq::<BlockModel>::empty(), 0) == ChainStatus::Valid);
        let _ = blockchain.mine("Genesis block".to_owned(), now);
        proof {
            assert(blockchain@.blocks.len() == 1);
            assert(blocks_signed(blockchain@.blocks));
            assert(blocks_linked(blockchain@.blocks));
            assert(chain_sealed(blockchain@));
        }
        blockchain
    }
}

/// Whether the given ledger is valid; the boolean of
/// [`Blockchain::is_valid`], offered as a free function.
pub fn check_blockchain(blockchain: &Blockchain) -> (r: bool)
    ensures
        r == chain_valid(blockchain@),
{
    blockchain.is_valid()
}

/// Linkage: in a valid ledger — in particular after any sequence of
/// successful appends, each of which ends in a valid ledger — every
/// non-genesis block stores exactly the fingerprint of its predecessor.
pub proof fn lemma_valid_chain_linked(c: ChainModel)
    requires
        chain_valid(c),
    ensures
        forall|i: int|
            0 < i < c.blocks.len() ==> (#[trigger] c.blocks[i]).previous_hash
                == c.blocks[i - 1].hash,
{
}

/// Determinism: the fingerprint function is a pure function of the four
/// authenticated fields, so two computations over identical field values
/// give identical digests — there is no hidden input.
pub proof fn lemma_fingerprint_deterministic(
    index1: int,
    timestamp1: int,
    data1: Seq<char>,
    previous_hash1: Seq<char>,
    index2: int,
    timestamp2: int,
    data2: Seq<char>,
    previous_hash2: Seq<char>,
)
    requires
        index1 == index2,
        timestamp1 == timestamp2,
        data1 == data2,
        previous_hash1 == previous_hash2,
    ensures
        block_digest(index1, timestamp1, data1, previous_hash1) == block_digest(
            index2,
            timestamp2,
            data2,
            previous_hash2,
        ),
{
}

/// Idempotent verification: what the verification walk reports is a function
/// of the ledger's state alone, so any two verdicts reached over the same
/// unmodified state agree — and the walk itself, taking the ledger by shared
/// reference, cannot have changed that state.
pub proof fn lemma_verification_idempotent(c: ChainModel, r1: bool, r2: bool)
    requires
        r1 == chain_valid(c),
        r2 == chain_valid(c),
    ensures
        r1 == r2,
{
}

/// Idempotent verification, shown on the executable walk for every ledger:
/// two verification calls on an unmodified ledger return the same verdict —
/// `true` exactly when the ledger is valid — and the ledger is structurally
/// unchanged throughout: its blocks, timestamp and seal after both walks are
/// the ones observed before, as the walk takes the ledger by shared
/// reference and emits nothing.
pub fn verify_chain_twice(blockchain: &Blockchain) -> (r: (bool, bool))
    ensures
        r.0 == r.1,
        r.0 == chain_valid(blockchain@),
{
    let ghost before: ChainModel = blockchain@;
    let first = blockchain.is_valid();
    let second = blockchain.is_valid();
    assert(blockchain@ == before);
    (first, second)
}

} // verus!
