//! The block store: blocks kept by height and found again by height or by
//! hash.
//!
//! A height is written once. Heights are grouped into sections of
//! [`BLOCKS_PER_SECTION`]; pruning drops whole sections, never part of one.
//! The hash index is keyed by the first bytes of a hash: under each key
//! stand the heights of the blocks whose hashes begin so, and a lookup
//! compares whole hashes only for those.

use crate::types::block::{hash_eq, Block, BlockError};
use std::collections::HashMap;
use vstd::bytes::{spec_u32_from_le_bytes, u32_from_le_bytes};
use vstd::prelude::*;

verus! {

/// Number of heights in one section of the store.
pub const BLOCKS_PER_SECTION: u64 = 65536;

/// Number of leading hash bytes that the hash index compares first.
pub const PREFIX_LEN: usize = 4;

/// The first height of the section that holds `height`.
pub open spec fn section_start(height: u64) -> u64 {
    (height - height % BLOCKS_PER_SECTION) as u64
}

/// The store as contracts see it.
pub struct StoreState {
    /// The stored blocks, by height.
    pub blocks: Map<u64, Block>,
    /// Heights below this one were pruned and are refused.
    pub oldest_allowed: u64,
}

impl StoreState {
    /// Whether a block is stored at `height`.
    pub open spec fn contains(self, height: u64) -> bool {
        self.blocks.dom().contains(height)
    }

    /// The invariant of a store: a block stands at its own height, and no
    /// block stands below the prune point.
    pub open spec fn wf(self) -> bool {
        forall|n: u64| #[trigger]
            self.contains(n) ==> self.blocks[n].number == n && n >= self.oldest_allowed
    }

    /// The block stored at `height`, if any.
    pub open spec fn by_number(self, height: u64) -> Option<Block> {
        if self.contains(height) {
            Some(self.blocks[height])
        } else {
            None
        }
    }

    /// Whether the block at `height` carries the hash `hash`.
    pub open spec fn carries(self, height: u64, hash: Seq<u8>) -> bool {
        self.contains(height) && self.blocks[height].hash@ == hash
    }

    /// Whether `found` answers a lookup of `hash`: the block of least height
    /// that carries the hash, or nothing where no block carries it.
    pub open spec fn finds_hash(self, hash: Seq<u8>, found: Option<Block>) -> bool {
        match found {
            Some(block) => self.carries(block.number, hash) && self.blocks[block.number] == block
                && forall|m: u64| #[trigger] self.carries(m, hash) ==> block.number <= m,
            None => forall|m: u64| !#[trigger] self.carries(m, hash),
        }
    }

    /// The least height whose block carries `hash`.
    pub open spec fn least_carrier(self, hash: Seq<u8>) -> u64 {
        choose|n: u64| self.carries(n, hash) && forall|m: u64| #[trigger]
            self.carries(m, hash) ==> n <= m
    }

    /// The block that a lookup of `hash` gives: the block of least height
    /// that carries the hash, if any block carries it.
    pub open spec fn by_hash(self, hash: Seq<u8>) -> Option<Block> {
        if exists|n: u64| self.carries(n, hash) {
            Some(self.blocks[self.least_carrier(hash)])
        } else {
            None
        }
    }

    /// Whether every height from `from` to `to` is stored.
    pub open spec fn filled(self, from: u64, to: u64) -> bool {
        from <= to && forall|m: u64| from <= m <= to ==> #[trigger] self.contains(m)
    }

    /// Whether a run of stored heights begins at `height`.
    pub open spec fn starts_run(self, height: u64) -> bool {
        self.contains(height) && (height == 0 || !self.contains((height - 1) as u64))
    }

    /// Whether `gap` answers a gap query at `height`. Its first part is the
    /// last height of the run of stored heights that holds `height`, and
    /// nothing where `height` is not stored. Its second part is the first
    /// height of the next run above `height`, and nothing where no run
    /// begins above it.
    pub open spec fn finds_gap(self, height: u64, gap: (Option<u64>, Option<u64>)) -> bool {
        &&& match gap.0 {
            Some(end) => self.filled(height, end) && (end == u64::MAX || !self.contains(
                (end + 1) as u64,
            )),
            None => !self.contains(height),
        }
        &&& match gap.1 {
            Some(start) => start > height && self.starts_run(start) && forall|t: u64|
                height < t < start ==> !#[trigger] self.starts_run(t),
            None => forall|t: u64| height < t ==> !#[trigger] self.starts_run(t),
        }
    }

    /// The store after `block` was put: unchanged where the height is taken
    /// or lies below the prune point.
    pub open spec fn put(self, block: Block) -> StoreState {
        if block.number < self.oldest_allowed || self.contains(block.number) {
            self
        } else {
            StoreState { blocks: self.blocks.insert(block.number, block), ..self }
        }
    }

    /// The store after pruning to `min_block`: the prune point moves up to
    /// the start of the section of `min_block`, never down, and the blocks
    /// below it are gone.
    pub open spec fn prune(self, min_block: u64) -> StoreState {
        let floor = if section_start(min_block) > self.oldest_allowed {
            section_start(min_block)
        } else {
            self.oldest_allowed
        };
        StoreState {
            blocks: self.blocks.restrict(Set::new(|n: u64| n >= floor)),
            oldest_allowed: floor,
        }
    }
}

/// Whether `blocks` is ordered by height, each height once.
pub open spec fn ascending(blocks: Seq<Block>) -> bool {
    forall|i: int, j: int| 0 <= i < j < blocks.len() ==> blocks[i].number < blocks[j].number
}

/// Whether `blocks` holds a block of height `height`.
pub open spec fn holds_height(blocks: Seq<Block>, height: u64) -> bool {
    exists|i: int| 0 <= i < blocks.len() && #[trigger] blocks[i].number == height
}

/// The position in `blocks` of the block of height `height`.
pub open spec fn position_of(blocks: Seq<Block>, height: u64) -> int {
    choose|i: int| 0 <= i < blocks.len() && #[trigger] blocks[i].number == height
}

/// The map from height to block that `blocks` stands for.
pub open spec fn by_height(blocks: Seq<Block>) -> Map<u64, Block> {
    Map::new(
        |n: u64| holds_height(blocks, n),
        |n: u64| blocks[position_of(blocks, n)],
    )
}

/// The key under which the hash index files a hash: its first four bytes
/// as a number.
pub open spec fn prefix_key(hash: Seq<u8>) -> u32 {
    spec_u32_from_le_bytes(hash.take(4))
}

/// Whether `index` files every block of `blocks`: under the key of a
/// block's hash stands the block's height.
pub open spec fn indexed(blocks: Seq<Block>, index: Map<u32, Vec<u64>>) -> bool {
    forall|i: int|
        0 <= i < blocks.len() ==> index.contains_key(prefix_key((#[trigger] blocks[i]).hash@))
            && index[prefix_key(blocks[i].hash@)]@.contains(blocks[i].number)
}

/// Blocks kept by height, found by height or by hash.
pub struct BlockStorage {
    /// The blocks, ascending by height.
    blocks: Vec<Block>,
    /// For each key of a hash, the heights of the blocks filed under it.
    /// A height that was pruned may linger until its key is next written.
    index: HashMap<u32, Vec<u64>>,
    oldest_allowed: u64,
}

impl View for BlockStorage {
    type V = StoreState;

    closed spec fn view(&self) -> StoreState {
        StoreState { blocks: by_height(self.blocks@), oldest_allowed: self.oldest_allowed }
    }
}

/// The first four bytes of a hash, as the hash index keys them.
pub fn hash_prefix(hash: &[u8; 32]) -> (prefix: [u8; 4])
    ensures
        prefix@ == hash@.take(4),
{
    let prefix = [hash[0], hash[1], hash[2], hash[3]];
    assert(prefix@ =~= hash@.take(4));
    prefix
}

/// The key under which the hash index files `hash`.
pub fn hash_key(hash: &[u8; 32]) -> (key: u32)
    ensures
        key == prefix_key(hash@),
{
    let prefix = hash_prefix(hash);
    u32_from_le_bytes(prefix.as_slice())
}

impl BlockStorage {
    /// The invariant that ties the stored vector to the store's state.
    pub closed spec fn wf(&self) -> bool {
        &&& ascending(self.blocks@)
        &&& forall|i: int|
            0 <= i < self.blocks.len() ==> (#[trigger] self.blocks[i]).number >= self.oldest_allowed
        &&& indexed(self.blocks@, self.index@)
    }

    /// A well-formed store has a well-formed state.
    pub proof fn lemma_state_wf(&self)
        requires
            self.wf(),
        ensures
            self@.wf(),
    {
        assert forall|n: u64| #[trigger] self@.contains(n) implies self@.blocks[n].number == n && n
            >= self.oldest_allowed by {
            let i = position_of(self.blocks@, n);
            assert(self.blocks[i].number == n);
        }
    }

    /// An empty store that refuses no height.
    pub fn new() -> (store: BlockStorage)
        ensures
            store.wf(),
            store@.blocks == Map::<u64, Block>::empty(),
            store@.oldest_allowed == 0,
    {
        let store = BlockStorage { blocks: Vec::new(), index: HashMap::new(), oldest_allowed: 0 };
        assert(store@.blocks =~= Map::<u64, Block>::empty());
        store
    }

    /// The first position whose block stands at `number` or above.
    fn lower_bound(&self, number: u64) -> (k: usize)
        requires
            self.wf(),
        ensures
            k <= self.blocks.len(),
            forall|i: int| 0 <= i < k ==> (#[trigger] self.blocks[i]).number < number,
            forall|i: int|
                k <= i < self.blocks.len() ==> (#[trigger] self.blocks[i]).number >= number,
    {
        let mut lo: usize = 0;
        let mut hi: usize = self.blocks.len();
        while lo < hi
            invariant
                lo <= hi <= self.blocks.len(),
                ascending(self.blocks@),
                forall|i: int| 0 <= i < lo ==> (#[trigger] self.blocks[i]).number < number,
                forall|i: int|
                    hi <= i < self.blocks.len() ==> (#[trigger] self.blocks[i]).number >= number,
            decreases hi - lo,
        {
            let mid = lo + (hi - lo) / 2;
            if self.blocks[mid].number < number {
                lo = mid + 1;
            } else {
                hi = mid;
            }
        }
        lo
    }

    /// Stores `block` under its height and its hash. A height is written
    /// once: putting to a taken height changes nothing, so putting a block a
    /// second time changes nothing. A height below the prune point is
    /// refused.
    pub fn put_block(&mut self, block: Block) -> (outcome: Result<(), BlockError>)
        requires
            old(self).wf(),
        ensures
            final(self).wf(),
            final(self)@ == old(self)@.put(block),
            outcome == if block.number < old(self)@.oldest_allowed {
                Err::<(), BlockError>(BlockError::Archive)
            } else {
                Ok::<(), BlockError>(())
            },
    {
        if block.number < self.oldest_allowed {
            return Err(BlockError::Archive);
        }
        let k = self.lower_bound(block.number);
        if k < self.blocks.len() && self.blocks[k].number == block.number {
            return Ok(());
        }
        proof {
            lemma_insert(self.blocks@, k as int, block);
        }
        let ghost before = self.blocks@;
        let ghost filed = self.index@;
        self.blocks.insert(k, block);
        let key = hash_key(&block.hash);
        let mut bucket: Vec<u64> = Vec::new();
        match self.index.remove(&key) {
            Some(heights) => {
                let mut i: usize = 0;
                while i < heights.len()
                    invariant
                        i <= heights.len(),
                        forall|j: int|
                            0 <= j < i && heights@[j] >= self.oldest_allowed
                                ==> bucket@.contains(#[trigger] heights@[j]),
                    decreases heights.len() - i,
                {
                    if heights[i] >= self.oldest_allowed {
                        let ghost kept = bucket@;
                        bucket.push(heights[i]);
                        proof {
                            assert(bucket@[kept.len() as int] == heights@[i as int]);
                            assert forall|j: int|
                                0 <= j < i && heights@[j] >= self.oldest_allowed
                                implies bucket@.contains(#[trigger] heights@[j]) by {
                                let at = kept.index_of(heights@[j]);
                                assert(bucket@[at] == heights@[j]);
                            }
                        }
                    }
                    i += 1;
                }
                assert(filed.contains_key(key) && filed[key] == heights);
            },
            None => {
                assert(!filed.contains_key(key));
            },
        }
        let ghost kept = bucket@;
        bucket.push(block.number);
        self.index.insert(key, bucket);
        proof {
            assert(self.index@ == filed.remove(key).insert(key, bucket));
            assert(bucket@[kept.len() as int] == block.number);
            assert forall|i: int| 0 <= i < self.blocks@.len() implies self.index@.contains_key(
                prefix_key((#[trigger] self.blocks@[i]).hash@),
            ) && self.index@[prefix_key(self.blocks@[i].hash@)]@.contains(
                self.blocks@[i].number,
            ) by {
                let held = self.blocks@[i];
                if i == k {
                } else {
                    let i0 = if i < k {
                        i
                    } else {
                        i - 1
                    };
                    assert(before[i0] == held);
                    assert(filed.contains_key(prefix_key(before[i0].hash@)));
                    if prefix_key(held.hash@) == key {
                        let heights = filed[key];
                        assert(heights@.contains(held.number));
                        let j = heights@.index_of(held.number);
                        assert(heights@[j] == held.number);
                        assert(kept.contains(heights@[j]));
                        let at = kept.index_of(held.number);
                        assert(bucket@[at] == held.number);
                    }
                }
            }
        }
        Ok(())
    }

    /// The block at height `number`, if one is stored.
    pub fn get_block_by_number(&self, number: u64) -> (outcome: Result<Option<Block>, BlockError>)
        requires
            self.wf(),
        ensures
            outcome == Ok::<Option<Block>, BlockError>(self@.by_number(number)),
    {
        let k = self.lower_bound(number);
        if k < self.blocks.len() && self.blocks[k].number == number {
            proof {
                lemma_position(self.blocks@, k as int);
            }
            Ok(Some(self.blocks[k]))
        } else {
            Ok(None)
        }
    }

    /// The block that carries `hash`, if one is stored; of several, the one
    /// of least height. The first bytes of the hash are compared first, the
    /// whole hash only where they agree.
    pub fn get_block_by_hash(&self, hash: &[u8; 32]) -> (outcome: Result<Option<Block>, BlockError>)
        requires
            self.wf(),
        ensures
            outcome matches Ok(found) && self@.finds_hash(hash@, found) && found
                == self@.by_hash(hash@),
    {
        let key = hash_key(hash);
        let len = self.blocks.len();
        let mut best: usize = len;
        match self.index.get(&key) {
            Some(heights) => {
                let mut i: usize = 0;
                while i < heights.len()
                    invariant
                        i <= heights.len(),
                        len == self.blocks.len(),
                        self.wf(),
                        best <= len,
                        best < len ==> self.blocks[best as int].hash@ == hash@,
                        forall|j: int, at: int|
                            0 <= j < i && 0 <= at < len && (#[trigger] self.blocks[at]).number
                                == #[trigger] heights@[j] && self.blocks[at].hash@ == hash@
                                ==> best <= at,
                    decreases heights.len() - i,
                {
                    let k = self.lower_bound(heights[i]);
                    if k < best && k < len && self.blocks[k].number == heights[i] && hash_eq(
                        &self.blocks[k].hash,
                        hash,
                    ) {
                        best = k;
                    }
                    proof {
                        assert forall|at: int|
                            0 <= at < len && (#[trigger] self.blocks[at]).number
                                == heights@[i as int] && self.blocks[at].hash@
                                == hash@ implies best <= at by {
                            if at < k {
                                assert(self.blocks[at].number < heights@[i as int]);
                            } else if at > k {
                                assert(self.blocks[k as int].number < self.blocks[at].number);
                            }
                        }
                    }
                    i += 1;
                }
                proof {
                    assert forall|at: int| 0 <= at < best implies (#[trigger] self.blocks[at]).hash@
                        != hash@ by {
                        if self.blocks[at].hash@ == hash@ {
                            assert(self.index@.contains_key(prefix_key(self.blocks[at].hash@)));
                            assert(self.index@[key] == *heights);
                            let j = heights@.index_of(self.blocks[at].number);
                            assert(heights@[j] == self.blocks[at].number);
                        }
                    }
                }
            },
            None => {
                proof {
                    assert forall|at: int| 0 <= at < best implies (#[trigger] self.blocks[at]).hash@
                        != hash@ by {
                        if self.blocks[at].hash@ == hash@ {
                            assert(self.index@.contains_key(prefix_key(self.blocks[at].hash@)));
                        }
                    }
                }
            },
        }
        let found = if best < len {
            Some(self.blocks[best])
        } else {
            None
        };
        proof {
            self.lemma_state_wf();
            lemma_first_carrier(self.blocks@, self.oldest_allowed, hash@, best as int);
            lemma_lookup(self@, hash@, found);
        }
        Ok(found)
    }

    /// Whether a block is stored at height `number`.
    pub fn has_block(&self, number: u64) -> (outcome: Result<bool, BlockError>)
        requires
            self.wf(),
        ensures
            outcome == Ok::<bool, BlockError>(self@.contains(number)),
    {
        let k = self.lower_bound(number);
        Ok(k < self.blocks.len() && self.blocks[k].number == number)
    }

    /// The run of stored heights around `number` and the next run above it.
    ///
    /// The first part is the last height of the run that holds `number`,
    /// nothing where `number` is not stored. The second part is the first
    /// height of the next run above `number`, nothing where there is none.
    /// The heights between the two, if any, are missing.
    pub fn next_gap(&self, number: u64) -> (gap: (Option<u64>, Option<u64>))
        requires
            self.wf(),
        ensures
            self@.finds_gap(number, gap),
    {
        let k = self.lower_bound(number);
        let len = self.blocks.len();
        if k < len && self.blocks[k].number == number {
            let mut j: usize = k;
            while j + 1 < len && self.blocks[j + 1].number == self.blocks[j].number + 1
                invariant
                    k <= j < len,
                    len == self.blocks.len(),
                    self.wf(),
                    forall|i: int| k <= i <= j ==> (#[trigger] self.blocks[i]).number == number + (i - k),
                decreases len - j,
            {
                proof {
                    assert(self.blocks[j as int].number < self.blocks[j + 1].number);
                }
                j += 1;
            }
            let end = self.blocks[j].number;
            let next = if j + 1 < len {
                Some(self.blocks[j + 1].number)
            } else {
                None
            };
            proof {
                lemma_gap_inside(self.blocks@, self.oldest_allowed, number, k as int, j as int);
            }
            (Some(end), next)
        } else {
            let next = if k < len {
                Some(self.blocks[k].number)
            } else {
                None
            };
            proof {
                lemma_gap_outside(self.blocks@, self.oldest_allowed, number, k as int);
            }
            (None, next)
        }
    }

    /// Drops the blocks below the start of the section of `min_block` and
    /// refuses those heights from now on. Pruning to a point at or below an
    /// earlier one changes nothing.
    pub fn prune(&mut self, min_block: u64) -> (outcome: Result<(), BlockError>)
        requires
            old(self).wf(),
        ensures
            final(self).wf(),
            outcome is Ok,
            final(self)@ == old(self)@.prune(min_block),
    {
        let floor = min_block - min_block % BLOCKS_PER_SECTION;
        if floor <= self.oldest_allowed {
            proof {
                self.lemma_state_wf();
                assert(self@.blocks.restrict(Set::new(|n: u64| n >= self.oldest_allowed))
                    =~= self@.blocks);
            }
            return Ok(());
        }
        let k = self.lower_bound(floor);
        let kept = self.blocks.split_off(k);
        proof {
            lemma_suffix(old(self).blocks@, k as int, floor);
            assert forall|i: int| 0 <= i < kept@.len() implies self.index@.contains_key(
                prefix_key((#[trigger] kept@[i]).hash@),
            ) && self.index@[prefix_key(kept@[i].hash@)]@.contains(kept@[i].number) by {
                assert(old(self).blocks@[i + k] == kept@[i]);
            }
        }
        self.blocks = kept;
        self.oldest_allowed = floor;
        Ok(())
    }

    /// Closes the store.
    pub fn close(self) -> (outcome: Result<(), BlockError>)
        ensures
            outcome is Ok,
    {
        Ok(())
    }
}

/// The first block of an ascending sequence that carries a hash answers
/// the lookup of that hash.
proof fn lemma_first_carrier(blocks: Seq<Block>, oldest_allowed: u64, hash: Seq<u8>, i: int)
    requires
        ascending(blocks),
        0 <= i <= blocks.len(),
        forall|j: int| 0 <= j < i ==> (#[trigger] blocks[j]).hash@ != hash,
        i < blocks.len() ==> blocks[i].hash@ == hash,
    ensures
        (StoreState { blocks: by_height(blocks), oldest_allowed }).finds_hash(
            hash,
            if i < blocks.len() {
                Some(blocks[i])
            } else {
                None
            },
        ),
{
    let state = StoreState { blocks: by_height(blocks), oldest_allowed };
    if i < blocks.len() {
        lemma_position(blocks, i);
        assert forall|m: u64| #[trigger] state.carries(m, hash) implies blocks[i].number <= m by {
            let j = position_of(blocks, m);
            lemma_position(blocks, j);
            if j < i {
                assert(blocks[j].hash@ != hash);
            } else if j > i {
                assert(blocks[i].number < blocks[j].number);
            }
        }
    } else {
        assert forall|m: u64| !#[trigger] state.carries(m, hash) by {
            if state.contains(m) {
                let j = position_of(blocks, m);
                lemma_position(blocks, j);
                assert(blocks[j].hash@ != hash);
            }
        }
    }
}

/// A lookup by hash has one answer.
pub proof fn lemma_lookup(store: StoreState, hash: Seq<u8>, found: Option<Block>)
    requires
        store.wf(),
        store.finds_hash(hash, found),
    ensures
        found == store.by_hash(hash),
{
    match found {
        Some(block) => {
            let least = store.least_carrier(hash);
            assert(store.carries(block.number, hash));
            assert(store.carries(least, hash));
        },
        None => {},
    }
}

/// A block put at a free height is found again under its height, and
/// under its hash too where no other stored block carries that hash.
pub proof fn lemma_put_then_get(store: StoreState, block: Block, found: Option<Block>)
    requires
        store.wf(),
        block.number >= store.oldest_allowed,
        !store.contains(block.number),
        store.put(block).finds_hash(block.hash@, found),
    ensures
        store.put(block).wf(),
        store.put(block).by_number(block.number) == Some(block),
        found matches Some(first) && first.hash@ == block.hash@ && first.number <= block.number,
        (forall|n: u64| store.carries(n, block.hash@) ==> n == block.number) ==> found == Some(
            block,
        ),
{
    let after = store.put(block);
    assert(after.carries(block.number, block.hash@));
    assert forall|n: u64| #[trigger] after.contains(n) implies after.blocks[n].number == n && n
        >= after.oldest_allowed by {
        if n != block.number {
            assert(store.contains(n));
        }
    }
    if forall|n: u64| store.carries(n, block.hash@) ==> n == block.number {
        let first = found.unwrap();
        if first.number != block.number {
            assert(store.carries(first.number, block.hash@));
        }
    }
}

/// The store after a put is well formed.
pub proof fn lemma_put_wf(store: StoreState, block: Block)
    requires
        store.wf(),
    ensures
        store.put(block).wf(),
{
    let after = store.put(block);
    assert forall|n: u64| #[trigger] after.contains(n) implies after.blocks[n].number == n && n
        >= after.oldest_allowed by {
        if n != block.number {
            assert(store.contains(n));
        }
    }
}

/// The lookup of a hash answers the lookup.
pub proof fn lemma_by_hash_finds(store: StoreState, hash: Seq<u8>)
    requires
        store.wf(),
    ensures
        store.finds_hash(hash, store.by_hash(hash)),
{
    if exists|n: u64| store.carries(n, hash) {
        let witness = choose|n: u64| store.carries(n, hash);
        lemma_least_carrier(store, hash, witness);
        assert(store.contains(store.least_carrier(hash)));
    }
}

/// Putting a block leaves the lookup of every other hash as it was.
pub proof fn lemma_put_keeps_other_hashes(store: StoreState, block: Block, hash: Seq<u8>)
    requires
        store.wf(),
        block.hash@ != hash,
    ensures
        store.put(block).by_hash(hash) == store.by_hash(hash),
{
    let after = store.put(block);
    let found = store.by_hash(hash);
    lemma_by_hash_finds(store, hash);
    lemma_put_wf(store, block);
    assert forall|m: u64| #[trigger] after.carries(m, hash) implies store.carries(m, hash) by {
        if !store.contains(m) {
            assert(m == block.number);
        }
    }
    match found {
        Some(held) => {
            assert(store.contains(held.number));
            assert(after.blocks[held.number] == store.blocks[held.number]);
            assert(after.carries(held.number, hash));
        },
        None => {},
    }
    assert(after.finds_hash(hash, found));
    lemma_lookup(after, hash, found);
}

/// Where a block carries a hash, the least height that carries it exists.
pub proof fn lemma_least_carrier(store: StoreState, hash: Seq<u8>, height: u64)
    requires
        store.carries(height, hash),
    ensures
        store.carries(store.least_carrier(hash), hash),
        forall|m: u64| #[trigger] store.carries(m, hash) ==> store.least_carrier(hash) <= m,
        store.least_carrier(hash) <= height,
    decreases height,
{
    if forall|m: u64| #[trigger] store.carries(m, hash) ==> height <= m {
    } else {
        let lower = choose|m: u64| store.carries(m, hash) && m < height;
        lemma_least_carrier(store, hash, lower);
    }
}

/// Putting a block a second time leaves the store as the first put left it.
pub proof fn lemma_put_twice(store: StoreState, block: Block)
    ensures
        store.put(block).put(block) == store.put(block),
{
}

/// Blocks may arrive in any order: two puts at different heights give the
/// same store whichever comes first.
pub proof fn lemma_put_in_any_order(store: StoreState, a: Block, b: Block)
    requires
        a.number != b.number,
    ensures
        store.put(a).put(b) == store.put(b).put(a),
{
    assert(store.put(a).put(b).blocks =~= store.put(b).put(a).blocks);
}

/// Pruning removes exactly the heights below the prune point, which is the
/// start of a section and never above `min_block`.
pub proof fn lemma_prune_keeps_the_rest(store: StoreState, min_block: u64, height: u64)
    requires
        store.wf(),
    ensures
        store.prune(min_block).wf(),
        store.prune(min_block).oldest_allowed >= store.oldest_allowed,
        section_start(min_block) <= min_block,
        section_start(min_block) % BLOCKS_PER_SECTION == 0,
        store.prune(min_block).by_number(height) == if height >= store.prune(
            min_block,
        ).oldest_allowed {
            store.by_number(height)
        } else {
            None
        },
{
    let after = store.prune(min_block);
    assert forall|n: u64| #[trigger] after.contains(n) implies after.blocks[n].number == n && n
        >= after.oldest_allowed by {
        assert(store.contains(n));
    }
}

/// In an ascending sequence a block is found at its own position.
proof fn lemma_position(blocks: Seq<Block>, i: int)
    requires
        ascending(blocks),
        0 <= i < blocks.len(),
    ensures
        holds_height(blocks, blocks[i].number),
        position_of(blocks, blocks[i].number) == i,
        by_height(blocks)[blocks[i].number] == blocks[i],
{
    let j = position_of(blocks, blocks[i].number);
    assert(blocks[j].number == blocks[i].number);
    if j < i {
        assert(blocks[j].number < blocks[i].number);
    } else if i < j {
        assert(blocks[i].number < blocks[j].number);
    }
}

/// Inserting a block at its place in an ascending sequence adds it to the
/// map the sequence stands for, and keeps the sequence ascending.
proof fn lemma_insert(blocks: Seq<Block>, k: int, block: Block)
    requires
        ascending(blocks),
        0 <= k <= blocks.len(),
        forall|i: int| 0 <= i < k ==> (#[trigger] blocks[i]).number < block.number,
        forall|i: int| k <= i < blocks.len() ==> (#[trigger] blocks[i]).number > block.number,
    ensures
        ascending(blocks.insert(k, block)),
        by_height(blocks.insert(k, block)) == by_height(blocks).insert(block.number, block),
{
    let grown = blocks.insert(k, block);
    assert forall|i: int, j: int| 0 <= i < j < grown.len() implies grown[i].number
        < grown[j].number by {
        let i0 = if i < k { i } else { i - 1 };
        let j0 = if j < k { j } else { j - 1 };
        if i != k && j != k {
            assert(blocks[i0].number < blocks[j0].number);
        } else if i == k {
            assert(blocks[j0].number > block.number);
        } else {
            assert(blocks[i0].number < block.number);
        }
    }
    let target = by_height(blocks).insert(block.number, block);
    assert forall|n: u64| by_height(grown).dom().contains(n) <==> target.dom().contains(n) by {
        if holds_height(grown, n) {
            let i = position_of(grown, n);
            if i != k {
                let i0 = if i < k { i } else { i - 1 };
                assert(blocks[i0].number == n);
            }
        }
        if holds_height(blocks, n) {
            let i = position_of(blocks, n);
            let i1 = if i < k { i } else { i + 1 };
            assert(grown[i1].number == n);
        }
        if n == block.number {
            assert(grown[k].number == n);
        }
    }
    assert forall|n: u64| by_height(grown).dom().contains(n) implies by_height(grown)[n]
        == target[n] by {
        let i = position_of(grown, n);
        lemma_position(grown, i);
        if i != k {
            let i0 = if i < k { i } else { i - 1 };
            assert(blocks[i0] == grown[i]);
            lemma_position(blocks, i0);
        }
    }
    assert(by_height(grown) =~= target);
}

/// The answer to a gap query at a stored height: the run from position `k`
/// to position `j` holds the height, and the next run begins behind `j`.
proof fn lemma_gap_inside(blocks: Seq<Block>, oldest_allowed: u64, number: u64, k: int, j: int)
    requires
        ascending(blocks),
        0 <= k <= j < blocks.len(),
        forall|i: int| k <= i <= j ==> (#[trigger] blocks[i]).number == number + (i - k),
        j + 1 < blocks.len() ==> blocks[j + 1].number != blocks[j].number + 1,
    ensures
        (StoreState { blocks: by_height(blocks), oldest_allowed }).finds_gap(
            number,
            (
                Some(blocks[j].number),
                if j + 1 < blocks.len() {
                    Some(blocks[j + 1].number)
                } else {
                    None
                },
            ),
        ),
{
    let state = StoreState { blocks: by_height(blocks), oldest_allowed };
    let end = blocks[j].number;
    assert forall|m: u64| number <= m <= end implies #[trigger] state.contains(m) by {
        assert(blocks[k + (m - number)].number == m);
    }
    assert forall|m: u64| end < m && (j + 1 < blocks.len() ==> m < blocks[j + 1].number)
        implies !#[trigger] state.contains(m) by {
        if holds_height(blocks, m) {
            let i = position_of(blocks, m);
            if i <= j {
                if i < j {
                    assert(blocks[i].number < blocks[j].number);
                }
            } else if i > j + 1 {
                assert(blocks[j + 1].number < blocks[i].number);
            }
        }
    }
    if end < u64::MAX {
        if j + 1 < blocks.len() {
            assert(blocks[j].number < blocks[j + 1].number);
        }
        assert(!state.contains((end + 1) as u64));
    }
    assert forall|t: u64|
        number < t && (j + 1 < blocks.len() ==> t < blocks[j + 1].number)
        implies !#[trigger] state.starts_run(t) by {
        if t <= end {
            assert(state.contains((t - 1) as u64));
        }
    }
    if j + 1 < blocks.len() {
        let start = blocks[j + 1].number;
        assert(blocks[j].number < start);
        assert(blocks[j + 1].number == start);
        assert(state.contains(start));
        assert(!state.contains((start - 1) as u64));
    }
}

/// The answer to a gap query at a height that is not stored: the next run
/// begins at position `k`, the first position above the height.
proof fn lemma_gap_outside(blocks: Seq<Block>, oldest_allowed: u64, number: u64, k: int)
    requires
        ascending(blocks),
        0 <= k <= blocks.len(),
        forall|i: int| 0 <= i < k ==> (#[trigger] blocks[i]).number < number,
        forall|i: int| k <= i < blocks.len() ==> (#[trigger] blocks[i]).number >= number,
        !(k < blocks.len() && blocks[k].number == number),
    ensures
        (StoreState { blocks: by_height(blocks), oldest_allowed }).finds_gap(
            number,
            (
                None,
                if k < blocks.len() {
                    Some(blocks[k].number)
                } else {
                    None
                },
            ),
        ),
{
    let state = StoreState { blocks: by_height(blocks), oldest_allowed };
    assert forall|m: u64| number <= m && (k < blocks.len() ==> m < blocks[k].number)
        implies !#[trigger] state.contains(m) by {
        if holds_height(blocks, m) {
            let i = position_of(blocks, m);
            if i < k {
                assert(blocks[i].number < number);
            } else if i > k {
                assert(blocks[k].number < blocks[i].number);
            } else {
                assert(blocks[k].number >= number);
            }
        }
    }
    assert(!state.contains(number));
    if k < blocks.len() {
        let start = blocks[k].number;
        assert(blocks[k].number == start);
        assert(state.contains(start));
        assert(!state.contains((start - 1) as u64));
    }
}

/// Cutting an ascending sequence at the first block at or above `floor`
/// leaves the blocks at or above `floor`.
proof fn lemma_suffix(blocks: Seq<Block>, k: int, floor: u64)
    requires
        ascending(blocks),
        0 <= k <= blocks.len(),
        forall|i: int| 0 <= i < k ==> (#[trigger] blocks[i]).number < floor,
        forall|i: int| k <= i < blocks.len() ==> (#[trigger] blocks[i]).number >= floor,
    ensures
        ascending(blocks.subrange(k, blocks.len() as int)),
        by_height(blocks.subrange(k, blocks.len() as int)) == by_height(blocks).restrict(
            Set::new(|n: u64| n >= floor),
        ),
{
    let kept = blocks.subrange(k, blocks.len() as int);
    let target = by_height(blocks).restrict(Set::new(|n: u64| n >= floor));
    assert forall|n: u64| by_height(kept).dom().contains(n) <==> target.dom().contains(n) by {
        if holds_height(kept, n) {
            let i = position_of(kept, n);
            assert(blocks[i + k].number == n);
        }
        if holds_height(blocks, n) && n >= floor {
            let i = position_of(blocks, n);
            assert(kept[i - k].number == n);
        }
    }
    assert forall|n: u64| by_height(kept).dom().contains(n) implies by_height(kept)[n]
        == target[n] by {
        let i = position_of(kept, n);
        lemma_position(kept, i);
        assert(blocks[i + k] == kept[i]);
        lemma_position(blocks, i + k);
    }
    assert(by_height(kept) =~= target);
}

} // verus!
