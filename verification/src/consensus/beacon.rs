//! Leader election by region rotation.
//!
//! Validators are grouped by region. Each round the election moves on to the
//! next region that has a validator, and picks one validator of that region
//! by the round number.

use crate::bytes::{bytes_eq, copy_bytes, key_list, list_contains, name_list};
use vstd::prelude::*;

verus! {

/// Why the registry turned a request down.
#[derive(Debug, Clone)]
pub enum BeaconError {
    /// The region is not one the election was built with.
    InvalidRegion(String),
    /// The region has no validator.
    NoValidators,
    /// The validator is already registered in another region.
    InvalidValidator,
}

/// The registry as contracts see it.
pub struct Registry {
    /// Region names in rotation order.
    pub regions: Seq<Seq<char>>,
    /// For each position of `regions`, the validators registered under that
    /// name, in the order they registered.
    pub lists: Seq<Seq<Seq<u8>>>,
    /// Position at which the next scan for a leader starts.
    pub cursor: int,
}

/// The lists of byte strings that a vector of lists holds.
pub open spec fn list_views(lists: Seq<Vec<Vec<u8>>>) -> Seq<Seq<Seq<u8>>> {
    Seq::new(lists.len(), |p: int| key_list(lists[p]@))
}

/// The test that every byte string but `key` passes.
pub open spec fn other_than(key: Seq<u8>) -> spec_fn(Seq<u8>) -> bool {
    |id: Seq<u8>| id != key
}

/// All validators of `lists`, list after list.
pub open spec fn concat(lists: Seq<Seq<Seq<u8>>>) -> Seq<Seq<u8>>
    decreases lists.len(),
{
    if lists.len() == 0 {
        Seq::empty()
    } else {
        concat(lists.drop_last()) + lists.last()
    }
}

impl Registry {
    /// Whether `name` is one of the regions.
    pub open spec fn known(self, name: Seq<char>) -> bool {
        self.regions.contains(name)
    }

    /// The first position that carries `name`.
    pub open spec fn slot(self, name: Seq<char>) -> int {
        self.regions.index_of_first(name).unwrap()
    }

    /// The validators registered in the region `name`; none for an unknown name.
    pub open spec fn validators_in(self, name: Seq<char>) -> Seq<Seq<u8>> {
        if self.known(name) {
            self.lists[self.slot(name)]
        } else {
            Seq::empty()
        }
    }

    /// Whether the region at position `p` has a validator.
    pub open spec fn active(self, p: int) -> bool {
        0 <= p < self.regions.len() && self.validators_in(self.regions[p]).len() > 0
    }

    /// The position after `p` in the rotation.
    pub open spec fn advance(self, p: int) -> int {
        if p + 1 >= self.regions.len() {
            0
        } else {
            p + 1
        }
    }

    /// Scans `steps` positions from `p` on and gives the first active one.
    pub open spec fn scan(self, p: int, steps: nat) -> Option<int>
        decreases steps,
    {
        if steps == 0 {
            None
        } else if self.active(p) {
            Some(p)
        } else {
            self.scan(self.advance(p), (steps - 1) as nat)
        }
    }

    /// The position that a scan from the cursor, once around, selects.
    pub open spec fn next_active(self) -> Option<int> {
        self.scan(self.cursor, self.regions.len())
    }

    /// Every registered validator: regions in rotation order, and within a
    /// region the order of registration.
    pub open spec fn all_validators(self) -> Seq<Seq<u8>> {
        concat(self.lists)
    }

    /// Whether `id` is registered in some region.
    pub open spec fn holds(self, id: Seq<u8>) -> bool {
        exists|p: int, i: int|
            0 <= p < self.lists.len() && 0 <= i < self.lists[p].len() && #[trigger] self.lists[p][i]
                == id
    }

    /// No validator is registered twice, in one region or in two.
    pub open spec fn distinct(self) -> bool {
        forall|p: int, i: int, q: int, j: int|
            0 <= p < self.lists.len() && 0 <= i < self.lists[p].len() && 0 <= q < self.lists.len()
                && 0 <= j < self.lists[q].len() && #[trigger] self.lists[p][i]
                == #[trigger] self.lists[q][j] ==> p == q && i == j
    }

    /// The invariant of a registry.
    pub open spec fn wf(self) -> bool {
        &&& self.lists.len() == self.regions.len()
        &&& 0 <= self.cursor
        &&& self.cursor < self.regions.len() || self.cursor == 0
        &&& forall|p: int|
            0 <= p < self.regions.len() && self.slot(#[trigger] self.regions[p]) != p
                ==> self.lists[p].len() == 0
        &&& self.distinct()
    }

    /// The registry with the cursor at `cursor`.
    pub open spec fn at(self, cursor: int) -> Registry {
        Registry { cursor, ..self }
    }

    /// The registry after `id` joined the known region `name`.
    pub open spec fn register(self, name: Seq<char>, id: Seq<u8>) -> Registry {
        Registry {
            lists: self.lists.update(self.slot(name), self.lists[self.slot(name)].push(id)),
            ..self
        }
    }

    /// The registry after every entry `key` left the region `name`.
    pub open spec fn remove(self, name: Seq<char>, key: Seq<u8>) -> Registry {
        if self.known(name) {
            Registry {
                lists: self.lists.update(
                    self.slot(name),
                    self.lists[self.slot(name)].filter(other_than(key)),
                ),
                ..self
            }
        } else {
            self
        }
    }

    /// The registry after one election: the cursor stands behind the
    /// selected region, or where it stood if no region has a validator.
    pub open spec fn after_election(self) -> Registry {
        match self.next_active() {
            Some(p) => self.at(self.advance(p)),
            None => self,
        }
    }

    /// The leader of round `view`: the validator at `view` modulo the number
    /// of validators of the selected region.
    pub open spec fn elected(self, view: u64) -> Option<Seq<u8>> {
        match self.next_active() {
            Some(p) => {
                let list = self.validators_in(self.regions[p]);
                Some(list[view as int % list.len() as int])
            },
            None => None,
        }
    }
}

/// Picks the leader of each round from validators grouped by region.
pub struct BeaconConsensus {
    regions: Vec<String>,
    validators: Vec<Vec<Vec<u8>>>,
    current_region_idx: usize,
}

impl View for BeaconConsensus {
    type V = Registry;

    closed spec fn view(&self) -> Registry {
        Registry {
            regions: name_list(self.regions@),
            lists: list_views(self.validators@),
            cursor: self.current_region_idx as int,
        }
    }
}

impl BeaconConsensus {
    /// Builds an election over `regions`; their order is the rotation order.
    pub fn new(regions: Vec<String>) -> (beacon: BeaconConsensus)
        ensures
            beacon@.wf(),
            beacon@.regions == name_list(regions@),
            beacon@.cursor == 0,
            forall|p: int| 0 <= p < beacon@.lists.len() ==> beacon@.lists[p].len() == 0,
            beacon@.all_validators().len() == 0,
    {
        let mut validators: Vec<Vec<Vec<u8>>> = Vec::new();
        let mut i: usize = 0;
        while i < regions.len()
            invariant
                i <= regions.len(),
                validators.len() == i,
                forall|p: int| 0 <= p < i ==> (#[trigger] validators@[p])@.len() == 0,
            decreases regions.len() - i,
        {
            validators.push(Vec::new());
            i += 1;
        }
        let beacon = BeaconConsensus { regions, validators, current_region_idx: 0 };
        proof {
            lemma_concat_of_empty(beacon@.lists);
        }
        beacon
    }

    /// Finds the first position that carries `name`.
    fn find_region(&self, name: &String) -> (found: Option<usize>)
        ensures
            match found {
                Some(p) => self@.known(name@) && p == self@.slot(name@) && p < self@.regions.len()
                    && self@.regions[p as int] == name@,
                None => !self@.known(name@),
            },
    {
        let mut i: usize = 0;
        while i < self.regions.len()
            invariant
                i <= self.regions.len(),
                forall|j: int| 0 <= j < i ==> self@.regions[j] != name@,
            decreases self.regions.len() - i,
        {
            if self.regions[i] == *name {
                proof {
                    assert(self@.regions[i as int] == name@);
                    self@.regions.index_of_first_ensures(name@);
                    let first = self@.regions.index_of_first(name@).unwrap();
                    assert(self@.regions[first] == name@);
                }
                return Some(i);
            }
            i += 1;
        }
        proof {
            self@.regions.index_of_first_ensures(name@);
        }
        None
    }

    /// Whether `key` is registered in any region.
    fn is_registered(&self, key: &[u8]) -> (found: bool)
        ensures
            found <==> self@.holds(key@),
    {
        let mut p: usize = 0;
        while p < self.validators.len()
            invariant
                p <= self.validators.len(),
                forall|q: int, i: int|
                    0 <= q < p && 0 <= i < self@.lists[q].len() ==> #[trigger] self@.lists[q][i]
                        != key@,
            decreases self.validators.len() - p,
        {
            if list_contains(&self.validators[p], key) {
                proof {
                    let list = self@.lists[p as int];
                    let i = choose|i: int| 0 <= i < list.len() && list[i] == key@;
                    assert(self@.lists[p as int][i] == key@);
                }
                return true;
            }
            p += 1;
        }
        false
    }

    /// Registers `validator` in `region`, behind those already there.
    ///
    /// A validator that is already in `region` stays where it is. One that
    /// is registered in another region is refused: a validator belongs to one
    /// region at a time.
    pub fn register_validator(&mut self, region: String, validator: Vec<u8>) -> (outcome: Result<
        (),
        BeaconError,
    >)
        requires
            old(self)@.wf(),
        ensures
            final(self)@.wf(),
            !old(self)@.known(region@) ==> outcome == Err::<(), BeaconError>(
                BeaconError::InvalidRegion(region),
            ) && final(self)@ == old(self)@,
            old(self)@.known(region@) && old(self)@.validators_in(region@).contains(validator@)
                ==> outcome is Ok && final(self)@ == old(self)@,
            old(self)@.known(region@) && !old(self)@.validators_in(region@).contains(validator@)
                && old(self)@.holds(validator@) ==> outcome == Err::<(), BeaconError>(
                BeaconError::InvalidValidator,
            ) && final(self)@ == old(self)@,
            old(self)@.known(region@) && !old(self)@.holds(validator@) ==> outcome is Ok
                && final(self)@ == old(self)@.register(region@, validator@),
    {
        let p = match self.find_region(&region) {
            Some(p) => p,
            None => {
                return Err(BeaconError::InvalidRegion(region));
            },
        };
        if list_contains(&self.validators[p], validator.as_slice()) {
            proof {
                let list = self@.lists[p as int];
                let i = choose|i: int| 0 <= i < list.len() && list[i] == validator@;
                assert(self@.lists[p as int][i] == validator@);
            }
            return Ok(());
        }
        if self.is_registered(validator.as_slice()) {
            return Err(BeaconError::InvalidValidator);
        }
        let ghost before = self@;
        let ghost id = validator@;
        let mut list = self.validators.remove(p);
        list.push(validator);
        self.validators.insert(p, list);
        proof {
            let after = before.register(region@, id);
            assert(self@.lists.len() == after.lists.len());
            assert forall|q: int| 0 <= q < after.lists.len() implies self@.lists[q]
                =~= after.lists[q] by {}
            assert(self@.lists =~= after.lists);
            assert(self@.regions =~= after.regions);
            assert(before.regions[p as int] == region@);
            assert forall|q: int, i: int, r: int, j: int|
                0 <= q < after.lists.len() && 0 <= i < after.lists[q].len() && 0 <= r
                    < after.lists.len() && 0 <= j < after.lists[r].len()
                    && #[trigger] after.lists[q][i] == #[trigger] after.lists[r][j] implies q == r
                && i == j by {
                let i_new = q == p && i == before.lists[q].len();
                let j_new = r == p && j == before.lists[r].len();
                if !i_new {
                    assert(before.lists[q][i] == after.lists[q][i]);
                }
                if !j_new {
                    assert(before.lists[r][j] == after.lists[r][j]);
                }
            }
        }
        Ok(())
    }

    /// Removes every entry `validator_key` from `region`. Nothing changes
    /// where the region is unknown or does not hold the validator.
    pub fn remove_validator(&mut self, region: &str, validator_key: &[u8]) -> (outcome: Result<
        (),
        BeaconError,
    >)
        requires
            old(self)@.wf(),
        ensures
            final(self)@.wf(),
            outcome is Ok,
            final(self)@ == old(self)@.remove(region@, validator_key@),
    {
        let name = region.to_owned();
        let p = match self.find_region(&name) {
            Some(p) => p,
            None => {
                return Ok(());
            },
        };
        let ghost before = self@;
        let ghost keep = other_than(validator_key@);
        let list = self.validators.remove(p);
        let mut kept: Vec<Vec<u8>> = Vec::new();
        let mut i: usize = 0;
        while i < list.len()
            invariant
                i <= list.len(),
                key_list(kept@) == key_list(list@).take(i as int).filter(keep),
                keep == other_than(validator_key@),
            decreases list.len() - i,
        {
            proof {
                lemma_filter_step(key_list(list@), keep, i as int);
            }
            if !bytes_eq(list[i].as_slice(), validator_key) {
                let ghost prior = key_list(kept@);
                kept.push(copy_bytes(list[i].as_slice()));
                assert(key_list(kept@) =~= prior.push(list@[i as int]@));
            }
            i += 1;
        }
        self.validators.insert(p, kept);
        proof {
            assert(key_list(list@).take(list.len() as int) =~= key_list(list@));
            let after = before.remove(region@, validator_key@);
            assert forall|q: int| 0 <= q < after.lists.len() implies self@.lists[q]
                =~= after.lists[q] by {}
            assert(self@.lists =~= after.lists);
            assert(self@.regions =~= after.regions);
            assert(before.regions[p as int] == region@);
            let old_list = before.lists[p as int];
            assert(old_list.no_duplicates()) by {
                assert forall|a: int, b: int|
                    0 <= a < old_list.len() && 0 <= b < old_list.len() && a != b implies old_list[a]
                    != old_list[b] by {
                    if before.lists[p as int][a] == before.lists[p as int][b] {
                    }
                }
            }
            lemma_filter_keeps_distinct(old_list, keep);
            assert forall|q: int, a: int, r: int, b: int|
                0 <= q < after.lists.len() && 0 <= a < after.lists[q].len() && 0 <= r
                    < after.lists.len() && 0 <= b < after.lists[r].len()
                    && #[trigger] after.lists[q][a] == #[trigger] after.lists[r][b] implies q == r
                && a == b by {
                let x = after.lists[q][a];
                let kept_list = old_list.filter(keep);
                assert(after.lists[p as int] == kept_list);
                if q == p && r == p {
                    assert(kept_list[a] == kept_list[b]);
                } else if q == p {
                    assert(kept_list[a] == x);
                    assert(kept_list.contains(x));
                    assert(old_list.contains(x));
                    let a0 = old_list.index_of(x);
                    assert(before.lists[p as int][a0] == before.lists[r][b]);
                } else if r == p {
                    assert(kept_list[b] == x);
                    assert(kept_list.contains(x));
                    assert(old_list.contains(x));
                    let b0 = old_list.index_of(x);
                    assert(before.lists[q][a] == before.lists[p as int][b0]);
                } else {
                    assert(before.lists[q][a] == before.lists[r][b]);
                }
            }
        }
        Ok(())
    }

    /// The validators of `region`, in the order they registered; none for an
    /// unknown region.
    pub fn get_region_validators(&self, region: &str) -> (outcome: Result<
        Vec<Vec<u8>>,
        BeaconError,
    >)
        requires
            self@.wf(),
        ensures
            outcome matches Ok(list) && key_list(list@) == self@.validators_in(region@),
    {
        let name = region.to_owned();
        match self.find_region(&name) {
            Some(p) => Ok(copy_list(&self.validators[p])),
            None => Ok(Vec::new()),
        }
    }

    /// Every registered validator: regions in rotation order, and within a
    /// region the order of registration.
    pub fn get_all_validators(&self) -> (outcome: Result<Vec<Vec<u8>>, BeaconError>)
        requires
            self@.wf(),
        ensures
            outcome matches Ok(list) && key_list(list@) == self@.all_validators(),
    {
        let mut all: Vec<Vec<u8>> = Vec::new();
        let mut p: usize = 0;
        while p < self.validators.len()
            invariant
                p <= self.validators.len(),
                key_list(all@) == concat(self@.lists.take(p as int)),
            decreases self.validators.len() - p,
        {
            let list = &self.validators[p];
            let ghost done = key_list(all@);
            let mut i: usize = 0;
            while i < list.len()
                invariant
                    i <= list.len(),
                    key_list(all@) == done + key_list(list@).take(i as int),
                decreases list.len() - i,
            {
                let ghost prior = key_list(all@);
                all.push(copy_bytes(list[i].as_slice()));
                assert(key_list(all@) =~= prior.push(list@[i as int]@));
                assert(key_list(all@) =~= done + key_list(list@).take(i + 1));
                i += 1;
            }
            proof {
                assert(key_list(list@).take(list.len() as int) =~= key_list(list@));
                assert(self@.lists.take(p + 1).drop_last() =~= self@.lists.take(p as int));
                assert(self@.lists.take(p + 1).last() == key_list(list@));
            }
            p += 1;
        }
        assert(self@.lists.take(self.validators.len() as int) =~= self@.lists);
        Ok(all)
    }

    /// Moves the cursor to the next region that has a validator and gives
    /// its position. The scan goes at most once around; where no region has
    /// a validator the cursor ends where it began.
    pub fn next_active_region(&mut self) -> (found: Option<usize>)
        requires
            old(self)@.wf(),
        ensures
            final(self)@ == old(self)@.after_election(),
            final(self)@.wf(),
            match found {
                Some(p) => old(self)@.next_active() == Some(p as int) && old(self)@.active(
                    p as int,
                ),
                None => old(self)@.next_active() is None,
            },
    {
        let n = self.regions.len();
        let ghost before = self@;
        let mut steps: usize = 0;
        while steps < n
            invariant
                n == self.regions.len(),
                steps <= n,
                before == old(self)@,
                self@ == before.at(self.current_region_idx as int),
                before.wf(),
                self@.wf(),
                before.next_active() == before.scan(
                    self.current_region_idx as int,
                    (n - steps) as nat,
                ),
                self.current_region_idx as int == if before.cursor + steps >= n {
                    before.cursor + steps - n
                } else {
                    before.cursor + steps
                },
            decreases n - steps,
        {
            let p = self.current_region_idx;
            let slot = self.find_region(&self.regions[p]);
            let occupied = match slot {
                Some(q) => self.validators[q].len() > 0,
                None => false,
            };
            proof {
                assert(before.regions[p as int] == self.regions@[p as int]@);
                assert(before.known(before.regions[p as int]));
                assert(occupied == before.active(p as int));
            }
            self.current_region_idx = if p + 1 >= n {
                0
            } else {
                p + 1
            };
            if occupied {
                return Some(p);
            }
            steps += 1;
        }
        None
    }

    /// The leader of round `view`, and none only where no region has a
    /// validator. The seed is not used.
    pub fn leader(&mut self, view: u64, seed: ()) -> (leader: Option<Vec<u8>>)
        requires
            old(self)@.wf(),
        ensures
            final(self)@.wf(),
            final(self)@ == old(self)@.after_election(),
            match leader {
                Some(key) => old(self)@.elected(view) == Some(key@),
                None => old(self)@.elected(view) is None,
            },
    {
        let ghost before = self@;
        let p = match self.next_active_region() {
            Some(p) => p,
            None => {
                return None;
            },
        };
        let slot = match self.find_region(&self.regions[p]) {
            Some(slot) => slot,
            None => {
                proof {
                    assert(before.regions[p as int] == self.regions@[p as int]@);
                    assert(before.known(before.regions[p as int]));
                }
                return None;
            },
        };
        let list = &self.validators[slot];
        proof {
            assert(before.regions[p as int] == self.regions@[p as int]@);
            assert(key_list(list@) == before.validators_in(before.regions[p as int]));
        }
        if list.len() == 0 {
            return None;
        }
        let count = list.len() as u64;
        let index = (view % count) as usize;
        Some(copy_bytes(list[index].as_slice()))
    }

    /// The validator that an election for round `view` would select now.
    /// The cursor stays where it is.
    pub fn candidate(&self, view: u64) -> (leader: Option<Vec<u8>>)
        requires
            self@.wf(),
        ensures
            match leader {
                Some(key) => self@.elected(view) == Some(key@),
                None => self@.elected(view) is None,
            },
    {
        let n = self.regions.len();
        let mut p = self.current_region_idx;
        let mut steps: usize = 0;
        while steps < n
            invariant
                n == self.regions.len(),
                steps <= n,
                self@.wf(),
                n > 0 ==> p < n,
                self@.next_active() == self@.scan(p as int, (n - steps) as nat),
            decreases n - steps,
        {
            let slot = match self.find_region(&self.regions[p]) {
                Some(slot) => slot,
                None => {
                    proof {
                        assert(self@.regions[p as int] == self.regions@[p as int]@);
                        assert(self@.known(self@.regions[p as int]));
                    }
                    return None;
                },
            };
            let list = &self.validators[slot];
            proof {
                assert(self@.regions[p as int] == self.regions@[p as int]@);
                assert(key_list(list@) == self@.validators_in(self@.regions[p as int]));
            }
            if list.len() > 0 {
                let count = list.len() as u64;
                let index = (view % count) as usize;
                return Some(copy_bytes(list[index].as_slice()));
            }
            p = if p + 1 >= n {
                0
            } else {
                p + 1
            };
            steps += 1;
        }
        None
    }

    /// All validators, each once, whatever the round; none where the
    /// registry is empty.
    pub fn participants(&self, view: u64) -> (all: Option<Vec<Vec<u8>>>)
        requires
            self@.wf(),
        ensures
            match all {
                Some(list) => key_list(list@) == self@.all_validators() && list@.len() > 0
                    && key_list(list@).no_duplicates(),
                None => self@.all_validators().len() == 0,
            },
    {
        let list = match self.get_all_validators() {
            Ok(list) => list,
            Err(_) => {
                return None;
            },
        };
        if list.len() == 0 {
            None
        } else {
            proof {
                lemma_distinct_concat(self@.lists);
            }
            Some(list)
        }
    }

    /// The position of `candidate` among all validators, whatever the round,
    /// and none where it is not registered. A position that does not fit
    /// the result type is not reported.
    pub fn is_participant(&self, view: u64, candidate: &[u8]) -> (position: Option<u32>)
        requires
            self@.wf(),
        ensures
            match position {
                Some(k) => k < self@.all_validators().len() && self@.all_validators()[k as int]
                    == candidate@,
                None => forall|k: int|
                    0 <= k < self@.all_validators().len() && k <= u32::MAX
                        ==> self@.all_validators()[k] != candidate@,
            },
    {
        let list = match self.get_all_validators() {
            Ok(list) => list,
            Err(_) => {
                return None;
            },
        };
        let mut k: usize = 0;
        while k < list.len()
            invariant
                k <= list.len(),
                k <= u32::MAX + 1,
                key_list(list@) == self@.all_validators(),
                forall|j: int| 0 <= j < k ==> key_list(list@)[j] != candidate@,
            decreases list.len() - k,
        {
            if k > 0xffff_ffff {
                return None;
            }
            if bytes_eq(list[k].as_slice(), candidate) {
                assert(key_list(list@)[k as int] == candidate@);
                return Some(k as u32);
            }
            k += 1;
        }
        None
    }
}

/// Lists that are all empty hold no validator.
proof fn lemma_concat_of_empty(lists: Seq<Seq<Seq<u8>>>)
    requires
        forall|p: int| 0 <= p < lists.len() ==> lists[p].len() == 0,
    ensures
        concat(lists).len() == 0,
    decreases lists.len(),
{
    if lists.len() > 0 {
        lemma_concat_of_empty(lists.drop_last());
    }
}

/// The position `steps` places behind `start` in a rotation of `n` regions.
pub open spec fn wrap(start: int, steps: int, n: int) -> int {
    if start + steps >= n {
        start + steps - n
    } else {
        start + steps
    }
}

/// What a scan finds: the first active position, counted from where the
/// scan began. Gives the number of positions passed over.
proof fn lemma_scan(r: Registry, start: int, steps: nat) -> (passed: int)
    requires
        r.lists.len() == r.regions.len(),
        0 <= start < r.regions.len(),
        steps <= r.regions.len(),
    ensures
        0 <= passed <= steps,
        forall|i: int| 0 <= i < passed ==> !r.active(#[trigger] wrap(start, i, r.regions.len() as int)),
        match r.scan(start, steps) {
            Some(p) => passed < steps && p == wrap(start, passed, r.regions.len() as int)
                && r.active(p),
            None => passed == steps,
        },
    decreases steps,
{
    let n = r.regions.len() as int;
    if steps == 0 {
        0
    } else if r.active(start) {
        0
    } else {
        let next = r.advance(start);
        let rest = lemma_scan(r, next, (steps - 1) as nat);
        assert forall|i: int| 0 <= i < rest + 1 implies !r.active(#[trigger] wrap(start, i, n)) by {
            if i > 0 {
                assert(wrap(start, i, n) == wrap(next, i - 1, n));
            }
        }
        assert(wrap(start, rest + 1, n) == wrap(next, rest, n));
        rest + 1
    }
}

/// An election finds no leader only where no region has a validator.
pub proof fn lemma_leader_unless_all_empty(r: Registry)
    requires
        r.wf(),
    ensures
        r.next_active() is None <==> forall|q: int| !r.active(q),
        r.elected(0) is None <==> forall|q: int| !r.active(q),
{
    let n = r.regions.len() as int;
    if n > 0 {
        let passed = lemma_scan(r, r.cursor, r.regions.len());
        if r.next_active() is None {
            assert forall|q: int| !r.active(q) by {
                if 0 <= q < n {
                    let i = if q >= r.cursor {
                        q - r.cursor
                    } else {
                        q + n - r.cursor
                    };
                    assert(wrap(r.cursor, i, n) == q);
                }
            }
        }
    }
}

/// Two elections in a row, with the registry left alone between them, select
/// the same region only where no other region has a validator. This holds
/// of rotations that name each region once.
pub proof fn lemma_rotation_moves_on(r: Registry)
    requires
        r.wf(),
        r.regions.no_duplicates(),
        exists|q: int| r.active(q),
    ensures
        r.next_active() is Some,
        r.after_election().next_active() is Some,
        r.regions[r.next_active().unwrap()] == r.regions[r.after_election().next_active().unwrap()]
            ==> forall|q: int| r.active(q) ==> q == r.next_active().unwrap(),
{
    let n = r.regions.len() as int;
    lemma_leader_unless_all_empty(r);
    let first = r.next_active().unwrap();
    let passed_first = lemma_scan(r, r.cursor, r.regions.len());
    let next = r.after_election();
    assert(next.cursor == r.advance(first));
    assert(forall|q: int| next.active(q) == r.active(q));
    lemma_leader_unless_all_empty(next);
    let second = next.next_active().unwrap();
    let passed = lemma_scan(next, next.cursor, next.regions.len());
    if r.regions[first] == r.regions[second] {
        assert(first == second);
        assert(passed == n - 1);
        assert forall|q: int| r.active(q) implies q == first by {
            if q != first {
                let i = if q >= next.cursor {
                    q - next.cursor
                } else {
                    q + n - next.cursor
                };
                assert(wrap(next.cursor, i, n) == q);
                assert(!next.active(q));
            }
        }
    }
}

/// Filtering a second time by the same test changes nothing.
proof fn lemma_filter_twice(s: Seq<Seq<u8>>, keep: spec_fn(Seq<u8>) -> bool)
    ensures
        s.filter(keep).filter(keep) == s.filter(keep),
    decreases s.len(),
{
    reveal(Seq::filter);
    if s.len() > 0 {
        lemma_filter_twice(s.drop_last(), keep);
        let front = s.drop_last().filter(keep);
        if keep(s.last()) {
            assert(front.push(s.last()).drop_last() =~= front);
        }
    }
}

/// Removing a validator a second time changes nothing.
pub proof fn lemma_remove_twice(r: Registry, name: Seq<char>, key: Seq<u8>)
    requires
        r.lists.len() == r.regions.len(),
    ensures
        r.remove(name, key).remove(name, key) == r.remove(name, key),
{
    if r.known(name) {
        r.regions.index_of_first_ensures(name);
        lemma_filter_twice(r.lists[r.slot(name)], other_than(key));
        assert(r.remove(name, key).remove(name, key).lists =~= r.remove(name, key).lists);
    }
}

/// A validator that registered is a participant, behind those that were
/// there before, and the others keep their places.
pub proof fn lemma_registered_is_participant(r: Registry, name: Seq<char>, id: Seq<u8>)
    requires
        r.lists.len() == r.regions.len(),
        r.known(name),
    ensures
        r.register(name, id).validators_in(name) == r.validators_in(name).push(id),
        r.register(name, id).holds(id),
        forall|other: Seq<char>|
            other != name ==> r.register(name, id).validators_in(other) == r.validators_in(other),
{
    r.regions.index_of_first_ensures(name);
    let after = r.register(name, id);
    let slot = r.slot(name);
    assert(after.lists[slot][r.lists[slot].len() as int] == id);
    assert forall|other: Seq<char>| other != name implies after.validators_in(other)
        == r.validators_in(other) by {
        if r.known(other) {
            r.regions.index_of_first_ensures(other);
        }
    }
}

/// Copies a list of byte strings.
fn copy_list(list: &Vec<Vec<u8>>) -> (copy: Vec<Vec<u8>>)
    ensures
        key_list(copy@) == key_list(list@),
{
    let mut copy: Vec<Vec<u8>> = Vec::new();
    let mut i: usize = 0;
    while i < list.len()
        invariant
            i <= list.len(),
            key_list(copy@) == key_list(list@).take(i as int),
        decreases list.len() - i,
    {
        let ghost prior = key_list(copy@);
        copy.push(copy_bytes(list[i].as_slice()));
        assert(key_list(copy@) =~= prior.push(list@[i as int]@));
        assert(key_list(copy@) =~= key_list(list@).take(i + 1));
        i += 1;
    }
    assert(key_list(list@).take(list.len() as int) =~= key_list(list@));
    copy
}

/// Filtering one element more keeps or drops that element.
proof fn lemma_filter_step(s: Seq<Seq<u8>>, keep: spec_fn(Seq<u8>) -> bool, i: int)
    requires
        0 <= i < s.len(),
    ensures
        s.take(i + 1).filter(keep) == if keep(s[i]) {
            s.take(i).filter(keep).push(s[i])
        } else {
            s.take(i).filter(keep)
        },
{
    reveal(Seq::filter);
    assert(s.take(i + 1).drop_last() =~= s.take(i));
}

/// A filtered list holds only what the list held, and nothing twice if the
/// list held nothing twice.
proof fn lemma_filter_keeps_distinct(s: Seq<Seq<u8>>, keep: spec_fn(Seq<u8>) -> bool)
    requires
        s.no_duplicates(),
    ensures
        s.filter(keep).no_duplicates(),
        forall|x: Seq<u8>| s.filter(keep).contains(x) ==> s.contains(x),
    decreases s.len(),
{
    reveal(Seq::filter);
    if s.len() > 0 {
        let front = s.drop_last();
        lemma_filter_keeps_distinct(front, keep);
        let sub = front.filter(keep);
        assert forall|x: Seq<u8>| s.filter(keep).contains(x) implies s.contains(x) by {
            let k = choose|k: int| 0 <= k < s.filter(keep).len() && s.filter(keep)[k] == x;
            if k < sub.len() {
                assert(sub[k] == x);
                assert(sub.contains(x));
                assert(front.contains(x));
                let j = choose|j: int| 0 <= j < front.len() && front[j] == x;
                assert(s[j] == x);
            } else {
                assert(s[s.len() - 1] == x);
            }
        }
        if keep(s.last()) {
            assert forall|a: int, b: int|
                0 <= a < s.filter(keep).len() && 0 <= b < s.filter(keep).len() && a
                    != b implies s.filter(keep)[a] != s.filter(keep)[b] by {
                if a < sub.len() && b < sub.len() {
                } else {
                    let c = if a < sub.len() {
                        a
                    } else {
                        b
                    };
                    assert(sub.contains(sub[c]));
                    assert(front.contains(sub[c]));
                    let j = choose|j: int| 0 <= j < front.len() && front[j] == sub[c];
                    assert(s[j] == sub[c]);
                }
            }
        }
    }
}

/// Whatever the concatenation holds stands in one of the lists.
proof fn lemma_concat_member(lists: Seq<Seq<Seq<u8>>>, k: int) -> (at: (int, int))
    requires
        0 <= k < concat(lists).len(),
    ensures
        0 <= at.0 < lists.len(),
        0 <= at.1 < lists[at.0].len(),
        lists[at.0][at.1] == concat(lists)[k],
    decreases lists.len(),
{
    let front = concat(lists.drop_last());
    if k < front.len() {
        lemma_concat_member(lists.drop_last(), k)
    } else {
        (lists.len() - 1, k - front.len())
    }
}

/// Where no validator stands twice in the lists, none stands twice in
/// their concatenation.
proof fn lemma_distinct_concat(lists: Seq<Seq<Seq<u8>>>)
    requires
        forall|p: int, i: int, q: int, j: int|
            0 <= p < lists.len() && 0 <= i < lists[p].len() && 0 <= q < lists.len() && 0 <= j
                < lists[q].len() && #[trigger] lists[p][i] == #[trigger] lists[q][j] ==> p == q
                && i == j,
    ensures
        concat(lists).no_duplicates(),
    decreases lists.len(),
{
    if lists.len() > 0 {
        let front_lists = lists.drop_last();
        assert forall|p: int, i: int, q: int, j: int|
            0 <= p < front_lists.len() && 0 <= i < front_lists[p].len() && 0 <= q
                < front_lists.len() && 0 <= j < front_lists[q].len()
                && #[trigger] front_lists[p][i] == #[trigger] front_lists[q][j] implies p == q
            && i == j by {
            assert(lists[p][i] == lists[q][j]);
        }
        lemma_distinct_concat(front_lists);
        let front = concat(front_lists);
        let last = lists.last();
        let n = lists.len() - 1;
        assert forall|a: int, b: int|
            0 <= a < concat(lists).len() && 0 <= b < concat(lists).len() && a != b implies concat(
            lists,
        )[a] != concat(lists)[b] by {
            let pa = if a < front.len() {
                lemma_concat_member(front_lists, a)
            } else {
                (n, a - front.len())
            };
            let pb = if b < front.len() {
                lemma_concat_member(front_lists, b)
            } else {
                (n, b - front.len())
            };
            assert(lists[pa.0][pa.1] == concat(lists)[a]);
            assert(lists[pb.0][pb.1] == concat(lists)[b]);
            if concat(lists)[a] == concat(lists)[b] {
                assert(pa.0 == pb.0 && pa.1 == pb.1);
                assert(a < front.len() && b < front.len());
            }
        }
    }
}

} // verus!
