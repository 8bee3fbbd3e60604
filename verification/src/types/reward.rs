//! Block rewards, how they are shared out, and how shares vest.

use vstd::prelude::*;

verus! {

/// What a share of the block reward is for.
#[derive(Debug, Clone, Copy, PartialEq, Eq, Hash, Structural)]
pub enum AllocationCategory {
    NetworkActivity,
    EcosystemDevelopment,
    Developer,
    Infrastructure,
    ResearchAndDevelopment,
    StrategicPartnership,
    Faucet,
}

/// How vested tokens are released.
#[derive(Debug, Clone)]
pub enum ReleaseType {
    /// Evenly over the vesting period.
    Linear,
    /// At points in time: pairs of a timestamp and the amount released
    /// then.
    Milestone(Vec<(u64, u64)>),
}

/// The vesting of one share.
#[derive(Debug, Clone)]
pub struct VestingSchedule {
    /// Seconds since the epoch at which vesting begins.
    pub start_time: u64,
    /// Length of the vesting period in seconds.
    pub duration: u64,
    /// Seconds from the start during which nothing is released.
    pub cliff_duration: Option<u64>,
    pub release_type: ReleaseType,
    /// Amount that vests in all.
    pub total_amount: u64,
    /// Amount released so far.
    pub released_amount: u64,
}

/// Why a reward could not be computed.
#[derive(Debug, Clone, Copy, PartialEq, Eq)]
pub enum RewardError {
    InvalidBlockNumber(u64),
    InvalidAllocationCategory,
    InvalidVestingSchedule,
    Overflow,
}

/// The amounts of the milestones that have come by `now`, added up.
pub open spec fn milestone_total(milestones: Seq<(u64, u64)>, now: u64) -> int
    decreases milestones.len(),
{
    if milestones.len() == 0 {
        0
    } else {
        milestone_total(milestones.drop_last(), now) + if milestones.last().0 <= now {
            milestones.last().1 as int
        } else {
            0
        }
    }
}

impl VestingSchedule {
    /// The amount that has vested by `now`, for a time at or after the
    /// start.
    pub open spec fn vested(&self, now: u64) -> int {
        match self.release_type {
            ReleaseType::Linear => {
                if now - self.start_time >= self.duration {
                    self.total_amount as int
                } else {
                    (self.total_amount * (now - self.start_time)) / (self.duration as int)
                }
            },
            ReleaseType::Milestone(milestones) => milestone_total(milestones@, now),
        }
    }

    /// The amount that can be released at `now`: nothing before the start
    /// or within the cliff, and else what has vested and was not released
    /// yet, up to the largest amount there is.
    pub open spec fn releasable(&self, now: u64) -> int {
        if now < self.start_time {
            0
        } else if self.cliff_duration is Some && now < self.start_time
            + self.cliff_duration.unwrap() {
            0
        } else if self.vested(now) <= self.released_amount {
            0
        } else if self.vested(now) - self.released_amount > u64::MAX {
            u64::MAX as int
        } else {
            self.vested(now) - self.released_amount
        }
    }

    /// A schedule that releases evenly, with nothing released yet.
    pub fn new_linear(
        start_time: u64,
        duration: u64,
        cliff_duration: Option<u64>,
        total_amount: u64,
    ) -> (schedule: VestingSchedule)
        ensures
            schedule.start_time == start_time,
            schedule.duration == duration,
            schedule.cliff_duration == cliff_duration,
            schedule.release_type is Linear,
            schedule.total_amount == total_amount,
            schedule.released_amount == 0,
    {
        VestingSchedule {
            start_time,
            duration,
            cliff_duration,
            release_type: ReleaseType::Linear,
            total_amount,
            released_amount: 0,
        }
    }

    /// A schedule that releases at milestones, without a cliff and with
    /// nothing released yet.
    pub fn new_milestone(
        start_time: u64,
        duration: u64,
        milestones: Vec<(u64, u64)>,
        total_amount: u64,
    ) -> (schedule: VestingSchedule)
        ensures
            schedule.start_time == start_time,
            schedule.duration == duration,
            schedule.cliff_duration is None,
            schedule.release_type == ReleaseType::Milestone(milestones),
            schedule.total_amount == total_amount,
            schedule.released_amount == 0,
    {
        VestingSchedule {
            start_time,
            duration,
            cliff_duration: None,
            release_type: ReleaseType::Milestone(milestones),
            total_amount,
            released_amount: 0,
        }
    }

    /// The amount that can be released at `current_time`.
    pub fn releasable_amount(&self, current_time: u64) -> (amount: u64)
        ensures
            amount == self.releasable(current_time),
    {
        if current_time < self.start_time {
            return 0;
        }
        match self.cliff_duration {
            Some(cliff) => {
                if (current_time as u128) < self.start_time as u128 + cliff as u128 {
                    return 0;
                }
            },
            None => {},
        }
        let vested: u128 = match &self.release_type {
            ReleaseType::Linear => {
                let elapsed = current_time - self.start_time;
                if elapsed >= self.duration {
                    self.total_amount as u128
                } else {
                    assert(self.total_amount * elapsed <= u64::MAX * u64::MAX) by (nonlinear_arith)
                        requires
                            self.total_amount <= u64::MAX,
                            elapsed <= u64::MAX,
                    ;
                    (self.total_amount as u128 * elapsed as u128) / (self.duration as u128)
                }
            },
            ReleaseType::Milestone(milestones) => {
                let mut total: u128 = 0;
                let mut i: usize = 0;
                while i < milestones.len()
                    invariant
                        i <= milestones.len(),
                        total == milestone_total(milestones@.take(i as int), current_time),
                        total <= i * u64::MAX,
                    decreases milestones.len() - i,
                {
                    proof {
                        assert(milestones@.take(i + 1).drop_last() =~= milestones@.take(i as int));
                        assert(milestones@.take(i + 1).last() == milestones@[i as int]);
                        assert((i + 1) * u64::MAX == i * u64::MAX + u64::MAX) by (nonlinear_arith);
                        assert((i + 1) * u64::MAX <= usize::MAX * u64::MAX) by (nonlinear_arith)
                            requires
                                i + 1 <= usize::MAX,
                        ;
                    }
                    let entry = milestones[i];
                    if entry.0 <= current_time {
                        total = total + entry.1 as u128;
                    }
                    i += 1;
                }
                assert(milestones@.take(milestones.len() as int) =~= milestones@);
                total
            },
        };
        let released = self.released_amount as u128;
        if vested <= released {
            0
        } else if vested - released > u64::MAX as u128 {
            u64::MAX
        } else {
            (vested - released) as u64
        }
    }
}

/// First block of the second year, at one block a second.
pub const YEAR_TWO: u64 = 31_536_000;

/// First block of the third year.
pub const YEAR_THREE: u64 = 63_072_000;

/// First block after the fourth year, where emission ends.
pub const EMISSION_END: u64 = 126_144_000;

/// The reward of block `block_number`: 16 tokens in the first year, 8 in
/// the second, 4 in the third and fourth, none after.
pub open spec fn block_reward(block_number: u64) -> u64 {
    if block_number < YEAR_TWO {
        16
    } else if block_number < YEAR_THREE {
        8
    } else if block_number < EMISSION_END {
        4
    } else {
        0
    }
}

/// The share of a block reward that goes to `category`, in percent.
pub open spec fn allocation_percent(category: AllocationCategory) -> u8 {
    match category {
        AllocationCategory::NetworkActivity => 65,
        AllocationCategory::EcosystemDevelopment => 10,
        AllocationCategory::Developer => 7,
        AllocationCategory::Infrastructure => 5,
        AllocationCategory::ResearchAndDevelopment => 4,
        AllocationCategory::StrategicPartnership => 4,
        AllocationCategory::Faucet => 5,
    }
}

/// The rewards of the blocks 0 to `block_number`, added up.
pub open spec fn emission(block_number: nat) -> int
    decreases block_number,
{
    if block_number == 0 {
        block_reward(0) as int
    } else {
        emission((block_number - 1) as nat) + block_reward(block_number as u64)
    }
}

/// The vesting terms of the shares that vest: the length of the period,
/// the cliff and the amount. The other shares do not vest.
pub open spec fn vesting_terms(category: AllocationCategory) -> Option<(u64, Option<u64>, u64)> {
    match category {
        AllocationCategory::Developer => Some((94_608_000u64, None, 70_560_000_000u64)),
        AllocationCategory::Infrastructure => Some(
            (126_144_000u64, Some(7_776_000u64), 50_400_000_000u64),
        ),
        AllocationCategory::ResearchAndDevelopment => Some(
            (94_608_000u64, Some(15_552_000u64), 40_320_000_000u64),
        ),
        AllocationCategory::StrategicPartnership => Some(
            (63_072_000u64, Some(7_776_000u64), 40_320_000_000u64),
        ),
        _ => None,
    }
}

/// Whether `schedule` vests evenly from `start` under `terms`, with
/// nothing released yet.
pub open spec fn vests_under(
    schedule: VestingSchedule,
    start: u64,
    terms: (u64, Option<u64>, u64),
) -> bool {
    &&& schedule.start_time == start
    &&& schedule.duration == terms.0
    &&& schedule.cliff_duration == terms.1
    &&& schedule.release_type is Linear
    &&& schedule.total_amount == terms.2
    &&& schedule.released_amount == 0
}

/// Whether `table` gives a percentage for `category`.
pub open spec fn has_percent(table: Seq<(AllocationCategory, u8)>, category: AllocationCategory) -> bool {
    exists|i: int| 0 <= i < table.len() && (#[trigger] table[i]).0 == category
}

/// Whether `table` gives a vesting schedule for `category`.
pub open spec fn has_vesting(
    table: Seq<(AllocationCategory, VestingSchedule)>,
    category: AllocationCategory,
) -> bool {
    exists|i: int| 0 <= i < table.len() && (#[trigger] table[i]).0 == category
}

/// The blocks from `start` up to, not including, `end` earn `reward` each.
#[derive(Debug, Clone, Copy)]
pub struct RewardRange {
    pub start: u64,
    pub end: u64,
    pub reward: u64,
}

/// The emission schedule of the chain.
#[derive(Debug)]
pub struct RewardSchedule {
    genesis_block: u64,
    genesis_time: u64,
    block_rewards: Vec<RewardRange>,
    allocation_percentages: Vec<(AllocationCategory, u8)>,
    vesting_schedules: Vec<(AllocationCategory, VestingSchedule)>,
}

impl RewardSchedule {
    /// The time at which the schedule begins.
    pub closed spec fn genesis_time(&self) -> u64 {
        self.genesis_time
    }

    /// The invariant of a schedule: its tables hold the chain's terms.
    pub closed spec fn wf(&self) -> bool {
        &&& self.block_rewards@.len() == 3
        &&& self.block_rewards@[0] == (RewardRange { start: 0, end: YEAR_TWO, reward: 16 })
        &&& self.block_rewards@[1] == (RewardRange { start: YEAR_TWO, end: YEAR_THREE, reward: 8 })
        &&& self.block_rewards@[2] == (RewardRange {
            start: YEAR_THREE,
            end: EMISSION_END,
            reward: 4,
        })
        &&& forall|i: int|
            0 <= i < self.allocation_percentages@.len() ==> (
            #[trigger] self.allocation_percentages@[i]).1 == allocation_percent(
                self.allocation_percentages@[i].0,
            )
        &&& forall|c: AllocationCategory| #[trigger] has_percent(self.allocation_percentages@, c)
        &&& forall|i: int|
            0 <= i < self.vesting_schedules@.len() ==> {
                let entry = #[trigger] self.vesting_schedules@[i];
                vesting_terms(entry.0) is Some && vests_under(
                    entry.1,
                    self.genesis_time,
                    vesting_terms(entry.0).unwrap(),
                )
            }
        &&& forall|c: AllocationCategory| #[trigger]
            vesting_terms(c) is Some ==> has_vesting(self.vesting_schedules@, c)
    }

    /// The chain's schedule, beginning at `genesis_time`.
    pub fn new(genesis_time: u64) -> (schedule: RewardSchedule)
        ensures
            schedule.wf(),
            schedule.genesis_time() == genesis_time,
    {
        let mut block_rewards: Vec<RewardRange> = Vec::new();
        block_rewards.push(RewardRange { start: 0, end: 31_536_000, reward: 16 });
        block_rewards.push(RewardRange { start: 31_536_000, end: 63_072_000, reward: 8 });
        block_rewards.push(RewardRange { start: 63_072_000, end: 126_144_000, reward: 4 });
        let mut allocation_percentages: Vec<(AllocationCategory, u8)> = Vec::new();
        allocation_percentages.push((AllocationCategory::NetworkActivity, 65));
        allocation_percentages.push((AllocationCategory::EcosystemDevelopment, 10));
        allocation_percentages.push((AllocationCategory::Developer, 7));
        allocation_percentages.push((AllocationCategory::Infrastructure, 5));
        allocation_percentages.push((AllocationCategory::ResearchAndDevelopment, 4));
        allocation_percentages.push((AllocationCategory::StrategicPartnership, 4));
        allocation_percentages.push((AllocationCategory::Faucet, 5));
        let mut vesting_schedules: Vec<(AllocationCategory, VestingSchedule)> = Vec::new();
        vesting_schedules.push(
            (
                AllocationCategory::Developer,
                VestingSchedule::new_linear(genesis_time, 94_608_000, None, 70_560_000_000),
            ),
        );
        vesting_schedules.push(
            (
                AllocationCategory::Infrastructure,
                VestingSchedule::new_linear(
                    genesis_time,
                    126_144_000,
                    Some(7_776_000),
                    50_400_000_000,
                ),
            ),
        );
        vesting_schedules.push(
            (
                AllocationCategory::ResearchAndDevelopment,
                VestingSchedule::new_linear(
                    genesis_time,
                    94_608_000,
                    Some(15_552_000),
                    40_320_000_000,
                ),
            ),
        );
        vesting_schedules.push(
            (
                AllocationCategory::StrategicPartnership,
                VestingSchedule::new_linear(
                    genesis_time,
                    63_072_000,
                    Some(7_776_000),
                    40_320_000_000,
                ),
            ),
        );
        let schedule = RewardSchedule {
            genesis_block: 0,
            genesis_time,
            block_rewards,
            allocation_percentages,
            vesting_schedules,
        };
        proof {
            assert forall|c: AllocationCategory| #[trigger]
                has_percent(schedule.allocation_percentages@, c) by {
                let i: int = match c {
                    AllocationCategory::NetworkActivity => 0,
                    AllocationCategory::EcosystemDevelopment => 1,
                    AllocationCategory::Developer => 2,
                    AllocationCategory::Infrastructure => 3,
                    AllocationCategory::ResearchAndDevelopment => 4,
                    AllocationCategory::StrategicPartnership => 5,
                    AllocationCategory::Faucet => 6,
                };
                assert(schedule.allocation_percentages@[i].0 == c);
            }
            assert forall|c: AllocationCategory| #[trigger]
                vesting_terms(c) is Some implies has_vesting(schedule.vesting_schedules@, c) by {
                let i: int = match c {
                    AllocationCategory::Developer => 0,
                    AllocationCategory::Infrastructure => 1,
                    AllocationCategory::ResearchAndDevelopment => 2,
                    _ => 3,
                };
                assert(schedule.vesting_schedules@[i].0 == c);
            }
        }
        schedule
    }

    /// The reward of block `block_number`.
    pub fn calculate_block_reward(&self, block_number: u64) -> (reward: u64)
        requires
            self.wf(),
        ensures
            reward == block_reward(block_number),
    {
        let mut i: usize = 0;
        while i < self.block_rewards.len()
            invariant
                i <= self.block_rewards.len(),
                self.wf(),
                forall|j: int|
                    0 <= j < i ==> !((#[trigger] self.block_rewards@[j]).start <= block_number
                        < self.block_rewards@[j].end),
            decreases self.block_rewards.len() - i,
        {
            let range = self.block_rewards[i];
            if block_number >= range.start && block_number < range.end {
                return range.reward;
            }
            i += 1;
        }
        proof {
            assert(!(self.block_rewards@[0].start <= block_number < self.block_rewards@[0].end));
            assert(!(self.block_rewards@[1].start <= block_number < self.block_rewards@[1].end));
            assert(!(self.block_rewards@[2].start <= block_number < self.block_rewards@[2].end));
        }
        0
    }

    /// The share of `block_reward` that goes to `category`, rounded down.
    pub fn calculate_allocation(&self, category: &AllocationCategory, block_reward: u64) -> (share:
        u64)
        requires
            self.wf(),
        ensures
            share == (block_reward * allocation_percent(*category)) / 100,
    {
        let mut i: usize = 0;
        while i < self.allocation_percentages.len()
            invariant
                i <= self.allocation_percentages.len(),
                self.wf(),
                forall|j: int| 0 <= j < i ==> (#[trigger] self.allocation_percentages@[j]).0
                    != *category,
            decreases self.allocation_percentages.len() - i,
        {
            let entry = self.allocation_percentages[i];
            if entry.0 == *category {
                assert(entry == self.allocation_percentages@[i as int]);
                assert(entry.1 <= 100);
                assert(block_reward * entry.1 <= u64::MAX * 100) by (nonlinear_arith)
                    requires
                        block_reward <= u64::MAX,
                        entry.1 <= 100,
                ;
                return ((block_reward as u128 * entry.1 as u128) / 100) as u64;
            }
            i += 1;
        }
        proof {
            assert(has_percent(self.allocation_percentages@, *category));
            let k = choose|k: int|
                0 <= k < self.allocation_percentages@.len() && (
                #[trigger] self.allocation_percentages@[k]).0 == *category;
            assert(false);
        }
        0
    }

    /// The vesting of the share of `category`, for the shares that vest.
    pub fn get_vesting_schedule(&self, category: &AllocationCategory) -> (schedule: Option<
        &VestingSchedule,
    >)
        requires
            self.wf(),
        ensures
            match schedule {
                Some(found) => vesting_terms(*category) is Some && vests_under(
                    *found,
                    self.genesis_time(),
                    vesting_terms(*category).unwrap(),
                ),
                None => vesting_terms(*category) is None,
            },
    {
        let mut i: usize = 0;
        while i < self.vesting_schedules.len()
            invariant
                i <= self.vesting_schedules.len(),
                self.wf(),
                forall|j: int| 0 <= j < i ==> (#[trigger] self.vesting_schedules@[j]).0
                    != *category,
            decreases self.vesting_schedules.len() - i,
        {
            if self.vesting_schedules[i].0 == *category {
                return Some(&self.vesting_schedules[i].1);
            }
            i += 1;
        }
        proof {
            if vesting_terms(*category) is Some {
                assert(has_vesting(self.vesting_schedules@, *category));
                let k = choose|k: int|
                    0 <= k < self.vesting_schedules@.len() && (
                    #[trigger] self.vesting_schedules@[k]).0 == *category;
                assert(false);
            }
        }
        None
    }

    /// The tokens emitted by the blocks 0 to `block_number`.
    pub fn calculate_total_emission(&self, block_number: u64) -> (total: u64)
        requires
            self.wf(),
        ensures
            total == emission(block_number as nat),
    {
        proof {
            lemma_emission(block_number as nat);
        }
        if block_number < 31_536_000 {
            16 * (block_number + 1)
        } else if block_number < 63_072_000 {
            504_576_000 + 8 * (block_number - 31_535_999)
        } else if block_number < 126_144_000 {
            756_864_000 + 4 * (block_number - 63_071_999)
        } else {
            1_009_152_000
        }
    }
}

/// The emission up to a block, year by year.
pub open spec fn emission_by_year(block_number: int) -> int {
    if block_number < YEAR_TWO {
        16 * (block_number + 1)
    } else if block_number < YEAR_THREE {
        504_576_000 + 8 * (block_number - 31_535_999)
    } else if block_number < EMISSION_END {
        756_864_000 + 4 * (block_number - 63_071_999)
    } else {
        1_009_152_000
    }
}

/// The rewards added up block by block come to the emission year by year.
pub proof fn lemma_emission(block_number: nat)
    requires
        block_number <= u64::MAX,
    ensures
        emission(block_number) == emission_by_year(block_number as int),
    decreases block_number,
{
    if block_number > 0 {
        lemma_emission((block_number - 1) as nat);
    }
}

} // verus!
