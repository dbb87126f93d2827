//! What the steps of a scenario wait for and how long: the bounds of each
//! class of wait, and the conditions that are observed.

use crate::error::HarnessError;
use crate::retry::RetryPolicy;
use vstd::prelude::*;

verus! {

/// The blocks that are mined on top of a transaction before it counts as confirmed.
pub const CONFIRMATION_PERIOD: u64 = 4;

/// The retries of a wait for the height of a node, for each block waited for.
pub const HEIGHT_RETRIES: u64 = 240;

/// The milliseconds between two observations of a node.
pub const NODE_INTERVAL_MS: u64 = 250;

/// The retries of a wait for a transaction to reach the pools of the nodes.
pub const MEMPOOL_RETRIES: u64 = 480;

/// The retries of a wait for the state of a wallet or of a connection.
pub const WALLET_RETRIES: u64 = 100;

/// The milliseconds between two observations of a wallet or of a connection.
pub const WALLET_INTERVAL_MS: u64 = 5000;

/// The micro units that make up one unit of the currency.
pub const MICRO_PER_UNIT: u64 = 1_000_000;

/// The classes of wait. Each has its own bounds.
#[derive(Clone, Copy, Debug, PartialEq, Eq, Structural)]
pub enum WaitClass {
    /// One node reaches a height.
    NodeHeight,
    /// All nodes agree on a height that is `blocks` blocks up.
    AllNodesHeight { blocks: u64 },
    /// A transaction reaches the pools of the nodes.
    Mempool,
    /// A wallet reaches a balance, or its transactions a status.
    Wallet,
    /// A peer connects.
    Connection,
}

/// The bounds of a class of wait.
pub open spec fn bounds_of(class: WaitClass) -> RetryPolicy {
    match class {
        WaitClass::NodeHeight => RetryPolicy {
            interval_ms: NODE_INTERVAL_MS,
            max_retries: HEIGHT_RETRIES,
        },
        WaitClass::AllNodesHeight { blocks } => RetryPolicy {
            interval_ms: NODE_INTERVAL_MS,
            max_retries: (HEIGHT_RETRIES * blocks) as u64,
        },
        WaitClass::Mempool => RetryPolicy {
            interval_ms: NODE_INTERVAL_MS,
            max_retries: MEMPOOL_RETRIES,
        },
        WaitClass::Wallet => RetryPolicy {
            interval_ms: WALLET_INTERVAL_MS,
            max_retries: WALLET_RETRIES,
        },
        WaitClass::Connection => RetryPolicy {
            interval_ms: WALLET_INTERVAL_MS,
            max_retries: WALLET_RETRIES,
        },
    }
}

/// The bounds of a class of wait. A wait for all nodes is given retries for
/// every block, as far as the count of retries can hold them.
pub fn policy_for(class: WaitClass) -> (policy: RetryPolicy)
    requires
        class matches WaitClass::AllNodesHeight { blocks } ==> HEIGHT_RETRIES * blocks <= u64::MAX,
    ensures
        policy == bounds_of(class),
{
    match class {
        WaitClass::NodeHeight => RetryPolicy {
            interval_ms: NODE_INTERVAL_MS,
            max_retries: HEIGHT_RETRIES,
        },
        WaitClass::AllNodesHeight { blocks } => RetryPolicy {
            interval_ms: NODE_INTERVAL_MS,
            max_retries: HEIGHT_RETRIES * blocks,
        },
        WaitClass::Mempool => RetryPolicy {
            interval_ms: NODE_INTERVAL_MS,
            max_retries: MEMPOOL_RETRIES,
        },
        WaitClass::Wallet => RetryPolicy {
            interval_ms: WALLET_INTERVAL_MS,
            max_retries: WALLET_RETRIES,
        },
        WaitClass::Connection => RetryPolicy {
            interval_ms: WALLET_INTERVAL_MS,
            max_retries: WALLET_RETRIES,
        },
    }
}

/// The bounds of the wait for all nodes to agree on a height that is `blocks`
/// blocks up; `None` where the count of retries cannot hold a share for every block.
pub fn all_nodes_policy(blocks: u64) -> (r: Option<RetryPolicy>)
    ensures
        match r {
            Some(policy) => HEIGHT_RETRIES * blocks <= u64::MAX && policy == bounds_of(
                WaitClass::AllNodesHeight { blocks },
            ),
            None => HEIGHT_RETRIES * blocks > u64::MAX,
        },
{
    if blocks <= u64::MAX / HEIGHT_RETRIES {
        Some(policy_for(WaitClass::AllNodesHeight { blocks }))
    } else {
        None
    }
}

/// An amount in whole units, in micro units; `None` where the result does not fit.
pub fn to_micro(amount: u64) -> (r: Option<u64>)
    ensures
        match r {
            Some(micro) => micro == amount * MICRO_PER_UNIT,
            None => amount * MICRO_PER_UNIT > u64::MAX,
        },
{
    if amount <= u64::MAX / MICRO_PER_UNIT {
        Some(amount * MICRO_PER_UNIT)
    } else {
        None
    }
}

/// Whether a wallet with `available` micro units holds at least `amount`
/// whole units.
pub fn holds_units(available: u64, amount: u64) -> (held: bool)
    ensures
        held == (available >= amount * MICRO_PER_UNIT),
{
    match to_micro(amount) {
        Some(micro) => available >= micro,
        None => false,
    }
}

/// The heights at which the nodes of a scenario were last seen, on the way to
/// a height that all of them are to reach. A node that was seen at the height
/// is not asked again.
#[derive(Debug)]
pub struct HeightAgreement {
    target: u64,
    names: Vec<String>,
    heights: Vec<u64>,
}

impl HeightAgreement {
    /// The height that all nodes are to reach.
    pub closed spec fn target(&self) -> u64 {
        self.target
    }

    /// The names of the nodes.
    pub closed spec fn names(&self) -> Seq<Seq<char>> {
        self.names.deep_view()
    }

    /// The height at which each node was last seen.
    pub closed spec fn heights(&self) -> Seq<u64> {
        self.heights@
    }

    /// Every node has a height.
    pub closed spec fn wf(&self) -> bool {
        self.names.len() == self.heights.len()
    }

    /// Whether every node was last seen at the height.
    pub open spec fn all_at_target(&self) -> bool {
        forall|i: int| 0 <= i < self.heights().len() ==> self.heights()[i] == self.target()
    }

    /// The places of the nodes in `heights` that are not at `target`, in order.
    pub open spec fn behind(heights: Seq<u64>, target: u64) -> Seq<usize>
        decreases heights.len(),
    {
        if heights.len() == 0 {
            Seq::empty()
        } else if heights.last() != target {
            Self::behind(heights.drop_last(), target).push((heights.len() - 1) as usize)
        } else {
            Self::behind(heights.drop_last(), target)
        }
    }

    /// The nodes `names`, none of them seen yet: each counts as being at height zero.
    pub fn new(target: u64, names: Vec<String>) -> (a: HeightAgreement)
        ensures
            a.wf(),
            a.target() == target,
            a.names() == names.deep_view(),
            a.heights() == Seq::new(names.len() as nat, |i: int| 0u64),
    {
        let mut heights: Vec<u64> = Vec::new();
        let mut i: usize = 0;
        while i < names.len()
            invariant
                i <= names.len(),
                heights@ == Seq::new(i as nat, |k: int| 0u64),
            decreases names.len() - i,
        {
            heights.push(0);
            assert(heights@ =~= Seq::new((i + 1) as nat, |k: int| 0u64));
            i += 1;
        }
        HeightAgreement { target, names, heights }
    }

    /// The places of the nodes that are to be asked for their height: those
    /// that were not last seen at the height, in order.
    pub fn pending(&self) -> (out: Vec<usize>)
        requires
            self.wf(),
        ensures
            out@ == Self::behind(self.heights(), self.target()),
            forall|k: int|
                0 <= k < out.len() ==> (#[trigger] out[k]) < self.names().len()
                    && self.heights()[out[k] as int] != self.target(),
    {
        let mut out: Vec<usize> = Vec::new();
        let mut i: usize = 0;
        assert(self.heights@.take(0) =~= Seq::<u64>::empty());
        while i < self.heights.len()
            invariant
                i <= self.heights.len(),
                out@ == Self::behind(self.heights@.take(i as int), self.target),
                forall|k: int|
                    0 <= k < out.len() ==> (#[trigger] out[k]) < i && self.heights[out[k] as int]
                        != self.target,
            decreases self.heights.len() - i,
        {
            assert(self.heights@.take(i + 1).drop_last() =~= self.heights@.take(i as int));
            if self.heights[i] != self.target {
                out.push(i);
            }
            i += 1;
        }
        assert(self.heights@.take(self.heights.len() as int) =~= self.heights@);
        out
    }

    /// The name of the node at `place`.
    pub fn name_at(&self, place: usize) -> (name: &String)
        requires
            self.wf(),
            place < self.names().len(),
        ensures
            name@ == self.names()[place as int],
    {
        &self.names[place]
    }

    /// Notes that the node at `place` was seen at `height`.
    pub fn record(&mut self, place: usize, height: u64)
        requires
            old(self).wf(),
            place < old(self).heights().len(),
        ensures
            final(self).wf(),
            final(self).target() == old(self).target(),
            final(self).names() == old(self).names(),
            final(self).heights() == old(self).heights().update(place as int, height),
    {
        self.heights.set(place, height);
    }

    /// Whether every node was last seen at the height.
    pub fn agreed(&self) -> (yes: bool)
        ensures
            yes == self.all_at_target(),
    {
        let mut i: usize = 0;
        while i < self.heights.len()
            invariant
                i <= self.heights.len(),
                forall|j: int| 0 <= j < i ==> self.heights[j] == self.target,
            decreases self.heights.len() - i,
        {
            if self.heights[i] != self.target {
                assert(self.heights()[i as int] != self.target());
                return false;
            }
            i += 1;
        }
        true
    }

    /// The failure of a wait that ended without agreement: it carries the
    /// height that was waited for and the heights that were last seen.
    pub fn timed_out(&self) -> (e: HarnessError)
        ensures
            e matches HarnessError::AssertionTimeout { expected, last_observed } && expected
                == self.target() && last_observed@ == self.heights(),
    {
        HarnessError::AssertionTimeout {
            expected: self.target,
            last_observed: self.heights.clone(),
        }
    }
}

/// The least whole number that is no less than `percent` hundredths of `nodes`.
pub open spec fn allowed_failures(nodes: nat, percent: nat) -> nat {
    ((percent * nodes + 99) / 100) as nat
}

/// How many of `nodes` nodes may fail where `percent` in a hundred may.
pub fn can_fail(nodes: u64, percent: u64) -> (n: u64)
    requires
        percent * nodes + 99 <= u64::MAX,
    ensures
        n == allowed_failures(nodes as nat, percent as nat),
{
    assert(percent * nodes >= 0) by (nonlinear_arith)
        requires
            percent >= 0,
            nodes >= 0,
    ;
    (percent * nodes + 99) / 100
}

/// Whether a transaction has reached enough pools: more than the nodes that
/// may not fail. Of `nodes` nodes, `in_pool` have it, and `may_fail` may fail,
/// which are no more than there are nodes.
pub fn pool_quorum(in_pool: u64, nodes: u64, may_fail: u64) -> (met: bool)
    requires
        may_fail <= nodes,
    ensures
        met == (in_pool > nodes - may_fail),
{
    in_pool > nodes - may_fail
}

/// The count of confirmed transactions that a wait has reached. A round of
/// observations that does not reach the wanted count leaves nothing behind:
/// the next round starts from zero.
#[derive(Clone, Copy, Debug)]
pub struct Tally {
    pub total: u64,
}

impl Tally {
    /// A count of zero.
    pub fn new() -> (t: Tally)
        ensures
            t.total == 0,
    {
        Tally { total: 0 }
    }

    /// Adds the `confirmed` transactions of one round and says whether the
    /// wanted count is reached. If it is not, the count falls back to zero.
    pub fn round(&mut self, confirmed: u64, wanted: u64) -> (reached: bool)
        requires
            old(self).total + confirmed <= u64::MAX,
        ensures
            reached == (old(self).total + confirmed >= wanted),
            final(self).total == if reached {
                (old(self).total + confirmed) as u64
            } else {
                0
            },
    {
        self.total = self.total + confirmed;
        if self.total >= wanted {
            true
        } else {
            self.total = 0;
            false
        }
    }

    /// Whether the count is the wanted one, no more and no less.
    pub fn exactly(&self, wanted: u64) -> (yes: bool)
        ensures
            yes == (self.total == wanted),
    {
        self.total == wanted
    }
}

/// How many of `statuses` are `wanted`.
pub open spec fn count_of(statuses: Seq<i32>, wanted: i32) -> nat
    decreases statuses.len(),
{
    if statuses.len() == 0 {
        0
    } else {
        count_of(statuses.drop_last(), wanted) + if statuses.last() == wanted {
            1nat
        } else {
            0nat
        }
    }
}

/// How many of the transactions with the statuses `statuses` have the status `wanted`.
pub fn count_status(statuses: &Vec<i32>, wanted: i32) -> (n: usize)
    ensures
        n == count_of(statuses@, wanted),
{
    let mut n: usize = 0;
    let mut i: usize = 0;
    assert(statuses@.take(0) =~= Seq::<i32>::empty());
    while i < statuses.len()
        invariant
            i <= statuses.len(),
            n <= i,
            n == count_of(statuses@.take(i as int), wanted),
        decreases statuses.len() - i,
    {
        assert(statuses@.take(i + 1).drop_last() =~= statuses@.take(i as int));
        if statuses[i] == wanted {
            n += 1;
        }
        i += 1;
    }
    assert(statuses@.take(statuses.len() as int) =~= statuses@);
    n
}

/// Where the heights `heights` first leave the run `start`, `start + 1`, and
/// so on; `None` where they follow it to the end.
pub fn first_gap(heights: &Vec<u64>, start: u64) -> (r: Option<usize>)
    ensures
        match r {
            Some(i) => i < heights.len() && heights[i as int] != start + i && forall|j: int|
                0 <= j < i ==> heights[j] == start + j,
            None => forall|j: int| 0 <= j < heights.len() ==> heights[j] == start + j,
        },
{
    let mut i: usize = 0;
    while i < heights.len()
        invariant
            i <= heights.len(),
            forall|j: int| 0 <= j < i ==> heights[j] == start + j,
        decreases heights.len() - i,
    {
        if heights[i] as u128 != start as u128 + i as u128 {
            return Some(i);
        }
        i += 1;
    }
    None
}

/// The whole units that the first `k` of the block rewards `rewards`, given
/// in micro units, add up to: each block counts for the whole units of its reward.
pub open spec fn funded(rewards: Seq<u64>, k: int) -> nat
    decreases k,
{
    if k <= 0 {
        0
    } else {
        funded(rewards, k - 1) + (rewards[k - 1] / MICRO_PER_UNIT) as nat
    }
}

/// The least number of blocks whose rewards add up to `amount` whole units,
/// where `rewards` are the rewards of the blocks to come, in micro units;
/// `None` where all of them together do not.
pub fn blocks_to_fund(amount: u64, rewards: &Vec<u64>) -> (r: Option<usize>)
    ensures
        match r {
            Some(k) => {
                &&& k <= rewards.len()
                &&& funded(rewards@, k as int) >= amount
                &&& forall|j: int| 0 <= j < k ==> funded(rewards@, j) < amount
            },
            None => funded(rewards@, rewards.len() as int) < amount,
        },
{
    let mut reward: u64 = 0;
    let mut k: usize = 0;
    while reward < amount
        invariant
            k <= rewards.len(),
            reward == funded(rewards@, k as int),
            reward <= amount,
            forall|j: int| 0 <= j < k ==> funded(rewards@, j) < amount,
        decreases rewards.len() - k,
    {
        if k >= rewards.len() {
            return None;
        }
        let share = rewards[k] / MICRO_PER_UNIT;
        assert(funded(rewards@, k + 1) == funded(rewards@, k as int) + share);
        k += 1;
        if share >= amount - reward {
            proof {
                assert forall|j: int| 0 <= j < k implies funded(rewards@, j) < amount by {
                    if j == k - 1 {
                    }
                }
            }
            return Some(k);
        }
        reward = reward + share;
    }
    Some(k)
}

/// The rounds in which one node may catch up with another before the
/// step that waits for it fails.
pub const SAME_HEIGHT_ROUNDS: u64 = 12;

/// How a node stands to the node it follows, after a round of catching up.
#[derive(Clone, Copy, Debug, PartialEq, Eq, Structural)]
pub enum Chase {
    /// Both are at the same height: the step holds.
    Same,
    /// They are apart and rounds are left: the node is given another round.
    Again,
    /// They are apart and no round is left: the step fails.
    Apart,
}

/// How a node at height `current` stands to the node it follows, which is at
/// height `expected`, after the round with number `round`, counted from one.
pub fn chase(round: u64, current: u64, expected: u64) -> (r: Chase)
    ensures
        r == if current == expected {
            Chase::Same
        } else if round < SAME_HEIGHT_ROUNDS {
            Chase::Again
        } else {
            Chase::Apart
        },
{
    if current == expected {
        Chase::Same
    } else if round < SAME_HEIGHT_ROUNDS {
        Chase::Again
    } else {
        Chase::Apart
    }
}

/// How many headers there are from height `start` to height `end`, both
/// included; `None` where `end` is below `start` or the number does not fit.
pub fn header_count(start: u64, end: u64) -> (r: Option<u64>)
    ensures
        match r {
            Some(n) => start <= end && n == end - start + 1,
            None => end < start || end - start + 1 > u64::MAX,
        },
{
    if end < start || end - start == u64::MAX {
        None
    } else {
        Some(end - start + 1)
    }
}

} // verus!
