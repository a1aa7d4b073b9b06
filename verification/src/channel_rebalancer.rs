//! Rebalancer: detects liquidity imbalance across the node's channels and
//! proposes moves between two of them.  Ratios are carried in parts per
//! million, so a threshold of `100_000` means ten percent.

use vstd::prelude::*;

use crate::trusted::fresh_uuid_string;
use crate::trusted::str_eq;
use crate::CoreError;

verus! {

/// State machine of one rebalance operation; transitions are linear.
#[derive(Debug, Clone, Copy, PartialEq, Eq, Structural)]
pub enum RebalanceStatus {
    Pending,
    InProgress,
    Completed,
    Failed,
    Cancelled,
}

/// The rebalancer's liquidity view of one channel.
#[derive(Debug)]
pub struct ChannelInfo {
    pub channel_id: String,
    pub local_balance: u64,
    pub remote_balance: u64,
    pub capacity: u64,
    pub is_active: bool,
    pub last_rebalance: Option<u64>,
    pub rebalance_count: u32,
}

impl Clone for ChannelInfo {
    fn clone(&self) -> (r: Self)
        ensures
            r == *self,
    {
        ChannelInfo {
            channel_id: self.channel_id.clone(),
            local_balance: self.local_balance,
            remote_balance: self.remote_balance,
            capacity: self.capacity,
            is_active: self.is_active,
            last_rebalance: self.last_rebalance,
            rebalance_count: self.rebalance_count,
        }
    }
}

/// A proposed or in-flight liquidity move between two channels.
#[derive(Debug)]
pub struct RebalanceOperation {
    pub operation_id: String,
    pub from_channel: String,
    pub to_channel: String,
    pub amount: u64,
    pub status: RebalanceStatus,
    pub created_at: u64,
    pub completed_at: Option<u64>,
}

impl Clone for RebalanceOperation {
    fn clone(&self) -> (r: Self)
        ensures
            r == *self,
    {
        RebalanceOperation {
            operation_id: self.operation_id.clone(),
            from_channel: self.from_channel.clone(),
            to_channel: self.to_channel.clone(),
            amount: self.amount,
            status: self.status,
            created_at: self.created_at,
            completed_at: self.completed_at,
        }
    }
}

/// Aggregate liquidity health; ratios are in parts per million.
#[derive(Debug, Clone, Copy, PartialEq, Eq, Structural)]
pub struct RebalancingStats {
    pub total_channels: usize,
    pub active_channels: usize,
    pub imbalanced_channels: usize,
    pub total_rebalances: u32,
    pub avg_balance_ratio_ppm: u64,
    pub rebalance_threshold_ppm: u64,
}

/// Half the capacity: the balance split the rebalancer drives toward.
pub open spec fn ideal_balance(c: ChannelInfo) -> int {
    c.capacity as int / 2
}

/// How far the local balance sits from the ideal split.
pub open spec fn balance_diff(c: ChannelInfo) -> int {
    if (c.local_balance as int) >= ideal_balance(c) {
        c.local_balance as int - ideal_balance(c)
    } else {
        ideal_balance(c) - c.local_balance as int
    }
}

/// The channel's imbalance ratio in parts per million: the distance from the
/// ideal split over the ideal split.  A channel without capacity counts as
/// balanced; one whose ideal split is zero but whose balance is off counts as
/// maximally imbalanced.
pub open spec fn ratio_ppm(c: ChannelInfo) -> int {
    if c.capacity == 0 {
        0
    } else if ideal_balance(c) == 0 {
        if balance_diff(c) > 0 {
            u64::MAX as int
        } else {
            0
        }
    } else {
        let q = balance_diff(c) * 1_000_000 / ideal_balance(c);
        if q > u64::MAX as int {
            u64::MAX as int
        } else {
            q
        }
    }
}

/// Eighty percent of the channel's excess or deficit: what one rebalance
/// would move.
pub open spec fn rebalance_amount_of(c: ChannelInfo) -> int {
    balance_diff(c) * 4 / 5
}

/// Whether channel `t` can absorb `amt` toward `src_id`'s rebalance: it is a
/// different, active channel whose own deficit covers the amount.
pub open spec fn can_receive(t: ChannelInfo, src_id: Seq<char>, amt: int) -> bool {
    t.channel_id@ != src_id && t.is_active && (t.local_balance as int) < ideal_balance(t)
        && ideal_balance(t) - t.local_balance as int >= amt
}

/// Whether some channel of `s` can absorb `c`'s rebalance amount.
pub open spec fn has_target(s: Seq<ChannelInfo>, c: ChannelInfo) -> bool {
    exists|j: int| 0 <= j < s.len() && can_receive(s[j], c.channel_id@, rebalance_amount_of(c))
}

/// A channel that a scan turns into an operation: active, imbalanced beyond
/// the threshold, with an amount inside the configured bounds and a channel
/// that can absorb it.
pub open spec fn eligible(
    s: Seq<ChannelInfo>,
    c: ChannelInfo,
    threshold_ppm: u64,
    min_amount: u64,
    max_amount: u64,
) -> bool {
    c.is_active && ratio_ppm(c) > threshold_ppm && min_amount <= rebalance_amount_of(c)
        && rebalance_amount_of(c) <= max_amount && has_target(s, c)
}

/// Whether some channel in `s` carries the id `id`.
pub open spec fn contains_channel(s: Seq<ChannelInfo>, id: Seq<char>) -> bool {
    exists|i: int| 0 <= i < s.len() && s[i].channel_id@ == id
}

/// The channel of `s` carrying `id`; meaningful when ids are unique.
pub open spec fn channel_by_id(s: Seq<ChannelInfo>, id: Seq<char>) -> ChannelInfo {
    s[choose|i: int| 0 <= i < s.len() && s[i].channel_id@ == id]
}

/// How many channels of `s` are active.
pub open spec fn count_active(s: Seq<ChannelInfo>) -> int
    decreases s.len(),
{
    if s.len() == 0 {
        0
    } else {
        count_active(s.drop_last()) + if s.last().is_active { 1int } else { 0int }
    }
}

/// How many channels of `s` are active and imbalanced beyond `t`.
pub open spec fn count_imbalanced(s: Seq<ChannelInfo>, t: u64) -> int
    decreases s.len(),
{
    if s.len() == 0 {
        0
    } else {
        count_imbalanced(s.drop_last(), t) + if s.last().is_active && ratio_ppm(s.last()) > t {
            1int
        } else {
            0int
        }
    }
}

/// Cumulative rebalance count over `s`.
pub open spec fn sum_rebalances(s: Seq<ChannelInfo>) -> int
    decreases s.len(),
{
    if s.len() == 0 {
        0
    } else {
        sum_rebalances(s.drop_last()) + s.last().rebalance_count as int
    }
}

/// Sum of the imbalance ratios over the active channels of `s`.
pub open spec fn sum_ratio_active(s: Seq<ChannelInfo>) -> int
    decreases s.len(),
{
    if s.len() == 0 {
        0
    } else {
        sum_ratio_active(s.drop_last()) + if s.last().is_active {
            ratio_ppm(s.last())
        } else {
            0int
        }
    }
}

proof fn lemma_ratio_ppm_bounds(c: ChannelInfo)
    ensures
        0 <= ratio_ppm(c) <= u64::MAX,
{
    if c.capacity != 0 && ideal_balance(c) != 0 {
        vstd::arithmetic::div_mod::lemma_div_pos_is_pos(
            balance_diff(c) * 1_000_000,
            ideal_balance(c),
        );
    }
}

proof fn lemma_counts_bounds(s: Seq<ChannelInfo>, t: u64)
    ensures
        0 <= count_active(s) <= s.len(),
        0 <= count_imbalanced(s, t) <= s.len(),
        0 <= sum_rebalances(s),
        0 <= sum_ratio_active(s) <= count_active(s) * u64::MAX,
    decreases s.len(),
{
    if s.len() > 0 {
        lemma_counts_bounds(s.drop_last(), t);
        lemma_ratio_ppm_bounds(s.last());
        assert(count_active(s) * u64::MAX >= sum_ratio_active(s)) by (nonlinear_arith)
            requires
                count_active(s) == count_active(s.drop_last()) + if s.last().is_active {
                    1int
                } else {
                    0int
                },
                sum_ratio_active(s) == sum_ratio_active(s.drop_last()) + if s.last().is_active {
                    ratio_ppm(s.last())
                } else {
                    0int
                },
                sum_ratio_active(s.drop_last()) <= count_active(s.drop_last()) * u64::MAX,
                0 <= ratio_ppm(s.last()) <= u64::MAX,
                count_active(s.drop_last()) >= 0,
        ;
    }
}

proof fn lemma_prefix_aggregates(s: Seq<ChannelInfo>, t: u64, i: int)
    requires
        0 <= i <= s.len(),
    ensures
        sum_rebalances(s.take(i)) <= sum_rebalances(s),
    decreases s.len(),
{
    if i == s.len() {
        assert(s.take(i) =~= s);
    } else {
        assert(s.drop_last().take(i) =~= s.take(i));
        lemma_prefix_aggregates(s.drop_last(), t, i);
    }
}

/// The aggregate report of `get_rebalancing_stats`.
pub open spec fn rebalancing_stats_of(s: Seq<ChannelInfo>, t: u64) -> RebalancingStats {
    RebalancingStats {
        total_channels: s.len() as usize,
        active_channels: count_active(s) as usize,
        imbalanced_channels: count_imbalanced(s, t) as usize,
        total_rebalances: sum_rebalances(s) as u32,
        avg_balance_ratio_ppm: if count_active(s) > 0 {
            (sum_ratio_active(s) / count_active(s)) as u64
        } else {
            0
        },
        rebalance_threshold_ppm: t,
    }
}

/// The source channel's record after a settled rebalance: the amount leaves
/// the local side (stopping at zero) and the remote side takes up the rest of
/// the capacity, so a balanced split stays balanced in sum.
pub open spec fn settled_source(c: ChannelInfo, amount: u64, now: u64) -> ChannelInfo {
    let new_local: u64 = if c.local_balance >= amount {
        (c.local_balance - amount) as u64
    } else {
        0
    };
    ChannelInfo {
        local_balance: new_local,
        remote_balance: if c.capacity >= new_local {
            (c.capacity - new_local) as u64
        } else {
            0
        },
        last_rebalance: Some(now),
        rebalance_count: (c.rebalance_count + 1) as u32,
        ..c
    }
}

/// The target channel's record after a settled rebalance: the amount arrives
/// on the local side and the remote side gives up the rest of the capacity.
pub open spec fn settled_target(c: ChannelInfo, amount: u64, now: u64) -> ChannelInfo {
    let new_local: u64 = (c.local_balance + amount) as u64;
    ChannelInfo {
        local_balance: new_local,
        remote_balance: if c.capacity >= new_local {
            (c.capacity - new_local) as u64
        } else {
            0
        },
        last_rebalance: Some(now),
        ..c
    }
}

/// Watches the node's channels for liquidity imbalance and proposes moves.
#[derive(Debug)]
pub struct ChannelRebalancer {
    channels: Vec<ChannelInfo>,
    rebalance_threshold_ppm: u64,
    min_rebalance_amount: u64,
    max_rebalance_amount: u64,
}

/// Channel ids are pairwise distinct in `s`.
pub open spec fn ids_unique(s: Seq<ChannelInfo>) -> bool {
    forall|i: int, j: int| 0 <= i < j < s.len() ==> s[i].channel_id@ != s[j].channel_id@
}

/// With unique ids, looking a channel up by its own id gives it back.
pub proof fn lemma_channel_by_id(s: Seq<ChannelInfo>, i: int)
    requires
        ids_unique(s),
        0 <= i < s.len(),
    ensures
        channel_by_id(s, s[i].channel_id@) == s[i],
{
    let id = s[i].channel_id@;
    assert(0 <= i < s.len() && s[i].channel_id@ == id);
    let i2 = choose|i2: int| 0 <= i2 < s.len() && s[i2].channel_id@ == id;
    if i2 != i {
        if i2 < i {
            assert(s[i2].channel_id@ != s[i].channel_id@);
        } else {
            assert(s[i].channel_id@ != s[i2].channel_id@);
        }
    }
}

impl ChannelRebalancer {
    /// Channel ids are unique within the rebalancer's view.
    pub closed spec fn wf(self) -> bool {
        ids_unique(self.channels@)
    }

    /// The tracked channel records, in insertion order.
    pub closed spec fn view(self) -> Seq<ChannelInfo> {
        self.channels@
    }

    /// The imbalance threshold in parts per million.
    pub closed spec fn spec_threshold(self) -> u64 {
        self.rebalance_threshold_ppm
    }

    /// The smallest move worth making, in sats.
    pub closed spec fn spec_min_amount(self) -> u64 {
        self.min_rebalance_amount
    }

    /// The largest move allowed, in sats.
    pub closed spec fn spec_max_amount(self) -> u64 {
        self.max_rebalance_amount
    }

    pub fn new() -> (r: Self)
        ensures
            r.wf(),
            r@ =~= Seq::<ChannelInfo>::empty(),
            r.spec_threshold() == 100_000,
            r.spec_min_amount() == 10_000,
            r.spec_max_amount() == 1_000_000,
    {
        ChannelRebalancer {
            channels: Vec::new(),
            rebalance_threshold_ppm: 100_000,
            min_rebalance_amount: 10_000,
            max_rebalance_amount: 1_000_000,
        }
    }

    fn find_index(&self, channel_id: &str) -> (r: Option<usize>)
        ensures
            match r {
                Some(i) => i < self@.len() && self@[i as int].channel_id@ == channel_id@,
                None => !contains_channel(self@, channel_id@),
            },
    {
        let mut i: usize = 0;
        while i < self.channels.len()
            invariant
                i <= self.channels.len(),
                forall|j: int| 0 <= j < i ==> self.channels@[j].channel_id@ != channel_id@,
            decreases self.channels.len() - i,
        {
            if str_eq(self.channels[i].channel_id.as_str(), channel_id) {
                return Some(i);
            }
            i += 1;
        }
        None
    }

    /// Add or replace the record for one channel, keyed by its id.
    pub fn update_channel(&mut self, channel_info: ChannelInfo) -> (r: Result<(), CoreError>)
        requires
            old(self).wf(),
        ensures
            final(self).wf(),
            final(self).spec_threshold() == old(self).spec_threshold(),
            final(self).spec_min_amount() == old(self).spec_min_amount(),
            final(self).spec_max_amount() == old(self).spec_max_amount(),
            r == Ok::<(), CoreError>(()),
            !contains_channel(old(self)@, channel_info.channel_id@) ==> final(self)@ =~= old(
                self,
            )@.push(channel_info),
            contains_channel(old(self)@, channel_info.channel_id@) ==> exists|i: int|
                0 <= i < old(self)@.len() && old(self)@[i].channel_id@ == channel_info.channel_id@
                    && final(self)@ =~= old(self)@.update(i, channel_info),
    {
        match self.find_index(channel_info.channel_id.as_str()) {
            Some(i) => {
                self.channels.set(i, channel_info);
            },
            None => {
                self.channels.push(channel_info);
            },
        }
        Ok(())
    }

    /// The channel's imbalance ratio in parts per million.
    pub fn calculate_balance_ratio(&self, channel: &ChannelInfo) -> (r: u64)
        ensures
            r as int == ratio_ppm(*channel),
    {
        if channel.capacity == 0 {
            return 0;
        }
        let ideal: u64 = channel.capacity / 2;
        let diff: u64 = if channel.local_balance >= ideal {
            channel.local_balance - ideal
        } else {
            ideal - channel.local_balance
        };
        if ideal == 0 {
            if diff > 0 {
                u64::MAX
            } else {
                0
            }
        } else {
            let q: u128 = (diff as u128) * 1_000_000 / (ideal as u128);
            if q > u64::MAX as u128 {
                u64::MAX
            } else {
                q as u64
            }
        }
    }

    /// Eighty percent of the channel's excess or deficit.
    pub fn calculate_rebalance_amount(&self, channel: &ChannelInfo) -> (r: u64)
        ensures
            r as int == rebalance_amount_of(*channel),
    {
        let ideal: u64 = channel.capacity / 2;
        let diff: u64 = if channel.local_balance >= ideal {
            channel.local_balance - ideal
        } else {
            ideal - channel.local_balance
        };
        let q: u128 = (diff as u128) * 4 / 5;
        q as u64
    }

    /// The first channel that can absorb `amount` from the source, in
    /// insertion order.
    fn find_target_index(&self, src_id: &str, amount: u64) -> (r: Option<usize>)
        ensures
            match r {
                Some(j) => j < self@.len() && can_receive(self@[j as int], src_id@, amount as int)
                    && (forall|j2: int|
                    0 <= j2 < j ==> !can_receive(self@[j2], src_id@, amount as int)),
                None => forall|j2: int|
                    0 <= j2 < self@.len() ==> !can_receive(self@[j2], src_id@, amount as int),
            },
    {
        let mut j: usize = 0;
        while j < self.channels.len()
            invariant
                j <= self.channels.len(),
                forall|j2: int| 0 <= j2 < j ==> !can_receive(self@[j2], src_id@, amount as int),
            decreases self.channels.len() - j,
        {
            let c = &self.channels[j];
            if !str_eq(c.channel_id.as_str(), src_id) && c.is_active {
                let ideal: u64 = c.capacity / 2;
                if c.local_balance < ideal && ideal - c.local_balance >= amount {
                    return Some(j);
                }
            }
            j += 1;
        }
        None
    }
}


/// One operation of a scan is justified by the state it was computed from:
/// its source channel is eligible, its amount is the source's rebalance
/// amount, and its target is the first channel that can absorb it.
pub open spec fn op_justified(
    s: Seq<ChannelInfo>,
    t: u64,
    mn: u64,
    mx: u64,
    op: RebalanceOperation,
    now: u64,
) -> bool {
    &&& contains_channel(s, op.from_channel@)
    &&& eligible(s, channel_by_id(s, op.from_channel@), t, mn, mx)
    &&& op.amount as int == rebalance_amount_of(channel_by_id(s, op.from_channel@))
    &&& exists|j: int|
        0 <= j < s.len() && s[j].channel_id@ == op.to_channel@ && can_receive(
            s[j],
            op.from_channel@,
            op.amount as int,
        ) && (forall|j2: int| 0 <= j2 < j ==> !can_receive(s[j2], op.from_channel@, op.amount as int))
    &&& op.status == RebalanceStatus::Pending
    &&& op.created_at == now
    &&& op.completed_at is None
}

/// A ratio/index pair gathered by the scan: a live index of an active
/// channel beyond the threshold, with its exact ratio.
pub open spec fn valid_cand(s: Seq<ChannelInfo>, t: u64, p: (u64, usize)) -> bool {
    p.1 < s.len() && s[p.1 as int].is_active && ratio_ppm(s[p.1 as int]) == p.0 && p.0 > t
}

impl ChannelRebalancer {
    /// Scan every active channel for imbalance beyond the threshold and
    /// propose one `Pending` operation for each that has an amount within
    /// bounds and a channel able to absorb it, worst imbalance first.
    pub fn check_rebalancing_needed(&self, now: u64) -> (r: Result<
        Vec<RebalanceOperation>,
        CoreError,
    >)
        requires
            self.wf(),
        ensures
            r matches Ok(ops) && (forall|x: int|
                0 <= x < ops@.len() ==> op_justified(
                    self@,
                    self.spec_threshold(),
                    self.spec_min_amount(),
                    self.spec_max_amount(),
                    #[trigger] ops@[x],
                    now,
                )) && (forall|i: int|
                0 <= i < self@.len() && eligible(
                    self@,
                    #[trigger] self@[i],
                    self.spec_threshold(),
                    self.spec_min_amount(),
                    self.spec_max_amount(),
                ) ==> exists|x: int|
                    0 <= x < ops@.len() && ops@[x].from_channel@ == self@[i].channel_id@) && (
            forall|x1: int, x2: int|
                0 <= x1 <= x2 < ops@.len() ==> ratio_ppm(
                    channel_by_id(self@, #[trigger] ops@[x1].from_channel@),
                ) >= ratio_ppm(channel_by_id(self@, #[trigger] ops@[x2].from_channel@))),
    {
        let ghost s = self@;
        let ghost t = self.spec_threshold();
        // Gather the active channels beyond the threshold.
        let mut cands: Vec<(u64, usize)> = Vec::new();
        let mut i: usize = 0;
        while i < self.channels.len()
            invariant
                self.wf(),
                s == self@,
                t == self.spec_threshold(),
                i <= self@.len(),
                forall|x: int| 0 <= x < cands@.len() ==> valid_cand(s, t, #[trigger] cands@[x]),
                forall|i2: int|
                    0 <= i2 < i && s[i2].is_active && ratio_ppm(#[trigger] s[i2]) > t ==> exists|
                        x: int,
                    |
                        0 <= x < cands@.len() && cands@[x].1 == i2,
            decreases self@.len() - i,
        {
            if self.channels[i].is_active {
                let ratio = self.calculate_balance_ratio(&self.channels[i]);
                if ratio > self.rebalance_threshold_ppm {
                    let ghost old_c = cands@;
                    cands.push((ratio, i));
                    proof {
                        assert(cands@[cands@.len() - 1].1 == i as usize);
                        assert forall|i2: int|
                            0 <= i2 < i && s[i2].is_active && ratio_ppm(#[trigger] s[i2])
                                > t implies exists|x: int|
                            0 <= x < cands@.len() && cands@[x].1 == i2 by {
                            let x0 = choose|x0: int| 0 <= x0 < old_c.len() && old_c[x0].1 == i2;
                            assert(cands@[x0].1 == i2);
                        }
                    }
                }
            }
            i += 1;
        }
        // Sort worst imbalance first.
        let mut sorted: Vec<(u64, usize)> = Vec::new();
        let mut c: usize = 0;
        while c < cands.len()
            invariant
                c <= cands@.len(),
                forall|x: int| 0 <= x < cands@.len() ==> valid_cand(s, t, #[trigger] cands@[x]),
                forall|x: int| 0 <= x < sorted@.len() ==> valid_cand(s, t, #[trigger] sorted@[x]),
                forall|x1: int, x2: int|
                    0 <= x1 <= x2 < sorted@.len() ==> sorted@[x1].0 >= sorted@[x2].0,
                forall|x: int|
                    0 <= x < c ==> exists|y: int|
                        0 <= y < sorted@.len() && sorted@[y] == #[trigger] cands@[x],
            decreases cands@.len() - c,
        {
            let item = cands[c];
            let mut pos: usize = 0;
            while pos < sorted.len() && sorted[pos].0 >= item.0
                invariant
                    pos <= sorted@.len(),
                    forall|x: int| 0 <= x < pos ==> sorted@[x].0 >= item.0,
                decreases sorted@.len() - pos,
            {
                pos += 1;
            }
            let ghost old_sorted = sorted@;
            sorted.insert(pos, item);
            proof {
                old_sorted.insert_ensures(pos as int, item);
                assert(pos < old_sorted.len() ==> old_sorted[pos as int].0 < item.0);
                assert forall|x1: int, x2: int|
                    0 <= x1 <= x2 < sorted@.len() implies sorted@[x1].0 >= sorted@[x2].0 by {
                    if x1 < pos {
                        assert(sorted@[x1] == old_sorted[x1]);
                    }
                    if x2 < pos {
                        assert(sorted@[x2] == old_sorted[x2]);
                    }
                    if x1 > pos {
                        assert(sorted@[x1] == old_sorted[x1 - 1]);
                    }
                    if x2 > pos {
                        assert(sorted@[x2] == old_sorted[x2 - 1]);
                    }
                }
                assert forall|x: int| 0 <= x < c + 1 implies exists|y: int|
                    0 <= y < sorted@.len() && sorted@[y] == #[trigger] cands@[x] by {
                    if x == c {
                        assert(sorted@[pos as int] == cands@[x]);
                    } else {
                        let y0 = choose|y0: int|
                            0 <= y0 < old_sorted.len() && old_sorted[y0] == cands@[x];
                        if y0 < pos {
                            assert(sorted@[y0] == cands@[x]);
                        } else {
                            assert(sorted@[y0 + 1] == cands@[x]);
                        }
                    }
                }
            }
            c += 1;
        }
        // Emit an operation for each candidate that has an amount in bounds
        // and a first-match target.
        let mut ops: Vec<RebalanceOperation> = Vec::new();
        let mut w: usize = 0;
        while w < sorted.len()
            invariant
                self.wf(),
                s == self@,
                t == self.spec_threshold(),
                w <= sorted@.len(),
                forall|x: int| 0 <= x < sorted@.len() ==> valid_cand(s, t, #[trigger] sorted@[x]),
                forall|x1: int, x2: int|
                    0 <= x1 <= x2 < sorted@.len() ==> sorted@[x1].0 >= sorted@[x2].0,
                forall|x: int|
                    0 <= x < ops@.len() ==> op_justified(
                        s,
                        t,
                        self.spec_min_amount(),
                        self.spec_max_amount(),
                        #[trigger] ops@[x],
                        now,
                    ),
                forall|x: int|
                    0 <= x < w ==> (eligible(
                        s,
                        s[#[trigger] sorted@[x].1 as int],
                        t,
                        self.spec_min_amount(),
                        self.spec_max_amount(),
                    ) ==> exists|y: int|
                        0 <= y < ops@.len() && ops@[y].from_channel@ == s[sorted@[x].1 as int].channel_id@),
                forall|y1: int, y2: int|
                    0 <= y1 <= y2 < ops@.len() ==> ratio_ppm(
                        channel_by_id(s, #[trigger] ops@[y1].from_channel@),
                    ) >= ratio_ppm(channel_by_id(s, #[trigger] ops@[y2].from_channel@)),
                w < sorted@.len() ==> forall|y: int|
                    0 <= y < ops@.len() ==> ratio_ppm(
                        channel_by_id(s, #[trigger] ops@[y].from_channel@),
                    ) >= sorted@[w as int].0,
            decreases sorted@.len() - w,
        {
            let ratio = sorted[w].0;
            let idx = sorted[w].1;
            let amount = self.calculate_rebalance_amount(&self.channels[idx]);
            if amount >= self.min_rebalance_amount && amount <= self.max_rebalance_amount {
                match self.find_target_index(self.channels[idx].channel_id.as_str(), amount) {
                    Some(j) => {
                        let op = RebalanceOperation {
                            operation_id: String::from_str("rebalance_").concat(
                                fresh_uuid_string().as_str(),
                            ),
                            from_channel: self.channels[idx].channel_id.clone(),
                            to_channel: self.channels[j].channel_id.clone(),
                            amount,
                            status: RebalanceStatus::Pending,
                            created_at: now,
                            completed_at: None,
                        };
                        proof {
                            lemma_channel_by_id(s, idx as int);
                            assert(channel_by_id(s, op.from_channel@) == s[idx as int]);
                            assert(can_receive(s[j as int], op.from_channel@, amount as int));
                            assert(has_target(s, s[idx as int]));
                            assert(op_justified(
                                s,
                                t,
                                self.spec_min_amount(),
                                self.spec_max_amount(),
                                op,
                                now,
                            ));
                        }
                        let ghost old_ops = ops@;
                        ops.push(op);
                        proof {
                            assert(ops@[ops@.len() - 1].from_channel@ == s[idx as int].channel_id@);
                            assert forall|x: int|
                                0 <= x < w + 1 && eligible(
                                    s,
                                    s[#[trigger] sorted@[x].1 as int],
                                    t,
                                    self.spec_min_amount(),
                                    self.spec_max_amount(),
                                ) implies exists|y: int|
                                0 <= y < ops@.len() && ops@[y].from_channel@ == s[sorted@[x].1 as int].channel_id@ by {
                                if x == w {
                                    assert(ops@[ops@.len() - 1].from_channel@ == s[sorted@[
                                        x].1 as int].channel_id@);
                                } else {
                                    let y0 = choose|y0: int|
                                        0 <= y0 < old_ops.len() && old_ops[y0].from_channel@ == s[
                                            sorted@[x].1 as int].channel_id@;
                                    assert(ops@[y0].from_channel@ == s[sorted@[x].1 as int].channel_id@);
                                }
                            }
                        }
                    },
                    None => {
                        proof {
                            assert(!has_target(s, s[idx as int]));
                            assert(!eligible(
                                s,
                                s[idx as int],
                                t,
                                self.spec_min_amount(),
                                self.spec_max_amount(),
                            ));
                        }
                    },
                }
            } else {
                proof {
                    assert(!eligible(
                        s,
                        s[idx as int],
                        t,
                        self.spec_min_amount(),
                        self.spec_max_amount(),
                    ));
                }
            }
            w += 1;
        }
        proof {
            assert forall|i2: int|
                0 <= i2 < s.len() && eligible(
                    s,
                    #[trigger] s[i2],
                    t,
                    self.spec_min_amount(),
                    self.spec_max_amount(),
                ) implies exists|x: int|
                0 <= x < ops@.len() && ops@[x].from_channel@ == s[i2].channel_id@ by {
                let x0 = choose|x0: int| 0 <= x0 < cands@.len() && cands@[x0].1 == i2;
                let y0 = choose|y0: int| 0 <= y0 < sorted@.len() && sorted@[y0] == cands@[x0];
                assert(eligible(
                    s,
                    s[sorted@[y0].1 as int],
                    t,
                    self.spec_min_amount(),
                    self.spec_max_amount(),
                ));
            }
        }
        Ok(ops)
    }

    /// Drive one operation to completion.  `settled` reports whether the
    /// externally delegated liquidity move went through: if it did, the
    /// operation completes and both channels' balances move atomically,
    /// keeping each channel's capacity split; if not, the operation is marked
    /// `Failed` and no balance changes at all.
    pub fn execute_rebalance(
        &mut self,
        operation: &mut RebalanceOperation,
        settled: bool,
        now: u64,
    ) -> (r: Result<bool, CoreError>)
        requires
            old(self).wf(),
            old(operation).from_channel@ != old(operation).to_channel@,
            contains_channel(old(self)@, old(operation).from_channel@) ==> channel_by_id(
                old(self)@,
                old(operation).from_channel@,
            ).rebalance_count < u32::MAX,
            contains_channel(old(self)@, old(operation).to_channel@) ==> channel_by_id(
                old(self)@,
                old(operation).to_channel@,
            ).local_balance + old(operation).amount <= u64::MAX,
        ensures
            final(self).wf(),
            final(self).spec_threshold() == old(self).spec_threshold(),
            final(self).spec_min_amount() == old(self).spec_min_amount(),
            final(self).spec_max_amount() == old(self).spec_max_amount(),
            final(operation).operation_id == old(operation).operation_id,
            final(operation).from_channel == old(operation).from_channel,
            final(operation).to_channel == old(operation).to_channel,
            final(operation).amount == old(operation).amount,
            final(operation).created_at == old(operation).created_at,
            !settled ==> (r == Ok::<bool, CoreError>(false) && final(operation).status
                == RebalanceStatus::Failed && final(operation).completed_at == old(
                operation,
            ).completed_at && final(self)@ == old(self)@),
            settled ==> (r == Ok::<bool, CoreError>(true) && final(operation).status
                == RebalanceStatus::Completed && final(operation).completed_at == Some(now)),
            settled && !contains_channel(old(self)@, old(operation).from_channel@)
                && !contains_channel(old(self)@, old(operation).to_channel@) ==> final(self)@
                == old(self)@,
            settled && contains_channel(old(self)@, old(operation).from_channel@)
                && !contains_channel(old(self)@, old(operation).to_channel@) ==> exists|i: int|
                0 <= i < old(self)@.len() && old(self)@[i].channel_id@ == old(
                    operation,
                ).from_channel@ && final(self)@ =~= old(self)@.update(
                    i,
                    settled_source(old(self)@[i], old(operation).amount, now),
                ),
            settled && !contains_channel(old(self)@, old(operation).from_channel@)
                && contains_channel(old(self)@, old(operation).to_channel@) ==> exists|j: int|
                0 <= j < old(self)@.len() && old(self)@[j].channel_id@ == old(
                    operation,
                ).to_channel@ && final(self)@ =~= old(self)@.update(
                    j,
                    settled_target(old(self)@[j], old(operation).amount, now),
                ),
            settled && contains_channel(old(self)@, old(operation).from_channel@)
                && contains_channel(old(self)@, old(operation).to_channel@) ==> exists|
                i: int,
                j: int,
            |
                0 <= i < old(self)@.len() && 0 <= j < old(self)@.len() && i != j && old(
                    self,
                )@[i].channel_id@ == old(operation).from_channel@ && old(self)@[j].channel_id@
                    == old(operation).to_channel@ && final(self)@ =~= old(self)@.update(
                    i,
                    settled_source(old(self)@[i], old(operation).amount, now),
                ).update(j, settled_target(old(self)@[j], old(operation).amount, now)),
    {
        operation.status = RebalanceStatus::InProgress;
        if !settled {
            operation.status = RebalanceStatus::Failed;
            return Ok(false);
        }
        operation.status = RebalanceStatus::Completed;
        operation.completed_at = Some(now);
        let amount = operation.amount;
        let ghost s0 = self@;
        let fi = self.find_index(operation.from_channel.as_str());
        let ti = self.find_index(operation.to_channel.as_str());
        proof {
            if fi is Some && ti is Some {
                assert(s0[fi->0 as int].channel_id@ != s0[ti->0 as int].channel_id@);
            }
        }
        match fi {
            Some(i) => {
                proof {
                    lemma_channel_by_id(s0, i as int);
                }
                let c = self.channels[i].clone();
                let new_local: u64 = if c.local_balance >= amount {
                    c.local_balance - amount
                } else {
                    0
                };
                let new_remote: u64 = if c.capacity >= new_local {
                    c.capacity - new_local
                } else {
                    0
                };
                self.channels.set(
                    i,
                    ChannelInfo {
                        local_balance: new_local,
                        remote_balance: new_remote,
                        last_rebalance: Some(now),
                        rebalance_count: c.rebalance_count + 1,
                        ..c
                    },
                );
                proof {
                    assert(self@ =~= s0.update(
                        i as int,
                        settled_source(s0[i as int], amount, now),
                    ));
                }
            },
            None => {},
        }
        let ghost s1 = self@;
        match ti {
            Some(j) => {
                proof {
                    assert(s0[j as int].channel_id@ == operation.to_channel@);
                    lemma_channel_by_id(s0, j as int);
                    assert(s1[j as int] == s0[j as int]);
                }
                let c = self.channels[j].clone();
                let new_local: u64 = c.local_balance + amount;
                let new_remote: u64 = if c.capacity >= new_local {
                    c.capacity - new_local
                } else {
                    0
                };
                self.channels.set(
                    j,
                    ChannelInfo {
                        local_balance: new_local,
                        remote_balance: new_remote,
                        last_rebalance: Some(now),
                        ..c
                    },
                );
                proof {
                    assert(self@ =~= s1.update(
                        j as int,
                        settled_target(s0[j as int], amount, now),
                    ));
                }
            },
            None => {},
        }
        Ok(true)
    }

    /// Liquidity health in one pass: channel counts, cumulative rebalances
    /// and the mean imbalance ratio over active channels.
    pub fn get_rebalancing_stats(&self) -> (r: Result<RebalancingStats, CoreError>)
        requires
            sum_rebalances(self@) <= u32::MAX,
        ensures
            r == Ok::<RebalancingStats, CoreError>(
                rebalancing_stats_of(self@, self.spec_threshold()),
            ),
    {
        let ghost s = self@;
        let ghost t = self.spec_threshold();
        let mut i: usize = 0;
        let mut active: usize = 0;
        let mut imbalanced: usize = 0;
        let mut rebalances: u32 = 0;
        let mut ratio_sum: u128 = 0;
        while i < self.channels.len()
            invariant
                s == self@,
                t == self.spec_threshold(),
                i <= s.len(),
                active as int == count_active(s.take(i as int)),
                imbalanced as int == count_imbalanced(s.take(i as int), t),
                rebalances as int == sum_rebalances(s.take(i as int)),
                ratio_sum as int == sum_ratio_active(s.take(i as int)),
                sum_rebalances(s) <= u32::MAX,
            decreases s.len() - i,
        {
            proof {
                assert(s.take(i + 1).drop_last() =~= s.take(i as int));
                assert(s.take(i + 1).last() == s[i as int]);
                lemma_prefix_aggregates(s, t, i + 1);
                lemma_counts_bounds(s.take(i as int), t);
                lemma_counts_bounds(s.take(i + 1), t);
                lemma_ratio_ppm_bounds(s[i as int]);
            }
            let ch = &self.channels[i];
            if ch.is_active {
                active += 1;
                let ratio = self.calculate_balance_ratio(ch);
                ratio_sum += ratio as u128;
                if ratio > self.rebalance_threshold_ppm {
                    imbalanced += 1;
                }
            }
            rebalances += ch.rebalance_count;
            i += 1;
        }
        proof {
            assert(s.take(i as int) =~= s);
            lemma_counts_bounds(s, t);
        }
        let avg: u64 = if active > 0 {
            proof {
                assert(ratio_sum as int / active as int <= u64::MAX) by (nonlinear_arith)
                    requires
                        ratio_sum as int <= count_active(s) * (u64::MAX as int),
                        active as int == count_active(s),
                        active > 0,
                ;
            }
            (ratio_sum / active as u128) as u64
        } else {
            0
        };
        Ok(
            RebalancingStats {
                total_channels: self.channels.len(),
                active_channels: active,
                imbalanced_channels: imbalanced,
                total_rebalances: rebalances,
                avg_balance_ratio_ppm: avg,
                rebalance_threshold_ppm: self.rebalance_threshold_ppm,
            },
        )
    }
}

/// A channel's local and remote balances sum to its capacity.
pub open spec fn split_ok(c: ChannelInfo) -> bool {
    c.local_balance + c.remote_balance == c.capacity
}

/// A settled rebalance keeps every channel's capacity split: if each
/// channel's local and remote balances sum to its capacity before the move,
/// they still do afterward, for the source, the target, and every untouched
/// channel.
pub proof fn lemma_rebalance_keeps_capacity_split(
    s: Seq<ChannelInfo>,
    i: int,
    j: int,
    amount: u64,
    now: u64,
)
    requires
        forall|k: int| 0 <= k < s.len() ==> split_ok(#[trigger] s[k]),
        0 <= i < s.len(),
        0 <= j < s.len(),
        i != j,
        can_receive(s[j], s[i].channel_id@, amount as int),
    ensures
        forall|k: int|
            0 <= k < s.len() ==> split_ok(
                #[trigger] s.update(i, settled_source(s[i], amount, now)).update(
                    j,
                    settled_target(s[j], amount, now),
                )[k],
            ),
{
    let s2 = s.update(i, settled_source(s[i], amount, now)).update(
        j,
        settled_target(s[j], amount, now),
    );
    assert forall|k: int| 0 <= k < s.len() implies split_ok(s2[k]) by {
        assert(split_ok(s[k]));
        if k == i {
            assert(s[i].local_balance <= s[i].capacity);
        } else if k == j {
            assert((s[j].local_balance + amount) as int <= ideal_balance(s[j]));
            assert(ideal_balance(s[j]) <= s[j].capacity as int);
        } else {
            assert(s2[k] == s[k]);
        }
    }
}

} // verus!
