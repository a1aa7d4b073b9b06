//! Channel registry: lifecycle and capacity bookkeeping for the node's own
//! payment channels.  The registry owns the authoritative set of channels,
//! enforces size and per-peer limits, and exposes balance aggregates.

use vstd::prelude::*;
use vstd::seq_lib::*;

use crate::trusted::fresh_uuid_string;
use crate::trusted::str_eq;
use crate::CoreError;

verus! {

/// Lifecycle state of one payment channel.
#[derive(Debug, Clone, Copy, PartialEq, Eq, Structural)]
pub enum ChannelState {
    Pending,
    Open,
    Closing,
    Closed,
    Error,
}

/// One payment channel owned by this node.  Timestamps are Unix seconds.
#[derive(Debug)]
pub struct ChannelInfo {
    pub channel_id: String,
    pub peer_id: String,
    pub capacity_sats: u64,
    pub local_balance_sats: u64,
    pub remote_balance_sats: u64,
    pub state: ChannelState,
    pub created_at: u64,
    pub updated_at: u64,
}

impl Clone for ChannelInfo {
    fn clone(&self) -> (r: Self)
        ensures
            r == *self,
    {
        ChannelInfo {
            channel_id: self.channel_id.clone(),
            peer_id: self.peer_id.clone(),
            capacity_sats: self.capacity_sats,
            local_balance_sats: self.local_balance_sats,
            remote_balance_sats: self.remote_balance_sats,
            state: self.state,
            created_at: self.created_at,
            updated_at: self.updated_at,
        }
    }
}

/// Static limits that the registry enforces.
#[derive(Debug, Clone, Copy, PartialEq, Eq, Structural)]
pub struct ChannelConfig {
    pub min_channel_size: u64,
    pub max_channel_size: u64,
    pub max_channels_per_peer: u32,
    pub channel_fee_rate: u64,
    pub channel_timeout: u64,
}

impl Default for ChannelConfig {
    fn default() -> (r: Self)
        ensures
            r.min_channel_size == 100_000,
            r.max_channel_size == 10_000_000,
            r.max_channels_per_peer == 5,
            r.channel_fee_rate == 1,
            r.channel_timeout == 144,
    {
        ChannelConfig {
            min_channel_size: 100_000,
            max_channel_size: 10_000_000,
            max_channels_per_peer: 5,
            channel_fee_rate: 1,
            channel_timeout: 144,
        }
    }
}

/// Whether some channel in `s` carries the id `id`.
pub open spec fn contains_id(s: Seq<ChannelInfo>, id: Seq<char>) -> bool {
    exists|i: int| 0 <= i < s.len() && s[i].channel_id@ == id
}

/// How many channels in `s` belong to peer `p`.
pub open spec fn peer_count(s: Seq<ChannelInfo>, p: Seq<char>) -> int
    decreases s.len(),
{
    if s.len() == 0 {
        0
    } else {
        peer_count(s.drop_last(), p) + if s.last().peer_id@ == p { 1int } else { 0int }
    }
}

/// How many channels in `s` are in state `st`.
pub open spec fn count_state(s: Seq<ChannelInfo>, st: ChannelState) -> int
    decreases s.len(),
{
    if s.len() == 0 {
        0
    } else {
        count_state(s.drop_last(), st) + if s.last().state == st { 1int } else { 0int }
    }
}

/// Total capacity over the channels in `s` that are `Open`.
pub open spec fn sum_open_capacity(s: Seq<ChannelInfo>) -> int
    decreases s.len(),
{
    if s.len() == 0 {
        0
    } else {
        sum_open_capacity(s.drop_last()) + if s.last().state == ChannelState::Open {
            s.last().capacity_sats as int
        } else {
            0int
        }
    }
}

/// Total local balance over the channels in `s` that are `Open`.
pub open spec fn sum_open_local(s: Seq<ChannelInfo>) -> int
    decreases s.len(),
{
    if s.len() == 0 {
        0
    } else {
        sum_open_local(s.drop_last()) + if s.last().state == ChannelState::Open {
            s.last().local_balance_sats as int
        } else {
            0int
        }
    }
}

/// Total remote balance over the channels in `s` that are `Open`.
pub open spec fn sum_open_remote(s: Seq<ChannelInfo>) -> int
    decreases s.len(),
{
    if s.len() == 0 {
        0
    } else {
        sum_open_remote(s.drop_last()) + if s.last().state == ChannelState::Open {
            s.last().remote_balance_sats as int
        } else {
            0int
        }
    }
}

pub proof fn lemma_count_state_bounds(s: Seq<ChannelInfo>, st: ChannelState)
    ensures
        0 <= count_state(s, st) <= s.len(),
    decreases s.len(),
{
    if s.len() > 0 {
        lemma_count_state_bounds(s.drop_last(), st);
    }
}

proof fn lemma_sums_nonneg(s: Seq<ChannelInfo>)
    ensures
        sum_open_capacity(s) >= 0,
        sum_open_local(s) >= 0,
        sum_open_remote(s) >= 0,
    decreases s.len(),
{
    if s.len() > 0 {
        lemma_sums_nonneg(s.drop_last());
    }
}

/// A prefix of `s` never sums to more than `s` itself.
proof fn lemma_sums_prefix(s: Seq<ChannelInfo>, i: int)
    requires
        0 <= i <= s.len(),
    ensures
        sum_open_capacity(s.take(i)) <= sum_open_capacity(s),
        sum_open_local(s.take(i)) <= sum_open_local(s),
        sum_open_remote(s.take(i)) <= sum_open_remote(s),
    decreases s.len(),
{
    if i == s.len() {
        assert(s.take(i) =~= s);
    } else {
        assert(s.drop_last().take(i) =~= s.take(i));
        lemma_sums_prefix(s.drop_last(), i);
        lemma_sums_nonneg(s);
    }
}

/// Per-state counts plus the aggregates over open channels.
#[derive(Debug, Clone, Copy, PartialEq, Eq, Structural)]
pub struct ChannelStats {
    pub total_channels: usize,
    pub open_channels: usize,
    pub pending_channels: usize,
    pub closing_channels: usize,
    pub closed_channels: usize,
    pub total_capacity: u64,
    pub total_local_balance: u64,
    pub total_remote_balance: u64,
}

/// The statistics that `get_channel_stats` reports for a channel set.
pub open spec fn channel_stats_of(s: Seq<ChannelInfo>) -> ChannelStats {
    ChannelStats {
        total_channels: s.len() as usize,
        open_channels: count_state(s, ChannelState::Open) as usize,
        pending_channels: count_state(s, ChannelState::Pending) as usize,
        closing_channels: count_state(s, ChannelState::Closing) as usize,
        closed_channels: count_state(s, ChannelState::Closed) as usize,
        total_capacity: sum_open_capacity(s) as u64,
        total_local_balance: sum_open_local(s) as u64,
        total_remote_balance: sum_open_remote(s) as u64,
    }
}

/// Manages the node's own Lightning Network channels.
#[derive(Debug)]
pub struct ChannelManager {
    channels: Vec<ChannelInfo>,
    config: ChannelConfig,
}

/// `ch` is the record that a fresh channel gets at creation time.
pub open spec fn spec_new_channel(id: String, peer: String, cap: u64, now: u64) -> ChannelInfo {
    ChannelInfo {
        channel_id: id,
        peer_id: peer,
        capacity_sats: cap,
        local_balance_sats: 0,
        remote_balance_sats: cap,
        state: ChannelState::Pending,
        created_at: now,
        updated_at: now,
    }
}

impl ChannelManager {
    /// Channel ids are unique within the registry.
    pub closed spec fn wf(self) -> bool {
        forall|i: int, j: int|
            0 <= i < j < self.channels@.len() ==> self.channels@[i].channel_id@
                != self.channels@[j].channel_id@
    }

    /// The registry's channel records, in insertion order.
    pub closed spec fn view(self) -> Seq<ChannelInfo> {
        self.channels@
    }

    /// The limits the registry was created with.
    pub closed spec fn spec_config(self) -> ChannelConfig {
        self.config
    }

    pub fn new(config: ChannelConfig) -> (r: Self)
        ensures
            r.wf(),
            r@ =~= Seq::<ChannelInfo>::empty(),
            r.spec_config() == config,
    {
        ChannelManager { channels: Vec::new(), config }
    }

    /// The position of the channel carrying `channel_id`, if any.
    fn find_index(&self, channel_id: &str) -> (r: Option<usize>)
        ensures
            match r {
                Some(i) => i < self@.len() && self@[i as int].channel_id@ == channel_id@,
                None => !contains_id(self@, channel_id@),
            },
    {
        let mut i: usize = 0;
        while i < self.channels.len()
            invariant
                i <= self.channels.len(),
                forall|j: int| 0 <= j < i ==> self.channels@[j].channel_id@ != channel_id@,
            decreases self.channels.len() - i,
        {
            if str_eq(self.channels[i].channel_id.as_str(), channel_id) {
                return Some(i);
            }
            i += 1;
        }
        None
    }

    /// How many channels the registry holds for `peer_id`.
    fn count_peer_channels(&self, peer_id: &str) -> (r: usize)
        ensures
            r as int == peer_count(self@, peer_id@),
    {
        let mut i: usize = 0;
        let mut cnt: usize = 0;
        while i < self.channels.len()
            invariant
                i <= self.channels.len(),
                cnt as int == peer_count(self.channels@.take(i as int), peer_id@),
                cnt <= i,
            decreases self.channels.len() - i,
        {
            proof {
                assert(self.channels@.take(i + 1).drop_last() =~= self.channels@.take(i as int));
                assert(self.channels@.take(i + 1).last() == self.channels@[i as int]);
            }
            if str_eq(self.channels[i].peer_id.as_str(), peer_id) {
                cnt += 1;
            }
            i += 1;
        }
        proof {
            assert(self.channels@.take(i as int) =~= self.channels@);
        }
        cnt
    }

    /// Create a new channel with a peer.  The capacity must lie within the
    /// configured bounds and the peer must be under its channel cap; on
    /// success a `Pending` channel with the full capacity on the remote side
    /// is recorded under a freshly generated id, and that id is returned.
    pub fn create_channel(&mut self, peer_id: String, capacity_sats: u64, now: u64) -> (r: Result<
        String,
        CoreError,
    >)
        requires
            old(self).wf(),
        ensures
            final(self).wf(),
            final(self).spec_config() == old(self).spec_config(),
            (capacity_sats < old(self).spec_config().min_channel_size || capacity_sats > old(self).spec_config().max_channel_size) ==> (r == Err::<String, CoreError>(
                CoreError::Validation,
            ) && *final(self) == *old(self)),
            (old(self).spec_config().min_channel_size <= capacity_sats <= old(self).spec_config().max_channel_size && peer_count(old(self)@, peer_id@) >= old(self).spec_config().max_channels_per_peer as int) ==> (r == Err::<String, CoreError>(
                CoreError::Validation,
            ) && *final(self) == *old(self)),
            (old(self).spec_config().min_channel_size <= capacity_sats <= old(self).spec_config().max_channel_size && peer_count(old(self)@, peer_id@) < old(self).spec_config().max_channels_per_peer as int) ==> (r matches Ok(id) && id@.len() == 39
                && (!contains_id(old(self)@, id@) ==> final(self)@ =~= old(self)@.push(
                spec_new_channel(id, peer_id, capacity_sats, now),
            )) && (contains_id(old(self)@, id@) ==> exists|i: int|
                0 <= i < old(self)@.len() && old(self)@[i].channel_id@ == id@ && final(self)@
                    =~= old(self)@.update(i, spec_new_channel(id, peer_id, capacity_sats, now)))),
            r matches Err(e) ==> e == CoreError::Validation && *final(self) == *old(self),
    {
        if capacity_sats < self.config.min_channel_size
            || capacity_sats > self.config.max_channel_size {
            return Err(CoreError::Validation);
        }
        let count = self.count_peer_channels(peer_id.as_str());
        if count >= self.config.max_channels_per_peer as usize {
            return Err(CoreError::Validation);
        }
        let suffix = fresh_uuid_string();
        let channel_id = String::from_str("ch_").concat(suffix.as_str());
        proof {
            reveal_strlit("ch_");
        }
        let info = ChannelInfo {
            channel_id: channel_id.clone(),
            peer_id,
            capacity_sats,
            local_balance_sats: 0,
            remote_balance_sats: capacity_sats,
            state: ChannelState::Pending,
            created_at: now,
            updated_at: now,
        };
        match self.find_index(channel_id.as_str()) {
            Some(i) => {
                self.channels.set(i, info);
            },
            None => {
                self.channels.push(info);
            },
        }
        Ok(channel_id)
    }

    /// The channel carrying `channel_id`, if the registry holds one.
    pub fn get_channel(&self, channel_id: &str) -> (r: Option<ChannelInfo>)
        requires
            self.wf(),
        ensures
            match r {
                Some(c) => contains_id(self@, channel_id@) && c.channel_id@ == channel_id@
                    && self@.contains(c),
                None => !contains_id(self@, channel_id@),
            },
    {
        match self.find_index(channel_id) {
            Some(i) => Some(self.channels[i].clone()),
            None => None,
        }
    }

    /// All channel records, in insertion order.
    pub fn get_all_channels(&self) -> (r: Vec<ChannelInfo>)
        ensures
            r@ =~= self@,
    {
        let mut out: Vec<ChannelInfo> = Vec::new();
        let mut i: usize = 0;
        while i < self.channels.len()
            invariant
                i <= self.channels.len(),
                out@ =~= self.channels@.take(i as int),
            decreases self.channels.len() - i,
        {
            out.push(self.channels[i].clone());
            proof {
                assert(self.channels@.take(i + 1) =~= self.channels@.take(i as int).push(
                    self.channels@[i as int],
                ));
            }
            i += 1;
        }
        proof {
            assert(self.channels@.take(i as int) =~= self.channels@);
        }
        out
    }

    /// The channels that belong to `peer_id`, in insertion order.
    pub fn get_channels_by_peer(&self, peer_id: &str) -> (r: Vec<ChannelInfo>)
        ensures
            r@ =~= self@.filter(|c: ChannelInfo| c.peer_id@ == peer_id@),
    {
        broadcast use Seq::lemma_filter_push;

        let ghost pred = |c: ChannelInfo| c.peer_id@ == peer_id@;
        let mut out: Vec<ChannelInfo> = Vec::new();
        let mut i: usize = 0;
        while i < self.channels.len()
            invariant
                i <= self.channels.len(),
                out@ =~= self.channels@.take(i as int).filter(pred),
                pred == (|c: ChannelInfo| c.peer_id@ == peer_id@),
            decreases self.channels.len() - i,
        {
            proof {
                assert(self.channels@.take(i + 1) =~= self.channels@.take(i as int).push(
                    self.channels@[i as int],
                ));
                self.channels@.take(i as int).lemma_filter_push(self.channels@[i as int], pred);
            }
            if str_eq(self.channels[i].peer_id.as_str(), peer_id) {
                out.push(self.channels[i].clone());
            }
            i += 1;
        }
        proof {
            assert(self.channels@.take(i as int) =~= self.channels@);
        }
        out
    }

    /// Overwrite a channel's state and refresh its update time.  No
    /// transition-validity checking is enforced; that is the caller's
    /// responsibility.
    pub fn update_channel_state(&mut self, channel_id: &str, state: ChannelState, now: u64) -> (r:
        Result<(), CoreError>)
        requires
            old(self).wf(),
        ensures
            final(self).wf(),
            final(self).spec_config() == old(self).spec_config(),
            contains_id(old(self)@, channel_id@) ==> (r == Ok::<(), CoreError>(()) && exists|i: int|
                0 <= i < old(self)@.len() && old(self)@[i].channel_id@ == channel_id@ && final(self)@ =~= old(self)@.update(
                    i,
                    ChannelInfo {
                        state: state,
                        updated_at: now,
                        ..old(self)@[i]
                    },
                )),
            !contains_id(old(self)@, channel_id@) ==> (r == Err::<(), CoreError>(
                CoreError::NotFound,
            ) && *final(self) == *old(self)),
    {
        match self.find_index(channel_id) {
            Some(i) => {
                let old_info = self.channels[i].clone();
                self.channels.set(
                    i,
                    ChannelInfo { state, updated_at: now, ..old_info },
                );
                Ok(())
            },
            None => Err(CoreError::NotFound),
        }
    }

    /// Overwrite both balances of a channel and refresh its update time.
    /// Callers must preserve `local + remote == capacity` themselves.
    pub fn update_channel_balance(
        &mut self,
        channel_id: &str,
        local_balance_sats: u64,
        remote_balance_sats: u64,
        now: u64,
    ) -> (r: Result<(), CoreError>)
        requires
            old(self).wf(),
        ensures
            final(self).wf(),
            final(self).spec_config() == old(self).spec_config(),
            contains_id(old(self)@, channel_id@) ==> (r == Ok::<(), CoreError>(()) && exists|i: int|
                0 <= i < old(self)@.len() && old(self)@[i].channel_id@ == channel_id@ && final(self)@ =~= old(self)@.update(
                    i,
                    ChannelInfo {
                        local_balance_sats: local_balance_sats,
                        remote_balance_sats: remote_balance_sats,
                        updated_at: now,
                        ..old(self)@[i]
                    },
                )),
            !contains_id(old(self)@, channel_id@) ==> (r == Err::<(), CoreError>(
                CoreError::NotFound,
            ) && *final(self) == *old(self)),
    {
        match self.find_index(channel_id) {
            Some(i) => {
                let old_info = self.channels[i].clone();
                self.channels.set(
                    i,
                    ChannelInfo {
                        local_balance_sats,
                        remote_balance_sats,
                        updated_at: now,
                        ..old_info
                    },
                );
                Ok(())
            },
            None => Err(CoreError::NotFound),
        }
    }

    /// Request the channel's close: shorthand for moving it to `Closing`.
    pub fn close_channel(&mut self, channel_id: &str, now: u64) -> (r: Result<(), CoreError>)
        requires
            old(self).wf(),
        ensures
            final(self).wf(),
            final(self).spec_config() == old(self).spec_config(),
            contains_id(old(self)@, channel_id@) ==> (r == Ok::<(), CoreError>(()) && exists|i: int|
                0 <= i < old(self)@.len() && old(self)@[i].channel_id@ == channel_id@ && final(self)@ =~= old(self)@.update(
                    i,
                    ChannelInfo {
                        state: ChannelState::Closing,
                        updated_at: now,
                        ..old(self)@[i]
                    },
                )),
            !contains_id(old(self)@, channel_id@) ==> (r == Err::<(), CoreError>(
                CoreError::NotFound,
            ) && *final(self) == *old(self)),
    {
        self.update_channel_state(channel_id, ChannelState::Closing, now)
    }

    /// Total capacity over open channels.
    pub fn get_total_capacity(&self) -> (r: u64)
        requires
            sum_open_capacity(self@) <= u64::MAX,
        ensures
            r as int == sum_open_capacity(self@),
    {
        let mut i: usize = 0;
        let mut total: u64 = 0;
        while i < self.channels.len()
            invariant
                i <= self.channels.len(),
                total as int == sum_open_capacity(self.channels@.take(i as int)),
                sum_open_capacity(self@) <= u64::MAX,
            decreases self.channels.len() - i,
        {
            proof {
                assert(self.channels@.take(i + 1).drop_last() =~= self.channels@.take(i as int));
                assert(self.channels@.take(i + 1).last() == self.channels@[i as int]);
                lemma_sums_prefix(self.channels@, i + 1);
                lemma_sums_nonneg(self.channels@.take(i as int));
            }
            if self.channels[i].state == ChannelState::Open {
                total += self.channels[i].capacity_sats;
            }
            i += 1;
        }
        proof {
            assert(self.channels@.take(i as int) =~= self.channels@);
        }
        total
    }

    /// Total local balance over open channels.
    pub fn get_total_local_balance(&self) -> (r: u64)
        requires
            sum_open_local(self@) <= u64::MAX,
        ensures
            r as int == sum_open_local(self@),
    {
        let mut i: usize = 0;
        let mut total: u64 = 0;
        while i < self.channels.len()
            invariant
                i <= self.channels.len(),
                total as int == sum_open_local(self.channels@.take(i as int)),
                sum_open_local(self@) <= u64::MAX,
            decreases self.channels.len() - i,
        {
            proof {
                assert(self.channels@.take(i + 1).drop_last() =~= self.channels@.take(i as int));
                assert(self.channels@.take(i + 1).last() == self.channels@[i as int]);
                lemma_sums_prefix(self.channels@, i + 1);
                lemma_sums_nonneg(self.channels@.take(i as int));
            }
            if self.channels[i].state == ChannelState::Open {
                total += self.channels[i].local_balance_sats;
            }
            i += 1;
        }
        proof {
            assert(self.channels@.take(i as int) =~= self.channels@);
        }
        total
    }

    /// Total remote balance over open channels.
    pub fn get_total_remote_balance(&self) -> (r: u64)
        requires
            sum_open_remote(self@) <= u64::MAX,
        ensures
            r as int == sum_open_remote(self@),
    {
        let mut i: usize = 0;
        let mut total: u64 = 0;
        while i < self.channels.len()
            invariant
                i <= self.channels.len(),
                total as int == sum_open_remote(self.channels@.take(i as int)),
                sum_open_remote(self@) <= u64::MAX,
            decreases self.channels.len() - i,
        {
            proof {
                assert(self.channels@.take(i + 1).drop_last() =~= self.channels@.take(i as int));
                assert(self.channels@.take(i + 1).last() == self.channels@[i as int]);
                lemma_sums_prefix(self.channels@, i + 1);
                lemma_sums_nonneg(self.channels@.take(i as int));
            }
            if self.channels[i].state == ChannelState::Open {
                total += self.channels[i].remote_balance_sats;
            }
            i += 1;
        }
        proof {
            assert(self.channels@.take(i as int) =~= self.channels@);
        }
        total
    }

    /// Counts per state plus the open-channel aggregates, in a single pass.
    pub fn get_channel_stats(&self) -> (r: ChannelStats)
        requires
            sum_open_capacity(self@) <= u64::MAX,
            sum_open_local(self@) <= u64::MAX,
            sum_open_remote(self@) <= u64::MAX,
        ensures
            r == channel_stats_of(self@),
    {
        let mut i: usize = 0;
        let mut open_channels: usize = 0;
        let mut pending_channels: usize = 0;
        let mut closing_channels: usize = 0;
        let mut closed_channels: usize = 0;
        let mut total_capacity: u64 = 0;
        let mut total_local_balance: u64 = 0;
        let mut total_remote_balance: u64 = 0;
        while i < self.channels.len()
            invariant
                i <= self.channels.len(),
                open_channels as int == count_state(
                    self.channels@.take(i as int),
                    ChannelState::Open,
                ),
                pending_channels as int == count_state(
                    self.channels@.take(i as int),
                    ChannelState::Pending,
                ),
                closing_channels as int == count_state(
                    self.channels@.take(i as int),
                    ChannelState::Closing,
                ),
                closed_channels as int == count_state(
                    self.channels@.take(i as int),
                    ChannelState::Closed,
                ),
                total_capacity as int == sum_open_capacity(self.channels@.take(i as int)),
                total_local_balance as int == sum_open_local(self.channels@.take(i as int)),
                total_remote_balance as int == sum_open_remote(self.channels@.take(i as int)),
                sum_open_capacity(self@) <= u64::MAX,
                sum_open_local(self@) <= u64::MAX,
                sum_open_remote(self@) <= u64::MAX,
            decreases self.channels.len() - i,
        {
            proof {
                assert(self.channels@.take(i + 1).drop_last() =~= self.channels@.take(i as int));
                assert(self.channels@.take(i + 1).last() == self.channels@[i as int]);
                lemma_sums_prefix(self.channels@, i + 1);
                lemma_sums_nonneg(self.channels@.take(i as int));
                lemma_count_state_bounds(self.channels@.take(i as int), ChannelState::Open);
                lemma_count_state_bounds(self.channels@.take(i as int), ChannelState::Pending);
                lemma_count_state_bounds(self.channels@.take(i as int), ChannelState::Closing);
                lemma_count_state_bounds(self.channels@.take(i as int), ChannelState::Closed);
            }
            let st = self.channels[i].state;
            if st == ChannelState::Open {
                open_channels += 1;
                total_capacity += self.channels[i].capacity_sats;
                total_local_balance += self.channels[i].local_balance_sats;
                total_remote_balance += self.channels[i].remote_balance_sats;
            } else if st == ChannelState::Pending {
                pending_channels += 1;
            } else if st == ChannelState::Closing {
                closing_channels += 1;
            } else if st == ChannelState::Closed {
                closed_channels += 1;
            }
            i += 1;
        }
        proof {
            assert(self.channels@.take(i as int) =~= self.channels@);
            lemma_count_state_bounds(self.channels@, ChannelState::Open);
            lemma_count_state_bounds(self.channels@, ChannelState::Pending);
            lemma_count_state_bounds(self.channels@, ChannelState::Closing);
            lemma_count_state_bounds(self.channels@, ChannelState::Closed);
            lemma_sums_nonneg(self.channels@);
        }
        ChannelStats {
            total_channels: self.channels.len(),
            open_channels,
            pending_channels,
            closing_channels,
            closed_channels,
            total_capacity,
            total_local_balance,
            total_remote_balance,
        }
    }
}

/// Reading the channel statistics is idempotent: two reads of the same
/// registry state report the same statistics, since the result is a function
/// of that state alone.
pub proof fn lemma_channel_stats_idempotent(
    m: ChannelManager,
    r1: ChannelStats,
    r2: ChannelStats,
)
    requires
        r1 == channel_stats_of(m@),
        r2 == channel_stats_of(m@),
    ensures
        r1 == r2,
{
}


/// Every open channel's local and remote balances sum to its capacity.
pub open spec fn open_split_ok(s: Seq<ChannelInfo>) -> bool {
    forall|i: int|
        0 <= i < s.len() && (#[trigger] s[i]).state == ChannelState::Open
            ==> s[i].local_balance_sats + s[i].remote_balance_sats == s[i].capacity_sats
}

/// A balance write that respects a channel's capacity keeps the open-channel
/// split invariant: when every open channel's balances sum to its capacity
/// and the new pair sums to the written channel's capacity, the invariant
/// still holds afterward.
pub proof fn lemma_balance_update_keeps_open_split(
    s: Seq<ChannelInfo>,
    i: int,
    local: u64,
    remote: u64,
    now: u64,
)
    requires
        open_split_ok(s),
        0 <= i < s.len(),
        local + remote == s[i].capacity_sats,
    ensures
        open_split_ok(
            s.update(
                i,
                ChannelInfo {
                    local_balance_sats: local,
                    remote_balance_sats: remote,
                    updated_at: now,
                    ..s[i]
                },
            ),
        ),
{
}

} // verus!
