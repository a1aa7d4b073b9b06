//! Mixing service: rounds of transaction mixing that participants join
//! until a quorum forms, with fees and time estimates per strategy.

use vstd::prelude::*;
use vstd::seq_lib::*;

use crate::trusted::str_eq;
use crate::trusted::u64_to_string;
use crate::CoreError;

verus! {

/// How a round mixes its inputs.
#[derive(Debug, Clone, Copy, PartialEq, Eq, Structural)]
pub enum MixingStrategy {
    CoinJoin,
    ChaumianBlindSignatures,
    ZeroKnowledgeProofs,
    RingSignatures,
    TumbleBit,
}

/// Lifecycle state of a round.
#[derive(Debug, Clone, Copy, PartialEq, Eq, Structural)]
pub enum MixingStatus {
    Waiting,
    InProgress,
    Completed,
    Failed,
    Cancelled,
}

/// One participant of a round.
#[derive(Debug)]
pub struct MixingParticipant {
    pub participant_id: String,
    pub input_amount: u64,
    pub output_address: String,
    pub anonymity_set: usize,
    pub joined_at: u64,
}

impl Clone for MixingParticipant {
    fn clone(&self) -> (r: Self)
        ensures
            r == *self,
    {
        MixingParticipant {
            participant_id: self.participant_id.clone(),
            input_amount: self.input_amount,
            output_address: self.output_address.clone(),
            anonymity_set: self.anonymity_set,
            joined_at: self.joined_at,
        }
    }
}

/// One mixing round.
#[derive(Debug)]
pub struct MixingRound {
    pub round_id: String,
    pub participants: Vec<MixingParticipant>,
    pub strategy: MixingStrategy,
    pub created_at: u64,
    pub status: MixingStatus,
    pub total_amount: u64,
}

fn copy_participants(v: &Vec<MixingParticipant>) -> (r: Vec<MixingParticipant>)
    ensures
        r@ =~= v@,
{
    let mut out: Vec<MixingParticipant> = Vec::new();
    let mut i: usize = 0;
    while i < v.len()
        invariant
            i <= v.len(),
            out@ =~= v@.take(i as int),
        decreases v.len() - i,
    {
        out.push(v[i].clone());
        proof {
            assert(v@.take(i + 1) =~= v@.take(i as int).push(v@[i as int]));
        }
        i += 1;
    }
    proof {
        assert(v@.take(i as int) =~= v@);
    }
    out
}

/// `a` and `b` describe the same round: every field holds the same content.
pub open spec fn round_like(a: MixingRound, b: MixingRound) -> bool {
    a.round_id == b.round_id && a.participants@ == b.participants@ && a.strategy == b.strategy
        && a.created_at == b.created_at && a.status == b.status && a.total_amount
        == b.total_amount
}

impl Clone for MixingRound {
    fn clone(&self) -> (r: Self)
        ensures
            round_like(r, *self),
    {
        MixingRound {
            round_id: self.round_id.clone(),
            participants: copy_participants(&self.participants),
            strategy: self.strategy,
            created_at: self.created_at,
            status: self.status,
            total_amount: self.total_amount,
        }
    }
}

/// Aggregate view over all rounds.
#[derive(Debug, Clone, Copy, PartialEq, Eq, Structural)]
pub struct MixingStats {
    pub total_rounds: usize,
    pub completed_rounds: usize,
    pub active_rounds: usize,
    pub total_participants: usize,
    pub total_amount: u64,
    pub average_anonymity_set: usize,
}

/// Whether some round in `s` carries the id `id`.
pub open spec fn contains_round(s: Seq<MixingRound>, id: Seq<char>) -> bool {
    exists|i: int| 0 <= i < s.len() && s[i].round_id@ == id
}

/// A round still gathering or mixing.
pub open spec fn is_active_round(r: MixingRound) -> bool {
    r.status == MixingStatus::Waiting || r.status == MixingStatus::InProgress
}

/// How many rounds of `s` are active.
pub open spec fn count_active_rounds(s: Seq<MixingRound>) -> int
    decreases s.len(),
{
    if s.len() == 0 {
        0
    } else {
        count_active_rounds(s.drop_last()) + if is_active_round(s.last()) { 1int } else { 0int }
    }
}

/// How many rounds of `s` completed.
pub open spec fn count_completed_rounds(s: Seq<MixingRound>) -> int
    decreases s.len(),
{
    if s.len() == 0 {
        0
    } else {
        count_completed_rounds(s.drop_last()) + if s.last().status == MixingStatus::Completed {
            1int
        } else {
            0int
        }
    }
}

/// Total participants across all rounds of `s`.
pub open spec fn sum_participants(s: Seq<MixingRound>) -> int
    decreases s.len(),
{
    if s.len() == 0 {
        0
    } else {
        sum_participants(s.drop_last()) + s.last().participants@.len()
    }
}

/// Total participants across the completed rounds of `s`.
pub open spec fn sum_completed_participants(s: Seq<MixingRound>) -> int
    decreases s.len(),
{
    if s.len() == 0 {
        0
    } else {
        sum_completed_participants(s.drop_last()) + if s.last().status
            == MixingStatus::Completed {
            s.last().participants@.len() as int
        } else {
            0int
        }
    }
}

/// Total amount across all rounds of `s`.
pub open spec fn sum_round_amounts(s: Seq<MixingRound>) -> int
    decreases s.len(),
{
    if s.len() == 0 {
        0
    } else {
        sum_round_amounts(s.drop_last()) + s.last().total_amount as int
    }
}

proof fn lemma_round_aggregates(s: Seq<MixingRound>)
    ensures
        0 <= count_active_rounds(s) <= s.len(),
        0 <= count_completed_rounds(s) <= s.len(),
        0 <= sum_participants(s),
        0 <= sum_completed_participants(s) <= sum_participants(s),
        0 <= sum_round_amounts(s),
    decreases s.len(),
{
    if s.len() > 0 {
        lemma_round_aggregates(s.drop_last());
    }
}

proof fn lemma_round_aggregates_prefix(s: Seq<MixingRound>, i: int)
    requires
        0 <= i <= s.len(),
    ensures
        sum_participants(s.take(i)) <= sum_participants(s),
        sum_round_amounts(s.take(i)) <= sum_round_amounts(s),
    decreases s.len(),
{
    if i == s.len() {
        assert(s.take(i) =~= s);
    } else {
        assert(s.drop_last().take(i) =~= s.take(i));
        lemma_round_aggregates_prefix(s.drop_last(), i);
        lemma_round_aggregates(s);
    }
}

/// The fee in parts per thousand that each strategy charges.
pub open spec fn fee_per_mille(strategy: MixingStrategy) -> int {
    match strategy {
        MixingStrategy::CoinJoin => 1,
        MixingStrategy::ChaumianBlindSignatures => 2,
        MixingStrategy::ZeroKnowledgeProofs => 3,
        MixingStrategy::RingSignatures => 2,
        MixingStrategy::TumbleBit => 5,
    }
}

/// The base mixing time of each strategy, in seconds.
pub open spec fn base_mixing_time(strategy: MixingStrategy) -> int {
    match strategy {
        MixingStrategy::CoinJoin => 300,
        MixingStrategy::ChaumianBlindSignatures => 600,
        MixingStrategy::ZeroKnowledgeProofs => 900,
        MixingStrategy::RingSignatures => 450,
        MixingStrategy::TumbleBit => 1200,
    }
}

/// Coordinates mixing rounds.
#[derive(Debug)]
pub struct MixingService {
    active_rounds: Vec<MixingRound>,
    mixing_strategy: MixingStrategy,
    min_participants: usize,
    max_participants: usize,
}

impl MixingService {
    /// Round ids are unique.
    pub closed spec fn wf(self) -> bool {
        forall|i: int, j: int|
            0 <= i < j < self.active_rounds@.len() ==> self.active_rounds@[i].round_id@
                != self.active_rounds@[j].round_id@
    }

    /// The tracked rounds, in insertion order.
    pub closed spec fn view(self) -> Seq<MixingRound> {
        self.active_rounds@
    }

    /// The strategy new rounds use.
    pub closed spec fn spec_strategy(self) -> MixingStrategy {
        self.mixing_strategy
    }

    /// The quorum a round needs to start mixing.
    pub closed spec fn spec_min_participants(self) -> usize {
        self.min_participants
    }

    /// The most participants a round takes.
    pub closed spec fn spec_max_participants(self) -> usize {
        self.max_participants
    }

    pub fn new() -> (r: Self)
        ensures
            r.wf(),
            r@ =~= Seq::<MixingRound>::empty(),
            r.spec_strategy() == MixingStrategy::CoinJoin,
            r.spec_min_participants() == 3,
            r.spec_max_participants() == 10,
    {
        MixingService {
            active_rounds: Vec::new(),
            mixing_strategy: MixingStrategy::CoinJoin,
            min_participants: 3,
            max_participants: 10,
        }
    }

    /// A service with a chosen strategy and participant window.
    pub fn with_config(strategy: MixingStrategy, min_participants: usize, max_participants: usize) -> (r: Self)
        ensures
            r.wf(),
            r@ =~= Seq::<MixingRound>::empty(),
            r.spec_strategy() == strategy,
            r.spec_min_participants() == min_participants,
            r.spec_max_participants() == max_participants,
    {
        MixingService { active_rounds: Vec::new(), mixing_strategy: strategy, min_participants, max_participants }
    }

    fn find_index(&self, round_id: &str) -> (r: Option<usize>)
        ensures
            match r {
                Some(i) => i < self@.len() && self@[i as int].round_id@ == round_id@,
                None => !contains_round(self@, round_id@),
            },
    {
        let mut i: usize = 0;
        while i < self.active_rounds.len()
            invariant
                i <= self.active_rounds.len(),
                forall|j: int| 0 <= j < i ==> self.active_rounds@[j].round_id@ != round_id@,
            decreases self.active_rounds.len() - i,
        {
            if str_eq(self.active_rounds[i].round_id.as_str(), round_id) {
                return Some(i);
            }
            i += 1;
        }
        None
    }

    /// Open a new round under a freshly drawn id: it waits for participants
    /// with the service's strategy.  A drawn id that collides replaces the
    /// colliding round.
    pub fn start_mixing_round(&mut self, now: u64) -> (r: Result<String, CoreError>)
        requires
            old(self).wf(),
        ensures
            final(self).wf(),
            final(self).spec_strategy() == old(self).spec_strategy(),
            final(self).spec_min_participants() == old(self).spec_min_participants(),
            final(self).spec_max_participants() == old(self).spec_max_participants(),
            r matches Ok(id) && (!contains_round(old(self)@, id@) ==> final(self)@.len() == old(self)@.len() + 1) && contains_round(final(self)@, id@) && exists|i: int|
                0 <= i < final(self)@.len() && final(self)@[i].round_id@ == id@ && final(self)@[i].participants@.len() == 0 && final(self)@[i].strategy == old(self).spec_strategy() && final(self)@[i].created_at == now && final(self)@[i].status
                    == MixingStatus::Waiting && final(self)@[i].total_amount == 0,
    {
        let draw: u32 = rand::random::<u32>();
        let num = u64_to_string(draw as u64);
        let round_id = String::from_str("round_").concat(num.as_str());
        let round = MixingRound {
            round_id: round_id.clone(),
            participants: Vec::new(),
            strategy: self.mixing_strategy,
            created_at: now,
            status: MixingStatus::Waiting,
            total_amount: 0,
        };
        match self.find_index(round_id.as_str()) {
            Some(i) => {
                self.active_rounds.set(i, round);
                proof {
                    assert(final(self)@[i as int].round_id@ == round_id@);
                }
                Ok(round_id)
            },
            None => {
                self.active_rounds.push(round);
                proof {
                    assert(final(self)@[final(self)@.len() - 1].round_id@ == round_id@);
                }
                Ok(round_id)
            },
        }
    }

    /// The round carrying `round_id`, if any.
    pub fn get_round(&self, round_id: &str) -> (r: Option<MixingRound>)
        ensures
            match r {
                Some(rd) => rd.round_id@ == round_id@ && exists|i: int|
                    0 <= i < self@.len() && round_like(rd, self@[i]),
                None => !contains_round(self@, round_id@),
            },
    {
        match self.find_index(round_id) {
            Some(i) => Some(self.active_rounds[i].clone()),
            None => None,
        }
    }

    /// The rounds still gathering or mixing, in insertion order.
    pub fn get_active_rounds(&self) -> (r: Vec<MixingRound>)
        ensures
            r@.len() == count_active_rounds(self@),
            forall|i: int|
                0 <= i < r@.len() ==> (is_active_round(#[trigger] r@[i]) && exists|j: int|
                    0 <= j < self@.len() && round_like(r@[i], self@[j])),
    {
        let ghost s = self.active_rounds@;
        let mut out: Vec<MixingRound> = Vec::new();
        let mut i: usize = 0;
        while i < self.active_rounds.len()
            invariant
                s == self.active_rounds@,
                i <= s.len(),
                out@.len() == count_active_rounds(s.take(i as int)),
                forall|j: int|
                    0 <= j < out@.len() ==> (is_active_round(#[trigger] out@[j]) && exists|
                        j2: int,
                    |
                        0 <= j2 < s.len() && round_like(out@[j], s[j2])),
            decreases s.len() - i,
        {
            proof {
                assert(s.take(i + 1).drop_last() =~= s.take(i as int));
                assert(s.take(i + 1).last() == s[i as int]);
                lemma_round_aggregates(s.take(i as int));
            }
            let st = self.active_rounds[i].status;
            if st == MixingStatus::Waiting || st == MixingStatus::InProgress {
                out.push(self.active_rounds[i].clone());
            }
            i += 1;
        }
        proof {
            assert(s.take(i as int) =~= s);
            assert forall|x: int| 0 <= x < out@.len() implies exists|j: int|
                0 <= j < self@.len() && round_like(#[trigger] out@[x], self@[j]) by {
                let j2 = choose|j2: int| 0 <= j2 < s.len() && round_like(out@[x], s[j2]);
                assert(round_like(out@[x], self@[j2]));
            }
        }
        out
    }

    /// The completed rounds, in insertion order.
    pub fn get_completed_rounds(&self) -> (r: Vec<MixingRound>)
        ensures
            r@.len() == count_completed_rounds(self@),
            forall|i: int|
                0 <= i < r@.len() ==> ((#[trigger] r@[i]).status == MixingStatus::Completed
                    && exists|j: int| 0 <= j < self@.len() && round_like(r@[i], self@[j])),
    {
        let ghost s = self.active_rounds@;
        let mut out: Vec<MixingRound> = Vec::new();
        let mut i: usize = 0;
        while i < self.active_rounds.len()
            invariant
                s == self.active_rounds@,
                i <= s.len(),
                out@.len() == count_completed_rounds(s.take(i as int)),
                forall|j: int|
                    0 <= j < out@.len() ==> ((#[trigger] out@[j]).status == MixingStatus::Completed
                        && exists|j2: int| 0 <= j2 < s.len() && round_like(out@[j], s[j2])),
            decreases s.len() - i,
        {
            proof {
                assert(s.take(i + 1).drop_last() =~= s.take(i as int));
                assert(s.take(i + 1).last() == s[i as int]);
                lemma_round_aggregates(s.take(i as int));
            }
            if self.active_rounds[i].status == MixingStatus::Completed {
                out.push(self.active_rounds[i].clone());
            }
            i += 1;
        }
        proof {
            assert(s.take(i as int) =~= s);
            assert forall|x: int| 0 <= x < out@.len() implies exists|j: int|
                0 <= j < self@.len() && round_like(#[trigger] out@[x], self@[j]) by {
                let j2 = choose|j2: int| 0 <= j2 < s.len() && round_like(out@[x], s[j2]);
                assert(round_like(out@[x], self@[j2]));
            }
        }
        out
    }

    /// Cancel a round that is still waiting; one already mixing cannot be
    /// cancelled.
    pub fn cancel_round(&mut self, round_id: &str) -> (r: Result<(), CoreError>)
        requires
            old(self).wf(),
        ensures
            final(self).wf(),
            final(self).spec_strategy() == old(self).spec_strategy(),
            final(self).spec_min_participants() == old(self).spec_min_participants(),
            final(self).spec_max_participants() == old(self).spec_max_participants(),
            !contains_round(old(self)@, round_id@) ==> (r == Err::<(), CoreError>(
                CoreError::NotFound,
            ) && final(self)@ == old(self)@),
            contains_round(old(self)@, round_id@) ==> exists|i: int|
                0 <= i < old(self)@.len() && old(self)@[i].round_id@ == round_id@ && (if old(self)@[i].status == MixingStatus::Waiting {
                    r == Ok::<(), CoreError>(()) && final(self)@.len() == old(self)@.len()
                        && final(self)@[i].status == MixingStatus::Cancelled && round_like(
                        final(self)@[i],
                        MixingRound { status: MixingStatus::Cancelled, ..old(self)@[i] },
                    ) && (forall|j: int|
                        0 <= j < old(self)@.len() && j != i ==> final(self)@[j] == old(self)@[j])
                } else {
                    r == Err::<(), CoreError>(CoreError::Validation) && final(self)@ == old(self)@
                }),
    {
        match self.find_index(round_id) {
            Some(i) => {
                if self.active_rounds[i].status == MixingStatus::Waiting {
                    let rd = self.active_rounds[i].clone();
                    let ghost old_rd = self.active_rounds@[i as int];
                    self.active_rounds.set(
                        i,
                        MixingRound { status: MixingStatus::Cancelled, ..rd },
                    );
                    proof {
                        assert(final(self)@[i as int].round_id@ == round_id@);
                    }
                    Ok(())
                } else {
                    Err(CoreError::Validation)
                }
            },
            None => Err(CoreError::NotFound),
        }
    }

    /// Add a participant to a waiting round.  A full or already-mixing
    /// round refuses the join; reaching the quorum executes the round at
    /// once, with the stub mixing successfully on nineteen draws out of
    /// twenty and granting every participant the full anonymity set.
    pub fn join_round(&mut self, round_id: &str, participant: MixingParticipant) -> (r: Result<
        (),
        CoreError,
    >)
        requires
            old(self).wf(),
            forall|i: int|
                0 <= i < old(self)@.len() && (#[trigger] old(self)@[i]).round_id@ == round_id@
                    ==> old(self)@[i].total_amount + participant.input_amount <= u64::MAX,
        ensures
            final(self).wf(),
            final(self).spec_strategy() == old(self).spec_strategy(),
            final(self).spec_min_participants() == old(self).spec_min_participants(),
            final(self).spec_max_participants() == old(self).spec_max_participants(),
            !contains_round(old(self)@, round_id@) ==> (r == Err::<(), CoreError>(
                CoreError::NotFound,
            ) && final(self)@ == old(self)@),
            contains_round(old(self)@, round_id@) ==> exists|i: int|
                0 <= i < old(self)@.len() && (#[trigger] old(self)@[i]).round_id@ == round_id@
                    && joined_round_outcome(
                    old(self)@,
                    final(self)@,
                    i,
                    participant,
                    old(self).spec_min_participants(),
                    old(self).spec_max_participants(),
                    r,
                ),
    {
        let idx = match self.find_index(round_id) {
            Some(i) => i,
            None => {
                return Err(CoreError::NotFound);
            },
        };
        if !(self.active_rounds[idx].status == MixingStatus::Waiting) {
            return Err(CoreError::Validation);
        }
        if self.active_rounds[idx].participants.len() >= self.max_participants {
            return Err(CoreError::Validation);
        }
        let mut round = self.active_rounds[idx].clone();
        let ghost before = self.active_rounds@[idx as int];
        round.participants.push(participant.clone());
        round.total_amount = round.total_amount + participant.input_amount;
        let quorum = round.participants.len() >= self.min_participants;
        if !quorum {
            self.active_rounds.set(idx, round);
            proof {
                assert(final(self)@[idx as int].round_id@ == round_id@);
            }
            return Ok(());
        }
        // The quorum is in: execute the round through the mixing stub.
        let draw: u32 = rand::random::<u32>();
        // Nineteen in twenty draws of the stub mix successfully.
        if draw >= 214_748_365 {
            let n = round.participants.len();
            let mut mixed: Vec<MixingParticipant> = Vec::new();
            let mut k: usize = 0;
            while k < round.participants.len()
                invariant
                    k <= round.participants@.len(),
                    mixed@.len() == k,
                    forall|t: int|
                        0 <= t < k ==> #[trigger] mixed@[t] == (MixingParticipant {
                            anonymity_set: n,
                            ..round.participants@[t]
                        }),
                    n == round.participants@.len(),
                decreases round.participants.len() - k,
            {
                let p = round.participants[k].clone();
                mixed.push(MixingParticipant { anonymity_set: n, ..p });
                k += 1;
            }
            round.participants = mixed;
            round.status = MixingStatus::Completed;
            self.active_rounds.set(idx, round);
            Ok(())
        } else {
            round.status = MixingStatus::Failed;
            self.active_rounds.set(idx, round);
            Err(CoreError::TransientRuntime)
        }
    }

    /// The fee for mixing `amount` under the service's strategy: one to
    /// five parts per thousand.
    pub fn calculate_mixing_fee(&self, amount: u64) -> (r: u64)
        ensures
            r as int == amount * fee_per_mille(self.spec_strategy()) / 1000,
    {
        let k: u64 = match self.mixing_strategy {
            MixingStrategy::CoinJoin => 1,
            MixingStrategy::ChaumianBlindSignatures => 2,
            MixingStrategy::ZeroKnowledgeProofs => 3,
            MixingStrategy::RingSignatures => 2,
            MixingStrategy::TumbleBit => 5,
        };
        proof {
            assert((amount as int) * (k as int) <= (u64::MAX as int) * 5) by (nonlinear_arith)
                requires
                    0 <= amount as int <= u64::MAX as int,
                    0 <= k as int <= 5,
            ;
        }
        let q: u128 = (amount as u128) * (k as u128) / 1000;
        proof {
            assert((amount as int) * (k as int) / 1000 <= amount as int) by (nonlinear_arith)
                requires
                    0 <= amount as int,
                    0 <= k as int <= 5,
            ;
        }
        q as u64
    }

    /// How long a round is expected to take: the strategy's base time plus
    /// a minute for each participant still missing.  Unknown rounds have no
    /// estimate.
    pub fn estimate_mixing_time(&self, round_id: &str) -> (r: Option<u64>)
        ensures
            !contains_round(self@, round_id@) ==> r is None,
            contains_round(self@, round_id@) ==> exists|i: int|
                0 <= i < self@.len() && self@[i].round_id@ == round_id@ && r == Some(
                    spec_mixing_time(
                        self.spec_strategy(),
                        self.spec_min_participants() as int,
                        self@[i].participants@.len() as int,
                    ),
                ),
    {
        match self.find_index(round_id) {
            Some(i) => {
                let joined = self.active_rounds[i].participants.len();
                let needed: usize = if self.min_participants >= joined {
                    self.min_participants - joined
                } else {
                    0
                };
                let base: u64 = match self.mixing_strategy {
                    MixingStrategy::CoinJoin => 300,
                    MixingStrategy::ChaumianBlindSignatures => 600,
                    MixingStrategy::ZeroKnowledgeProofs => 900,
                    MixingStrategy::RingSignatures => 450,
                    MixingStrategy::TumbleBit => 1200,
                };
                let extra: u128 = (needed as u128) * 60;
                let total: u128 = (base as u128) + extra;
                if total > u64::MAX as u128 {
                    Some(u64::MAX)
                } else {
                    Some(total as u64)
                }
            },
            None => None,
        }
    }

    /// The aggregate view: round counts, participants, total amount, and
    /// the mean anonymity set over completed rounds.
    pub fn get_mixing_stats(&self) -> (r: MixingStats)
        requires
            sum_participants(self@) <= usize::MAX,
            sum_round_amounts(self@) <= u64::MAX,
        ensures
            r.total_rounds == self@.len(),
            r.completed_rounds as int == count_completed_rounds(self@),
            r.active_rounds as int == count_active_rounds(self@),
            r.total_participants as int == sum_participants(self@),
            r.total_amount as int == sum_round_amounts(self@),
            count_completed_rounds(self@) > 0 ==> r.average_anonymity_set as int
                == sum_completed_participants(self@) / count_completed_rounds(self@),
            count_completed_rounds(self@) == 0 ==> r.average_anonymity_set == 0,
    {
        let ghost s = self.active_rounds@;
        let mut i: usize = 0;
        let mut completed: usize = 0;
        let mut active: usize = 0;
        let mut participants: usize = 0;
        let mut completed_participants: usize = 0;
        let mut amount: u64 = 0;
        while i < self.active_rounds.len()
            invariant
                s == self.active_rounds@,
                i <= s.len(),
                completed as int == count_completed_rounds(s.take(i as int)),
                active as int == count_active_rounds(s.take(i as int)),
                participants as int == sum_participants(s.take(i as int)),
                completed_participants as int == sum_completed_participants(s.take(i as int)),
                amount as int == sum_round_amounts(s.take(i as int)),
                sum_participants(s) <= usize::MAX,
                sum_round_amounts(s) <= u64::MAX,
            decreases s.len() - i,
        {
            proof {
                assert(s.take(i + 1).drop_last() =~= s.take(i as int));
                assert(s.take(i + 1).last() == s[i as int]);
                lemma_round_aggregates(s.take(i as int));
                lemma_round_aggregates(s.take(i + 1));
                lemma_round_aggregates_prefix(s, i + 1);
            }
            let st = self.active_rounds[i].status;
            if st == MixingStatus::Completed {
                completed += 1;
                completed_participants += self.active_rounds[i].participants.len();
            }
            if st == MixingStatus::Waiting || st == MixingStatus::InProgress {
                active += 1;
            }
            participants += self.active_rounds[i].participants.len();
            amount += self.active_rounds[i].total_amount;
            i += 1;
        }
        proof {
            assert(s.take(i as int) =~= s);
            lemma_round_aggregates(s);
        }
        let average_anonymity_set: usize = if completed > 0 {
            proof {
                assert(
                    sum_completed_participants(s) / count_completed_rounds(s) <= sum_participants(
                        s,
                    )) by (nonlinear_arith)
                    requires
                        0 <= sum_completed_participants(s) <= sum_participants(s),
                        count_completed_rounds(s) >= 1,
                ;
            }
            completed_participants / completed
        } else {
            0
        };
        MixingStats {
            total_rounds: self.active_rounds.len(),
            completed_rounds: completed,
            active_rounds: active,
            total_participants: participants,
            total_amount: amount,
            average_anonymity_set,
        }
    }
}

/// What joining round `i` did, depending on its state: a refusal leaves
/// everything as it was; a plain join appends the participant and its
/// amount; a join that completes the quorum also executes the round, which
/// either completes with every participant carrying the full anonymity set
/// or fails with the round intact otherwise.
pub open spec fn joined_round_outcome(
    before: Seq<MixingRound>,
    after: Seq<MixingRound>,
    i: int,
    participant: MixingParticipant,
    min_participants: usize,
    max_participants: usize,
    r: Result<(), CoreError>,
) -> bool {
    let rd = before[i];
    if rd.status != MixingStatus::Waiting || rd.participants@.len() >= max_participants {
        r == Err::<(), CoreError>(CoreError::Validation) && after == before
    } else {
        let joined = rd.participants@.push(participant);
        &&& after.len() == before.len()
        &&& (forall|j: int| 0 <= j < before.len() && j != i ==> after[j] == before[j])
        &&& after[i].round_id == rd.round_id
        &&& after[i].strategy == rd.strategy
        &&& after[i].created_at == rd.created_at
        &&& after[i].total_amount == rd.total_amount + participant.input_amount
        &&& (joined.len() < min_participants ==> (r == Ok::<(), CoreError>(())
            && after[i].status == MixingStatus::Waiting && after[i].participants@ == joined))
        &&& (joined.len() >= min_participants ==> ((r == Ok::<(), CoreError>(())
            && after[i].status == MixingStatus::Completed && after[i].participants@.len()
            == joined.len() && (forall|t: int|
            0 <= t < joined.len() ==> after[i].participants@[t] == (MixingParticipant {
                anonymity_set: joined.len() as usize,
                ..joined[t]
            }))) || (r == Err::<(), CoreError>(CoreError::TransientRuntime) && after[i].status
            == MixingStatus::Failed && after[i].participants@ == joined)))
    }
}

/// The expected duration of a round: the strategy's base time plus a
/// minute for each participant still missing, stopped at the largest value.
pub open spec fn spec_mixing_time(strategy: MixingStrategy, min: int, joined: int) -> u64 {
    let needed = if min >= joined {
        min - joined
    } else {
        0
    };
    let total = base_mixing_time(strategy) + needed * 60;
    if total > u64::MAX as int {
        u64::MAX
    } else {
        total as u64
    }
}

} // verus!
