//! Payment bookkeeping of the Lightning layer: a map of payment records
//! keyed by payment hash, with state transitions driven by the caller.

use vstd::prelude::*;
use vstd::seq_lib::*;

use crate::trusted::str_eq;
use crate::CoreError;

verus! {

/// Lifecycle state of one payment record.
#[derive(Debug, Clone, Copy, PartialEq, Eq, Structural)]
pub enum PaymentState {
    Pending,
    InFlight,
    Succeeded,
    Failed,
}

/// One payment, keyed by its payment hash.
#[derive(Debug)]
pub struct PaymentInfo {
    pub payment_hash: String,
    pub amount_msat: u64,
    pub destination: String,
    pub state: PaymentState,
    pub created_at: u64,
    pub completed_at: Option<u64>,
    pub failure_reason: Option<String>,
}

impl Clone for PaymentInfo {
    fn clone(&self) -> (r: Self)
        ensures
            r == *self,
    {
        PaymentInfo {
            payment_hash: self.payment_hash.clone(),
            amount_msat: self.amount_msat,
            destination: self.destination.clone(),
            state: self.state,
            created_at: self.created_at,
            completed_at: self.completed_at,
            failure_reason: match &self.failure_reason {
                Some(e) => Some(e.clone()),
                None => None,
            },
        }
    }
}

/// Whether some record in `s` carries the hash `h`.
pub open spec fn contains_hash(s: Seq<PaymentInfo>, h: Seq<char>) -> bool {
    exists|i: int| 0 <= i < s.len() && s[i].payment_hash@ == h
}

/// The record of `s` carrying `h`; meaningful when hashes are unique.
pub open spec fn payment_by_hash(s: Seq<PaymentInfo>, h: Seq<char>) -> PaymentInfo {
    s[choose|i: int| 0 <= i < s.len() && s[i].payment_hash@ == h]
}

/// With unique hashes, looking a record up by its own hash gives it back.
pub proof fn lemma_payment_by_hash(s: Seq<PaymentInfo>, i: int)
    requires
        forall|x: int, y: int| 0 <= x < y < s.len() ==> s[x].payment_hash@ != s[y].payment_hash@,
        0 <= i < s.len(),
    ensures
        payment_by_hash(s, s[i].payment_hash@) == s[i],
{
    let h = s[i].payment_hash@;
    assert(0 <= i < s.len() && s[i].payment_hash@ == h);
    let i2 = choose|i2: int| 0 <= i2 < s.len() && s[i2].payment_hash@ == h;
    if i2 != i {
        if i2 < i {
            assert(s[i2].payment_hash@ != s[i].payment_hash@);
        } else {
            assert(s[i].payment_hash@ != s[i2].payment_hash@);
        }
    }
}

/// The record after a state write at time `now`: a terminal state also
/// stamps the completion time.
pub open spec fn with_state(
    p: PaymentInfo,
    state: PaymentState,
    failure_reason: Option<String>,
    now: u64,
) -> PaymentInfo {
    PaymentInfo {
        state: state,
        failure_reason: failure_reason,
        completed_at: if state == PaymentState::Succeeded || state == PaymentState::Failed {
            Some(now)
        } else {
            p.completed_at
        },
        ..p
    }
}

/// Tracks Lightning payments by payment hash.
#[derive(Debug)]
pub struct PaymentProcessor {
    payments: Vec<PaymentInfo>,
}

impl PaymentProcessor {
    /// Payment hashes are unique within the processor.
    pub closed spec fn wf(self) -> bool {
        forall|i: int, j: int|
            0 <= i < j < self.payments@.len() ==> self.payments@[i].payment_hash@
                != self.payments@[j].payment_hash@
    }

    /// The payment records, in insertion order.
    pub closed spec fn view(self) -> Seq<PaymentInfo> {
        self.payments@
    }

    pub fn new() -> (r: Self)
        ensures
            r.wf(),
            r@ =~= Seq::<PaymentInfo>::empty(),
    {
        PaymentProcessor { payments: Vec::new() }
    }

    fn find_index(&self, payment_hash: &str) -> (r: Option<usize>)
        ensures
            match r {
                Some(i) => i < self@.len() && self@[i as int].payment_hash@ == payment_hash@,
                None => !contains_hash(self@, payment_hash@),
            },
    {
        let mut i: usize = 0;
        while i < self.payments.len()
            invariant
                i <= self.payments.len(),
                forall|j: int| 0 <= j < i ==> self.payments@[j].payment_hash@ != payment_hash@,
            decreases self.payments.len() - i,
        {
            if str_eq(self.payments[i].payment_hash.as_str(), payment_hash) {
                return Some(i);
            }
            i += 1;
        }
        None
    }

    /// Record a new pending payment under its hash and hand it back; a
    /// record already under the same hash is replaced.
    pub fn create_payment(
        &mut self,
        payment_hash: String,
        amount_msat: u64,
        destination: String,
        now: u64,
    ) -> (r: Result<PaymentInfo, CoreError>)
        requires
            old(self).wf(),
        ensures
            final(self).wf(),
            r matches Ok(p) && p.payment_hash == payment_hash && p.amount_msat == amount_msat
                && p.destination == destination && p.state == PaymentState::Pending && p.created_at
                == now && p.completed_at is None && p.failure_reason is None && (!contains_hash(
                old(self)@,
                payment_hash@,
            ) ==> final(self)@ =~= old(self)@.push(p)) && (contains_hash(
                old(self)@,
                payment_hash@,
            ) ==> exists|i: int|
                0 <= i < old(self)@.len() && old(self)@[i].payment_hash@ == payment_hash@ && final(self)@ =~= old(self)@.update(i, p)),
    {
        let info = PaymentInfo {
            payment_hash: payment_hash.clone(),
            amount_msat,
            destination,
            state: PaymentState::Pending,
            created_at: now,
            completed_at: None,
            failure_reason: None,
        };
        let out = info.clone();
        match self.find_index(payment_hash.as_str()) {
            Some(i) => {
                self.payments.set(i, info);
                Ok(out)
            },
            None => {
                self.payments.push(info);
                Ok(out)
            },
        }
    }

    /// The record under one payment hash, if any.
    pub fn get_payment(&self, payment_hash: &str) -> (r: Option<PaymentInfo>)
        requires
            self.wf(),
        ensures
            contains_hash(self@, payment_hash@) ==> r == Some(
                payment_by_hash(self@, payment_hash@),
            ),
            !contains_hash(self@, payment_hash@) ==> r is None,
    {
        match self.find_index(payment_hash) {
            Some(i) => {
                proof {
                    lemma_payment_by_hash(self@, i as int);
                }
                Some(self.payments[i].clone())
            },
            None => None,
        }
    }

    /// Overwrite a record's state; a terminal state also stamps the
    /// completion time.
    pub fn update_payment_state(
        &mut self,
        payment_hash: &str,
        state: PaymentState,
        failure_reason: Option<String>,
        now: u64,
    ) -> (r: Result<(), CoreError>)
        requires
            old(self).wf(),
        ensures
            final(self).wf(),
            !contains_hash(old(self)@, payment_hash@) ==> (r == Err::<(), CoreError>(
                CoreError::NotFound,
            ) && final(self)@ == old(self)@),
            contains_hash(old(self)@, payment_hash@) ==> (r == Ok::<(), CoreError>(()) && exists|
                i: int,
            |
                0 <= i < old(self)@.len() && old(self)@[i].payment_hash@ == payment_hash@ && final(self)@ =~= old(self)@.update(
                    i,
                    with_state(old(self)@[i], state, failure_reason, now),
                )),
    {
        match self.find_index(payment_hash) {
            Some(i) => {
                let p = self.payments[i].clone();
                let completed_at = if state == PaymentState::Succeeded || state
                    == PaymentState::Failed {
                    Some(now)
                } else {
                    p.completed_at
                };
                self.payments.set(
                    i,
                    PaymentInfo { state, failure_reason, completed_at, ..p },
                );
                Ok(())
            },
            None => Err(CoreError::NotFound),
        }
    }

    /// Every record, in insertion order.
    pub fn get_all_payments(&self) -> (r: Vec<PaymentInfo>)
        ensures
            r@ =~= self@,
    {
        let mut out: Vec<PaymentInfo> = Vec::new();
        let mut i: usize = 0;
        while i < self.payments.len()
            invariant
                i <= self.payments.len(),
                out@ =~= self.payments@.take(i as int),
            decreases self.payments.len() - i,
        {
            out.push(self.payments[i].clone());
            proof {
                assert(self.payments@.take(i + 1) =~= self.payments@.take(i as int).push(
                    self.payments@[i as int],
                ));
            }
            i += 1;
        }
        proof {
            assert(self.payments@.take(i as int) =~= self.payments@);
        }
        out
    }

    /// The records in one state, in insertion order.
    pub fn get_payments_by_state(&self, state: PaymentState) -> (r: Vec<PaymentInfo>)
        ensures
            r@ =~= self@.filter(|p: PaymentInfo| p.state == state),
    {
        broadcast use Seq::lemma_filter_push;

        let ghost pred = |p: PaymentInfo| p.state == state;
        let mut out: Vec<PaymentInfo> = Vec::new();
        let mut i: usize = 0;
        while i < self.payments.len()
            invariant
                i <= self.payments.len(),
                out@ =~= self.payments@.take(i as int).filter(pred),
                pred == (|p: PaymentInfo| p.state == state),
            decreases self.payments.len() - i,
        {
            proof {
                assert(self.payments@.take(i + 1) =~= self.payments@.take(i as int).push(
                    self.payments@[i as int],
                ));
                self.payments@.take(i as int).lemma_filter_push(self.payments@[i as int], pred);
            }
            if self.payments[i].state == state {
                out.push(self.payments[i].clone());
            }
            i += 1;
        }
        proof {
            assert(self.payments@.take(i as int) =~= self.payments@);
        }
        out
    }

    /// Drive a known payment through the runtime stub, which settles at
    /// once: the record passes `InFlight` and lands `Succeeded`, and the
    /// settled record comes back.
    pub fn process_payment(&mut self, payment_hash: &str, now: u64) -> (r: Result<
        PaymentInfo,
        CoreError,
    >)
        requires
            old(self).wf(),
        ensures
            final(self).wf(),
            !contains_hash(old(self)@, payment_hash@) ==> (r == Err::<PaymentInfo, CoreError>(
                CoreError::NotFound,
            ) && final(self)@ == old(self)@),
            contains_hash(old(self)@, payment_hash@) ==> exists|i: int|
                0 <= i < old(self)@.len() && old(self)@[i].payment_hash@ == payment_hash@ && final(self)@ =~= old(self)@.update(
                    i,
                    with_state(old(self)@[i], PaymentState::Succeeded, None, now),
                ) && r == Ok::<PaymentInfo, CoreError>(
                    with_state(old(self)@[i], PaymentState::Succeeded, None, now),
                ),
    {
        match self.find_index(payment_hash) {
            Some(i) => {
                let p = self.payments[i].clone();
                // The in-flight step is immediately overtaken by the stub's
                // settlement, so only the settled record is stored.
                let settled = PaymentInfo {
                    state: PaymentState::Succeeded,
                    failure_reason: None,
                    completed_at: Some(now),
                    ..p
                };
                let out = settled.clone();
                self.payments.set(i, settled);
                Ok(out)
            },
            None => Err(CoreError::NotFound),
        }
    }

    /// Cancel a payment: it is recorded as `Failed` with a fixed reason.
    pub fn cancel_payment(&mut self, payment_hash: &str, now: u64) -> (r: Result<(), CoreError>)
        requires
            old(self).wf(),
        ensures
            final(self).wf(),
            !contains_hash(old(self)@, payment_hash@) ==> (r == Err::<(), CoreError>(
                CoreError::NotFound,
            ) && final(self)@ == old(self)@),
            contains_hash(old(self)@, payment_hash@) ==> (r == Ok::<(), CoreError>(()) && final(self)@.len() == old(self)@.len() && exists|i: int|
                0 <= i < old(self)@.len() && old(self)@[i].payment_hash@ == payment_hash@ && final(self)@[i].state == PaymentState::Failed && final(self)@[i].completed_at == Some(now)
                    && (final(self)@[i].failure_reason matches Some(m) && m@
                    == "Payment cancelled by user"@) && final(self)@[i].payment_hash == old(self)@[i].payment_hash && final(self)@[i].amount_msat == old(self)@[i].amount_msat
                    && final(self)@[i].destination == old(self)@[i].destination && final(self)@[i].created_at == old(self)@[i].created_at && (forall|j: int|
                    0 <= j < old(self)@.len() && j != i ==> final(self)@[j] == old(self)@[j])),
    {
        match self.find_index(payment_hash) {
            Some(i) => {
                let p = self.payments[i].clone();
                self.payments.set(
                    i,
                    PaymentInfo {
                        state: PaymentState::Failed,
                        completed_at: Some(now),
                        failure_reason: Some(String::from_str("Payment cancelled by user")),
                        ..p
                    },
                );
                Ok(())
            },
            None => Err(CoreError::NotFound),
        }
    }
}

impl Default for PaymentProcessor {
    fn default() -> (r: Self)
        ensures
            r.wf(),
            r@ =~= Seq::<PaymentInfo>::empty(),
    {
        PaymentProcessor::new()
    }
}

} // verus!
