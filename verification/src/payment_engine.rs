//! Payment engine: the per-payment state machine with bounded retry.  A
//! payment is created `Pending`, moves to `Processing` when an attempt
//! starts, and on failure is either requeued as `Retrying` into a time-keyed
//! retry queue or finalized `Failed` once the budget is spent.  The
//! asynchronous driver that talks to the Lightning runtime lives outside the
//! library and feeds attempt outcomes back in.

use vstd::prelude::*;
use vstd::seq_lib::*;

use crate::trusted::fresh_uuid_string;
use crate::trusted::str_eq;
use crate::CoreError;

verus! {

/// Lifecycle state of one payment.  `Succeeded`, `Failed` and `Cancelled`
/// are terminal: no later write touches such a payment.
#[derive(Debug, Clone, Copy, PartialEq, Eq, Structural)]
pub enum PaymentStatus {
    Pending,
    Processing,
    Succeeded,
    Failed,
    Retrying,
    Cancelled,
}

/// Whether a payment in state `st` accepts no further status writes.
pub open spec fn is_terminal(st: PaymentStatus) -> bool {
    st == PaymentStatus::Succeeded || st == PaymentStatus::Failed || st
        == PaymentStatus::Cancelled
}

/// One outbound payment record.  Timestamps are Unix seconds.
#[derive(Debug)]
pub struct Payment {
    pub payment_id: String,
    pub wallet_id: String,
    pub amount_sats: u64,
    pub invoice: String,
    pub description: String,
    pub status: PaymentStatus,
    pub payment_hash: String,
    pub created_at: u64,
    pub updated_at: u64,
    pub retry_count: u32,
    pub error_message: Option<String>,
}

impl Clone for Payment {
    fn clone(&self) -> (r: Self)
        ensures
            r == *self,
    {
        Payment {
            payment_id: self.payment_id.clone(),
            wallet_id: self.wallet_id.clone(),
            amount_sats: self.amount_sats,
            invoice: self.invoice.clone(),
            description: self.description.clone(),
            status: self.status,
            payment_hash: self.payment_hash.clone(),
            created_at: self.created_at,
            updated_at: self.updated_at,
            retry_count: self.retry_count,
            error_message: match &self.error_message {
                Some(e) => Some(e.clone()),
                None => None,
            },
        }
    }
}

/// One queued retry: which payment, which attempt, and when it is due.
#[derive(Debug)]
pub struct RetryItem {
    pub payment_id: String,
    pub retry_count: u32,
    pub next_retry_at: u64,
    pub error: String,
}

impl Clone for RetryItem {
    fn clone(&self) -> (r: Self)
        ensures
            r == *self,
    {
        RetryItem {
            payment_id: self.payment_id.clone(),
            retry_count: self.retry_count,
            next_retry_at: self.next_retry_at,
            error: self.error.clone(),
        }
    }
}

/// Aggregate payment counts; the success rate is a whole percentage.
#[derive(Debug, Clone, Copy, PartialEq, Eq, Structural)]
pub struct PaymentMetrics {
    pub total_payments: usize,
    pub pending_payments: usize,
    pub processing_payments: usize,
    pub succeeded_payments: usize,
    pub failed_payments: usize,
    pub retry_queue_size: usize,
    pub success_rate_percent: u64,
}

/// Payment ids are pairwise distinct in `s`.
pub open spec fn payment_ids_unique(s: Seq<Payment>) -> bool {
    forall|i: int, j: int| 0 <= i < j < s.len() ==> s[i].payment_id@ != s[j].payment_id@
}

/// Whether some payment in `s` carries the id `id`.
pub open spec fn contains_payment(s: Seq<Payment>, id: Seq<char>) -> bool {
    exists|i: int| 0 <= i < s.len() && s[i].payment_id@ == id
}

/// The payment of `s` carrying `id`; meaningful when ids are unique.
pub open spec fn payment_by_id(s: Seq<Payment>, id: Seq<char>) -> Payment {
    s[choose|i: int| 0 <= i < s.len() && s[i].payment_id@ == id]
}

/// With unique ids, looking a payment up by its own id gives it back.
pub proof fn lemma_payment_by_id(s: Seq<Payment>, i: int)
    requires
        payment_ids_unique(s),
        0 <= i < s.len(),
    ensures
        payment_by_id(s, s[i].payment_id@) == s[i],
{
    let id = s[i].payment_id@;
    assert(0 <= i < s.len() && s[i].payment_id@ == id);
    let i2 = choose|i2: int| 0 <= i2 < s.len() && s[i2].payment_id@ == id;
    if i2 != i {
        if i2 < i {
            assert(s[i2].payment_id@ != s[i].payment_id@);
        } else {
            assert(s[i].payment_id@ != s[i2].payment_id@);
        }
    }
}

/// How many payments of `s` are in state `st`.
pub open spec fn count_status(s: Seq<Payment>, st: PaymentStatus) -> int
    decreases s.len(),
{
    if s.len() == 0 {
        0
    } else {
        count_status(s.drop_last(), st) + if s.last().status == st { 1int } else { 0int }
    }
}

pub proof fn lemma_count_status_bounds(s: Seq<Payment>, st: PaymentStatus)
    ensures
        0 <= count_status(s, st) <= s.len(),
    decreases s.len(),
{
    if s.len() > 0 {
        lemma_count_status_bounds(s.drop_last(), st);
    }
}

/// What one failed attempt does to the retry counter: a payment under
/// budget is requeued as `Retrying` with the counter advanced; one at the
/// budget is finalized `Failed` with the counter untouched.
pub open spec fn failed_step(rc: u32, max: u32) -> (PaymentStatus, u32) {
    if rc < max {
        (PaymentStatus::Retrying, (rc + 1) as u32)
    } else {
        (PaymentStatus::Failed, rc)
    }
}

/// Status and retry counter of a fresh payment after `n` failed attempts.
pub open spec fn failures_outcome(n: nat, max: u32) -> (PaymentStatus, u32)
    decreases n,
{
    if n == 0 {
        (PaymentStatus::Pending, 0u32)
    } else {
        failed_step(failures_outcome((n - 1) as nat, max).1, max)
    }
}

proof fn lemma_failures_upto(n: nat, max: u32)
    requires
        n <= max,
    ensures
        failures_outcome(n, max).1 == n,
        n > 0 ==> failures_outcome(n, max).0 == PaymentStatus::Retrying,
    decreases n,
{
    if n > 0 {
        lemma_failures_upto((n - 1) as nat, max);
    }
}

/// Retry bound: a payment whose every attempt fails is requeued as
/// `Retrying` for each of its first `max` failures and reaches `Failed` on
/// the failure after that — `max + 1` attempts in all — with its retry
/// counter stopped at `max`.  A terminal payment accepts no further attempt,
/// so no later failure can move the counter past `max`.
pub proof fn lemma_retry_bound(max: u32)
    ensures
        forall|n: nat|
            1 <= n <= max ==> (#[trigger] failures_outcome(n, max).0 == PaymentStatus::Retrying
                && failures_outcome(n, max).1 == n),
        failures_outcome((max + 1) as nat, max).0 == PaymentStatus::Failed,
        failures_outcome((max + 1) as nat, max).1 == max,
{
    assert forall|n: nat| 1 <= n <= max implies (#[trigger] failures_outcome(n, max).0
        == PaymentStatus::Retrying && failures_outcome(n, max).1 == n) by {
        lemma_failures_upto(n, max);
    }
    lemma_failures_upto(max as nat, max);
}

/// Drives outbound payments: creation, attempt outcomes, bounded retry
/// through a time-keyed queue, and aggregate metrics.
#[derive(Debug)]
pub struct PaymentProcessor {
    payments: Vec<Payment>,
    retry_queue: Vec<RetryItem>,
    max_retries: u32,
    retry_delay_secs: u64,
}

impl PaymentProcessor {
    /// Payment ids are unique within the processor.
    pub closed spec fn wf(self) -> bool {
        payment_ids_unique(self.payments@)
    }

    /// The payment records, in insertion order.
    pub closed spec fn spec_payments(self) -> Seq<Payment> {
        self.payments@
    }

    /// The queued retries, in arrival order.
    pub closed spec fn spec_retry_queue(self) -> Seq<RetryItem> {
        self.retry_queue@
    }

    /// The retry budget: how many times a failed payment is re-attempted.
    pub closed spec fn spec_max_retries(self) -> u32 {
        self.max_retries
    }

    /// The base retry delay in seconds; attempt `n` waits `n` times this.
    pub closed spec fn spec_retry_delay_secs(self) -> u64 {
        self.retry_delay_secs
    }

    pub fn new() -> (r: Self)
        ensures
            r.wf(),
            r.spec_payments() =~= Seq::<Payment>::empty(),
            r.spec_retry_queue() =~= Seq::<RetryItem>::empty(),
            r.spec_max_retries() == 3,
            r.spec_retry_delay_secs() == 5,
    {
        PaymentProcessor {
            payments: Vec::new(),
            retry_queue: Vec::new(),
            max_retries: 3,
            retry_delay_secs: 5,
        }
    }

    /// A fresh payment id: a short tag plus the head of a random UUID.
    fn generate_id() -> (r: String)
        ensures
            r@.len() == 12,
    {
        let u = fresh_uuid_string();
        let head = u.as_str().substring_ascii(0, 8);
        let r = String::from_str("pay_").concat(head);
        proof {
            reveal_strlit("pay_");
        }
        r
    }

    fn find_index(&self, payment_id: &str) -> (r: Option<usize>)
        ensures
            match r {
                Some(i) => i < self.spec_payments().len() && self.spec_payments()[i as int].payment_id@
                    == payment_id@,
                None => !contains_payment(self.spec_payments(), payment_id@),
            },
    {
        let mut i: usize = 0;
        while i < self.payments.len()
            invariant
                i <= self.payments.len(),
                forall|j: int| 0 <= j < i ==> self.payments@[j].payment_id@ != payment_id@,
            decreases self.payments.len() - i,
        {
            if str_eq(self.payments[i].payment_id.as_str(), payment_id) {
                return Some(i);
            }
            i += 1;
        }
        None
    }

    /// Record a new payment as `Pending` and hand it back; the caller
    /// schedules the asynchronous attempts.  A supplied id is kept, else a
    /// fresh one is generated; a record already under the same id is
    /// replaced.
    pub fn process_payment(
        &mut self,
        payment_id: Option<String>,
        wallet_id: String,
        amount_sats: u64,
        invoice: String,
        description: String,
        now: u64,
    ) -> (r: Result<Payment, CoreError>)
        requires
            old(self).wf(),
        ensures
            final(self).wf(),
            final(self).spec_retry_queue() == old(self).spec_retry_queue(),
            final(self).spec_max_retries() == old(self).spec_max_retries(),
            final(self).spec_retry_delay_secs() == old(self).spec_retry_delay_secs(),
            r matches Ok(p) && p.wallet_id == wallet_id && p.amount_sats == amount_sats
                && p.invoice == invoice && p.description == description && p.status
                == PaymentStatus::Pending && p.payment_hash@ == Seq::<char>::empty()
                && p.created_at == now && p.updated_at == now && p.retry_count == 0
                && p.error_message is None && (payment_id matches Some(id) ==> p.payment_id == id)
                && (payment_id is None ==> p.payment_id@.len() == 12) && (!contains_payment(
                old(self).spec_payments(),
                p.payment_id@,
            ) ==> final(self).spec_payments() =~= old(self).spec_payments().push(p)) && (
            contains_payment(old(self).spec_payments(), p.payment_id@) ==> exists|i: int|
                0 <= i < old(self).spec_payments().len()
                    && old(self).spec_payments()[i].payment_id@ == p.payment_id@ && final(self).spec_payments() =~= old(self).spec_payments().update(i, p)),
    {
        let id = match payment_id {
            Some(id) => id,
            None => Self::generate_id(),
        };
        let payment = Payment {
            payment_id: id.clone(),
            wallet_id,
            amount_sats,
            invoice,
            description,
            status: PaymentStatus::Pending,
            payment_hash: String::new(),
            created_at: now,
            updated_at: now,
            retry_count: 0,
            error_message: None,
        };
        let out = payment.clone();
        match self.find_index(id.as_str()) {
            Some(i) => {
                self.payments.set(i, payment);
            },
            None => {
                self.payments.push(payment);
            },
        }
        Ok(out)
    }

    /// Mark the start of one attempt: the payment moves to `Processing`.
    /// Unknown ids are reported, and a terminal payment is left untouched.
    pub fn begin_attempt(&mut self, payment_id: &str, now: u64) -> (r: Result<(), CoreError>)
        requires
            old(self).wf(),
        ensures
            final(self).wf(),
            final(self).spec_retry_queue() == old(self).spec_retry_queue(),
            final(self).spec_max_retries() == old(self).spec_max_retries(),
            final(self).spec_retry_delay_secs() == old(self).spec_retry_delay_secs(),
            !contains_payment(old(self).spec_payments(), payment_id@) ==> (r == Err::<
                (),
                CoreError,
            >(CoreError::NotFound) && *final(self) == *old(self)),
            contains_payment(old(self).spec_payments(), payment_id@) && is_terminal(
                payment_by_id(old(self).spec_payments(), payment_id@).status,
            ) ==> (r == Err::<(), CoreError>(CoreError::Validation) && *final(self) == *old(self)),
            contains_payment(old(self).spec_payments(), payment_id@) && !is_terminal(
                payment_by_id(old(self).spec_payments(), payment_id@).status,
            ) ==> (r == Ok::<(), CoreError>(()) && exists|i: int|
                0 <= i < old(self).spec_payments().len()
                    && old(self).spec_payments()[i].payment_id@ == payment_id@ && final(self).spec_payments() =~= old(self).spec_payments().update(
                    i,
                    Payment {
                        status: PaymentStatus::Processing,
                        updated_at: now,
                        error_message: None,
                        ..old(self).spec_payments()[i]
                    },
                )),
    {
        match self.find_index(payment_id) {
            Some(i) => {
                proof {
                    lemma_payment_by_id(self.spec_payments(), i as int);
                }
                let st = self.payments[i].status;
                if st == PaymentStatus::Succeeded || st == PaymentStatus::Failed || st
                    == PaymentStatus::Cancelled {
                    return Err(CoreError::Validation);
                }
                let p = self.payments[i].clone();
                self.payments.set(
                    i,
                    Payment { status: PaymentStatus::Processing, updated_at: now, error_message: None, ..p },
                );
                Ok(())
            },
            None => Err(CoreError::NotFound),
        }
    }

    /// Record a successful attempt: the payment becomes `Succeeded` with its
    /// payment hash, and its error is cleared.
    pub fn record_attempt_success(
        &mut self,
        payment_id: &str,
        payment_hash: String,
        now: u64,
    ) -> (r: Result<(), CoreError>)
        requires
            old(self).wf(),
        ensures
            final(self).wf(),
            final(self).spec_retry_queue() == old(self).spec_retry_queue(),
            final(self).spec_max_retries() == old(self).spec_max_retries(),
            final(self).spec_retry_delay_secs() == old(self).spec_retry_delay_secs(),
            !contains_payment(old(self).spec_payments(), payment_id@) ==> (r == Err::<
                (),
                CoreError,
            >(CoreError::NotFound) && *final(self) == *old(self)),
            contains_payment(old(self).spec_payments(), payment_id@) && is_terminal(
                payment_by_id(old(self).spec_payments(), payment_id@).status,
            ) ==> (r == Err::<(), CoreError>(CoreError::Validation) && *final(self) == *old(self)),
            contains_payment(old(self).spec_payments(), payment_id@) && !is_terminal(
                payment_by_id(old(self).spec_payments(), payment_id@).status,
            ) ==> (r == Ok::<(), CoreError>(()) && exists|i: int|
                0 <= i < old(self).spec_payments().len()
                    && old(self).spec_payments()[i].payment_id@ == payment_id@ && final(self).spec_payments() =~= old(self).spec_payments().update(
                    i,
                    Payment {
                        status: PaymentStatus::Succeeded,
                        payment_hash: payment_hash,
                        updated_at: now,
                        error_message: None,
                        ..old(self).spec_payments()[i]
                    },
                )),
    {
        match self.find_index(payment_id) {
            Some(i) => {
                proof {
                    lemma_payment_by_id(self.spec_payments(), i as int);
                }
                let st = self.payments[i].status;
                if st == PaymentStatus::Succeeded || st == PaymentStatus::Failed || st
                    == PaymentStatus::Cancelled {
                    return Err(CoreError::Validation);
                }
                let p = self.payments[i].clone();
                self.payments.set(
                    i,
                    Payment {
                        status: PaymentStatus::Succeeded,
                        payment_hash,
                        updated_at: now,
                        error_message: None,
                        ..p
                    },
                );
                Ok(())
            },
            None => Err(CoreError::NotFound),
        }
    }

    /// Record a failed or timed-out attempt.  Under the retry budget the
    /// payment is requeued as `Retrying` — its counter advances and a retry
    /// item due after a linear backoff joins the queue — and `Ok(true)`
    /// comes back; at the budget it is finalized `Failed` and `Ok(false)`
    /// comes back.  Either way the outcome follows `failed_step`.
    pub fn record_attempt_failure(&mut self, payment_id: &str, error: String, now: u64) -> (r:
        Result<bool, CoreError>)
        requires
            old(self).wf(),
        ensures
            final(self).wf(),
            final(self).spec_max_retries() == old(self).spec_max_retries(),
            final(self).spec_retry_delay_secs() == old(self).spec_retry_delay_secs(),
            !contains_payment(old(self).spec_payments(), payment_id@) ==> (r == Err::<
                bool,
                CoreError,
            >(CoreError::NotFound) && *final(self) == *old(self)),
            contains_payment(old(self).spec_payments(), payment_id@) && is_terminal(
                payment_by_id(old(self).spec_payments(), payment_id@).status,
            ) ==> (r == Err::<bool, CoreError>(CoreError::Validation) && *final(self) == *old(self)),
            contains_payment(old(self).spec_payments(), payment_id@) && !is_terminal(
                payment_by_id(old(self).spec_payments(), payment_id@).status,
            ) ==> {
                let p0 = payment_by_id(old(self).spec_payments(), payment_id@);
                let step = failed_step(p0.retry_count, old(self).spec_max_retries());
                &&& (p0.retry_count < old(self).spec_max_retries() <==> r == Ok::<
                    bool,
                    CoreError,
                >(true))
                &&& (p0.retry_count >= old(self).spec_max_retries() <==> r == Ok::<
                    bool,
                    CoreError,
                >(false))
                &&& exists|i: int|
                    0 <= i < old(self).spec_payments().len()
                        && old(self).spec_payments()[i].payment_id@ == payment_id@ && final(self).spec_payments() =~= old(self).spec_payments().update(
                        i,
                        Payment {
                            status: step.0,
                            retry_count: step.1,
                            updated_at: now,
                            error_message: Some(error),
                            ..old(self).spec_payments()[i]
                        },
                    )
                &&& (p0.retry_count < old(self).spec_max_retries() ==> final(self).spec_retry_queue().len() == old(self).spec_retry_queue().len() + 1 && final(self).spec_retry_queue().last().payment_id@ == payment_id@ && final(self).spec_retry_queue().last().retry_count == step.1 && final(self).spec_retry_queue().last().next_retry_at as int == retry_due_at(
                    now,
                    old(self).spec_retry_delay_secs(),
                    step.1,
                ) && final(self).spec_retry_queue().last().error == error && final(self).spec_retry_queue().take(old(self).spec_retry_queue().len() as int) == old(self).spec_retry_queue())
                &&& (p0.retry_count >= old(self).spec_max_retries() ==> final(self).spec_retry_queue() == old(self).spec_retry_queue())
            },
    {
        match self.find_index(payment_id) {
            Some(i) => {
                proof {
                    lemma_payment_by_id(self.spec_payments(), i as int);
                }
                let st = self.payments[i].status;
                if st == PaymentStatus::Succeeded || st == PaymentStatus::Failed || st
                    == PaymentStatus::Cancelled {
                    return Err(CoreError::Validation);
                }
                let p = self.payments[i].clone();
                if p.retry_count < self.max_retries {
                    let rc = p.retry_count + 1;
                    proof {
                        assert((self.retry_delay_secs as int) * (rc as int) <= (u64::MAX as int)
                            * (u32::MAX as int)) by (nonlinear_arith)
                            requires
                                0 <= self.retry_delay_secs as int <= u64::MAX as int,
                                0 <= rc as int <= u32::MAX as int,
                        ;
                    }
                    let delay: u128 = (self.retry_delay_secs as u128) * (rc as u128);
                    let due: u128 = delay + now as u128;
                    let next_retry_at: u64 = if due > u64::MAX as u128 {
                        u64::MAX
                    } else {
                        due as u64
                    };
                    self.retry_queue.push(
                        RetryItem {
                            payment_id: p.payment_id.clone(),
                            retry_count: rc,
                            next_retry_at,
                            error: error.clone(),
                        },
                    );
                    self.payments.set(
                        i,
                        Payment {
                            status: PaymentStatus::Retrying,
                            retry_count: rc,
                            updated_at: now,
                            error_message: Some(error),
                            ..p
                        },
                    );
                    proof {
                        assert(final(self).spec_retry_queue().take(
                            old(self).spec_retry_queue().len() as int,
                        ) =~= old(self).spec_retry_queue());
                    }
                    Ok(true)
                } else {
                    self.payments.set(
                        i,
                        Payment {
                            status: PaymentStatus::Failed,
                            updated_at: now,
                            error_message: Some(error),
                            ..p
                        },
                    );
                    Ok(false)
                }
            },
            None => Err(CoreError::NotFound),
        }
    }

    /// Remove and return every queued retry that is due at `now`, in queue
    /// order; the rest stay queued in order.  The caller re-runs the attempt
    /// loop for each returned item.
    pub fn drain_due_retries(&mut self, now: u64) -> (r: Vec<RetryItem>)
        requires
            old(self).wf(),
        ensures
            final(self).wf(),
            final(self).spec_payments() == old(self).spec_payments(),
            final(self).spec_max_retries() == old(self).spec_max_retries(),
            final(self).spec_retry_delay_secs() == old(self).spec_retry_delay_secs(),
            r@ =~= old(self).spec_retry_queue().filter(|it: RetryItem| it.next_retry_at <= now),
            final(self).spec_retry_queue() =~= old(self).spec_retry_queue().filter(
                |it: RetryItem| it.next_retry_at > now,
            ),
    {
        broadcast use Seq::lemma_filter_push;

        let ghost q = self.retry_queue@;
        let ghost due_pred = |it: RetryItem| it.next_retry_at <= now;
        let ghost keep_pred = |it: RetryItem| it.next_retry_at > now;
        let mut due: Vec<RetryItem> = Vec::new();
        let mut kept: Vec<RetryItem> = Vec::new();
        let mut i: usize = 0;
        while i < self.retry_queue.len()
            invariant
                q == self.retry_queue@,
                i <= q.len(),
                due@ =~= q.take(i as int).filter(due_pred),
                kept@ =~= q.take(i as int).filter(keep_pred),
                due_pred == (|it: RetryItem| it.next_retry_at <= now),
                keep_pred == (|it: RetryItem| it.next_retry_at > now),
            decreases q.len() - i,
        {
            proof {
                assert(q.take(i + 1) =~= q.take(i as int).push(q[i as int]));
                q.take(i as int).lemma_filter_push(q[i as int], due_pred);
                q.take(i as int).lemma_filter_push(q[i as int], keep_pred);
            }
            let it = self.retry_queue[i].clone();
            if it.next_retry_at <= now {
                due.push(it);
            } else {
                kept.push(it);
            }
            i += 1;
        }
        proof {
            assert(q.take(i as int) =~= q);
        }
        self.retry_queue = kept;
        due
    }

    /// The current record of one payment.
    pub fn get_payment_status(&self, payment_id: &str) -> (r: Result<Payment, CoreError>)
        requires
            self.wf(),
        ensures
            contains_payment(self.spec_payments(), payment_id@) ==> r == Ok::<Payment, CoreError>(
                payment_by_id(self.spec_payments(), payment_id@),
            ),
            !contains_payment(self.spec_payments(), payment_id@) ==> r == Err::<Payment, CoreError>(
                CoreError::NotFound,
            ),
    {
        match self.find_index(payment_id) {
            Some(i) => {
                proof {
                    lemma_payment_by_id(self.spec_payments(), i as int);
                }
                Ok(self.payments[i].clone())
            },
            None => Err(CoreError::NotFound),
        }
    }

    /// Every payment of one wallet, in insertion order.
    pub fn get_wallet_payments(&self, wallet_id: &str) -> (r: Vec<Payment>)
        ensures
            r@ =~= self.spec_payments().filter(|p: Payment| p.wallet_id@ == wallet_id@),
    {
        broadcast use Seq::lemma_filter_push;

        let ghost pred = |p: Payment| p.wallet_id@ == wallet_id@;
        let mut out: Vec<Payment> = Vec::new();
        let mut i: usize = 0;
        while i < self.payments.len()
            invariant
                i <= self.payments.len(),
                out@ =~= self.payments@.take(i as int).filter(pred),
                pred == (|p: Payment| p.wallet_id@ == wallet_id@),
            decreases self.payments.len() - i,
        {
            proof {
                assert(self.payments@.take(i + 1) =~= self.payments@.take(i as int).push(
                    self.payments@[i as int],
                ));
                self.payments@.take(i as int).lemma_filter_push(self.payments@[i as int], pred);
            }
            if str_eq(self.payments[i].wallet_id.as_str(), wallet_id) {
                out.push(self.payments[i].clone());
            }
            i += 1;
        }
        proof {
            assert(self.payments@.take(i as int) =~= self.payments@);
        }
        out
    }

    /// Cancel a payment that has not finished: it becomes `Cancelled` and
    /// the updated record comes back.  A terminal payment is refused.
    pub fn cancel_payment(&mut self, payment_id: &str, now: u64) -> (r: Result<Payment, CoreError>)
        requires
            old(self).wf(),
        ensures
            final(self).wf(),
            final(self).spec_retry_queue() == old(self).spec_retry_queue(),
            final(self).spec_max_retries() == old(self).spec_max_retries(),
            final(self).spec_retry_delay_secs() == old(self).spec_retry_delay_secs(),
            !contains_payment(old(self).spec_payments(), payment_id@) ==> (r == Err::<
                Payment,
                CoreError,
            >(CoreError::NotFound) && *final(self) == *old(self)),
            contains_payment(old(self).spec_payments(), payment_id@) && is_terminal(
                payment_by_id(old(self).spec_payments(), payment_id@).status,
            ) ==> (r == Err::<Payment, CoreError>(CoreError::Validation) && *final(self) == *old(self)),
            contains_payment(old(self).spec_payments(), payment_id@) && !is_terminal(
                payment_by_id(old(self).spec_payments(), payment_id@).status,
            ) ==> exists|i: int|
                0 <= i < old(self).spec_payments().len()
                    && old(self).spec_payments()[i].payment_id@ == payment_id@ && final(self).spec_payments() =~= old(self).spec_payments().update(
                    i,
                    Payment {
                        status: PaymentStatus::Cancelled,
                        updated_at: now,
                        ..old(self).spec_payments()[i]
                    },
                ) && r == Ok::<Payment, CoreError>(
                    Payment {
                        status: PaymentStatus::Cancelled,
                        updated_at: now,
                        ..old(self).spec_payments()[i]
                    },
                ),
    {
        match self.find_index(payment_id) {
            Some(i) => {
                proof {
                    lemma_payment_by_id(self.spec_payments(), i as int);
                }
                let st = self.payments[i].status;
                if st == PaymentStatus::Succeeded || st == PaymentStatus::Failed || st
                    == PaymentStatus::Cancelled {
                    return Err(CoreError::Validation);
                }
                let p = self.payments[i].clone();
                let updated = Payment { status: PaymentStatus::Cancelled, updated_at: now, ..p };
                let out = updated.clone();
                self.payments.set(i, updated);
                Ok(out)
            },
            None => Err(CoreError::NotFound),
        }
    }

    /// Payment counts by state, the retry-queue depth, and the share of
    /// payments that succeeded, as a whole percentage.
    pub fn get_metrics(&self) -> (r: PaymentMetrics)
        ensures
            r.total_payments == self.spec_payments().len(),
            r.pending_payments as int == count_status(self.spec_payments(), PaymentStatus::Pending),
            r.processing_payments as int == count_status(
                self.spec_payments(),
                PaymentStatus::Processing,
            ),
            r.succeeded_payments as int == count_status(
                self.spec_payments(),
                PaymentStatus::Succeeded,
            ),
            r.failed_payments as int == count_status(self.spec_payments(), PaymentStatus::Failed),
            r.retry_queue_size == self.spec_retry_queue().len(),
            self.spec_payments().len() > 0 ==> r.success_rate_percent as int == count_status(
                self.spec_payments(),
                PaymentStatus::Succeeded,
            ) * 100 / self.spec_payments().len() as int,
            self.spec_payments().len() == 0 ==> r.success_rate_percent == 0,
    {
        let ghost s = self.payments@;
        let mut i: usize = 0;
        let mut pending: usize = 0;
        let mut processing: usize = 0;
        let mut succeeded: usize = 0;
        let mut failed: usize = 0;
        while i < self.payments.len()
            invariant
                s == self.payments@,
                i <= s.len(),
                pending as int == count_status(s.take(i as int), PaymentStatus::Pending),
                processing as int == count_status(s.take(i as int), PaymentStatus::Processing),
                succeeded as int == count_status(s.take(i as int), PaymentStatus::Succeeded),
                failed as int == count_status(s.take(i as int), PaymentStatus::Failed),
            decreases s.len() - i,
        {
            proof {
                assert(s.take(i + 1).drop_last() =~= s.take(i as int));
                assert(s.take(i + 1).last() == s[i as int]);
                lemma_count_status_bounds(s.take(i as int), PaymentStatus::Pending);
                lemma_count_status_bounds(s.take(i as int), PaymentStatus::Processing);
                lemma_count_status_bounds(s.take(i as int), PaymentStatus::Succeeded);
                lemma_count_status_bounds(s.take(i as int), PaymentStatus::Failed);
            }
            let st = self.payments[i].status;
            if st == PaymentStatus::Pending {
                pending += 1;
            } else if st == PaymentStatus::Processing {
                processing += 1;
            } else if st == PaymentStatus::Succeeded {
                succeeded += 1;
            } else if st == PaymentStatus::Failed {
                failed += 1;
            }
            i += 1;
        }
        proof {
            assert(s.take(i as int) =~= s);
            lemma_count_status_bounds(s, PaymentStatus::Succeeded);
        }
        let total = self.payments.len();
        let success_rate_percent: u64 = if total > 0 {
            proof {
                assert((succeeded as int) * 100 / (total as int) <= 100) by (nonlinear_arith)
                    requires
                        0 <= succeeded as int <= total as int,
                        total as int > 0,
                ;
            }
            ((succeeded as u128) * 100 / (total as u128)) as u64
        } else {
            0
        };
        PaymentMetrics {
            total_payments: total,
            pending_payments: pending,
            processing_payments: processing,
            succeeded_payments: succeeded,
            failed_payments: failed,
            retry_queue_size: self.retry_queue.len(),
            success_rate_percent,
        }
    }
}

/// When a retry falls due: the failure time plus a linear backoff of the
/// attempt number times the base delay, stopped at the largest clock value.
pub open spec fn retry_due_at(now: u64, delay_secs: u64, attempt: u32) -> int {
    let due = now + delay_secs * attempt;
    if due > u64::MAX as int {
        u64::MAX as int
    } else {
        due
    }
}

} // verus!
