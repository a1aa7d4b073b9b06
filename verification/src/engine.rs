//! Node engine: wallet identity, invoice and payment primitives of the
//! built-in runtime stub, the peer table with exponential-moving-average
//! success rates, health checks, and peer failover for payment delivery.
//! Success rates are carried in parts per million of one.

use vstd::prelude::*;

use crate::trusted::dec_str;
use crate::trusted::hex_encode;
use crate::trusted::hex_of;
use crate::trusted::sha256_bytes;
use crate::trusted::sha256_of;
use crate::trusted::str_eq;
use crate::trusted::u64_to_string;
use crate::CoreError;

verus! {

/// The wallet's public identity and label.
#[derive(Debug)]
pub struct WalletState {
    pub node_id_hex: String,
    pub label: String,
    pub last_updated: u64,
}

impl Clone for WalletState {
    fn clone(&self) -> (r: Self)
        ensures
            r == *self,
    {
        WalletState {
            node_id_hex: self.node_id_hex.clone(),
            label: self.label.clone(),
            last_updated: self.last_updated,
        }
    }
}

/// One remote peer's connectivity record.
#[derive(Debug)]
pub struct PeerNode {
    pub node_id: String,
    pub address: String,
    pub is_online: bool,
    pub last_seen: u64,
    pub connection_attempts: u32,
    pub success_rate_ppm: u64,
}

impl Clone for PeerNode {
    fn clone(&self) -> (r: Self)
        ensures
            r == *self,
    {
        PeerNode {
            node_id: self.node_id.clone(),
            address: self.address.clone(),
            is_online: self.is_online,
            last_seen: self.last_seen,
            connection_attempts: self.connection_attempts,
            success_rate_ppm: self.success_rate_ppm,
        }
    }
}

/// Whether the engine believes itself able to deliver payments.
#[derive(Debug)]
pub struct HealthStatus {
    pub is_healthy: bool,
    pub last_check: u64,
    pub error_count: u32,
    pub last_error: Option<String>,
}

impl Clone for HealthStatus {
    fn clone(&self) -> (r: Self)
        ensures
            r == *self,
    {
        HealthStatus {
            is_healthy: self.is_healthy,
            last_check: self.last_check,
            error_count: self.error_count,
            last_error: match &self.last_error {
                Some(e) => Some(e.clone()),
                None => None,
            },
        }
    }
}

/// A successful delivery over a peer: the peer comes back online, its
/// attempt counter clears, and its success rate moves one EMA step toward
/// one.
pub open spec fn boosted_peer(p: PeerNode, now: u64) -> PeerNode {
    PeerNode {
        is_online: true,
        last_seen: now,
        connection_attempts: 0,
        success_rate_ppm: (p.success_rate_ppm * 9 / 10 + 100_000) as u64,
        ..p
    }
}

/// A failed delivery over a peer: it is marked offline, its attempt counter
/// grows (stopping at its largest value), and its success rate decays one
/// EMA step toward zero.
pub open spec fn degraded_peer(p: PeerNode, now: u64) -> PeerNode {
    PeerNode {
        is_online: false,
        last_seen: now,
        connection_attempts: if p.connection_attempts < u32::MAX {
            (p.connection_attempts + 1) as u32
        } else {
            u32::MAX
        },
        success_rate_ppm: (p.success_rate_ppm * 9 / 10) as u64,
        ..p
    }
}

/// Whether any peer of `s` is online.
pub open spec fn any_online(s: Seq<PeerNode>) -> bool {
    exists|i: int| 0 <= i < s.len() && s[i].is_online
}

/// Whether some peer of `s` carries the id `id`.
pub open spec fn contains_peer(s: Seq<PeerNode>, id: Seq<char>) -> bool {
    exists|i: int| 0 <= i < s.len() && s[i].node_id@ == id
}

/// `id` names an online peer of `s` whose success rate no online peer
/// exceeds.
pub open spec fn is_best_peer(s: Seq<PeerNode>, id: Seq<char>) -> bool {
    exists|i: int|
        0 <= i < s.len() && s[i].is_online && s[i].node_id@ == id && (forall|j: int|
            0 <= j < s.len() && s[j].is_online ==> s[j].success_rate_ppm
                <= s[i].success_rate_ppm)
}

/// The string "lnbc" opens the text, as every mock invoice must.
pub open spec fn has_lnbc_prefix(s: Seq<char>) -> bool {
    s.len() >= 4 && s[0] == 'l' && s[1] == 'n' && s[2] == 'b' && s[3] == 'c'
}

/// The payment hash that the runtime stub reports for input `s`: the hex
/// form of its SHA-256 digest.
pub open spec fn mock_payment_hash(s: Seq<char>) -> Seq<char> {
    hex_of(sha256_of(s))
}

fn check_lnbc_prefix(s: &str) -> (r: bool)
    ensures
        r == has_lnbc_prefix(s@),
{
    let n = s.unicode_len();
    if n < 4 {
        return false;
    }
    s.get_char(0) == 'l' && s.get_char(1) == 'n' && s.get_char(2) == 'b' && s.get_char(3) == 'c'
}

/// The hex form of the SHA-256 digest of `s`.
fn sha256_hex(s: &str) -> (r: String)
    ensures
        r@ == mock_payment_hash(s@),
        r.is_ascii(),
{
    let digest = sha256_bytes(s);
    hex_encode(digest.as_slice())
}

/// The wallet's node id: the hex digest of its mnemonic.
pub fn derive_node_id(mnemonic: &str) -> (r: String)
    ensures
        r@ == hex_of(sha256_of(mnemonic@)),
        r@.len() == 64,
{
    let digest = sha256_bytes(mnemonic);
    hex_encode(digest.as_slice())
}

/// The engine around the runtime stub: wallet identity, peers, health and
/// failover.
#[derive(Debug)]
pub struct LightningEngine {
    state: WalletState,
    mnemonic: String,
    peers: Vec<PeerNode>,
    health: HealthStatus,
    primary_peer: Option<String>,
}

impl LightningEngine {
    /// Peer ids are unique and every success rate is at most one.
    pub closed spec fn wf(self) -> bool {
        (forall|i: int, j: int|
            0 <= i < j < self.peers@.len() ==> self.peers@[i].node_id@ != self.peers@[j].node_id@)
            && (forall|i: int|
            0 <= i < self.peers@.len() ==> #[trigger] self.peers@[i].success_rate_ppm <= 1_000_000)
    }

    /// The peer table, in insertion order.
    pub closed spec fn spec_peers(self) -> Seq<PeerNode> {
        self.peers@
    }

    /// The wallet state.
    pub closed spec fn spec_state(self) -> WalletState {
        self.state
    }

    /// The engine's mnemonic.
    pub closed spec fn spec_mnemonic(self) -> String {
        self.mnemonic
    }

    /// The health record.
    pub closed spec fn spec_health(self) -> HealthStatus {
        self.health
    }

    /// The peer tried first for outbound payments.
    pub closed spec fn spec_primary_peer(self) -> Option<String> {
        self.primary_peer
    }

    /// Start an engine over a validated mnemonic: the node id is the hex
    /// digest of the mnemonic, no peers are known, and health starts clean.
    pub fn new(label: String, mnemonic: String, now: u64) -> (r: Self)
        ensures
            r.wf(),
            r.spec_state().node_id_hex@ == hex_of(sha256_of(mnemonic@)),
            r.spec_state().label == label,
            r.spec_state().last_updated == now,
            r.spec_mnemonic() == mnemonic,
            r.spec_peers() =~= Seq::<PeerNode>::empty(),
            r.spec_health().is_healthy,
            r.spec_health().last_check == now,
            r.spec_health().error_count == 0,
            r.spec_health().last_error is None,
            r.spec_primary_peer() is None,
    {
        let node_id_hex = derive_node_id(mnemonic.as_str());
        LightningEngine {
            state: WalletState { node_id_hex, label, last_updated: now },
            mnemonic,
            peers: Vec::new(),
            health: HealthStatus {
                is_healthy: true,
                last_check: now,
                error_count: 0,
                last_error: None,
            },
            primary_peer: None,
        }
    }

    /// A mock Lightning invoice for an amount and a memo: the payment hash
    /// is the digest of the amount's digits followed by the memo, and the
    /// invoice wraps that hash in the stub's fixed framing.
    pub fn generate_invoice(&self, amount_sats: u64, memo: Option<String>) -> (r: Result<
        (String, String),
        CoreError,
    >)
        ensures
            r matches Ok(p) && p.1@ == mock_payment_hash(
                dec_str(amount_sats as int) + match memo {
                    Some(m) => m@,
                    None => Seq::<char>::empty(),
                },
            ) && p.0@ == "lnbc"@ + dec_str(amount_sats as int) + "u1p3k2v5cpp5"@ + p.1@,
    {
        let amount_str = u64_to_string(amount_sats);
        let memo_str = match memo {
            Some(m) => m,
            None => String::new(),
        };
        let hash_input = amount_str.clone().concat(memo_str.as_str());
        let payment_hash = sha256_hex(hash_input.as_str());
        let invoice = String::from_str("lnbc").concat(amount_str.as_str()).concat(
            "u1p3k2v5cpp5",
        ).concat(payment_hash.as_str());
        Ok((invoice, payment_hash))
    }

    /// The runtime stub's payment send: a text that does not open with
    /// `lnbc` is rejected; anything else "settles" at once, reporting the
    /// digest of the invoice as payment hash.
    pub fn send_payment(&self, invoice: String) -> (r: Result<(String, String), CoreError>)
        ensures
            !has_lnbc_prefix(invoice@) ==> r == Err::<(String, String), CoreError>(
                CoreError::Validation,
            ),
            has_lnbc_prefix(invoice@) ==> (r matches Ok(p) && p.0@ == mock_payment_hash(invoice@)
                && p.1@ == "SUCCEEDED"@),
    {
        if !check_lnbc_prefix(invoice.as_str()) {
            return Err(CoreError::Validation);
        }
        let payment_hash = sha256_hex(invoice.as_str());
        Ok((payment_hash, String::from_str("SUCCEEDED")))
    }

    /// The runtime stub's balances: fixed on-chain and Lightning amounts.
    pub fn balances(&self) -> (r: Result<(u64, u64), CoreError>)
        ensures
            r == Ok::<(u64, u64), CoreError>((1_000_000u64, 500_000u64)),
    {
        Ok((1_000_000, 500_000))
    }

    /// A mock testnet address derived from the wallet: a fixed tag over the
    /// head of the mnemonic's digest.
    pub fn new_address(&self) -> (r: Result<String, CoreError>)
        ensures
            r matches Ok(a) && a@ == "tb1q"@ + hex_of(
                sha256_of(self.spec_mnemonic()@).subrange(0, 20),
            ),
    {
        let digest = sha256_bytes(self.mnemonic.as_str());
        let mut head: Vec<u8> = Vec::new();
        let mut i: usize = 0;
        while i < 20
            invariant
                i <= 20,
                digest@.len() == 32,
                head@ =~= digest@.subrange(0, i as int),
            decreases 20 - i,
        {
            head.push(digest[i]);
            proof {
                assert(digest@.subrange(0, i + 1) =~= digest@.subrange(0, i as int).push(
                    digest@[i as int],
                ));
            }
            i += 1;
        }
        let tail = hex_encode(head.as_slice());
        Ok(String::from_str("tb1q").concat(tail.as_str()))
    }

    fn find_peer_index(&self, node_id: &str) -> (r: Option<usize>)
        ensures
            match r {
                Some(i) => i < self.spec_peers().len() && self.spec_peers()[i as int].node_id@
                    == node_id@,
                None => !contains_peer(self.spec_peers(), node_id@),
            },
    {
        let mut i: usize = 0;
        while i < self.peers.len()
            invariant
                i <= self.peers.len(),
                forall|j: int| 0 <= j < i ==> self.peers@[j].node_id@ != node_id@,
            decreases self.peers.len() - i,
        {
            if str_eq(self.peers[i].node_id.as_str(), node_id) {
                return Some(i);
            }
            i += 1;
        }
        None
    }

    /// Register a peer as online with a full success rate; an existing
    /// record under the same id is replaced.
    pub fn add_peer(&mut self, node_id: String, address: String, now: u64) -> (r: Result<
        (),
        CoreError,
    >)
        requires
            old(self).wf(),
        ensures
            final(self).wf(),
            r == Ok::<(), CoreError>(()),
            final(self).spec_state() == old(self).spec_state(),
            final(self).spec_health() == old(self).spec_health(),
            final(self).spec_mnemonic() == old(self).spec_mnemonic(),
            final(self).spec_primary_peer() == old(self).spec_primary_peer(),
            !contains_peer(old(self).spec_peers(), node_id@) ==> final(self).spec_peers() =~= old(self).spec_peers().push(spec_new_peer(node_id, address, now)),
            contains_peer(old(self).spec_peers(), node_id@) ==> exists|i: int|
                0 <= i < old(self).spec_peers().len() && old(self).spec_peers()[i].node_id@
                    == node_id@ && final(self).spec_peers() =~= old(self).spec_peers().update(
                    i,
                    spec_new_peer(node_id, address, now),
                ),
    {
        let peer = PeerNode {
            node_id: node_id.clone(),
            address,
            is_online: true,
            last_seen: now,
            connection_attempts: 0,
            success_rate_ppm: 1_000_000,
        };
        match self.find_peer_index(node_id.as_str()) {
            Some(i) => {
                self.peers.set(i, peer);
                proof {
                    assert(final(self).spec_peers() =~= old(self).spec_peers().update(
                        i as int,
                        spec_new_peer(node_id, address, now),
                    ));
                }
                Ok(())
            },
            None => {
                self.peers.push(peer);
                Ok(())
            },
        }
    }

    /// Forget a peer; unknown ids are ignored.
    pub fn remove_peer(&mut self, node_id: &str) -> (r: Result<(), CoreError>)
        requires
            old(self).wf(),
        ensures
            final(self).wf(),
            r == Ok::<(), CoreError>(()),
            final(self).spec_state() == old(self).spec_state(),
            final(self).spec_health() == old(self).spec_health(),
            final(self).spec_mnemonic() == old(self).spec_mnemonic(),
            final(self).spec_primary_peer() == old(self).spec_primary_peer(),
            !contains_peer(old(self).spec_peers(), node_id@) ==> final(self).spec_peers() == old(self).spec_peers(),
            contains_peer(old(self).spec_peers(), node_id@) ==> exists|i: int|
                0 <= i < old(self).spec_peers().len() && old(self).spec_peers()[i].node_id@
                    == node_id@ && final(self).spec_peers() =~= old(self).spec_peers().remove(i),
    {
        match self.find_peer_index(node_id) {
            Some(i) => {
                self.peers.remove(i);
            },
            None => {},
        }
        Ok(())
    }

    /// Every peer record, in insertion order.
    pub fn get_peers(&self) -> (r: Vec<PeerNode>)
        ensures
            r@ =~= self.spec_peers(),
    {
        let mut out: Vec<PeerNode> = Vec::new();
        let mut i: usize = 0;
        while i < self.peers.len()
            invariant
                i <= self.peers.len(),
                out@ =~= self.peers@.take(i as int),
            decreases self.peers.len() - i,
        {
            out.push(self.peers[i].clone());
            proof {
                assert(self.peers@.take(i + 1) =~= self.peers@.take(i as int).push(
                    self.peers@[i as int],
                ));
            }
            i += 1;
        }
        proof {
            assert(self.peers@.take(i as int) =~= self.peers@);
        }
        out
    }

    /// Choose the peer tried first for outbound payments.
    pub fn set_primary_peer(&mut self, node_id: Option<String>) -> (r: Result<(), CoreError>)
        requires
            old(self).wf(),
        ensures
            final(self).wf(),
            r == Ok::<(), CoreError>(()),
            final(self).spec_primary_peer() == node_id,
            final(self).spec_peers() == old(self).spec_peers(),
            final(self).spec_state() == old(self).spec_state(),
            final(self).spec_health() == old(self).spec_health(),
            final(self).spec_mnemonic() == old(self).spec_mnemonic(),
    {
        self.primary_peer = node_id;
        Ok(())
    }

    /// The wallet's identity and label.
    pub fn get_wallet_state(&self) -> (r: WalletState)
        ensures
            r == self.spec_state(),
    {
        self.state.clone()
    }

    /// The peer currently tried first, if any.
    pub fn get_primary_peer(&self) -> (r: Option<String>)
        ensures
            r == self.spec_primary_peer(),
    {
        match &self.primary_peer {
            Some(s) => Some(s.clone()),
            None => None,
        }
    }

    /// Refresh the health record: the engine is healthy exactly when some
    /// peer is online; an unhealthy check grows the error count and records
    /// why.
    pub fn check_health(&mut self, now: u64) -> (r: HealthStatus)
        requires
            old(self).wf(),
            old(self).spec_health().error_count < u32::MAX,
        ensures
            final(self).wf(),
            final(self).spec_peers() == old(self).spec_peers(),
            final(self).spec_state() == old(self).spec_state(),
            final(self).spec_primary_peer() == old(self).spec_primary_peer(),
            final(self).spec_mnemonic() == old(self).spec_mnemonic(),
            final(self).spec_health().last_check == now,
            final(self).spec_health().is_healthy == any_online(old(self).spec_peers()),
            any_online(old(self).spec_peers()) ==> (final(self).spec_health().error_count == old(self).spec_health().error_count && final(self).spec_health().last_error == old(self).spec_health().last_error),
            !any_online(old(self).spec_peers()) ==> (final(self).spec_health().error_count == old(self).spec_health().error_count + 1 && (final(self).spec_health().last_error matches Some(
                e,
            ) && e@ == "No online peers available"@)),
            r == final(self).spec_health(),
    {
        let mut has_online = false;
        let mut i: usize = 0;
        while i < self.peers.len()
            invariant
                i <= self.peers.len(),
                has_online == exists|j: int| 0 <= j < i && self.peers@[j].is_online,
            decreases self.peers.len() - i,
        {
            if self.peers[i].is_online {
                has_online = true;
            }
            i += 1;
        }
        self.health.last_check = now;
        self.health.is_healthy = has_online;
        if !has_online {
            self.health.error_count = self.health.error_count + 1;
            self.health.last_error = Some(String::from_str("No online peers available"));
        }
        self.health.clone()
    }

    /// Record the outcome of touching a peer: a success clears its attempt
    /// counter and lifts its rate, a failure marks it offline and decays its
    /// rate.  Unknown peers are ignored.
    pub fn update_peer_status(&mut self, node_id: &str, is_online: bool, now: u64) -> (r: Result<
        (),
        CoreError,
    >)
        requires
            old(self).wf(),
        ensures
            final(self).wf(),
            r == Ok::<(), CoreError>(()),
            final(self).spec_state() == old(self).spec_state(),
            final(self).spec_health() == old(self).spec_health(),
            final(self).spec_mnemonic() == old(self).spec_mnemonic(),
            final(self).spec_primary_peer() == old(self).spec_primary_peer(),
            !contains_peer(old(self).spec_peers(), node_id@) ==> final(self).spec_peers() == old(self).spec_peers(),
            contains_peer(old(self).spec_peers(), node_id@) ==> exists|i: int|
                0 <= i < old(self).spec_peers().len() && old(self).spec_peers()[i].node_id@
                    == node_id@ && final(self).spec_peers() =~= old(self).spec_peers().update(
                    i,
                    if is_online {
                        boosted_peer(old(self).spec_peers()[i], now)
                    } else {
                        degraded_peer(old(self).spec_peers()[i], now)
                    },
                ),
    {
        match self.find_peer_index(node_id) {
            Some(i) => {
                let p = self.peers[i].clone();
                if is_online {
                    self.peers.set(
                        i,
                        PeerNode {
                            is_online: true,
                            last_seen: now,
                            connection_attempts: 0,
                            success_rate_ppm: p.success_rate_ppm * 9 / 10 + 100_000,
                            ..p
                        },
                    );
                } else {
                    self.peers.set(
                        i,
                        PeerNode {
                            is_online: false,
                            last_seen: now,
                            connection_attempts: if p.connection_attempts < u32::MAX {
                                p.connection_attempts + 1
                            } else {
                                u32::MAX
                            },
                            success_rate_ppm: p.success_rate_ppm * 9 / 10,
                            ..p
                        },
                    );
                }
                Ok(())
            },
            None => Ok(()),
        }
    }

    /// The online peer with the highest success rate, if any peer is online.
    pub fn get_best_peer(&self) -> (r: Option<String>)
        ensures
            match r {
                Some(id) => is_best_peer(self.spec_peers(), id@),
                None => !any_online(self.spec_peers()),
            },
    {
        let mut best: Option<usize> = None;
        let mut i: usize = 0;
        while i < self.peers.len()
            invariant
                i <= self.peers.len(),
                match best {
                    Some(b) => b < i && self.peers@[b as int].is_online && (forall|j: int|
                        0 <= j < i && self.peers@[j].is_online ==> self.peers@[j].success_rate_ppm
                            <= self.peers@[b as int].success_rate_ppm),
                    None => forall|j: int| 0 <= j < i ==> !self.peers@[j].is_online,
                },
            decreases self.peers.len() - i,
        {
            if self.peers[i].is_online {
                best = match best {
                    Some(b) => {
                        if self.peers[i].success_rate_ppm > self.peers[b].success_rate_ppm {
                            Some(i)
                        } else {
                            Some(b)
                        }
                    },
                    None => Some(i),
                };
            }
            i += 1;
        }
        match best {
            Some(b) => Some(self.peers[b].node_id.clone()),
            None => None,
        }
    }

    /// Promote the best online peer to primary; with no online peer the
    /// primary is cleared.
    pub fn failover_to_next_peer(&mut self) -> (r: Result<Option<String>, CoreError>)
        requires
            old(self).wf(),
        ensures
            final(self).wf(),
            final(self).spec_peers() == old(self).spec_peers(),
            final(self).spec_state() == old(self).spec_state(),
            final(self).spec_health() == old(self).spec_health(),
            final(self).spec_mnemonic() == old(self).spec_mnemonic(),
            r matches Ok(o) && final(self).spec_primary_peer() == o,
            any_online(old(self).spec_peers()) ==> (r matches Ok(o) && o matches Some(id)
                && is_best_peer(old(self).spec_peers(), id@)),
            !any_online(old(self).spec_peers()) ==> r == Ok::<Option<String>, CoreError>(None),
    {
        let best = self.get_best_peer();
        let out = match &best {
            Some(s) => Some(s.clone()),
            None => None,
        };
        self.primary_peer = best;
        Ok(out)
    }
}

/// The peer table after a delivery attempt that failed everywhere: the
/// primary peer and every online peer were each tried once and degraded.
pub open spec fn failover_degraded(s: Seq<PeerNode>, primary: Option<String>, now: u64) -> Seq<
    PeerNode,
> {
    Seq::new(
        s.len(),
        |i: int|
            if (match primary {
                Some(p) => s[i].node_id@ == p@,
                None => false,
            }) || s[i].is_online {
                degraded_peer(s[i], now)
            } else {
                s[i]
            },
    )
}

impl LightningEngine {
    /// Deliver a payment with peer failover: the primary peer is tried
    /// first; on failure it is penalized and every other online peer is
    /// tried in order, the first success being promoted to primary.  The
    /// runtime stub settles any invoice that opens with `lnbc` and rejects
    /// the rest, so an acceptable invoice succeeds on the first peer tried,
    /// and an unacceptable one fails over the whole table, degrading the
    /// primary and every online peer.
    pub fn send_payment_with_failover(&mut self, invoice: String, now: u64) -> (r: Result<
        (String, String),
        CoreError,
    >)
        requires
            old(self).wf(),
        ensures
            final(self).wf(),
            final(self).spec_state() == old(self).spec_state(),
            final(self).spec_health() == old(self).spec_health(),
            final(self).spec_mnemonic() == old(self).spec_mnemonic(),
            has_lnbc_prefix(invoice@) ==> (old(self).spec_primary_peer() matches Some(pid) ==> (
            r matches Ok(p) && p.0@ == mock_payment_hash(pid@ + invoice@) && p.1@ == "SUCCEEDED"@
                && final(self).spec_primary_peer() == old(self).spec_primary_peer() && (
            !contains_peer(old(self).spec_peers(), pid@) ==> final(self).spec_peers() == old(self).spec_peers()) && (contains_peer(old(self).spec_peers(), pid@) ==> exists|i: int|
                0 <= i < old(self).spec_peers().len() && old(self).spec_peers()[i].node_id@ == pid@
                    && final(self).spec_peers() =~= old(self).spec_peers().update(
                    i,
                    boosted_peer(old(self).spec_peers()[i], now),
                )))),
            has_lnbc_prefix(invoice@) && old(self).spec_primary_peer() is None && any_online(
                old(self).spec_peers(),
            ) ==> exists|j: int|
                0 <= j < old(self).spec_peers().len() && old(self).spec_peers()[j].is_online && (
                forall|j2: int| 0 <= j2 < j ==> !old(self).spec_peers()[j2].is_online) && (
                r matches Ok(p) && p.0@ == mock_payment_hash(
                    old(self).spec_peers()[j].node_id@ + invoice@,
                ) && p.1@ == "SUCCEEDED"@) && final(self).spec_peers() =~= old(self).spec_peers().update(j, boosted_peer(old(self).spec_peers()[j], now)) && (final(self).spec_primary_peer() matches Some(np) && np@ == old(self).spec_peers()[j].node_id@),
            has_lnbc_prefix(invoice@) && old(self).spec_primary_peer() is None && !any_online(
                old(self).spec_peers(),
            ) ==> (r == Err::<(String, String), CoreError>(CoreError::NoPeerAvailable) && final(self).spec_peers() == old(self).spec_peers() && final(self).spec_primary_peer() == old(self).spec_primary_peer()),
            !has_lnbc_prefix(invoice@) ==> (final(self).spec_peers() =~= failover_degraded(
                old(self).spec_peers(),
                old(self).spec_primary_peer(),
                now,
            ) && final(self).spec_primary_peer() == old(self).spec_primary_peer()),
            !has_lnbc_prefix(invoice@) && (old(self).spec_primary_peer() is Some || any_online(
                old(self).spec_peers(),
            )) ==> r == Err::<(String, String), CoreError>(CoreError::Validation),
            !has_lnbc_prefix(invoice@) && old(self).spec_primary_peer() is None && !any_online(
                old(self).spec_peers(),
            ) ==> r == Err::<(String, String), CoreError>(CoreError::NoPeerAvailable),
    {
        let ghost s0 = self.peers@;
        let prefix_ok = check_lnbc_prefix(invoice.as_str());
        let primary = self.get_primary_peer();
        let primary_present = match &primary {
            Some(_) => true,
            None => false,
        };
        match &primary {
            Some(pid) => {
                if prefix_ok {
                    let input = pid.clone().concat(invoice.as_str());
                    let hash = sha256_hex(input.as_str());
                    let _ = self.update_peer_status(pid.as_str(), true, now);
                    return Ok((hash, String::from_str("SUCCEEDED")));
                } else {
                    let _ = self.update_peer_status(pid.as_str(), false, now);
                }
            },
            None => {},
        }
        let ghost s1 = self.peers@;
        if prefix_ok {
            // The primary path returned above, so no peer is primary here:
            // try the online peers in order.
            let mut i: usize = 0;
            while i < self.peers.len()
                invariant
                    self.wf(),
                    self.peers@ == s0,
                    s0 == old(self).spec_peers(),
                    has_lnbc_prefix(invoice@),
                    old(self).spec_primary_peer() is None,
                    self.spec_primary_peer() == old(self).spec_primary_peer(),
                    self.spec_state() == old(self).spec_state(),
                    self.spec_health() == old(self).spec_health(),
                    self.spec_mnemonic() == old(self).spec_mnemonic(),
                    i <= s0.len(),
                    forall|j: int| 0 <= j < i ==> !s0[j].is_online,
                decreases self.peers.len() - i,
            {
                if self.peers[i].is_online {
                    let pid2 = self.peers[i].node_id.clone();
                    let input = pid2.clone().concat(invoice.as_str());
                    let hash = sha256_hex(input.as_str());
                    let p = self.peers[i].clone();
                    self.peers.set(
                        i,
                        PeerNode {
                            is_online: true,
                            last_seen: now,
                            connection_attempts: 0,
                            success_rate_ppm: p.success_rate_ppm * 9 / 10 + 100_000,
                            ..p
                        },
                    );
                    self.primary_peer = Some(pid2);
                    return Ok((hash, String::from_str("SUCCEEDED")));
                }
                i += 1;
            }
            return Err(CoreError::NoPeerAvailable);
        } else {
            // Every attempt fails on an unacceptable invoice.  Note first
            // whether any peer is still online, then degrade each of them.
            let mut saw_online = false;
            let mut k: usize = 0;
            while k < self.peers.len()
                invariant
                    self.peers@ == s1,
                    self.wf(),
                    self.spec_primary_peer() == old(self).spec_primary_peer(),
                    self.spec_state() == old(self).spec_state(),
                    self.spec_health() == old(self).spec_health(),
                    self.spec_mnemonic() == old(self).spec_mnemonic(),
                    k <= s1.len(),
                    saw_online == exists|j: int| 0 <= j < k && s1[j].is_online,
                decreases self.peers.len() - k,
            {
                if self.peers[k].is_online {
                    saw_online = true;
                }
                k += 1;
            }
            let mut i: usize = 0;
            while i < self.peers.len()
                invariant
                    self.wf(),
                    self.spec_primary_peer() == old(self).spec_primary_peer(),
                    self.spec_state() == old(self).spec_state(),
                    self.spec_health() == old(self).spec_health(),
                    self.spec_mnemonic() == old(self).spec_mnemonic(),
                    self.peers@.len() == s1.len(),
                    i <= s1.len(),
                    forall|j: int| i <= j < s1.len() ==> self.peers@[j] == s1[j],
                    forall|j: int|
                        0 <= j < i ==> self.peers@[j] == (if s1[j].is_online {
                            degraded_peer(s1[j], now)
                        } else {
                            s1[j]
                        }),
                decreases self.peers.len() - i,
            {
                if self.peers[i].is_online {
                    let p = self.peers[i].clone();
                    self.peers.set(
                        i,
                        PeerNode {
                            is_online: false,
                            last_seen: now,
                            connection_attempts: if p.connection_attempts < u32::MAX {
                                p.connection_attempts + 1
                            } else {
                                u32::MAX
                            },
                            success_rate_ppm: p.success_rate_ppm * 9 / 10,
                            ..p
                        },
                    );
                }
                i += 1;
            }
            proof {
                assert forall|j: int| 0 <= j < s0.len() implies self.peers@[j]
                    == failover_degraded(s0, old(self).spec_primary_peer(), now)[j] by {
                    match old(self).spec_primary_peer() {
                        Some(pid) => {
                            if contains_peer(s0, pid@) {
                                let pi = choose|pi: int|
                                    0 <= pi < s0.len() && s0[pi].node_id@ == pid@ && s1 =~= s0.update(
                                        pi,
                                        degraded_peer(s0[pi], now),
                                    );
                                if j == pi {
                                    assert(!s1[j].is_online);
                                    assert(self.peers@[j] == s1[j]);
                                } else {
                                    assert(s1[j] == s0[j]);
                                    assert(s0[j].node_id@ != pid@);
                                }
                            } else {
                                assert(s1 == s0);
                                assert(s0[j].node_id@ != pid@);
                            }
                        },
                        None => {
                            assert(s1 == s0);
                        },
                    }
                }
                assert(self.peers@ =~= failover_degraded(s0, old(self).spec_primary_peer(), now));
            }
            if primary_present {
                Err(CoreError::Validation)
            } else {
                proof {
                    assert(s1 == s0);
                }
                if saw_online {
                    Err(CoreError::Validation)
                } else {
                    Err(CoreError::NoPeerAvailable)
                }
            }
        }
    }
}

/// The record a freshly added peer gets.
pub open spec fn spec_new_peer(node_id: String, address: String, now: u64) -> PeerNode {
    PeerNode {
        node_id: node_id,
        address: address,
        is_online: true,
        last_seen: now,
        connection_attempts: 0,
        success_rate_ppm: 1_000_000,
    }
}

} // verus!
