//! Topology graph: a node/edge model of the broader Lightning Network,
//! learned from gossip, with route discovery over enabled edges.

use vstd::prelude::*;
use vstd::seq_lib::*;
use vstd::set_lib::*;

use crate::trusted::str_eq;
use crate::CoreError;

verus! {

/// A node of the wider network.
#[derive(Debug)]
pub struct NodeInfo {
    pub node_id: String,
    pub alias: Option<String>,
    pub color: Option<String>,
    pub last_seen: u64,
    pub features: Vec<u32>,
    pub addresses: Vec<String>,
}

/// A channel of the wider network: an edge between two node ids.
#[derive(Debug)]
pub struct NetworkChannelInfo {
    pub channel_id: String,
    pub node1: String,
    pub node2: String,
    pub capacity_sat: u64,
    pub is_enabled: bool,
    pub last_update: u64,
    pub base_fee_msat: u32,
    pub fee_rate_ppm: u32,
}

/// A partial update of an edge's routing parameters.
#[derive(Debug)]
pub struct ChannelUpdate {
    pub is_enabled: Option<bool>,
    pub base_fee_msat: Option<u32>,
    pub fee_rate_ppm: Option<u32>,
}

/// Counts and total capacity over the whole graph.
#[derive(Debug, Clone, Copy, PartialEq, Eq, Structural)]
pub struct NetworkStats {
    pub total_nodes: usize,
    pub total_channels: usize,
    pub enabled_channels: usize,
    pub total_capacity_sat: u64,
}

fn copy_u32_vec(v: &Vec<u32>) -> (r: Vec<u32>)
    ensures
        r@ =~= v@,
{
    let mut out: Vec<u32> = Vec::new();
    let mut i: usize = 0;
    while i < v.len()
        invariant
            i <= v.len(),
            out@ =~= v@.take(i as int),
        decreases v.len() - i,
    {
        out.push(v[i]);
        proof {
            assert(v@.take(i + 1) =~= v@.take(i as int).push(v@[i as int]));
        }
        i += 1;
    }
    proof {
        assert(v@.take(i as int) =~= v@);
    }
    out
}

fn copy_string_vec(v: &Vec<String>) -> (r: Vec<String>)
    ensures
        r@ =~= v@,
{
    let mut out: Vec<String> = Vec::new();
    let mut i: usize = 0;
    while i < v.len()
        invariant
            i <= v.len(),
            out@ =~= v@.take(i as int),
        decreases v.len() - i,
    {
        out.push(v[i].clone());
        proof {
            assert(v@.take(i + 1) =~= v@.take(i as int).push(v@[i as int]));
        }
        i += 1;
    }
    proof {
        assert(v@.take(i as int) =~= v@);
    }
    out
}

fn copy_opt_string(v: &Option<String>) -> (r: Option<String>)
    ensures
        r == *v,
{
    match v {
        Some(s) => Some(s.clone()),
        None => None,
    }
}

/// `a` and `b` describe the same node: every field holds the same content.
pub open spec fn node_like(a: NodeInfo, b: NodeInfo) -> bool {
    a.node_id == b.node_id && a.alias == b.alias && a.color == b.color && a.last_seen
        == b.last_seen && a.features@ == b.features@ && a.addresses@ == b.addresses@
}

impl Clone for NodeInfo {
    fn clone(&self) -> (r: Self)
        ensures
            node_like(r, *self),
    {
        NodeInfo {
            node_id: self.node_id.clone(),
            alias: copy_opt_string(&self.alias),
            color: copy_opt_string(&self.color),
            last_seen: self.last_seen,
            features: copy_u32_vec(&self.features),
            addresses: copy_string_vec(&self.addresses),
        }
    }
}

impl Clone for NetworkChannelInfo {
    fn clone(&self) -> (r: Self)
        ensures
            r == *self,
    {
        NetworkChannelInfo {
            channel_id: self.channel_id.clone(),
            node1: self.node1.clone(),
            node2: self.node2.clone(),
            capacity_sat: self.capacity_sat,
            is_enabled: self.is_enabled,
            last_update: self.last_update,
            base_fee_msat: self.base_fee_msat,
            fee_rate_ppm: self.fee_rate_ppm,
        }
    }
}

/// Whether some node in `s` carries the id `id`.
pub open spec fn contains_node(s: Seq<NodeInfo>, id: Seq<char>) -> bool {
    exists|i: int| 0 <= i < s.len() && s[i].node_id@ == id
}

/// Whether some edge in `s` carries the id `id`.
pub open spec fn contains_edge(s: Seq<NetworkChannelInfo>, id: Seq<char>) -> bool {
    exists|i: int| 0 <= i < s.len() && s[i].channel_id@ == id
}

/// Whether edge `e` touches node `id`.
pub open spec fn edge_touches(e: NetworkChannelInfo, id: Seq<char>) -> bool {
    e.node1@ == id || e.node2@ == id
}

/// How many edges in `s` are enabled.
pub open spec fn count_enabled(s: Seq<NetworkChannelInfo>) -> int
    decreases s.len(),
{
    if s.len() == 0 {
        0
    } else {
        count_enabled(s.drop_last()) + if s.last().is_enabled { 1int } else { 0int }
    }
}

/// Total capacity over all edges in `s`.
pub open spec fn sum_capacity(s: Seq<NetworkChannelInfo>) -> int
    decreases s.len(),
{
    if s.len() == 0 {
        0
    } else {
        sum_capacity(s.drop_last()) + s.last().capacity_sat as int
    }
}

pub proof fn lemma_count_enabled_bounds(s: Seq<NetworkChannelInfo>)
    ensures
        0 <= count_enabled(s) <= s.len(),
    decreases s.len(),
{
    if s.len() > 0 {
        lemma_count_enabled_bounds(s.drop_last());
    }
}

proof fn lemma_sum_capacity_nonneg(s: Seq<NetworkChannelInfo>)
    ensures
        sum_capacity(s) >= 0,
    decreases s.len(),
{
    if s.len() > 0 {
        lemma_sum_capacity_nonneg(s.drop_last());
    }
}

proof fn lemma_sum_capacity_prefix(s: Seq<NetworkChannelInfo>, i: int)
    requires
        0 <= i <= s.len(),
    ensures
        sum_capacity(s.take(i)) <= sum_capacity(s),
    decreases s.len(),
{
    if i == s.len() {
        assert(s.take(i) =~= s);
    } else {
        assert(s.drop_last().take(i) =~= s.take(i));
        lemma_sum_capacity_prefix(s.drop_last(), i);
        lemma_sum_capacity_nonneg(s);
    }
}

/// The statistics that `get_network_stats` reports.
pub open spec fn network_stats_of(ns: Seq<NodeInfo>, es: Seq<NetworkChannelInfo>) -> NetworkStats {
    NetworkStats {
        total_nodes: ns.len() as usize,
        total_channels: es.len() as usize,
        enabled_channels: count_enabled(es) as usize,
        total_capacity_sat: sum_capacity(es) as u64,
    }
}

/// Topology of the reachable network: nodes and edges, upserted by id.
#[derive(Debug)]
pub struct NetworkGraph {
    nodes: Vec<NodeInfo>,
    channels: Vec<NetworkChannelInfo>,
}

impl NetworkGraph {
    /// Node ids and edge ids are each unique.
    pub closed spec fn wf(self) -> bool {
        (forall|i: int, j: int|
            0 <= i < j < self.nodes@.len() ==> self.nodes@[i].node_id@ != self.nodes@[j].node_id@)
            && (forall|i: int, j: int|
            0 <= i < j < self.channels@.len() ==> self.channels@[i].channel_id@
                != self.channels@[j].channel_id@)
    }

    /// The graph's nodes, in insertion order.
    pub closed spec fn spec_nodes(self) -> Seq<NodeInfo> {
        self.nodes@
    }

    /// The graph's edges, in insertion order.
    pub closed spec fn spec_edges(self) -> Seq<NetworkChannelInfo> {
        self.channels@
    }

    pub fn new() -> (r: Self)
        ensures
            r.wf(),
            r.spec_nodes() =~= Seq::<NodeInfo>::empty(),
            r.spec_edges() =~= Seq::<NetworkChannelInfo>::empty(),
    {
        NetworkGraph { nodes: Vec::new(), channels: Vec::new() }
    }

    fn find_node_index(&self, node_id: &str) -> (r: Option<usize>)
        ensures
            match r {
                Some(i) => i < self.spec_nodes().len() && self.spec_nodes()[i as int].node_id@
                    == node_id@,
                None => !contains_node(self.spec_nodes(), node_id@),
            },
    {
        let mut i: usize = 0;
        while i < self.nodes.len()
            invariant
                i <= self.nodes.len(),
                forall|j: int| 0 <= j < i ==> self.nodes@[j].node_id@ != node_id@,
            decreases self.nodes.len() - i,
        {
            if str_eq(self.nodes[i].node_id.as_str(), node_id) {
                return Some(i);
            }
            i += 1;
        }
        None
    }

    fn find_edge_index(&self, channel_id: &str) -> (r: Option<usize>)
        ensures
            match r {
                Some(i) => i < self.spec_edges().len() && self.spec_edges()[i as int].channel_id@
                    == channel_id@,
                None => !contains_edge(self.spec_edges(), channel_id@),
            },
    {
        let mut i: usize = 0;
        while i < self.channels.len()
            invariant
                i <= self.channels.len(),
                forall|j: int| 0 <= j < i ==> self.channels@[j].channel_id@ != channel_id@,
            decreases self.channels.len() - i,
        {
            if str_eq(self.channels[i].channel_id.as_str(), channel_id) {
                return Some(i);
            }
            i += 1;
        }
        None
    }

    /// Upsert a node by its id: the last write wins.
    pub fn add_node(&mut self, node_info: NodeInfo)
        requires
            old(self).wf(),
        ensures
            final(self).wf(),
            final(self).spec_edges() == old(self).spec_edges(),
            !contains_node(old(self).spec_nodes(), node_info.node_id@) ==> final(self).spec_nodes()
                =~= old(self).spec_nodes().push(node_info),
            contains_node(old(self).spec_nodes(), node_info.node_id@) ==> exists|i: int|
                0 <= i < old(self).spec_nodes().len() && old(self).spec_nodes()[i].node_id@
                    == node_info.node_id@ && final(self).spec_nodes() =~= old(self).spec_nodes().update(i, node_info),
    {
        match self.find_node_index(node_info.node_id.as_str()) {
            Some(i) => {
                self.nodes.set(i, node_info);
            },
            None => {
                self.nodes.push(node_info);
            },
        }
    }

    /// Upsert an edge by its id: the last write wins.  Endpoints need not be
    /// known nodes; node insertion may lag edge insertion.
    pub fn add_channel(&mut self, channel_info: NetworkChannelInfo)
        requires
            old(self).wf(),
        ensures
            final(self).wf(),
            final(self).spec_nodes() == old(self).spec_nodes(),
            !contains_edge(old(self).spec_edges(), channel_info.channel_id@) ==> final(self).spec_edges() =~= old(self).spec_edges().push(channel_info),
            contains_edge(old(self).spec_edges(), channel_info.channel_id@) ==> exists|i: int|
                0 <= i < old(self).spec_edges().len() && old(self).spec_edges()[i].channel_id@
                    == channel_info.channel_id@ && final(self).spec_edges() =~= old(self).spec_edges().update(i, channel_info),
    {
        match self.find_edge_index(channel_info.channel_id.as_str()) {
            Some(i) => {
                self.channels.set(i, channel_info);
            },
            None => {
                self.channels.push(channel_info);
            },
        }
    }

    /// The node carrying `node_id`, if known.
    pub fn get_node(&self, node_id: &str) -> (r: Option<NodeInfo>)
        ensures
            match r {
                Some(n) => n.node_id@ == node_id@ && exists|i: int|
                    0 <= i < self.spec_nodes().len() && node_like(n, self.spec_nodes()[i]),
                None => !contains_node(self.spec_nodes(), node_id@),
            },
    {
        match self.find_node_index(node_id) {
            Some(i) => Some(self.nodes[i].clone()),
            None => None,
        }
    }

    /// The edge carrying `channel_id`, if known.
    pub fn get_channel(&self, channel_id: &str) -> (r: Option<NetworkChannelInfo>)
        ensures
            match r {
                Some(c) => contains_edge(self.spec_edges(), channel_id@) && c.channel_id@
                    == channel_id@ && self.spec_edges().contains(c),
                None => !contains_edge(self.spec_edges(), channel_id@),
            },
    {
        match self.find_edge_index(channel_id) {
            Some(i) => Some(self.channels[i].clone()),
            None => None,
        }
    }

    /// All nodes, in insertion order.
    pub fn get_all_nodes(&self) -> (r: Vec<NodeInfo>)
        ensures
            r@.len() == self.spec_nodes().len(),
            forall|i: int| 0 <= i < r@.len() ==> node_like(r@[i], self.spec_nodes()[i]),
    {
        let mut out: Vec<NodeInfo> = Vec::new();
        let mut i: usize = 0;
        while i < self.nodes.len()
            invariant
                i <= self.nodes.len(),
                out@.len() == i,
                forall|j: int| 0 <= j < i ==> node_like(out@[j], self.nodes@[j]),
            decreases self.nodes.len() - i,
        {
            out.push(self.nodes[i].clone());
            i += 1;
        }
        out
    }

    /// All edges, in insertion order.
    pub fn get_all_channels(&self) -> (r: Vec<NetworkChannelInfo>)
        ensures
            r@ =~= self.spec_edges(),
    {
        let mut out: Vec<NetworkChannelInfo> = Vec::new();
        let mut i: usize = 0;
        while i < self.channels.len()
            invariant
                i <= self.channels.len(),
                out@ =~= self.channels@.take(i as int),
            decreases self.channels.len() - i,
        {
            out.push(self.channels[i].clone());
            proof {
                assert(self.channels@.take(i + 1) =~= self.channels@.take(i as int).push(
                    self.channels@[i as int],
                ));
            }
            i += 1;
        }
        proof {
            assert(self.channels@.take(i as int) =~= self.channels@);
        }
        out
    }

    /// The edges that touch `node_id` at either endpoint, in insertion order.
    pub fn get_node_channels(&self, node_id: &str) -> (r: Vec<NetworkChannelInfo>)
        ensures
            r@ =~= self.spec_edges().filter(
                |c: NetworkChannelInfo| edge_touches(c, node_id@),
            ),
    {
        broadcast use Seq::lemma_filter_push;

        let ghost pred = |c: NetworkChannelInfo| edge_touches(c, node_id@);
        let mut out: Vec<NetworkChannelInfo> = Vec::new();
        let mut i: usize = 0;
        while i < self.channels.len()
            invariant
                i <= self.channels.len(),
                out@ =~= self.channels@.take(i as int).filter(pred),
                pred == (|c: NetworkChannelInfo| edge_touches(c, node_id@)),
            decreases self.channels.len() - i,
        {
            proof {
                assert(self.channels@.take(i + 1) =~= self.channels@.take(i as int).push(
                    self.channels@[i as int],
                ));
                self.channels@.take(i as int).lemma_filter_push(self.channels@[i as int], pred);
            }
            if str_eq(self.channels[i].node1.as_str(), node_id) || str_eq(
                self.channels[i].node2.as_str(),
                node_id,
            ) {
                out.push(self.channels[i].clone());
            }
            i += 1;
        }
        proof {
            assert(self.channels@.take(i as int) =~= self.channels@);
        }
        out
    }

    /// The enabled edges only, in insertion order.
    pub fn get_enabled_channels(&self) -> (r: Vec<NetworkChannelInfo>)
        ensures
            r@ =~= self.spec_edges().filter(|c: NetworkChannelInfo| c.is_enabled),
    {
        broadcast use Seq::lemma_filter_push;

        let ghost pred = |c: NetworkChannelInfo| c.is_enabled;
        let mut out: Vec<NetworkChannelInfo> = Vec::new();
        let mut i: usize = 0;
        while i < self.channels.len()
            invariant
                i <= self.channels.len(),
                out@ =~= self.channels@.take(i as int).filter(pred),
                pred == (|c: NetworkChannelInfo| c.is_enabled),
            decreases self.channels.len() - i,
        {
            proof {
                assert(self.channels@.take(i + 1) =~= self.channels@.take(i as int).push(
                    self.channels@[i as int],
                ));
                self.channels@.take(i as int).lemma_filter_push(self.channels@[i as int], pred);
            }
            if self.channels[i].is_enabled {
                out.push(self.channels[i].clone());
            }
            i += 1;
        }
        proof {
            assert(self.channels@.take(i as int) =~= self.channels@);
        }
        out
    }

    /// Apply a partial update to the edge carrying `channel_id`; its
    /// `last_update` is always refreshed.
    pub fn update_channel(&mut self, channel_id: &str, updates: ChannelUpdate, now: u64) -> (r:
        Result<(), CoreError>)
        requires
            old(self).wf(),
        ensures
            final(self).wf(),
            final(self).spec_nodes() == old(self).spec_nodes(),
            contains_edge(old(self).spec_edges(), channel_id@) ==> (r == Ok::<(), CoreError>(())
                && exists|i: int|
                0 <= i < old(self).spec_edges().len() && old(self).spec_edges()[i].channel_id@
                    == channel_id@ && final(self).spec_edges() =~= old(self).spec_edges().update(
                    i,
                    NetworkChannelInfo {
                        is_enabled: match updates.is_enabled {
                            Some(e) => e,
                            None => old(self).spec_edges()[i].is_enabled,
                        },
                        base_fee_msat: match updates.base_fee_msat {
                            Some(f) => f,
                            None => old(self).spec_edges()[i].base_fee_msat,
                        },
                        fee_rate_ppm: match updates.fee_rate_ppm {
                            Some(f) => f,
                            None => old(self).spec_edges()[i].fee_rate_ppm,
                        },
                        last_update: now,
                        ..old(self).spec_edges()[i]
                    },
                )),
            !contains_edge(old(self).spec_edges(), channel_id@) ==> (r == Err::<(), CoreError>(
                CoreError::NotFound,
            ) && *final(self) == *old(self)),
    {
        match self.find_edge_index(channel_id) {
            Some(i) => {
                let cur = self.channels[i].clone();
                let is_enabled = match updates.is_enabled {
                    Some(e) => e,
                    None => cur.is_enabled,
                };
                let base_fee_msat = match updates.base_fee_msat {
                    Some(f) => f,
                    None => cur.base_fee_msat,
                };
                let fee_rate_ppm = match updates.fee_rate_ppm {
                    Some(f) => f,
                    None => cur.fee_rate_ppm,
                };
                self.channels.set(
                    i,
                    NetworkChannelInfo {
                        is_enabled,
                        base_fee_msat,
                        fee_rate_ppm,
                        last_update: now,
                        ..cur
                    },
                );
                Ok(())
            },
            None => Err(CoreError::NotFound),
        }
    }

    /// Node count, edge count, enabled-edge count and total capacity, in a
    /// single pass over the edges.
    pub fn get_network_stats(&self) -> (r: NetworkStats)
        requires
            sum_capacity(self.spec_edges()) <= u64::MAX,
        ensures
            r == network_stats_of(self.spec_nodes(), self.spec_edges()),
    {
        let mut i: usize = 0;
        let mut enabled: usize = 0;
        let mut capacity: u64 = 0;
        while i < self.channels.len()
            invariant
                i <= self.channels.len(),
                enabled as int == count_enabled(self.channels@.take(i as int)),
                capacity as int == sum_capacity(self.channels@.take(i as int)),
                sum_capacity(self.channels@) <= u64::MAX,
            decreases self.channels.len() - i,
        {
            proof {
                assert(self.channels@.take(i + 1).drop_last() =~= self.channels@.take(i as int));
                assert(self.channels@.take(i + 1).last() == self.channels@[i as int]);
                lemma_sum_capacity_prefix(self.channels@, i + 1);
                lemma_sum_capacity_nonneg(self.channels@.take(i as int));
                lemma_count_enabled_bounds(self.channels@.take(i as int));
            }
            if self.channels[i].is_enabled {
                enabled += 1;
            }
            capacity += self.channels[i].capacity_sat;
            i += 1;
        }
        proof {
            assert(self.channels@.take(i as int) =~= self.channels@);
            lemma_count_enabled_bounds(self.channels@);
            lemma_sum_capacity_nonneg(self.channels@);
        }
        NetworkStats {
            total_nodes: self.nodes.len(),
            total_channels: self.channels.len(),
            enabled_channels: enabled,
            total_capacity_sat: capacity,
        }
    }
}


/// Edge `e` is enabled and joins nodes `a` and `b`, in either direction.
pub open spec fn edge_connects(e: NetworkChannelInfo, a: Seq<char>, b: Seq<char>) -> bool {
    e.is_enabled && ((e.node1@ == a && e.node2@ == b) || (e.node1@ == b && e.node2@ == a))
}

/// Some enabled edge of `es` joins `a` and `b`.
pub open spec fn adjacent(es: Seq<NetworkChannelInfo>, a: Seq<char>, b: Seq<char>) -> bool {
    exists|k: int| 0 <= k < es.len() && edge_connects(es[k], a, b)
}

/// Some walk of exactly `n` enabled hops leads from `a` to `b`.
pub open spec fn has_path_of_len(
    es: Seq<NetworkChannelInfo>,
    a: Seq<char>,
    b: Seq<char>,
    n: nat,
) -> bool
    decreases n,
{
    if n == 0 {
        a == b
    } else {
        exists|m: Seq<char>| adjacent(es, a, m) && has_path_of_len(es, m, b, (n - 1) as nat)
    }
}

/// `b` can be reached from `a` over enabled edges.
pub open spec fn reachable(es: Seq<NetworkChannelInfo>, a: Seq<char>, b: Seq<char>) -> bool {
    exists|n: nat| has_path_of_len(es, a, b, n)
}

/// `p` is a walk over enabled edges that starts at `from` and ends at `to`.
pub open spec fn is_path(
    es: Seq<NetworkChannelInfo>,
    p: Seq<Seq<char>>,
    from: Seq<char>,
    to: Seq<char>,
) -> bool {
    p.len() >= 1 && p[0] == from && p[p.len() - 1] == to && (forall|i: int|
        0 <= i < p.len() - 1 ==> #[trigger] adjacent(es, p[i], p[i + 1]))
}

/// The node ids of a route, as sequences of characters.
pub open spec fn ids_view(p: Seq<String>) -> Seq<Seq<char>> {
    p.map_values(|s: String| s@)
}

/// A walk to `b` extends by one adjacent hop to a walk to `c`.
pub proof fn lemma_path_extend(
    es: Seq<NetworkChannelInfo>,
    a: Seq<char>,
    b: Seq<char>,
    c: Seq<char>,
    n: nat,
)
    requires
        has_path_of_len(es, a, b, n),
        adjacent(es, b, c),
    ensures
        has_path_of_len(es, a, c, (n + 1) as nat),
    decreases n,
{
    if n == 0 {
        assert(has_path_of_len(es, c, c, 0));
        assert(adjacent(es, a, c));
    } else {
        let m = choose|m: Seq<char>|
            adjacent(es, a, m) && has_path_of_len(es, m, b, (n - 1) as nat);
        lemma_path_extend(es, m, b, c, (n - 1) as nat);
        assert(adjacent(es, a, m) && has_path_of_len(es, m, c, n));
    }
}

/// A walk of positive length decomposes into a shorter walk plus a last hop.
pub proof fn lemma_path_last_step(
    es: Seq<NetworkChannelInfo>,
    a: Seq<char>,
    b: Seq<char>,
    n: nat,
)
    requires
        has_path_of_len(es, a, b, n),
        n > 0,
    ensures
        exists|m: Seq<char>|
            has_path_of_len(es, a, m, (n - 1) as nat) && adjacent(es, m, b),
    decreases n,
{
    let m1 = choose|m1: Seq<char>|
        adjacent(es, a, m1) && has_path_of_len(es, m1, b, (n - 1) as nat);
    if n == 1 {
        assert(m1 == b);
        assert(has_path_of_len(es, a, a, 0) && adjacent(es, a, b));
    } else {
        lemma_path_last_step(es, m1, b, (n - 1) as nat);
        let m = choose|m: Seq<char>|
            has_path_of_len(es, m1, m, (n - 2) as nat) && adjacent(es, m, b);
        assert(has_path_of_len(es, a, m, (n - 1) as nat));
    }
}

/// An explicit walk witnesses a hop count.
pub proof fn lemma_is_path_has_len(
    es: Seq<NetworkChannelInfo>,
    p: Seq<Seq<char>>,
    from: Seq<char>,
    to: Seq<char>,
)
    requires
        is_path(es, p, from, to),
    ensures
        has_path_of_len(es, from, to, (p.len() - 1) as nat),
    decreases p.len(),
{
    if p.len() == 1 {
    } else {
        let q = p.drop_last();
        let i = p.len() - 2;
        assert(adjacent(es, p[i], p[i + 1]));
        assert(is_path(es, q, from, p[p.len() - 2])) by {
            assert(forall|t: int| 0 <= t < q.len() - 1 ==> #[trigger] adjacent(es, q[t], q[t + 1])
                == adjacent(es, p[t], p[t + 1]));
        }
        lemma_is_path_has_len(es, q, from, p[p.len() - 2]);
        lemma_path_extend(es, from, p[p.len() - 2], to, (p.len() - 2) as nat);
    }
}

/// All node ids that occur as an endpoint of some edge in `es`.
pub open spec fn endpoint_set(es: Seq<NetworkChannelInfo>) -> Set<Seq<char>>
    decreases es.len(),
{
    if es.len() == 0 {
        Set::empty()
    } else {
        endpoint_set(es.drop_last()).insert(es.last().node1@).insert(es.last().node2@)
    }
}

proof fn lemma_endpoint_set_props(es: Seq<NetworkChannelInfo>)
    ensures
        endpoint_set(es).finite(),
        endpoint_set(es).len() <= 2 * es.len(),
        forall|k: int|
            0 <= k < es.len() ==> endpoint_set(es).contains(#[trigger] es[k].node1@)
                && endpoint_set(es).contains(es[k].node2@),
    decreases es.len(),
{
    broadcast use vstd::set::group_set_axioms;

    if es.len() > 0 {
        lemma_endpoint_set_props(es.drop_last());
        assert(forall|k: int| 0 <= k < es.len() - 1 ==> es.drop_last()[k] == es[k]);
    }
}

/// One entry of the search queue: a discovered node, its hop count from the
/// origin, and the queue position it was discovered from.
struct QEntry {
    node: String,
    dist: usize,
    parent: usize,
}

/// Node `w` occurs somewhere in the queue.
spec fn enqueued(q: Seq<QEntry>, w: Seq<char>) -> bool {
    exists|j: int| 0 <= j < q.len() && q[j].node@ == w
}

/// Invariant of the search queue: entries are distinct, parent links step
/// back one hop, hop counts are sorted and exact (realizable and minimal).
spec fn bfs_core_inv(es: Seq<NetworkChannelInfo>, q: Seq<QEntry>, from: Seq<char>) -> bool {
    &&& q.len() >= 1
    &&& q[0].node@ == from
    &&& q[0].dist == 0
    &&& (forall|i: int, j: int| 0 <= i < j < q.len() ==> q[i].node@ != q[j].node@)
    &&& (forall|j: int|
        0 < j < q.len() ==> (#[trigger] q[j].parent < j && q[j].dist == q[q[j].parent as int].dist
            + 1 && adjacent(es, q[q[j].parent as int].node@, q[j].node@)))
    &&& (forall|j: int| 0 <= j < q.len() ==> #[trigger] q[j].dist <= j)
    &&& (forall|i: int, j: int| 0 <= i <= j < q.len() ==> q[i].dist <= q[j].dist)
    &&& (forall|j: int|
        0 <= j < q.len() ==> has_path_of_len(es, from, q[j].node@, #[trigger] q[j].dist as nat))
    &&& (forall|j: int, n: nat|
        0 <= j < q.len() && n < q[j].dist ==> !#[trigger] has_path_of_len(
            es,
            from,
            q[j].node@,
            n,
        ))
}

/// Every enabled edge out of queue entry `i` leads to an enqueued node.
spec fn edge_closed(es: Seq<NetworkChannelInfo>, q: Seq<QEntry>, i: int, k: int) -> bool {
    es[k].is_enabled ==> ((es[k].node1@ == q[i].node@ ==> enqueued(q, es[k].node2@)) && (
    es[k].node2@ == q[i].node@ ==> enqueued(q, es[k].node1@)))
}

/// The first `h` queue entries have all their neighbours enqueued.
spec fn bfs_closed_upto(es: Seq<NetworkChannelInfo>, q: Seq<QEntry>, h: int) -> bool {
    forall|i: int, k: int| 0 <= i < h && 0 <= k < es.len() ==> #[trigger] edge_closed(es, q, i, k)
}

/// While the queue front sits at hop count `q[h].dist`, every node whose true
/// distance is at most that hop count has already been discovered, with an
/// exact hop count.
proof fn lemma_bfs_level_complete(
    es: Seq<NetworkChannelInfo>,
    q: Seq<QEntry>,
    from: Seq<char>,
    h: int,
    w: Seq<char>,
    n: nat,
)
    requires
        bfs_core_inv(es, q, from),
        bfs_closed_upto(es, q, h),
        0 <= h < q.len(),
        has_path_of_len(es, from, w, n),
        n <= q[h].dist,
    ensures
        exists|j: int| 0 <= j < q.len() && q[j].node@ == w && q[j].dist <= n,
    decreases n,
{
    if n == 0 {
        assert(w == from);
        assert(q[0].node@ == w && q[0].dist <= 0);
    } else {
        lemma_path_last_step(es, from, w, n);
        let m = choose|m: Seq<char>|
            has_path_of_len(es, from, m, (n - 1) as nat) && adjacent(es, m, w);
        lemma_bfs_level_complete(es, q, from, h, m, (n - 1) as nat);
        let jm = choose|jm: int| 0 <= jm < q.len() && q[jm].node@ == m && q[jm].dist <= n - 1;
        // `jm` sits strictly below the frontier, so it has been processed.
        assert(jm < h) by {
            if jm >= h {
                assert(q[h].dist <= q[jm].dist);
            }
        }
        let k = choose|k: int| 0 <= k < es.len() && edge_connects(es[k], m, w);
        assert(edge_closed(es, q, jm, k));
        assert(enqueued(q, w));
        let jw = choose|jw: int| 0 <= jw < q.len() && q[jw].node@ == w;
        // The stored hop count cannot exceed `n`, else minimality is broken.
        assert(q[jw].dist <= n) by {
            if n < q[jw].dist {
                assert(!has_path_of_len(es, from, q[jw].node@, n));
            }
        }
    }
}

/// Once the whole queue is processed, every reachable node is enqueued.
proof fn lemma_bfs_closed_complete(
    es: Seq<NetworkChannelInfo>,
    q: Seq<QEntry>,
    from: Seq<char>,
    w: Seq<char>,
    n: nat,
)
    requires
        bfs_core_inv(es, q, from),
        bfs_closed_upto(es, q, q.len() as int),
        has_path_of_len(es, from, w, n),
    ensures
        enqueued(q, w),
    decreases n,
{
    if n == 0 {
        assert(q[0].node@ == w);
    } else {
        lemma_path_last_step(es, from, w, n);
        let m = choose|m: Seq<char>|
            has_path_of_len(es, from, m, (n - 1) as nat) && adjacent(es, m, w);
        lemma_bfs_closed_complete(es, q, from, m, (n - 1) as nat);
        let jm = choose|jm: int| 0 <= jm < q.len() && q[jm].node@ == m;
        let k = choose|k: int| 0 <= k < es.len() && edge_connects(es[k], m, w);
        assert(edge_closed(es, q, jm, k));
    }
}

fn queue_contains(q: &Vec<QEntry>, w: &str) -> (r: bool)
    ensures
        r == enqueued(q@, w@),
{
    let mut j: usize = 0;
    while j < q.len()
        invariant
            j <= q.len(),
            forall|i: int| 0 <= i < j ==> q@[i].node@ != w@,
        decreases q.len() - j,
    {
        if str_eq(q[j].node.as_str(), w) {
            return true;
        }
        j += 1;
    }
    false
}

impl NetworkGraph {
    /// Find a route between two nodes by breadth-first search over enabled
    /// edges, treating the graph as unweighted and undirected.  The returned
    /// route is a real walk of the graph and no walk with fewer hops joins
    /// the two nodes; `None` means `to` is unreachable from `from`.
    pub fn find_shortest_path(&self, from: &str, to: &str) -> (r: Option<Vec<String>>)
        ensures
            match r {
                Some(p) => is_path(self.spec_edges(), ids_view(p@), from@, to@) && (forall|n: nat|
                    has_path_of_len(self.spec_edges(), from@, to@, n) ==> n >= p@.len() - 1) && (
                from@ == to@ ==> p@.len() == 1),
                None => !reachable(self.spec_edges(), from@, to@),
            },
    {
        let ghost es = self.spec_edges();
        if str_eq(from, to) {
            let mut p: Vec<String> = Vec::new();
            p.push(from.to_owned());
            proof {
                assert(ids_view(p@) =~= seq![from@]);
            }
            return Some(p);
        }
        let mut queue: Vec<QEntry> = Vec::new();
        queue.push(QEntry { node: from.to_owned(), dist: 0, parent: 0 });
        let ghost mut visited: Set<Seq<char>> = Set::<Seq<char>>::empty().insert(from@);
        proof {
            broadcast use vstd::set::group_set_axioms;

            assert(visited.len() == 1);
            assert(queue@[0].node@ == from@);
            assert(enqueued(queue@, from@));
        }
        let mut h: usize = 0;
        while h < queue.len()
            invariant
                self.spec_edges() == es,
                from@ != to@,
                h <= queue.len(),
                bfs_core_inv(es, queue@, from@),
                bfs_closed_upto(es, queue@, h as int),
                h < queue.len() ==> (forall|j: int|
                    0 <= j < queue@.len() ==> #[trigger] queue@[j].dist <= queue@[h as int].dist
                        + 1),
                forall|i: int| 0 <= i < h ==> queue@[i].node@ != to@,
                visited.finite(),
                visited.len() == queue@.len(),
                forall|j: int| 0 <= j < queue@.len() ==> visited.contains(#[trigger] queue@[j].node@),
                forall|w: Seq<char>| visited.contains(w) ==> enqueued(queue@, w),
                visited.subset_of(endpoint_set(es).insert(from@)),
            decreases 2 * es.len() + 1 - h,
        {
            proof {
                lemma_endpoint_set_props(es);
                broadcast use vstd::set::group_set_axioms;

                lemma_len_subset(visited, endpoint_set(es).insert(from@));
            }
            let cur: String = queue[h].node.clone();
            let d: usize = queue[h].dist;
            if str_eq(cur.as_str(), to) {
                // Walk the parent links back to the origin, collecting the
                // route in reverse.
                let mut rpath: Vec<String> = Vec::new();
                rpath.push(cur.clone());
                let mut j: usize = h;
                while j > 0
                    invariant
                        self.spec_edges() == es,
                        bfs_core_inv(es, queue@, from@),
                        j < queue@.len(),
                        rpath@.len() >= 1,
                        rpath@.len() - 1 == d - queue@[j as int].dist,
                        queue@[j as int].dist <= d,
                        h < queue@.len(),
                        d == queue@[h as int].dist,
                        queue@[h as int].node@ == to@,
                        rpath@[0]@ == to@,
                        rpath@[rpath@.len() - 1]@ == queue@[j as int].node@,
                        forall|t: int|
                            0 <= t < rpath@.len() - 1 ==> adjacent(
                                es,
                                #[trigger] rpath@[t + 1]@,
                                rpath@[t]@,
                            ),
                    decreases j,
                {
                    let pj = queue[j].parent;
                    rpath.push(queue[pj].node.clone());
                    j = pj;
                }
                let n = rpath.len();
                let mut path: Vec<String> = Vec::new();
                let mut t: usize = 0;
                while t < n
                    invariant
                        t <= n,
                        n == rpath@.len(),
                        path@.len() == t,
                        forall|u: int| 0 <= u < t ==> #[trigger] path@[u]@ == rpath@[n - 1 - u]@,
                    decreases n - t,
                {
                    path.push(rpath[n - 1 - t].clone());
                    t += 1;
                }
                proof {
                    let pv = ids_view(path@);
                    let rv = rpath@;
                    assert(queue@[0].node@ == from@);
                    assert(pv.len() == n);
                    assert(pv[0] == rv[n - 1]@);
                    assert(pv[pv.len() - 1] == rv[0]@);
                    assert forall|i: int| 0 <= i < pv.len() - 1 implies #[trigger] adjacent(
                        es,
                        pv[i],
                        pv[i + 1],
                    ) by {
                        assert(pv[i] == rv[n - 1 - i]@);
                        assert(pv[i + 1] == rv[n - 2 - i]@);
                        assert(adjacent(es, rv[(n - 2 - i) + 1]@, rv[n - 2 - i]@));
                    }
                    assert(is_path(es, pv, from@, to@));
                    // Any walk to `to` has at least `d` hops: the queue entry
                    // at the frontier carries an exact hop count.
                    assert forall|m: nat| has_path_of_len(es, from@, to@, m) implies m >= pv.len()
                        - 1 by {
                        if m < queue@[h as int].dist {
                            assert(!has_path_of_len(es, from@, queue@[h as int].node@, m));
                        }
                    }
                }
                return Some(path);
            }
            // Discover the neighbours of the current node.
            let mut k: usize = 0;
            while k < self.channels.len()
                invariant
                    self.spec_edges() == es,
                    from@ != to@,
                    k <= es.len(),
                    h < queue@.len(),
                    h < usize::MAX,
                    bfs_core_inv(es, queue@, from@),
                    bfs_closed_upto(es, queue@, h as int),
                    forall|k2: int| 0 <= k2 < k ==> #[trigger] edge_closed(es, queue@, h as int, k2),
                    queue@[h as int].node@ == cur@,
                    queue@[h as int].dist == d,
                    forall|j: int|
                        0 <= j < queue@.len() ==> #[trigger] queue@[j].dist <= d + 1,
                    forall|i: int| 0 <= i < h ==> queue@[i].node@ != to@,
                    visited.finite(),
                    visited.len() == queue@.len(),
                    forall|j: int|
                        0 <= j < queue@.len() ==> visited.contains(#[trigger] queue@[j].node@),
                    forall|w: Seq<char>| visited.contains(w) ==> enqueued(queue@, w),
                    visited.subset_of(endpoint_set(es).insert(from@)),
                decreases es.len() - k,
            {
                let e_enabled = self.channels[k].is_enabled;
                if e_enabled {
                    let n1_matches = str_eq(self.channels[k].node1.as_str(), cur.as_str());
                    let n2_matches = str_eq(self.channels[k].node2.as_str(), cur.as_str());
                    if n1_matches || n2_matches {
                        let other: &String = if n1_matches {
                            &self.channels[k].node2
                        } else {
                            &self.channels[k].node1
                        };
                        proof {
                            assert(edge_connects(es[k as int], cur@, other@));
                        }
                        if !queue_contains(&queue, other.as_str()) {
                            proof {
                                broadcast use vstd::set::group_set_axioms;

                                lemma_endpoint_set_props(es);
                                assert(queue@[h as int].dist <= h as int);
                                // The new node is one hop beyond the frontier,
                                // so no shorter walk can reach it.
                                assert forall|n: nat| n < d + 1 implies !has_path_of_len(
                                    es,
                                    from@,
                                    other@,
                                    n,
                                ) by {
                                    if has_path_of_len(es, from@, other@, n) {
                                        lemma_bfs_level_complete(
                                            es,
                                            queue@,
                                            from@,
                                            h as int,
                                            other@,
                                            n,
                                        );
                                    }
                                }
                                lemma_path_extend(es, from@, cur@, other@, d as nat);
                            }
                            let ghost old_q = queue@;
                            queue.push(QEntry { node: other.clone(), dist: d + 1, parent: h });
                            proof {
                                visited = visited.insert(other@);
                                assert(queue@[queue@.len() - 1].node@ == other@);
                                assert(enqueued(queue@, other@));
                                assert forall|w: Seq<char>| enqueued(old_q, w) implies enqueued(
                                    queue@,
                                    w,
                                ) by {
                                    let j0 = choose|j0: int|
                                        0 <= j0 < old_q.len() && old_q[j0].node@ == w;
                                    assert(queue@[j0].node@ == w);
                                }
                                assert forall|i: int, k2: int|
                                    0 <= i < h && 0 <= k2 < es.len() implies #[trigger] edge_closed(
                                    es,
                                    queue@,
                                    i,
                                    k2,
                                ) by {
                                    assert(edge_closed(es, old_q, i, k2));
                                }
                                assert forall|k2: int| 0 <= k2 < k implies #[trigger] edge_closed(
                                    es,
                                    queue@,
                                    h as int,
                                    k2,
                                ) by {
                                    assert(edge_closed(es, old_q, h as int, k2));
                                }
                            }
                        } else {
                            proof {
                                assert(enqueued(queue@, other@));
                            }
                        }
                        proof {
                            assert(enqueued(queue@, other@));
                            assert(queue@[h as int].node@ == cur@);
                            assert(enqueued(queue@, cur@));
                            assert(n1_matches == (es[k as int].node1@ == cur@));
                            assert(n2_matches == (es[k as int].node2@ == cur@));
                            assert(edge_closed(es, queue@, h as int, k as int)) by {
                                if es[k as int].node1@ == cur@ {
                                    assert(other@ == es[k as int].node2@);
                                }
                                if es[k as int].node2@ == cur@ {
                                    if es[k as int].node1@ == cur@ {
                                        assert(enqueued(queue@, es[k as int].node1@));
                                    } else {
                                        assert(other@ == es[k as int].node1@);
                                    }
                                }
                            }
                        }
                    } else {
                        proof {
                            assert(edge_closed(es, queue@, h as int, k as int));
                        }
                    }
                } else {
                    proof {
                        assert(edge_closed(es, queue@, h as int, k as int));
                    }
                }
                k += 1;
            }
            proof {
                assert forall|i: int, k2: int|
                    0 <= i < h + 1 && 0 <= k2 < es.len() implies #[trigger] edge_closed(
                    es,
                    queue@,
                    i,
                    k2,
                ) by {}
            }
            h += 1;
        }
        proof {
            assert forall|n: nat| !has_path_of_len(es, from@, to@, n) by {
                if has_path_of_len(es, from@, to@, n) {
                    lemma_bfs_closed_complete(es, queue@, from@, to@, n);
                    let j = choose|j: int| 0 <= j < queue@.len() && queue@[j].node@ == to@;
                    assert(queue@[j].node@ != to@);
                }
            }
        }
        None
    }
}

impl Default for NetworkGraph {
    fn default() -> (r: Self)
        ensures
            r.wf(),
            r.spec_nodes() =~= Seq::<NodeInfo>::empty(),
            r.spec_edges() =~= Seq::<NetworkChannelInfo>::empty(),
    {
        NetworkGraph::new()
    }
}

} // verus!
