//! The cache of nodes that were connected before.

use vstd::prelude::*;

use crate::bytes::same_bytes;
use crate::sorting::{descending_order, goes_before, is_descending_order};
use crate::text::texts;
use crate::time::{current_unix_secs, is_unix_secs};

verus! {

/// Name of the file that the cache is kept in.
pub const CACHE_FILE: &'static str = "federation_peers.json";

/// How long a node is kept without being seen: seven days, in seconds.
pub const MAX_AGE_SECS: u64 = 604800;

/// A node of the cache.
#[derive(Debug, Clone)]
pub struct CachedNode {
    /// Its id.
    pub node_id: [u8; 20],
    /// Its address, with the port behind a colon.
    pub addr: String,
    /// When it was seen last, in seconds since the epoch.
    pub last_seen: u64,
    /// How often a connection to it succeeded.
    pub success_count: u32,
}

/// What the cache holds of a node.
#[verifier::ext_equal]
pub struct NodeModel {
    pub node_id: Seq<u8>,
    pub addr: Seq<char>,
    pub last_seen: u64,
    pub success_count: u32,
}

impl View for CachedNode {
    type V = NodeModel;

    open spec fn view(&self) -> NodeModel {
        NodeModel {
            node_id: self.node_id@,
            addr: self.addr@,
            last_seen: self.last_seen,
            success_count: self.success_count,
        }
    }
}

/// The nodes of the cache, in order.
pub open spec fn models(nodes: Seq<CachedNode>) -> Seq<NodeModel> {
    nodes.map_values(|n: CachedNode| n@)
}

/// The position of the first node with this id, or the number of nodes.
pub open spec fn position_of_id(nodes: Seq<NodeModel>, id: Seq<u8>) -> int
    decreases nodes.len(),
{
    if nodes.len() == 0 || nodes[0].node_id == id {
        0
    } else {
        1 + position_of_id(nodes.drop_first(), id)
    }
}

/// One more success, up to what the counter holds.
pub open spec fn counted(count: u32, success: bool) -> u32 {
    if success && count < u32::MAX {
        (count + 1) as u32
    } else {
        count
    }
}

/// The nodes after a connection to one of them: its entry takes the address and
/// the time and counts the success; a node without an entry gets one at the end.
pub open spec fn upserted(
    nodes: Seq<NodeModel>,
    id: Seq<u8>,
    addr: Seq<char>,
    success: bool,
    now: u64,
) -> Seq<NodeModel> {
    let i = position_of_id(nodes, id);
    if i < nodes.len() {
        nodes.update(
            i,
            NodeModel {
                node_id: id,
                addr,
                last_seen: now,
                success_count: counted(nodes[i].success_count, success),
            },
        )
    } else {
        nodes.push(
            NodeModel { node_id: id, addr, last_seen: now, success_count: counted(0, success) },
        )
    }
}

/// Whether a node is kept: it was seen within seven days and a connection to it
/// has succeeded.
pub open spec fn is_kept(n: NodeModel, now: u64) -> bool {
    now - n.last_seen < MAX_AGE_SECS && n.success_count > 0
}

/// The nodes that are kept, in their order.
pub open spec fn kept(nodes: Seq<NodeModel>, now: u64) -> Seq<NodeModel> {
    nodes.filter(|n: NodeModel| is_kept(n, now))
}

/// The success counts, in order.
pub open spec fn counts(nodes: Seq<NodeModel>) -> Seq<u32> {
    nodes.map_values(|n: NodeModel| n.success_count)
}

/// Whether `out` is the first `max` of `nodes`, or all of them, by descending
/// success count; nodes with the same count keep their order.
pub open spec fn is_best(nodes: Seq<NodeModel>, out: Seq<NodeModel>, max: nat) -> bool {
    exists|order: Seq<usize>| #[trigger]
        is_descending_order(counts(nodes), order) && out == best_by(nodes, order, max)
}

/// The first `max` of `nodes` in the given order, or all of them.
pub open spec fn best_by(nodes: Seq<NodeModel>, order: Seq<usize>, max: nat) -> Seq<NodeModel> {
    Seq::new(
        if max <= nodes.len() {
            max
        } else {
            nodes.len()
        },
        |i: int| nodes[order[i] as int],
    )
}

proof fn lemma_position_of_id(nodes: Seq<NodeModel>, id: Seq<u8>)
    ensures
        0 <= position_of_id(nodes, id) <= nodes.len(),
        position_of_id(nodes, id) < nodes.len() ==> nodes[position_of_id(nodes, id)].node_id == id,
        forall|i: int| 0 <= i < position_of_id(nodes, id) ==> (#[trigger] nodes[i]).node_id != id,
    decreases nodes.len(),
{
    if nodes.len() > 0 && nodes[0].node_id != id {
        let d = nodes.drop_first();
        lemma_position_of_id(d, id);
        assert forall|i: int| 0 <= i < position_of_id(nodes, id) implies (
        #[trigger] nodes[i]).node_id != id by {
            if i > 0 {
                assert(d[i - 1] == nodes[i]);
            }
        }
    }
}

/// The nodes that were connected before.
#[derive(Debug, Clone)]
pub struct PeerCache {
    /// When the cache was changed last, in seconds since the epoch.
    pub last_updated: u64,
    /// The nodes.
    pub nodes: Vec<CachedNode>,
}

impl Default for PeerCache {
    fn default() -> (r: Self)
        ensures
            r.last_updated == 0,
            r.nodes@.len() == 0,
    {
        PeerCache { last_updated: 0, nodes: Vec::new() }
    }
}

impl PeerCache {
    /// The nodes, in order.
    pub open spec fn entries(self) -> Seq<NodeModel> {
        models(self.nodes@)
    }

    /// Takes note of a connection at the given time.
    pub fn upsert_at(&mut self, node_id: &[u8; 20], addr: &str, success: bool, now: u64)
        ensures
            final(self).entries() == upserted(old(self).entries(), node_id@, addr@, success, now),
            final(self).last_updated == now,
    {
        let ghost before = self.entries();
        let mut i: usize = 0;
        proof {
            assert(before.skip(0) =~= before);
            lemma_position_of_id(before, node_id@);
        }
        while i < self.nodes.len()
            invariant
                before == self.entries(),
                before == old(self).entries(),
                i <= self.nodes@.len(),
                position_of_id(before, node_id@) == i + position_of_id(
                    before.skip(i as int),
                    node_id@,
                ),
            decreases self.nodes@.len() - i,
        {
            proof {
                assert(before[i as int] == self.nodes@[i as int]@);
                assert(before.skip(i as int).drop_first() =~= before.skip(i + 1));
            }
            if same_bytes(self.nodes[i].node_id.as_slice(), node_id.as_slice()) {
                let mut count: u32 = self.nodes[i].success_count;
                if success {
                    count = count.saturating_add(1);
                }
                let node = CachedNode {
                    node_id: *node_id,
                    addr: addr.to_owned(),
                    last_seen: now,
                    success_count: count,
                };
                self.nodes.set(i, node);
                self.last_updated = now;
                proof {
                    assert(self.entries() =~= upserted(before, node_id@, addr@, success, now));
                }
                return;
            }
            i = i + 1;
        }
        self.nodes.push(
            CachedNode {
                node_id: *node_id,
                addr: addr.to_owned(),
                last_seen: now,
                success_count: if success {
                    1
                } else {
                    0
                },
            },
        );
        self.last_updated = now;
        proof {
            assert(self.entries() =~= upserted(before, node_id@, addr@, success, now));
        }
    }

    /// Takes note of a connection now.
    pub fn upsert(&mut self, node_id: &[u8; 20], addr: &str, success: bool)
        ensures
            is_unix_secs(final(self).last_updated),
            final(self).entries() == upserted(
                old(self).entries(),
                node_id@,
                addr@,
                success,
                final(self).last_updated,
            ),
    {
        let now: u64 = current_unix_secs();
        self.upsert_at(node_id, addr, success, now);
    }

    /// Drops the nodes that are not kept at the given time, puts the others in
    /// descending order of success and keeps no more than `max_nodes`.
    pub fn prune_at(&mut self, max_nodes: usize, now: u64)
        ensures
            is_pruned(old(self).entries(), final(self).entries(), max_nodes as nat, now),
            is_best(kept(old(self).entries(), now), final(self).entries(), max_nodes as nat),
            final(self).last_updated == old(self).last_updated,
    {
        let ghost all = self.entries();
        let ghost pred = |n: NodeModel| is_kept(n, now);
        let mut good: Vec<CachedNode> = Vec::new();
        let mut i: usize = 0;
        proof {
            reveal(Seq::filter);
            assert(all.take(0) =~= Seq::<NodeModel>::empty());
            assert(models(good@) =~= all.take(0).filter(pred));
        }
        while i < self.nodes.len()
            invariant
                *self == *old(self),
                all == self.entries(),
                pred == (|n: NodeModel| is_kept(n, now)),
                i <= self.nodes@.len(),
                models(good@) == all.take(i as int).filter(pred),
            decreases self.nodes@.len() - i,
        {
            let ghost before = good@;
            proof {
                reveal(Seq::filter);
                assert(all.take(i + 1).drop_last() =~= all.take(i as int));
                assert(all[i as int] == self.nodes@[i as int]@);
            }
            if now.saturating_sub(self.nodes[i].last_seen) < MAX_AGE_SECS
                && self.nodes[i].success_count > 0 {
                good.push(self.nodes[i].copied());
                proof {
                    assert(models(good@) =~= models(before).push(all[i as int]));
                }
            }
            i = i + 1;
        }
        proof {
            assert(all.take(i as int) =~= all);
        }
        self.nodes = best_nodes(&good, max_nodes);
    }

    /// Drops the nodes that are not kept now, puts the others in descending order
    /// of success and keeps no more than `max_nodes`.
    pub fn prune(&mut self, max_nodes: usize)
        ensures
            exists|now: u64|
                is_unix_secs(now) && #[trigger] is_best(
                    kept(old(self).entries(), now),
                    final(self).entries(),
                    max_nodes as nat,
                ),
            final(self).last_updated == old(self).last_updated,
    {
        let now: u64 = current_unix_secs();
        self.prune_at(max_nodes, now);
    }

    /// The addresses of the `n` nodes with the most successes, most first.
    pub fn top_addrs(&self, n: usize) -> (r: Vec<String>)
        ensures
            are_top_addrs(self.entries(), n as nat, texts(r@)),
            exists|best: Seq<NodeModel>| #[trigger]
                is_best(self.entries(), best, n as nat) && texts(r@) == best.map_values(
                    |m: NodeModel| m.addr,
                ),
    {
        let best = best_nodes(&self.nodes, n);
        let mut out: Vec<String> = Vec::new();
        let mut i: usize = 0;
        while i < best.len()
            invariant
                i <= best@.len(),
                out@.len() == i,
                is_best(self.entries(), models(best@), n as nat),
                forall|j: int| 0 <= j < i ==> (#[trigger] out@[j])@ == best@[j].addr@,
            decreases best@.len() - i,
        {
            out.push(best[i].addr.clone());
            i = i + 1;
        }
        proof {
            assert(texts(out@) =~= models(best@).map_values(|m: NodeModel| m.addr));
        }
        out
    }
}

impl CachedNode {
    /// A copy of this entry.
    pub fn copied(&self) -> (r: Self)
        ensures
            r@ == self@,
    {
        CachedNode {
            node_id: self.node_id,
            addr: self.addr.clone(),
            last_seen: self.last_seen,
            success_count: self.success_count,
        }
    }
}

/// The first `max` nodes by descending success count, or all of them.
fn best_nodes(nodes: &Vec<CachedNode>, max: usize) -> (r: Vec<CachedNode>)
    ensures
        is_best(models(nodes@), models(r@), max as nat),
{
    let mut keys: Vec<u32> = Vec::new();
    let mut i: usize = 0;
    while i < nodes.len()
        invariant
            i <= nodes@.len(),
            keys@.len() == i,
            forall|j: int| 0 <= j < i ==> keys@[j] == nodes@[j].success_count,
        decreases nodes@.len() - i,
    {
        keys.push(nodes[i].success_count);
        i = i + 1;
    }
    proof {
        assert(keys@ =~= counts(models(nodes@)));
    }
    let order = descending_order(&keys);
    let count: usize = if max <= nodes.len() {
        max
    } else {
        nodes.len()
    };
    let mut out: Vec<CachedNode> = Vec::new();
    let mut k: usize = 0;
    while k < count
        invariant
            k <= count <= nodes@.len(),
            is_descending_order(counts(models(nodes@)), order@),
            out@.len() == k,
            forall|j: int| 0 <= j < k ==> (#[trigger] out@[j])@ == nodes@[order@[j] as int]@,
        decreases count - k,
    {
        out.push(nodes[order[k]].copied());
        k = k + 1;
    }
    proof {
        assert(models(out@) =~= best_by(models(nodes@), order@, max as nat));
    }
    out
}

/// No more than `max` nodes come out, each of them went in, and none stands
/// before one with more successes.
pub proof fn lemma_best_is_sorted(nodes: Seq<NodeModel>, out: Seq<NodeModel>, max: nat)
    requires
        is_best(nodes, out, max),
    ensures
        out.len() <= max,
        out.len() == nodes.len() || out.len() == max,
        forall|i: int| 0 <= i < out.len() ==> nodes.contains(#[trigger] out[i]),
        forall|i: int, j: int|
            0 <= i < j < out.len() ==> (#[trigger] out[i]).success_count >= (
            #[trigger] out[j]).success_count,
{
    let order = choose|order: Seq<usize>| #[trigger]
        is_descending_order(counts(nodes), order) && out == best_by(nodes, order, max);
    assert forall|i: int| 0 <= i < out.len() implies nodes.contains(#[trigger] out[i]) by {
        assert(order[i] < nodes.len());
        assert(out[i] == nodes[order[i] as int]);
    }
    assert forall|i: int, j: int| 0 <= i < j < out.len() implies (#[trigger] out[i]).success_count
        >= (#[trigger] out[j]).success_count by {
        assert(goes_before(counts(nodes), order[i] as int, order[j] as int));
        assert(order[i] < nodes.len() && order[j] < nodes.len());
    }
}

/// The choice leaves no room: two lists of the best nodes are the same.
pub proof fn lemma_best_is_unique(
    nodes: Seq<NodeModel>,
    x: Seq<NodeModel>,
    y: Seq<NodeModel>,
    max: nat,
)
    requires
        is_best(nodes, x, max),
        is_best(nodes, y, max),
    ensures
        x == y,
{
    let a = choose|order: Seq<usize>| #[trigger]
        is_descending_order(counts(nodes), order) && x == best_by(nodes, order, max);
    let b = choose|order: Seq<usize>| #[trigger]
        is_descending_order(counts(nodes), order) && y == best_by(nodes, order, max);
    crate::sorting::lemma_descending_order_unique(counts(nodes), a, b);
}

/// Every node that pruning leaves was seen within seven days and has been
/// connected to.
pub proof fn lemma_pruned_nodes_are_kept(
    nodes: Seq<NodeModel>,
    out: Seq<NodeModel>,
    max: nat,
    now: u64,
)
    requires
        is_best(kept(nodes, now), out, max),
    ensures
        forall|i: int|
            0 <= i < out.len() ==> nodes.contains(#[trigger] out[i]) && is_kept(out[i], now),
{
    let k = kept(nodes, now);
    let pred = |n: NodeModel| is_kept(n, now);
    lemma_best_is_sorted(k, out, max);
    assert forall|i: int| 0 <= i < out.len() implies nodes.contains(#[trigger] out[i]) && is_kept(
        out[i],
        now,
    ) by {
        assert(k.contains(out[i]));
        let j = choose|j: int| 0 <= j < k.len() && k[j] == out[i];
        nodes.lemma_filter_pred(pred, j);
        nodes.lemma_filter_contains_rev(pred, out[i]);
    }
}

/// Whether no id occurs twice.
pub open spec fn unique_ids(nodes: Seq<NodeModel>) -> bool {
    forall|i: int, j: int|
        0 <= i < j < nodes.len() ==> (#[trigger] nodes[i]).node_id != (#[trigger] nodes[j]).node_id
}

/// A connection leaves every id at most once, and the other nodes as they were.
pub proof fn lemma_upsert_keeps_ids_unique(
    nodes: Seq<NodeModel>,
    id: Seq<u8>,
    addr: Seq<char>,
    success: bool,
    now: u64,
)
    requires
        unique_ids(nodes),
    ensures
        unique_ids(upserted(nodes, id, addr, success, now)),
        forall|i: int|
            0 <= i < nodes.len() && (#[trigger] nodes[i]).node_id != id ==> upserted(
                nodes,
                id,
                addr,
                success,
                now,
            )[i] == nodes[i],
        exists|i: int|
            0 <= i < upserted(nodes, id, addr, success, now).len() && (#[trigger] upserted(
                nodes,
                id,
                addr,
                success,
                now,
            )[i]).node_id == id && upserted(nodes, id, addr, success, now)[i].addr == addr
                && upserted(nodes, id, addr, success, now)[i].last_seen == now,
{
    lemma_position_of_id(nodes, id);
    let p = position_of_id(nodes, id);
    let u = upserted(nodes, id, addr, success, now);
    assert forall|i: int, j: int| 0 <= i < j < u.len() implies (#[trigger] u[i]).node_id != (
    #[trigger] u[j]).node_id by {
        if p < nodes.len() {
            assert(u[i].node_id == nodes[i].node_id && u[j].node_id == nodes[j].node_id);
        } else {
            assert(u[i] == nodes[i]);
            if j < nodes.len() {
                assert(u[j] == nodes[j]);
            }
        }
    }
    assert(u[p].node_id == id && u[p].addr == addr && u[p].last_seen == now);
}

proof fn lemma_filter_keeps_unique(nodes: Seq<NodeModel>, pred: spec_fn(NodeModel) -> bool)
    requires
        unique_ids(nodes),
    ensures
        unique_ids(nodes.filter(pred)),
    decreases nodes.len(),
{
    reveal(Seq::filter);
    if nodes.len() > 0 {
        let d = nodes.drop_last();
        assert forall|i: int, j: int| 0 <= i < j < d.len() implies (#[trigger] d[i]).node_id != (
        #[trigger] d[j]).node_id by {
            assert(nodes[i].node_id != nodes[j].node_id);
        }
        lemma_filter_keeps_unique(d, pred);
        let f = d.filter(pred);
        if pred(nodes.last()) {
            let g = f.push(nodes.last());
            assert forall|i: int, j: int| 0 <= i < j < g.len() implies (#[trigger] g[i]).node_id
                != (#[trigger] g[j]).node_id by {
                if j == f.len() {
                    assert(f.contains(f[i]));
                    d.lemma_filter_contains_rev(pred, f[i]);
                    let k = choose|k: int| 0 <= k < d.len() && d[k] == f[i];
                    assert(nodes[k].node_id != nodes[nodes.len() - 1].node_id);
                } else {
                    assert(f[i].node_id != f[j].node_id);
                }
            }
        }
    }
}

/// Pruning leaves every id at most once.
pub proof fn lemma_prune_keeps_ids_unique(
    nodes: Seq<NodeModel>,
    out: Seq<NodeModel>,
    max: nat,
    now: u64,
)
    requires
        unique_ids(nodes),
        is_best(kept(nodes, now), out, max),
    ensures
        unique_ids(out),
{
    let k = kept(nodes, now);
    lemma_filter_keeps_unique(nodes, |n: NodeModel| is_kept(n, now));
    assert(unique_ids(k));
    let order = choose|order: Seq<usize>| #[trigger]
        is_descending_order(counts(k), order) && out == best_by(k, order, max);
    assert forall|i: int, j: int| 0 <= i < j < out.len() implies (#[trigger] out[i]).node_id != (
    #[trigger] out[j]).node_id by {
        assert(goes_before(counts(k), order[i] as int, order[j] as int));
        assert(order[i] < k.len() && order[j] < k.len());
        let a = order[i] as int;
        let b = order[j] as int;
        assert(a != b);
        if a < b {
            assert(k[a].node_id != k[b].node_id);
        } else {
            assert(k[b].node_id != k[a].node_id);
        }
    }
}

/// A failed connection never changes how often a node was connected to.
pub proof fn lemma_failure_does_not_count(
    nodes: Seq<NodeModel>,
    id: Seq<u8>,
    addr: Seq<char>,
    now: u64,
    i: int,
)
    requires
        0 <= i < nodes.len(),
    ensures
        upserted(nodes, id, addr, false, now)[i].success_count == nodes[i].success_count,
{
    lemma_position_of_id(nodes, id);
}

/// A node is kept for a week after it was seen last, if a connection to it ever
/// succeeded; the moment the week is over it is not.
pub proof fn lemma_nodes_are_kept_for_a_week(n: NodeModel, now: u64)
    ensures
        n.success_count == 0 ==> !is_kept(n, now),
        n.success_count > 0 ==> (is_kept(n, now) <==> now < n.last_seen + 7 * 24 * 3600),
{
}

/// A success counts once for the node that was connected, and for no other; the count
/// ends at its largest value.
pub proof fn lemma_success_counts_once(
    nodes: Seq<NodeModel>,
    id: Seq<u8>,
    addr: Seq<char>,
    success: bool,
    now: u64,
    i: int,
)
    requires
        unique_ids(nodes),
        0 <= i < nodes.len(),
    ensures
        ({
            let after = upserted(nodes, id, addr, success, now);
            &&& after.len() == nodes.len() || after.len() == nodes.len() + 1
            &&& nodes[i].node_id == id ==> after.len() == nodes.len() && after[i].node_id == id
                && after[i].addr == addr && after[i].last_seen == now && after[i].success_count
                == nodes[i].success_count + (if success && nodes[i].success_count < u32::MAX {
                1int
            } else {
                0
            })
            &&& nodes[i].node_id != id ==> after[i] == nodes[i]
        }),
{
    lemma_position_bound(nodes, id);
}

/// A node that was not known is added at the end, with one success or none.
pub proof fn lemma_new_node_is_added(
    nodes: Seq<NodeModel>,
    id: Seq<u8>,
    addr: Seq<char>,
    success: bool,
    now: u64,
)
    requires
        forall|i: int| 0 <= i < nodes.len() ==> (#[trigger] nodes[i]).node_id != id,
    ensures
        upserted(nodes, id, addr, success, now) == nodes.push(
            NodeModel {
                node_id: id,
                addr,
                last_seen: now,
                success_count: if success {
                    1
                } else {
                    0
                },
            },
        ),
{
    lemma_position_bound(nodes, id);
}

proof fn lemma_position_bound(nodes: Seq<NodeModel>, id: Seq<u8>)
    ensures
        0 <= position_of_id(nodes, id) <= nodes.len(),
        position_of_id(nodes, id) < nodes.len() ==> nodes[position_of_id(nodes, id)].node_id == id,
        forall|i: int| 0 <= i < position_of_id(nodes, id) ==> (#[trigger] nodes[i]).node_id != id,
    decreases nodes.len(),
{
    if nodes.len() > 0 && nodes[0].node_id != id {
        let d = nodes.drop_first();
        lemma_position_bound(d, id);
        assert forall|i: int| 0 <= i < position_of_id(nodes, id) implies (
        #[trigger] nodes[i]).node_id != id by {
            if i > 0 {
                assert(d[i - 1] == nodes[i]);
            }
        }
    }
}

/// Of the best nodes, those with more successes come first and, among as many, those
/// that stood first: for every two places there are two different positions in the
/// cache that say so.
pub proof fn lemma_best_keeps_the_order_of_equals(
    nodes: Seq<NodeModel>,
    out: Seq<NodeModel>,
    max: nat,
    i: int,
    j: int,
)
    requires
        is_best(nodes, out, max),
        0 <= i < j < out.len(),
    ensures
        exists|a: int, b: int|
            0 <= a < nodes.len() && 0 <= b < nodes.len() && #[trigger] nodes[a] == out[i]
                && #[trigger] nodes[b] == out[j] && (nodes[a].success_count
                > nodes[b].success_count || (nodes[a].success_count == nodes[b].success_count && a
                < b)),
{
    let order = choose|order: Seq<usize>| #[trigger]
        is_descending_order(counts(nodes), order) && out == best_by(nodes, order, max);
    let a = order[i] as int;
    let b = order[j] as int;
    assert(crate::sorting::goes_before(counts(nodes), order[i] as int, order[j] as int));
    assert(nodes[a] == out[i] && nodes[b] == out[j]);
}

/// Of the nodes exactly those are kept that are to be kept, in their order.
pub proof fn lemma_kept_nodes(nodes: Seq<NodeModel>, n: NodeModel, now: u64)
    ensures
        is_kept(n, now) ==> kept(nodes.push(n), now) == kept(nodes, now).push(n),
        !is_kept(n, now) ==> kept(nodes.push(n), now) == kept(nodes, now),
        kept(Seq::empty(), now) == Seq::<NodeModel>::empty(),
{
    reveal(Seq::filter);
    assert(nodes.push(n).drop_last() =~= nodes);
    assert(kept(Seq::empty(), now) =~= Seq::<NodeModel>::empty());
}

/// The model of a node holds each of its fields.
pub proof fn lemma_node_models(nodes: Seq<CachedNode>, i: int)
    ensures
        models(nodes).len() == nodes.len(),
        0 <= i < nodes.len() ==> models(nodes)[i].node_id == nodes[i].node_id@ && models(
            nodes,
        )[i].addr == nodes[i].addr@ && models(nodes)[i].last_seen == nodes[i].last_seen && models(
            nodes,
        )[i].success_count == nodes[i].success_count,
{
}

/// A node that is left out of the best is no better than any that is in.
pub proof fn lemma_left_out_is_no_better(
    nodes: Seq<NodeModel>,
    out: Seq<NodeModel>,
    max: nat,
    k: int,
    i: int,
)
    requires
        is_best(nodes, out, max),
        0 <= k < nodes.len(),
        !out.contains(nodes[k]),
        0 <= i < out.len(),
    ensures
        out.len() == max,
        nodes[k].success_count <= out[i].success_count,
{
    let order = choose|order: Seq<usize>| #[trigger]
        is_descending_order(counts(nodes), order) && out == best_by(nodes, order, max);
    crate::sorting::lemma_order_is_complete(counts(nodes), order, k);
    let at = choose|at: int| 0 <= at < order.len() && order[at] == k;
    if at < out.len() {
        assert(out[at] == nodes[k]);
    }
    assert(crate::sorting::goes_before(counts(nodes), order[i] as int, order[at] as int));
}

/// Whether these nodes are left after a cache was pruned.
pub open spec fn is_pruned(nodes: Seq<NodeModel>, out: Seq<NodeModel>, max: nat, now: u64) -> bool {
    is_best(kept(nodes, now), out, max)
}

/// Whether these are the addresses of the best nodes.
pub open spec fn are_top_addrs(nodes: Seq<NodeModel>, n: nat, addrs: Seq<Seq<char>>) -> bool {
    exists|best: Seq<NodeModel>| #[trigger]
        is_best(nodes, best, n) && addrs == best.map_values(|m: NodeModel| m.addr)
}

/// After a cache was pruned every node in it was there before, was seen within the week
/// and was connected to; there are no more than asked for, and the better come first.
pub proof fn lemma_pruned(
    nodes: Seq<NodeModel>,
    out: Seq<NodeModel>,
    max: nat,
    now: u64,
    i: int,
    j: int,
)
    requires
        is_pruned(nodes, out, max, now),
        0 <= i < j < out.len(),
    ensures
        out.len() <= max,
        nodes.contains(out[i]) && nodes.contains(out[j]),
        now < out[i].last_seen + 604800 && out[i].success_count > 0,
        now < out[j].last_seen + 604800 && out[j].success_count > 0,
        out[i].success_count >= out[j].success_count,
{
    lemma_pruned_nodes_are_kept(nodes, out, max, now);
    lemma_best_is_sorted(kept(nodes, now), out, max);
}

/// Where there is room, nothing is left out that is to be kept.
pub proof fn lemma_pruning_loses_nothing_else(
    nodes: Seq<NodeModel>,
    out: Seq<NodeModel>,
    max: nat,
    now: u64,
    k: int,
)
    requires
        is_pruned(nodes, out, max, now),
        0 <= k < nodes.len(),
        now < nodes[k].last_seen + 604800,
        nodes[k].success_count > 0,
        out.len() < max,
    ensures
        out.contains(nodes[k]),
{
    let ks = kept(nodes, now);
    let p = |n: NodeModel| is_kept(n, now);
    broadcast use vstd::seq_lib::group_filter_ensures;

    assert(p(nodes[k]));
    assert(nodes.contains(nodes[k]));
    assert(ks.contains(nodes[k]));
    let at = choose|at: int| 0 <= at < ks.len() && ks[at] == nodes[k];
    if !out.contains(ks[at]) {
        lemma_best_is_sorted(ks, out, max);
        let order = choose|order: Seq<usize>| #[trigger]
            is_descending_order(counts(ks), order) && out == best_by(ks, order, max);
        crate::sorting::lemma_order_is_complete(counts(ks), order, at);
        let i = choose|i: int| 0 <= i < order.len() && order[i] == at;
        assert(out[i] == ks[at]);
    }
}

/// Of the top addresses there are as many as asked for, or all, each is that of a node,
/// and the first is that of a node that no other exceeds.
pub proof fn lemma_top_addrs(nodes: Seq<NodeModel>, n: nat, addrs: Seq<Seq<char>>)
    requires
        are_top_addrs(nodes, n, addrs),
    ensures
        addrs.len() == n || addrs.len() == nodes.len(),
        addrs.len() <= n,
        forall|i: int|
            0 <= i < addrs.len() ==> exists|k: int|
                0 <= k < nodes.len() && #[trigger] nodes[k].addr == #[trigger] addrs[i],
        addrs.len() > 0 ==> exists|k: int|
            0 <= k < nodes.len() && #[trigger] nodes[k].addr == addrs[0] && forall|j: int|
                0 <= j < nodes.len() ==> (#[trigger] nodes[j]).success_count
                    <= nodes[k].success_count,
{
    let best = choose|best: Seq<NodeModel>| #[trigger]
        is_best(nodes, best, n) && addrs == best.map_values(|m: NodeModel| m.addr);
    lemma_best_is_sorted(nodes, best, n);
    assert forall|i: int| 0 <= i < addrs.len() implies exists|k: int|
        0 <= k < nodes.len() && #[trigger] nodes[k].addr == #[trigger] addrs[i] by {
        assert(nodes.contains(best[i]));
        let k = choose|k: int| 0 <= k < nodes.len() && nodes[k] == best[i];
        assert(nodes[k].addr == addrs[i]);
    }
    if addrs.len() > 0 {
        let order = choose|order: Seq<usize>| #[trigger]
            is_descending_order(counts(nodes), order) && best == best_by(nodes, order, n);
        let k = order[0] as int;
        assert(nodes[k] == best[0]);
        assert(nodes[k].addr == addrs[0]);
        assert forall|j: int| 0 <= j < nodes.len() implies (#[trigger] nodes[j]).success_count
            <= nodes[k].success_count by {
            crate::sorting::lemma_order_is_complete(counts(nodes), order, j);
            let at = choose|at: int| 0 <= at < order.len() && order[at] == j;
            if at > 0 {
                assert(crate::sorting::goes_before(
                    counts(nodes),
                    order[0] as int,
                    order[at] as int,
                ));
            }
        }
    }
}

} // verus!
