//! Greenhouse-level averages across fresh node snapshots.
//!
//! The aggregator keeps, per greenhouse, the most recently received node
//! snapshot per node id (last write wins, no history). On a fixed period the
//! owner calls `on_tick`, which reports one outcome per known greenhouse:
//! either a `GhAvg` over the nodes whose snapshot is still fresh, or the
//! distinct "no fresh data" outcome when none is — never a snapshot whose
//! fields are all silently absent.

use vstd::prelude::*;

use crate::aggregator::NodeAvg;
use crate::aggregator::WINDOW_MS;
use crate::aggregator::avg_field;
use crate::aggregator::avg_field_of;
use crate::float_bits::field_mean;
use crate::float_bits::mean_of_bits;

verus! {

/// Staleness grace in milliseconds: a node snapshot counts as fresh while it
/// is at most the window length plus this much old at evaluation time.
pub const STALE_GRACE_MS: u64 = 5_000;

/// Whether a node snapshot captured at `at_ms` is still fresh at `now`.
pub open spec fn is_fresh(at_ms: u64, now: u64) -> bool {
    now <= at_ms + WINDOW_MS + STALE_GRACE_MS
}

/// The members of `ns` still fresh at `now`, in order.
pub open spec fn fresh_of(ns: Seq<NodeAvg>, now: u64) -> Seq<NodeAvg>
    decreases ns.len(),
{
    if ns.len() == 0 {
        Seq::empty()
    } else if is_fresh(ns.last().at_ms, now) {
        fresh_of(ns.drop_last(), now).push(ns.last())
    } else {
        fresh_of(ns.drop_last(), now)
    }
}

/// The values the fresh node snapshots contribute to field `i` (absent node
/// fields contribute nothing), in order. Field numbering as in `avg_field`.
pub open spec fn gh_field_vals(ns: Seq<NodeAvg>, i: int) -> Seq<u32>
    decreases ns.len(),
{
    if ns.len() == 0 {
        Seq::empty()
    } else {
        let rest = gh_field_vals(ns.drop_last(), i);
        match avg_field(ns.last(), i) {
            Some(v) => rest.push(v),
            None => rest,
        }
    }
}

/// Per-greenhouse snapshot of one tick: per-field means across the fresh
/// node snapshots (a node whose field is absent is skipped for that field;
/// a non-finite contribution is skipped by the mean), and the count of
/// contributing nodes. Means are binary32 bit patterns.
#[derive(Clone, Copy, Debug)]
pub struct GhAvg {
    pub greenhouse_id: u16,
    pub air_temp_c: Option<u32>,
    pub leaf_temp_c: Option<u32>,
    pub bag_temp_c: Option<u32>,
    pub air_rh_pct: Option<u32>,
    pub bag_rh1_pct: Option<u32>,
    pub bag_rh2_pct: Option<u32>,
    pub bag_rh3_pct: Option<u32>,
    pub bag_rh4_pct: Option<u32>,
    pub bag_rh_avg_pct: Option<u32>,
    pub par_value: Option<u32>,
    pub weight_g: Option<u32>,
    pub ea_air_kpa: Option<u32>,
    pub ea_leaf_kpa: Option<u32>,
    pub es_kpa: Option<u32>,
    pub vpd_kpa: Option<u32>,
    pub nodes: usize,
}

/// What one greenhouse reports on a tick: a snapshot over its fresh nodes,
/// or the distinguishable "no fresh data" outcome.
#[derive(Clone, Copy, Debug)]
pub enum GhTick {
    NoFreshData { greenhouse_id: u16 },
    Avg(GhAvg),
}

/// The snapshot a greenhouse with fresh node set `fresh` yields.
pub open spec fn gh_avg_of(greenhouse_id: u16, fresh: Seq<NodeAvg>) -> GhAvg {
    GhAvg {
        greenhouse_id,
        air_temp_c: field_mean(gh_field_vals(fresh, 0)),
        leaf_temp_c: field_mean(gh_field_vals(fresh, 1)),
        bag_temp_c: field_mean(gh_field_vals(fresh, 2)),
        air_rh_pct: field_mean(gh_field_vals(fresh, 3)),
        bag_rh1_pct: field_mean(gh_field_vals(fresh, 4)),
        bag_rh2_pct: field_mean(gh_field_vals(fresh, 5)),
        bag_rh3_pct: field_mean(gh_field_vals(fresh, 6)),
        bag_rh4_pct: field_mean(gh_field_vals(fresh, 7)),
        bag_rh_avg_pct: field_mean(gh_field_vals(fresh, 8)),
        par_value: field_mean(gh_field_vals(fresh, 9)),
        weight_g: field_mean(gh_field_vals(fresh, 10)),
        ea_air_kpa: field_mean(gh_field_vals(fresh, 11)),
        ea_leaf_kpa: field_mean(gh_field_vals(fresh, 12)),
        es_kpa: field_mean(gh_field_vals(fresh, 13)),
        vpd_kpa: field_mean(gh_field_vals(fresh, 14)),
        nodes: fresh.len() as usize,
    }
}

/// One greenhouse's node-snapshot store.
pub struct GhEntry {
    pub greenhouse_id: u16,
    pub nodes: Vec<NodeAvg>,
}

/// The outcome one greenhouse reports at `now`: "no fresh data" exactly when
/// no stored node snapshot is fresh, else the snapshot over the fresh ones.
pub open spec fn gh_outcome(e: GhEntry, now: u64) -> GhTick {
    let fresh = fresh_of(e.nodes@, now);
    if fresh.len() == 0 {
        GhTick::NoFreshData { greenhouse_id: e.greenhouse_id }
    } else {
        GhTick::Avg(gh_avg_of(e.greenhouse_id, fresh))
    }
}

/// The reports of one tick: one outcome per known greenhouse, in order.
pub open spec fn gh_tick_outputs(gs: Seq<GhEntry>, now: u64) -> Seq<GhTick>
    decreases gs.len(),
{
    if gs.len() == 0 {
        Seq::empty()
    } else {
        gh_tick_outputs(gs.drop_last(), now).push(gh_outcome(gs.last(), now))
    }
}

/// Every known greenhouse reports exactly one outcome per tick, and that
/// outcome is the distinguishable "no fresh data" report exactly when none of
/// its node snapshots is fresh.
pub proof fn lemma_one_outcome_per_greenhouse(gs: Seq<GhEntry>, now: u64, k: int)
    requires
        0 <= k < gs.len(),
    ensures
        gh_tick_outputs(gs, now).len() == gs.len(),
        gh_tick_outputs(gs, now)[k] == gh_outcome(gs[k], now),
        gh_tick_outputs(gs, now)[k] is NoFreshData <==> fresh_of(gs[k].nodes@, now).len() == 0,
    decreases gs.len(),
{
    if k == gs.len() - 1 {
        lemma_gh_outputs_len(gs.drop_last(), now);
    } else {
        lemma_one_outcome_per_greenhouse(gs.drop_last(), now, k);
        assert(gs.drop_last()[k] == gs[k]);
    }
}

/// One tick reports as many outcomes as there are greenhouses.
pub proof fn lemma_gh_outputs_len(gs: Seq<GhEntry>, now: u64)
    ensures
        gh_tick_outputs(gs, now).len() == gs.len(),
    decreases gs.len(),
{
    if gs.len() > 0 {
        lemma_gh_outputs_len(gs.drop_last(), now);
    }
}

/// No two entries are for the same greenhouse.
pub open spec fn unique_ghs(gs: Seq<GhEntry>) -> bool {
    forall|i: int, j: int|
        0 <= i < j < gs.len() ==> #[trigger] gs[i].greenhouse_id != #[trigger] gs[j].greenhouse_id
}

/// No two snapshots in one entry are for the same node.
pub open spec fn unique_nodes(ns: Seq<NodeAvg>) -> bool {
    forall|a: int, b: int|
        0 <= a < b < ns.len() ==> #[trigger] ns[a].node_id != #[trigger] ns[b].node_id
}

/// Whether some entry in `gs` is for greenhouse `gh`.
pub open spec fn has_gh(gs: Seq<GhEntry>, gh: u16) -> bool {
    exists|i: int| 0 <= i < gs.len() && (#[trigger] gs[i]).greenhouse_id == gh
}

/// The index of the entry for greenhouse `gh` (meaningful under `has_gh`
/// and unique ids).
pub open spec fn gh_index(gs: Seq<GhEntry>, gh: u16) -> int {
    choose|i: int| 0 <= i < gs.len() && (#[trigger] gs[i]).greenhouse_id == gh
}

/// Whether some snapshot in `ns` is for node `node`.
pub open spec fn has_node(ns: Seq<NodeAvg>, node: u16) -> bool {
    exists|j: int| 0 <= j < ns.len() && (#[trigger] ns[j]).node_id == node
}

/// The index of the snapshot for node `node` (meaningful under `has_node`
/// and unique ids).
pub open spec fn node_index(ns: Seq<NodeAvg>, node: u16) -> int {
    choose|j: int| 0 <= j < ns.len() && (#[trigger] ns[j]).node_id == node
}

/// Greenhouse-level aggregation state: per greenhouse, the latest node
/// snapshot per node id. Arrival order across nodes is irrelevant; a new
/// snapshot for a known node replaces the stored one.
pub struct GreenhouseAggregator {
    pub ghs: Vec<GhEntry>,
}

impl GreenhouseAggregator {
    /// Greenhouse ids are unique, and node ids are unique within each entry.
    pub open spec fn wf(self) -> bool {
        &&& unique_ghs(self.ghs@)
        &&& forall|i: int| 0 <= i < self.ghs@.len() ==> unique_nodes((#[trigger] self.ghs@[i]).nodes@)
    }

    /// An aggregator that knows no greenhouse yet.
    pub fn new() -> (a: GreenhouseAggregator)
        ensures
            a.wf(),
            a.ghs@.len() == 0,
    {
        GreenhouseAggregator { ghs: Vec::new() }
    }

    /// Store one node snapshot: it replaces the stored snapshot of its node
    /// (last write wins) or extends its greenhouse's store, creating the
    /// greenhouse entry on first sight. Every other entry is untouched.
    pub fn on_node_avg(&mut self, na: NodeAvg)
        requires
            old(self).wf(),
        ensures
            final(self).wf(),
            ({
                let gs0 = old(self).ghs@;
                let gs1 = final(self).ghs@;
                if has_gh(gs0, na.greenhouse_id) {
                    let i = gh_index(gs0, na.greenhouse_id);
                    &&& gs1.len() == gs0.len()
                    &&& forall|k: int| 0 <= k < gs0.len() && k != i ==> gs1[k] == gs0[k]
                    &&& gs1[i].greenhouse_id == na.greenhouse_id
                    &&& ({
                        let ns0 = gs0[i].nodes@;
                        let ns1 = gs1[i].nodes@;
                        if has_node(ns0, na.node_id) {
                            ns1 =~= ns0.update(node_index(ns0, na.node_id), na)
                        } else {
                            ns1 =~= ns0.push(na)
                        }
                    })
                } else {
                    &&& gs1.len() == gs0.len() + 1
                    &&& forall|k: int| 0 <= k < gs0.len() ==> gs1[k] == gs0[k]
                    &&& gs1.last().greenhouse_id == na.greenhouse_id
                    &&& gs1.last().nodes@ =~= seq![na]
                }
            }),
    {
        let ghost gs0 = self.ghs@;
        let n = self.ghs.len();
        let mut idx: usize = 0;
        while idx < n && self.ghs[idx].greenhouse_id != na.greenhouse_id
            invariant
                self.ghs@ == gs0,
                n == gs0.len(),
                idx <= n,
                forall|k: int| 0 <= k < idx ==> (#[trigger] gs0[k]).greenhouse_id
                    != na.greenhouse_id,
            decreases n - idx,
        {
            idx = idx + 1;
        }
        if idx < n {
            proof {
                assert(has_gh(gs0, na.greenhouse_id));
                let gi = gh_index(gs0, na.greenhouse_id);
                assert(0 <= gi < gs0.len() && gs0[gi].greenhouse_id == na.greenhouse_id);
                if gi < idx as int {
                    assert(gs0[gi].greenhouse_id != gs0[idx as int].greenhouse_id);
                    assert(false);
                }
                if (idx as int) < gi {
                    assert(gs0[idx as int].greenhouse_id != gs0[gi].greenhouse_id);
                    assert(false);
                }
                assert(gi == idx as int);
                assert(unique_nodes(gs0[idx as int].nodes@));
            }
            let mut e = self.ghs.remove(idx);
            let ghost ns0 = e.nodes@;
            let m = e.nodes.len();
            let mut j: usize = 0;
            while j < m && e.nodes[j].node_id != na.node_id
                invariant
                    e.nodes@ == ns0,
                    m == ns0.len(),
                    j <= m,
                    forall|k: int| 0 <= k < j ==> (#[trigger] ns0[k]).node_id != na.node_id,
                decreases m - j,
            {
                j = j + 1;
            }
            if j < m {
                proof {
                    assert(has_node(ns0, na.node_id));
                    let nj = node_index(ns0, na.node_id);
                    assert(0 <= nj < ns0.len() && ns0[nj].node_id == na.node_id);
                    if nj < j as int {
                        assert(ns0[nj].node_id != ns0[j as int].node_id);
                        assert(false);
                    }
                    if (j as int) < nj {
                        assert(ns0[j as int].node_id != ns0[nj].node_id);
                        assert(false);
                    }
                    assert(nj == j as int);
                }
                let _ = e.nodes.remove(j);
                e.nodes.insert(j, na);
                proof {
                    assert(e.nodes@ =~= ns0.update(j as int, na));
                    assert(unique_nodes(e.nodes@)) by {
                        assert forall|a: int, b: int| 0 <= a < b < e.nodes@.len() implies e.nodes@[
                        a].node_id != e.nodes@[b].node_id by {
                            assert(e.nodes@[a].node_id == ns0[a].node_id);
                            assert(e.nodes@[b].node_id == ns0[b].node_id);
                        }
                    }
                }
            } else {
                e.nodes.push(na);
                proof {
                    assert(e.nodes@ =~= ns0.push(na));
                    assert(unique_nodes(e.nodes@)) by {
                        assert forall|a: int, b: int| 0 <= a < b < e.nodes@.len() implies e.nodes@[
                        a].node_id != e.nodes@[b].node_id by {
                            if b == e.nodes@.len() - 1 {
                                assert(e.nodes@[a] == ns0[a]);
                            } else {
                                assert(e.nodes@[a] == ns0[a]);
                                assert(e.nodes@[b] == ns0[b]);
                            }
                        }
                    }
                }
            }
            self.ghs.insert(idx, e);
            proof {
                let gs1 = self.ghs@;
                assert(forall|k: int| 0 <= k < idx ==> gs1[k] == gs0[k]);
                assert(forall|k: int| idx < k < gs0.len() ==> gs1[k] == gs0[k]);
                assert(unique_ghs(gs1)) by {
                    assert forall|a: int, b: int| 0 <= a < b < gs1.len() implies gs1[
                    a].greenhouse_id != gs1[b].greenhouse_id by {
                        assert(gs1[a].greenhouse_id == gs0[a].greenhouse_id);
                        assert(gs1[b].greenhouse_id == gs0[b].greenhouse_id);
                    }
                }
                assert forall|i: int| 0 <= i < gs1.len() implies unique_nodes(
                    (#[trigger] gs1[i]).nodes@,
                ) by {
                    if i != idx as int {
                        assert(gs1[i] == gs0[i]);
                        assert(unique_nodes(gs0[i].nodes@));
                    }
                }
            }
        } else {
            let e = GhEntry { greenhouse_id: na.greenhouse_id, nodes: vec![na] };
            self.ghs.push(e);
            proof {
                let gs1 = self.ghs@;
                assert(!has_gh(gs0, na.greenhouse_id));
                assert(gs1.last().nodes@ =~= seq![na]);
                assert(unique_ghs(gs1)) by {
                    assert forall|a: int, b: int| 0 <= a < b < gs1.len() implies gs1[
                    a].greenhouse_id != gs1[b].greenhouse_id by {
                        if b == gs1.len() - 1 {
                            assert(gs1[a] == gs0[a]);
                        } else {
                            assert(gs1[a] == gs0[a]);
                            assert(gs1[b] == gs0[b]);
                        }
                    }
                }
                assert forall|i: int| 0 <= i < gs1.len() implies unique_nodes(
                    (#[trigger] gs1[i]).nodes@,
                ) by {
                    if i < gs1.len() - 1 {
                        assert(gs1[i] == gs0[i]);
                        assert(unique_nodes(gs0[i].nodes@));
                    } else {
                        assert(gs1[i].nodes@ =~= seq![na]);
                    }
                }
            }
        }
    }

    /// One tick at instant `now`: report one outcome per known greenhouse,
    /// in order — the mean snapshot over its fresh nodes, or the distinct
    /// "no fresh data" outcome when none is fresh. The store is unchanged.
    pub fn on_tick(&self, now: u64) -> (out: Vec<GhTick>)
        ensures
            out@ == gh_tick_outputs(self.ghs@, now),
    {
        let n = self.ghs.len();
        let mut out: Vec<GhTick> = Vec::new();
        let mut i: usize = 0;
        while i < n
            invariant
                n == self.ghs@.len(),
                i <= n,
                out@ == gh_tick_outputs(self.ghs@.take(i as int), now),
            decreases n - i,
        {
            let e = &self.ghs[i];
            let m = e.nodes.len();
            let mut fresh: Vec<NodeAvg> = Vec::new();
            let mut j: usize = 0;
            while j < m
                invariant
                    m == e.nodes@.len(),
                    j <= m,
                    fresh@ == fresh_of(e.nodes@.take(j as int), now),
                decreases m - j,
            {
                let na = e.nodes[j];
                proof {
                    assert(e.nodes@.take(j + 1 as int).drop_last() =~= e.nodes@.take(j as int));
                    assert(e.nodes@.take(j + 1 as int).last() == e.nodes@[j as int]);
                }
                if na.at_ms >= now || now - na.at_ms <= WINDOW_MS + STALE_GRACE_MS {
                    fresh.push(na);
                }
                j = j + 1;
            }
            proof {
                assert(e.nodes@.take(m as int) =~= e.nodes@);
            }
            let t = if fresh.len() == 0 {
                GhTick::NoFreshData { greenhouse_id: e.greenhouse_id }
            } else {
                GhTick::Avg(
                    GhAvg {
                        greenhouse_id: e.greenhouse_id,
                        air_temp_c: mean_of_bits(&collect_gh_field(&fresh, 0)),
                        leaf_temp_c: mean_of_bits(&collect_gh_field(&fresh, 1)),
                        bag_temp_c: mean_of_bits(&collect_gh_field(&fresh, 2)),
                        air_rh_pct: mean_of_bits(&collect_gh_field(&fresh, 3)),
                        bag_rh1_pct: mean_of_bits(&collect_gh_field(&fresh, 4)),
                        bag_rh2_pct: mean_of_bits(&collect_gh_field(&fresh, 5)),
                        bag_rh3_pct: mean_of_bits(&collect_gh_field(&fresh, 6)),
                        bag_rh4_pct: mean_of_bits(&collect_gh_field(&fresh, 7)),
                        bag_rh_avg_pct: mean_of_bits(&collect_gh_field(&fresh, 8)),
                        par_value: mean_of_bits(&collect_gh_field(&fresh, 9)),
                        weight_g: mean_of_bits(&collect_gh_field(&fresh, 10)),
                        ea_air_kpa: mean_of_bits(&collect_gh_field(&fresh, 11)),
                        ea_leaf_kpa: mean_of_bits(&collect_gh_field(&fresh, 12)),
                        es_kpa: mean_of_bits(&collect_gh_field(&fresh, 13)),
                        vpd_kpa: mean_of_bits(&collect_gh_field(&fresh, 14)),
                        nodes: fresh.len(),
                    },
                )
            };
            proof {
                assert(t == gh_outcome(self.ghs@[i as int], now));
                assert(self.ghs@.take(i + 1 as int).drop_last() =~= self.ghs@.take(i as int));
                assert(self.ghs@.take(i + 1 as int).last() == self.ghs@[i as int]);
            }
            out.push(t);
            i = i + 1;
        }
        proof {
            assert(self.ghs@.take(n as int) =~= self.ghs@);
        }
        out
    }
}

/// Collect the present values of field `i` from the given snapshots.
fn collect_gh_field(nodes: &Vec<NodeAvg>, i: usize) -> (v: Vec<u32>)
    ensures
        v@ == gh_field_vals(nodes@, i as int),
{
    let mut v: Vec<u32> = Vec::new();
    let n = nodes.len();
    for j in 0..n
        invariant
            n == nodes@.len(),
            v@ == gh_field_vals(nodes@.take(j as int), i as int),
    {
        proof {
            assert(nodes@.take(j + 1 as int).drop_last() =~= nodes@.take(j as int));
            assert(nodes@.take(j + 1 as int).last() == nodes@[j as int]);
        }
        match avg_field_of(&nodes[j], i) {
            Some(x) => v.push(x),
            None => {},
        }
    }
    proof {
        assert(nodes@.take(n as int) =~= nodes@);
    }
    v
}

} // verus!
