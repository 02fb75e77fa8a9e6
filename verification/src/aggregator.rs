//! Per-node rolling averages over a trailing time window.
//!
//! One `NodeWindow` per (greenhouse id, node id) key holds the timestamped
//! samples of the trailing window, bounded both by elapsed time and by a hard
//! count cap. On a fixed period the owner calls `on_tick`, which re-prunes
//! every window and emits one `NodeAvg` snapshot per key whose window still
//! holds a sample; a key whose window pruned to nothing emits nothing that
//! tick. Instants are milliseconds of a monotonic clock, supplied by the
//! caller; sample ingestion and tick evaluation never run concurrently on one
//! aggregator.

use vstd::prelude::*;

use crate::decoder::Decoded;
use crate::decoder::spec_greenhouse_of;
use crate::decoder::spec_node_of;
use crate::decoder::greenhouse_of;
use crate::decoder::node_of;
use crate::float_bits::b32_of_u16;
use crate::float_bits::field_mean;
use crate::float_bits::mean_of_bits;
use crate::float_bits::u16_to_bits;

verus! {

/// Window length in milliseconds: means cover the trailing minute.
pub const WINDOW_MS: u64 = 60_000;

/// Hard cap on buffered samples per node, independent of time, so memory
/// stays bounded under pathological arrival rates.
pub const MAX_SAMPLES_PER_NODE: usize = 64;

/// Which payload shape a window was created for. The first seen variant is
/// retained; a later sample claiming the other shape is not reconciled and
/// contributes to no mean of this window.
#[derive(Clone, Copy, Debug, PartialEq, Eq, Structural)]
pub enum NodeKind {
    Standard,
    Outdoor,
}

/// One decoded sample with its arrival instant.
#[derive(Clone, Copy, Debug)]
pub struct TimedSample {
    pub at_ms: u64,
    pub data: Decoded,
}

/// Whether a sample taken at `at_ms` still lies inside the window at `now`.
pub open spec fn in_window(at_ms: u64, now: u64) -> bool {
    now <= at_ms + WINDOW_MS
}

/// The members of `buf` still inside the window at `now`, in order.
pub open spec fn live_of(buf: Seq<TimedSample>, now: u64) -> Seq<TimedSample>
    decreases buf.len(),
{
    if buf.len() == 0 {
        Seq::empty()
    } else if in_window(buf.last().at_ms, now) {
        live_of(buf.drop_last(), now).push(buf.last())
    } else {
        live_of(buf.drop_last(), now)
    }
}

/// The last `MAX_SAMPLES_PER_NODE` members of `s` (all of them when the cap
/// is not exceeded).
pub open spec fn capped(s: Seq<TimedSample>) -> Seq<TimedSample> {
    if s.len() > MAX_SAMPLES_PER_NODE {
        s.skip(s.len() - MAX_SAMPLES_PER_NODE as int)
    } else {
        s
    }
}

/// Arrival instants never decrease along the buffer.
pub open spec fn sorted_by_time(buf: Seq<TimedSample>) -> bool {
    forall|i: int, j: int|
        0 <= i <= j < buf.len() ==> #[trigger] buf[i].at_ms <= #[trigger] buf[j].at_ms
}

/// Every arrival instant in `buf` is at most `bound`.
pub open spec fn times_at_most(buf: Seq<TimedSample>, bound: u64) -> bool {
    forall|i: int| 0 <= i < buf.len() ==> #[trigger] buf[i].at_ms <= bound
}

/// The pruned window holds only samples inside the window at `now`, and only
/// samples that were in the buffer: a sample older than the window length
/// relative to the tick instant survives no prune and contributes to no mean.
pub proof fn lemma_window_excludes_stale(buf: Seq<TimedSample>, now: u64)
    ensures
        forall|k: int|
            0 <= k < live_of(buf, now).len() ==> in_window(
                #[trigger] live_of(buf, now)[k].at_ms,
                now,
            ),
        forall|k: int| 0 <= k < live_of(buf, now).len() ==> buf.contains(
            #[trigger] live_of(buf, now)[k],
        ),
    decreases buf.len(),
{
    if buf.len() > 0 {
        lemma_window_excludes_stale(buf.drop_last(), now);
        let rest = live_of(buf.drop_last(), now);
        assert forall|k: int| 0 <= k < live_of(buf, now).len() implies in_window(
            live_of(buf, now)[k].at_ms,
            now,
        ) && buf.contains(live_of(buf, now)[k]) by {
            if k < rest.len() {
                assert(live_of(buf, now)[k] == rest[k]);
                assert(buf.drop_last().contains(rest[k]));
                let j = choose|j: int|
                    0 <= j < buf.drop_last().len() && buf.drop_last()[j] == rest[k];
                assert(buf[j] == rest[k]);
            } else {
                assert(live_of(buf, now)[k] == buf.last());
            }
        }
    }
}

/// When a buffer splits at `cut` into a stale prefix and a live suffix, the
/// live members are exactly that suffix.
proof fn lemma_live_prefix_cut(buf: Seq<TimedSample>, now: u64, cut: int)
    requires
        0 <= cut <= buf.len(),
        forall|i: int| 0 <= i < cut ==> !in_window(#[trigger] buf[i].at_ms, now),
        forall|i: int| cut <= i < buf.len() ==> in_window(#[trigger] buf[i].at_ms, now),
    ensures
        live_of(buf, now) =~= buf.skip(cut),
    decreases buf.len(),
{
    if buf.len() == 0 {
    } else if cut == buf.len() {
        assert(!in_window(buf.last().at_ms, now));
        lemma_live_prefix_cut(buf.drop_last(), now, cut - 1);
        assert(live_of(buf, now) =~= buf.skip(cut));
    } else {
        assert(in_window(buf.last().at_ms, now));
        lemma_live_prefix_cut(buf.drop_last(), now, cut);
        assert(live_of(buf, now) =~= buf.drop_last().skip(cut).push(buf.last()));
        assert(live_of(buf, now) =~= buf.skip(cut));
    }
}

/// Per-key sample buffer: the window's shape, its key, and the buffered
/// timestamped samples in arrival order.
pub struct NodeWindow {
    pub kind: NodeKind,
    pub greenhouse_id: u16,
    pub node_id: u16,
    pub buf: Vec<TimedSample>,
}

impl NodeWindow {
    /// Buffer well-formedness: arrival-ordered and within the count cap.
    pub open spec fn wf(self) -> bool {
        &&& sorted_by_time(self.buf@)
        &&& self.buf@.len() <= MAX_SAMPLES_PER_NODE
    }

    /// A fresh, empty window for one key.
    pub fn new(kind: NodeKind, greenhouse_id: u16, node_id: u16) -> (w: NodeWindow)
        ensures
            w.kind == kind,
            w.greenhouse_id == greenhouse_id,
            w.node_id == node_id,
            w.buf@ =~= Seq::<TimedSample>::empty(),
            w.wf(),
    {
        NodeWindow { kind, greenhouse_id, node_id, buf: Vec::new() }
    }

    /// Drop from the front every sample that has aged out of the window.
    pub fn prune(&mut self, now: u64)
        requires
            sorted_by_time(old(self).buf@),
            times_at_most(old(self).buf@, now),
        ensures
            final(self).kind == old(self).kind,
            final(self).greenhouse_id == old(self).greenhouse_id,
            final(self).node_id == old(self).node_id,
            final(self).buf@ == live_of(old(self).buf@, now),
            final(self).buf@.len() <= old(self).buf@.len(),
            sorted_by_time(final(self).buf@),
            times_at_most(final(self).buf@, now),
    {
        let ghost buf0 = self.buf@;
        let len = self.buf.len();
        let mut cut: usize = 0;
        while cut < len && now - self.buf[cut].at_ms > WINDOW_MS
            invariant
                self.buf@ == buf0,
                len == buf0.len(),
                cut <= len,
                times_at_most(buf0, now),
                forall|i: int| 0 <= i < cut ==> !in_window(#[trigger] buf0[i].at_ms, now),
            decreases len - cut,
        {
            cut = cut + 1;
        }
        proof {
            assert forall|i: int| cut <= i < buf0.len() implies in_window(
                #[trigger] buf0[i].at_ms,
                now,
            ) by {
                assert(buf0[cut as int].at_ms <= buf0[i].at_ms);
            }
            lemma_live_prefix_cut(buf0, now, cut as int);
        }
        let mut kept: Vec<TimedSample> = Vec::new();
        let mut j = cut;
        while j < len
            invariant
                self.buf@ == buf0,
                len == buf0.len(),
                cut <= j <= len,
                kept@ =~= buf0.subrange(cut as int, j as int),
            decreases len - j,
        {
            let s = self.buf[j];
            kept.push(s);
            j = j + 1;
        }
        proof {
            assert(kept@ =~= buf0.skip(cut as int));
        }
        self.buf = kept;
    }

    /// Record one sample at `now`, then prune for staleness and trim to the
    /// count cap. The buffer afterwards holds exactly the capped tail of the
    /// still-live samples, the new one included.
    pub fn push_and_prune(&mut self, now: u64, data: Decoded)
        requires
            old(self).wf(),
            times_at_most(old(self).buf@, now),
        ensures
            final(self).kind == old(self).kind,
            final(self).greenhouse_id == old(self).greenhouse_id,
            final(self).node_id == old(self).node_id,
            final(self).buf@ == capped(
                live_of(old(self).buf@.push(TimedSample { at_ms: now, data }), now),
            ),
            final(self).wf(),
            times_at_most(final(self).buf@, now),
    {
        let ghost buf0 = old(self).buf@;
        self.buf.push(TimedSample { at_ms: now, data });
        let ghost pushed = self.buf@;
        proof {
            assert forall|i: int, j: int| 0 <= i <= j < pushed.len() implies pushed[i].at_ms
                <= pushed[j].at_ms by {
                if j == pushed.len() - 1 {
                    if i < j {
                        assert(pushed[i].at_ms == buf0[i].at_ms);
                        assert(buf0[i].at_ms <= now);
                    }
                } else {
                    assert(pushed[i].at_ms == buf0[i].at_ms);
                    assert(pushed[j].at_ms == buf0[j].at_ms);
                }
            }
            assert(times_at_most(pushed, now));
        }
        self.prune(now);
        if self.buf.len() > MAX_SAMPLES_PER_NODE {
            let ghost live = self.buf@;
            let len = self.buf.len();
            let start = len - MAX_SAMPLES_PER_NODE;
            let mut kept: Vec<TimedSample> = Vec::new();
            let mut j = start;
            while j < len
                invariant
                    self.buf@ == live,
                    len == live.len(),
                    start <= j <= len,
                    kept@ =~= live.subrange(start as int, j as int),
                decreases len - j,
            {
                let s = self.buf[j];
                kept.push(s);
                j = j + 1;
            }
            proof {
                assert(kept@ =~= live.skip(start as int));
                assert(kept@ =~= capped(live));
            }
            self.buf = kept;
        } else {
            proof {
                assert(self.buf@ == capped(live_of(pushed, now)));
            }
        }
    }
}

/// The value sample `d` contributes to field `i` of a window of shape
/// `kind`: absent when the sample's shape mismatches the window's or the
/// shape does not carry the field. Field indices: 0 air temperature, 1 leaf
/// temperature, 2 bag temperature, 3 air humidity, 4 to 7 bag humidities,
/// 8 bag humidity average, 9 PAR, 10 weight, 11 ea air, 12 ea leaf, 13 es,
/// 14 vpd. PAR and weight arrive as 16-bit integers and are widened to
/// binary32 here.
pub open spec fn sample_field(d: Decoded, kind: NodeKind, i: int) -> Option<u32> {
    match kind {
        NodeKind::Standard => match d {
            Decoded::Standard {
                air_temp_c,
                leaf_temp_c,
                bag_temp_c,
                air_rh_pct,
                bag_rh1_pct,
                bag_rh2_pct,
                bag_rh3_pct,
                bag_rh4_pct,
                bag_rh_avg_pct,
                par_value,
                weight_g,
                ea_air_kpa,
                ea_leaf_kpa,
                es_kpa,
                vpd_kpa,
                ..
            } => {
                if i == 0 {
                    Some(air_temp_c)
                } else if i == 1 {
                    Some(leaf_temp_c)
                } else if i == 2 {
                    Some(bag_temp_c)
                } else if i == 3 {
                    Some(air_rh_pct)
                } else if i == 4 {
                    Some(bag_rh1_pct)
                } else if i == 5 {
                    Some(bag_rh2_pct)
                } else if i == 6 {
                    Some(bag_rh3_pct)
                } else if i == 7 {
                    Some(bag_rh4_pct)
                } else if i == 8 {
                    Some(bag_rh_avg_pct)
                } else if i == 9 {
                    Some(b32_of_u16(par_value))
                } else if i == 10 {
                    Some(b32_of_u16(weight_g))
                } else if i == 11 {
                    Some(ea_air_kpa)
                } else if i == 12 {
                    Some(ea_leaf_kpa)
                } else if i == 13 {
                    Some(es_kpa)
                } else if i == 14 {
                    Some(vpd_kpa)
                } else {
                    None
                }
            },
            Decoded::Outdoor { .. } => None,
        },
        NodeKind::Outdoor => match d {
            Decoded::Outdoor { air_temp_c, air_rh_pct, par_value, ea_air_kpa, es_kpa, .. } => {
                if i == 0 {
                    Some(air_temp_c)
                } else if i == 3 {
                    Some(air_rh_pct)
                } else if i == 9 {
                    Some(b32_of_u16(par_value))
                } else if i == 11 {
                    Some(ea_air_kpa)
                } else if i == 13 {
                    Some(es_kpa)
                } else {
                    None
                }
            },
            Decoded::Standard { .. } => None,
        },
    }
}

/// Executable form of `sample_field`.
pub fn contrib_field(d: &Decoded, kind: NodeKind, i: usize) -> (r: Option<u32>)
    ensures
        r == sample_field(*d, kind, i as int),
{
    match kind {
        NodeKind::Standard => match d {
            Decoded::Standard {
                air_temp_c,
                leaf_temp_c,
                bag_temp_c,
                air_rh_pct,
                bag_rh1_pct,
                bag_rh2_pct,
                bag_rh3_pct,
                bag_rh4_pct,
                bag_rh_avg_pct,
                par_value,
                weight_g,
                ea_air_kpa,
                ea_leaf_kpa,
                es_kpa,
                vpd_kpa,
                ..
            } => {
                if i == 0 {
                    Some(*air_temp_c)
                } else if i == 1 {
                    Some(*leaf_temp_c)
                } else if i == 2 {
                    Some(*bag_temp_c)
                } else if i == 3 {
                    Some(*air_rh_pct)
                } else if i == 4 {
                    Some(*bag_rh1_pct)
                } else if i == 5 {
                    Some(*bag_rh2_pct)
                } else if i == 6 {
                    Some(*bag_rh3_pct)
                } else if i == 7 {
                    Some(*bag_rh4_pct)
                } else if i == 8 {
                    Some(*bag_rh_avg_pct)
                } else if i == 9 {
                    Some(u16_to_bits(*par_value))
                } else if i == 10 {
                    Some(u16_to_bits(*weight_g))
                } else if i == 11 {
                    Some(*ea_air_kpa)
                } else if i == 12 {
                    Some(*ea_leaf_kpa)
                } else if i == 13 {
                    Some(*es_kpa)
                } else if i == 14 {
                    Some(*vpd_kpa)
                } else {
                    None
                }
            },
            Decoded::Outdoor { .. } => None,
        },
        NodeKind::Outdoor => match d {
            Decoded::Outdoor { air_temp_c, air_rh_pct, par_value, ea_air_kpa, es_kpa, .. } => {
                if i == 0 {
                    Some(*air_temp_c)
                } else if i == 3 {
                    Some(*air_rh_pct)
                } else if i == 9 {
                    Some(u16_to_bits(*par_value))
                } else if i == 11 {
                    Some(*ea_air_kpa)
                } else if i == 13 {
                    Some(*es_kpa)
                } else {
                    None
                }
            },
            Decoded::Standard { .. } => None,
        },
    }
}

/// The values of field `i` contributed by the samples of `buf`, in order.
pub open spec fn field_vals(buf: Seq<TimedSample>, kind: NodeKind, i: int) -> Seq<u32>
    decreases buf.len(),
{
    if buf.len() == 0 {
        Seq::empty()
    } else {
        let rest = field_vals(buf.drop_last(), kind, i);
        match sample_field(buf.last().data, kind, i) {
            Some(v) => rest.push(v),
            None => rest,
        }
    }
}

/// Per-node snapshot of one tick: the key, the tick instant, and one optional
/// mean per field, absent when the window held zero finite observations of
/// the field. Means are binary32 bit patterns; no rounding has happened yet.
#[derive(Clone, Copy, Debug)]
pub struct NodeAvg {
    pub greenhouse_id: u16,
    pub node_id: u16,
    pub at_ms: u64,
    pub air_temp_c: Option<u32>,
    pub leaf_temp_c: Option<u32>,
    pub bag_temp_c: Option<u32>,
    pub air_rh_pct: Option<u32>,
    pub bag_rh1_pct: Option<u32>,
    pub bag_rh2_pct: Option<u32>,
    pub bag_rh3_pct: Option<u32>,
    pub bag_rh4_pct: Option<u32>,
    pub bag_rh_avg_pct: Option<u32>,
    pub par_value: Option<u32>,
    pub weight_g: Option<u32>,
    pub ea_air_kpa: Option<u32>,
    pub ea_leaf_kpa: Option<u32>,
    pub es_kpa: Option<u32>,
    pub vpd_kpa: Option<u32>,
}

/// Field `i` of a snapshot, under the numbering of `sample_field`.
pub open spec fn avg_field(na: NodeAvg, i: int) -> Option<u32> {
    if i == 0 {
        na.air_temp_c
    } else if i == 1 {
        na.leaf_temp_c
    } else if i == 2 {
        na.bag_temp_c
    } else if i == 3 {
        na.air_rh_pct
    } else if i == 4 {
        na.bag_rh1_pct
    } else if i == 5 {
        na.bag_rh2_pct
    } else if i == 6 {
        na.bag_rh3_pct
    } else if i == 7 {
        na.bag_rh4_pct
    } else if i == 8 {
        na.bag_rh_avg_pct
    } else if i == 9 {
        na.par_value
    } else if i == 10 {
        na.weight_g
    } else if i == 11 {
        na.ea_air_kpa
    } else if i == 12 {
        na.ea_leaf_kpa
    } else if i == 13 {
        na.es_kpa
    } else if i == 14 {
        na.vpd_kpa
    } else {
        None
    }
}

/// The snapshot a window with shape `kind`, key and buffer `buf` emits at
/// instant `now`: each field's mean over the finite contributions in `buf`.
pub open spec fn node_avg_of(
    kind: NodeKind,
    greenhouse_id: u16,
    node_id: u16,
    buf: Seq<TimedSample>,
    now: u64,
) -> NodeAvg {
    NodeAvg {
        greenhouse_id,
        node_id,
        at_ms: now,
        air_temp_c: field_mean(field_vals(buf, kind, 0)),
        leaf_temp_c: field_mean(field_vals(buf, kind, 1)),
        bag_temp_c: field_mean(field_vals(buf, kind, 2)),
        air_rh_pct: field_mean(field_vals(buf, kind, 3)),
        bag_rh1_pct: field_mean(field_vals(buf, kind, 4)),
        bag_rh2_pct: field_mean(field_vals(buf, kind, 5)),
        bag_rh3_pct: field_mean(field_vals(buf, kind, 6)),
        bag_rh4_pct: field_mean(field_vals(buf, kind, 7)),
        bag_rh_avg_pct: field_mean(field_vals(buf, kind, 8)),
        par_value: field_mean(field_vals(buf, kind, 9)),
        weight_g: field_mean(field_vals(buf, kind, 10)),
        ea_air_kpa: field_mean(field_vals(buf, kind, 11)),
        ea_leaf_kpa: field_mean(field_vals(buf, kind, 12)),
        es_kpa: field_mean(field_vals(buf, kind, 13)),
        vpd_kpa: field_mean(field_vals(buf, kind, 14)),
    }
}

/// Collect the values of field `i` from the buffer, in order.
fn collect_field(buf: &Vec<TimedSample>, kind: NodeKind, i: usize) -> (v: Vec<u32>)
    ensures
        v@ == field_vals(buf@, kind, i as int),
{
    let mut v: Vec<u32> = Vec::new();
    let n = buf.len();
    for j in 0..n
        invariant
            n == buf@.len(),
            v@ == field_vals(buf@.take(j as int), kind, i as int),
    {
        proof {
            assert(buf@.take(j + 1 as int).drop_last() =~= buf@.take(j as int));
            assert(buf@.take(j + 1 as int).last() == buf@[j as int]);
        }
        match contrib_field(&buf[j].data, kind, i) {
            Some(x) => v.push(x),
            None => {},
        }
    }
    proof {
        assert(buf@.take(n as int) =~= buf@);
    }
    v
}

/// Compute the snapshot of one window's current buffer at instant `now`.
pub fn window_avg(w: &NodeWindow, now: u64) -> (na: NodeAvg)
    ensures
        na == node_avg_of(w.kind, w.greenhouse_id, w.node_id, w.buf@, now),
{
    NodeAvg {
        greenhouse_id: w.greenhouse_id,
        node_id: w.node_id,
        at_ms: now,
        air_temp_c: mean_of_bits(&collect_field(&w.buf, w.kind, 0)),
        leaf_temp_c: mean_of_bits(&collect_field(&w.buf, w.kind, 1)),
        bag_temp_c: mean_of_bits(&collect_field(&w.buf, w.kind, 2)),
        air_rh_pct: mean_of_bits(&collect_field(&w.buf, w.kind, 3)),
        bag_rh1_pct: mean_of_bits(&collect_field(&w.buf, w.kind, 4)),
        bag_rh2_pct: mean_of_bits(&collect_field(&w.buf, w.kind, 5)),
        bag_rh3_pct: mean_of_bits(&collect_field(&w.buf, w.kind, 6)),
        bag_rh4_pct: mean_of_bits(&collect_field(&w.buf, w.kind, 7)),
        bag_rh_avg_pct: mean_of_bits(&collect_field(&w.buf, w.kind, 8)),
        par_value: mean_of_bits(&collect_field(&w.buf, w.kind, 9)),
        weight_g: mean_of_bits(&collect_field(&w.buf, w.kind, 10)),
        ea_air_kpa: mean_of_bits(&collect_field(&w.buf, w.kind, 11)),
        ea_leaf_kpa: mean_of_bits(&collect_field(&w.buf, w.kind, 12)),
        es_kpa: mean_of_bits(&collect_field(&w.buf, w.kind, 13)),
        vpd_kpa: mean_of_bits(&collect_field(&w.buf, w.kind, 14)),
    }
}

/// Executable form of `avg_field`.
pub fn avg_field_of(na: &NodeAvg, i: usize) -> (r: Option<u32>)
    ensures
        r == avg_field(*na, i as int),
{
    if i == 0 {
        na.air_temp_c
    } else if i == 1 {
        na.leaf_temp_c
    } else if i == 2 {
        na.bag_temp_c
    } else if i == 3 {
        na.air_rh_pct
    } else if i == 4 {
        na.bag_rh1_pct
    } else if i == 5 {
        na.bag_rh2_pct
    } else if i == 6 {
        na.bag_rh3_pct
    } else if i == 7 {
        na.bag_rh4_pct
    } else if i == 8 {
        na.bag_rh_avg_pct
    } else if i == 9 {
        na.par_value
    } else if i == 10 {
        na.weight_g
    } else if i == 11 {
        na.ea_air_kpa
    } else if i == 12 {
        na.ea_leaf_kpa
    } else if i == 13 {
        na.es_kpa
    } else if i == 14 {
        na.vpd_kpa
    } else {
        None
    }
}

/// The window shape a decoded sample's variant implies.
pub open spec fn spec_kind_of(d: Decoded) -> NodeKind {
    match d {
        Decoded::Standard { .. } => NodeKind::Standard,
        Decoded::Outdoor { .. } => NodeKind::Outdoor,
    }
}

/// Executable form of `spec_kind_of`.
pub fn kind_of(d: &Decoded) -> (r: NodeKind)
    ensures
        r == spec_kind_of(*d),
{
    match d {
        Decoded::Standard { .. } => NodeKind::Standard,
        Decoded::Outdoor { .. } => NodeKind::Outdoor,
    }
}

/// Whether window `w` is keyed by (`gh`, `node`).
pub open spec fn is_key(w: NodeWindow, gh: u16, node: u16) -> bool {
    w.greenhouse_id == gh && w.node_id == node
}

/// Whether some window in `ws` is keyed by (`gh`, `node`).
pub open spec fn has_key(ws: Seq<NodeWindow>, gh: u16, node: u16) -> bool {
    exists|i: int| 0 <= i < ws.len() && is_key(#[trigger] ws[i], gh, node)
}

/// The index of the window keyed by (`gh`, `node`); meaningful when
/// `has_key` holds and the keys are unique.
pub open spec fn key_index(ws: Seq<NodeWindow>, gh: u16, node: u16) -> int {
    choose|i: int| 0 <= i < ws.len() && is_key(#[trigger] ws[i], gh, node)
}

/// No two windows share a (greenhouse id, node id) key.
pub open spec fn unique_keys(ws: Seq<NodeWindow>) -> bool {
    forall|i: int, j: int|
        0 <= i < j < ws.len() ==> !(#[trigger] ws[i].greenhouse_id == #[trigger] ws[j].greenhouse_id
            && ws[i].node_id == ws[j].node_id)
}

/// The snapshots one tick at instant `now` emits for the windows `ws`, in
/// window order: one per window whose pruned buffer is non-empty, computed
/// over that pruned buffer; a window pruned to nothing emits nothing.
pub open spec fn tick_outputs(ws: Seq<NodeWindow>, now: u64) -> Seq<NodeAvg>
    decreases ws.len(),
{
    if ws.len() == 0 {
        Seq::empty()
    } else {
        let rest = tick_outputs(ws.drop_last(), now);
        let w = ws.last();
        let pruned = live_of(w.buf@, now);
        if pruned.len() == 0 {
            rest
        } else {
            rest.push(node_avg_of(w.kind, w.greenhouse_id, w.node_id, pruned, now))
        }
    }
}

/// Number of snapshots in `out` carrying key (`gh`, `node`).
pub open spec fn count_for_key(out: Seq<NodeAvg>, gh: u16, node: u16) -> int
    decreases out.len(),
{
    if out.len() == 0 {
        0
    } else {
        count_for_key(out.drop_last(), gh, node) + if out.last().greenhouse_id == gh
            && out.last().node_id == node {
            1int
        } else {
            0int
        }
    }
}

/// Exactly one snapshot is emitted per tick for each key whose pruned window
/// still holds a sample, and none for any other key.
pub proof fn lemma_one_snapshot_per_active_key(ws: Seq<NodeWindow>, now: u64, gh: u16, node: u16)
    requires
        unique_keys(ws),
    ensures
        count_for_key(tick_outputs(ws, now), gh, node) == if exists|i: int|
            0 <= i < ws.len() && is_key(#[trigger] ws[i], gh, node) && live_of(ws[i].buf@, now).len()
                > 0 {
            1int
        } else {
            0int
        },
    decreases ws.len(),
{
    if ws.len() > 0 {
        let rest = ws.drop_last();
        assert(unique_keys(rest)) by {
            assert forall|i: int, j: int| 0 <= i < j < rest.len() implies !(rest[i].greenhouse_id
                == rest[j].greenhouse_id && rest[i].node_id == rest[j].node_id) by {
                assert(ws[i].greenhouse_id == rest[i].greenhouse_id);
                assert(ws[j].greenhouse_id == rest[j].greenhouse_id);
            }
        }
        lemma_one_snapshot_per_active_key(rest, now, gh, node);
        let w = ws.last();
        let outs = tick_outputs(ws, now);
        let routs = tick_outputs(rest, now);
        let active_rest = exists|i: int|
            0 <= i < rest.len() && is_key(#[trigger] rest[i], gh, node) && live_of(
                rest[i].buf@,
                now,
            ).len() > 0;
        let active_ws = exists|i: int|
            0 <= i < ws.len() && is_key(#[trigger] ws[i], gh, node) && live_of(ws[i].buf@, now).len()
                > 0;
        if is_key(w, gh, node) {
            assert forall|i: int| 0 <= i < rest.len() implies !is_key(rest[i], gh, node) by {
                assert(!(ws[i].greenhouse_id == ws[ws.len() - 1].greenhouse_id && ws[i].node_id
                    == ws[ws.len() - 1].node_id));
                assert(rest[i] == ws[i]);
            }
            assert(!active_rest);
            assert(count_for_key(routs, gh, node) == 0);
            if live_of(w.buf@, now).len() > 0 {
                let na = node_avg_of(w.kind, w.greenhouse_id, w.node_id, live_of(w.buf@, now), now);
                assert(outs == routs.push(na));
                assert(outs.drop_last() =~= routs);
                assert(outs.last() == na);
                assert(count_for_key(outs, gh, node) == 1);
                assert(is_key(ws[ws.len() - 1], gh, node) && live_of(
                    ws[ws.len() - 1].buf@,
                    now,
                ).len() > 0);
                assert(active_ws);
            } else {
                assert(outs == routs);
                assert forall|i: int|
                    0 <= i < ws.len() && is_key(ws[i], gh, node) implies !(live_of(
                    ws[i].buf@,
                    now,
                ).len() > 0) by {
                    if i < ws.len() - 1 {
                        assert(!is_key(rest[i], gh, node));
                        assert(rest[i] == ws[i]);
                    } else {
                        assert(ws[i] == w);
                    }
                }
                assert(!active_ws);
            }
        } else {
            if live_of(w.buf@, now).len() > 0 {
                let na = node_avg_of(w.kind, w.greenhouse_id, w.node_id, live_of(w.buf@, now), now);
                assert(!(na.greenhouse_id == gh && na.node_id == node));
                assert(outs == routs.push(na));
                assert(outs.drop_last() =~= routs);
                assert(outs.last() == na);
                assert(count_for_key(outs, gh, node) == count_for_key(routs, gh, node));
            } else {
                assert(outs == routs);
            }
            if active_rest {
                let i = choose|i: int|
                    0 <= i < rest.len() && is_key(#[trigger] rest[i], gh, node) && live_of(
                        rest[i].buf@,
                        now,
                    ).len() > 0;
                assert(ws[i] == rest[i]);
                assert(is_key(ws[i], gh, node) && live_of(ws[i].buf@, now).len() > 0);
                assert(active_ws);
            }
            if active_ws {
                let i = choose|i: int|
                    0 <= i < ws.len() && is_key(#[trigger] ws[i], gh, node) && live_of(
                        ws[i].buf@,
                        now,
                    ).len() > 0;
                assert(i < ws.len() - 1);
                assert(rest[i] == ws[i]);
                assert(active_rest);
            }
        }
    }
}

/// Per-node aggregation state: one window per (greenhouse id, node id) key,
/// and the greatest instant seen so far. The caller supplies instants from a
/// monotonic clock, so they never decrease; ingestion and ticks interleave on
/// one logical thread of control.
pub struct NodeAggregator {
    pub windows: Vec<NodeWindow>,
    pub last_ms: u64,
}

impl NodeAggregator {
    /// Keys are unique, each window is well-formed, and no buffered sample is
    /// newer than the last seen instant.
    pub open spec fn wf(self) -> bool {
        &&& unique_keys(self.windows@)
        &&& forall|i: int| 0 <= i < self.windows@.len() ==> (#[trigger] self.windows@[i]).wf()
        &&& forall|i: int|
            0 <= i < self.windows@.len() ==> times_at_most(
                (#[trigger] self.windows@[i]).buf@,
                self.last_ms,
            )
    }

    /// An aggregator with no windows.
    pub fn new() -> (a: NodeAggregator)
        ensures
            a.wf(),
            a.windows@.len() == 0,
            a.last_ms == 0,
    {
        NodeAggregator { windows: Vec::new(), last_ms: 0 }
    }

    /// Record one decoded sample arriving at instant `now`: the window for
    /// the sample's key (created on first sight, keeping the first-seen
    /// shape) absorbs it and is pruned; every other window is untouched.
    pub fn on_sample(&mut self, now: u64, d: Decoded)
        requires
            old(self).wf(),
            old(self).last_ms <= now,
        ensures
            final(self).wf(),
            final(self).last_ms == now,
            ({
                let gh = spec_greenhouse_of(d);
                let nd = spec_node_of(d);
                let ws0 = old(self).windows@;
                let ws1 = final(self).windows@;
                if has_key(ws0, gh, nd) {
                    let i = key_index(ws0, gh, nd);
                    &&& ws1.len() == ws0.len()
                    &&& forall|k: int| 0 <= k < ws0.len() && k != i ==> ws1[k] == ws0[k]
                    &&& ws1[i].kind == ws0[i].kind
                    &&& ws1[i].greenhouse_id == gh
                    &&& ws1[i].node_id == nd
                    &&& ws1[i].buf@ == capped(
                        live_of(ws0[i].buf@.push(TimedSample { at_ms: now, data: d }), now),
                    )
                } else {
                    &&& ws1.len() == ws0.len() + 1
                    &&& forall|k: int| 0 <= k < ws0.len() ==> ws1[k] == ws0[k]
                    &&& ws1.last().kind == spec_kind_of(d)
                    &&& ws1.last().greenhouse_id == gh
                    &&& ws1.last().node_id == nd
                    &&& ws1.last().buf@ =~= seq![TimedSample { at_ms: now, data: d }]
                }
            }),
    {
        let ghost ws0 = self.windows@;
        let gh = greenhouse_of(&d);
        let nd = node_of(&d);
        let n = self.windows.len();
        let mut idx: usize = 0;
        while idx < n && !(self.windows[idx].greenhouse_id == gh && self.windows[idx].node_id
            == nd)
            invariant
                self.windows@ == ws0,
                self.last_ms == old(self).last_ms,
                n == ws0.len(),
                idx <= n,
                forall|k: int| 0 <= k < idx ==> !is_key(#[trigger] ws0[k], gh, nd),
            decreases n - idx,
        {
            idx = idx + 1;
        }
        if idx < n {
            proof {
                assert(is_key(ws0[idx as int], gh, nd));
                assert(has_key(ws0, gh, nd));
                let ki = key_index(ws0, gh, nd);
                assert(0 <= ki < ws0.len() && is_key(ws0[ki], gh, nd));
                if ki < idx as int {
                    assert(!(ws0[ki].greenhouse_id == ws0[idx as int].greenhouse_id && ws0[
                        ki].node_id == ws0[idx as int].node_id));
                    assert(false);
                }
                if (idx as int) < ki {
                    assert(!(ws0[idx as int].greenhouse_id == ws0[ki].greenhouse_id && ws0[
                        idx as int].node_id == ws0[ki].node_id));
                    assert(false);
                }
                assert(ki == idx as int);
                assert(ws0[idx as int].wf());
                assert(times_at_most(ws0[idx as int].buf@, old(self).last_ms));
                assert forall|t: int| 0 <= t < ws0[idx as int].buf@.len() implies #[trigger] ws0[
                    idx as int].buf@[t].at_ms <= now by {}
            }
            let mut w = self.windows.remove(idx);
            w.push_and_prune(now, d);
            self.windows.insert(idx, w);
            self.last_ms = now;
            proof {
                let ws1 = self.windows@;
                assert(forall|k: int| 0 <= k < idx ==> ws1[k] == ws0[k]);
                assert(forall|k: int| idx < k < ws0.len() ==> ws1[k] == ws0[k]);
                assert(unique_keys(ws1)) by {
                    assert forall|i: int, j: int| 0 <= i < j < ws1.len() implies !(
                    ws1[i].greenhouse_id == ws1[j].greenhouse_id && ws1[i].node_id
                        == ws1[j].node_id) by {
                        assert(ws1[i].greenhouse_id == ws0[i].greenhouse_id && ws1[i].node_id
                            == ws0[i].node_id);
                        assert(ws1[j].greenhouse_id == ws0[j].greenhouse_id && ws1[j].node_id
                            == ws0[j].node_id);
                    }
                }
                assert forall|i: int| 0 <= i < ws1.len() implies (#[trigger] ws1[i]).wf()
                    && times_at_most(ws1[i].buf@, now) by {
                    if i != idx as int {
                        assert(ws1[i] == ws0[i]);
                        assert(ws0[i].wf());
                        assert(times_at_most(ws0[i].buf@, old(self).last_ms));
                        assert forall|t: int| 0 <= t < ws1[i].buf@.len() implies #[trigger] ws1[
                            i].buf@[t].at_ms <= now by {}
                    }
                }
            }
        } else {
            let kind = kind_of(&d);
            let mut w = NodeWindow::new(kind, gh, nd);
            w.push_and_prune(now, d);
            proof {
                let ts = TimedSample { at_ms: now, data: d };
                let s1 = Seq::<TimedSample>::empty().push(ts);
                assert(s1.len() == 1);
                assert(s1.last() == ts);
                assert(s1.drop_last() =~= Seq::<TimedSample>::empty());
                assert(in_window(ts.at_ms, now));
                assert(live_of(s1, now) == live_of(s1.drop_last(), now).push(ts));
                assert(live_of(s1, now) =~= s1);
                assert(capped(live_of(s1, now)) == live_of(s1, now));
                assert(w.buf@ =~= seq![ts]);
            }
            self.windows.push(w);
            self.last_ms = now;
            proof {
                let ws1 = self.windows@;
                assert(!has_key(ws0, gh, nd));
                assert(unique_keys(ws1)) by {
                    assert forall|i: int, j: int| 0 <= i < j < ws1.len() implies !(
                    ws1[i].greenhouse_id == ws1[j].greenhouse_id && ws1[i].node_id
                        == ws1[j].node_id) by {
                        if j == ws1.len() - 1 {
                            assert(ws1[i] == ws0[i]);
                            assert(!is_key(ws0[i], gh, nd));
                        } else {
                            assert(ws1[i] == ws0[i]);
                            assert(ws1[j] == ws0[j]);
                        }
                    }
                }
                assert forall|i: int| 0 <= i < ws1.len() implies (#[trigger] ws1[i]).wf()
                    && times_at_most(ws1[i].buf@, now) by {
                    if i < ws1.len() - 1 {
                        assert(ws1[i] == ws0[i]);
                        assert(ws0[i].wf());
                        assert(times_at_most(ws0[i].buf@, old(self).last_ms));
                        assert forall|t: int| 0 <= t < ws1[i].buf@.len() implies #[trigger] ws1[
                            i].buf@[t].at_ms <= now by {}
                    }
                }
            }
        }
    }

    /// One tick at instant `now`: re-prune every window for staleness and
    /// emit one snapshot per key whose window still holds a sample, in window
    /// order. A window pruned to nothing emits nothing this tick — the empty
    /// case is skipped silently, never reported as a snapshot.
    pub fn on_tick(&mut self, now: u64) -> (out: Vec<NodeAvg>)
        requires
            old(self).wf(),
            old(self).last_ms <= now,
        ensures
            final(self).wf(),
            final(self).last_ms == now,
            final(self).windows@.len() == old(self).windows@.len(),
            forall|k: int|
                0 <= k < old(self).windows@.len() ==> {
                    &&& (#[trigger] final(self).windows@[k]).kind == old(self).windows@[k].kind
                    &&& final(self).windows@[k].greenhouse_id == old(
                        self,
                    ).windows@[k].greenhouse_id
                    &&& final(self).windows@[k].node_id == old(self).windows@[k].node_id
                    &&& final(self).windows@[k].buf@ == live_of(old(self).windows@[k].buf@, now)
                },
            out@ == tick_outputs(old(self).windows@, now),
    {
        let ghost ws0 = old(self).windows@;
        let n = self.windows.len();
        let mut out: Vec<NodeAvg> = Vec::new();
        let mut i: usize = 0;
        while i < n
            invariant
                n == self.windows@.len(),
                n == ws0.len(),
                i <= n,
                self.last_ms == old(self).last_ms,
                old(self).wf(),
                old(self).last_ms <= now,
                ws0 == old(self).windows@,
                forall|k: int|
                    0 <= k < i ==> {
                        &&& (#[trigger] self.windows@[k]).kind == ws0[k].kind
                        &&& self.windows@[k].greenhouse_id == ws0[k].greenhouse_id
                        &&& self.windows@[k].node_id == ws0[k].node_id
                        &&& self.windows@[k].buf@ == live_of(ws0[k].buf@, now)
                        &&& self.windows@[k].wf()
                        &&& times_at_most(self.windows@[k].buf@, now)
                    },
                forall|k: int| i <= k < n ==> #[trigger] self.windows@[k] == ws0[k],
                out@ == tick_outputs(ws0.take(i as int), now),
            decreases n - i,
        {
            let ghost ws_loop = self.windows@;
            proof {
                assert(ws0[i as int].wf());
                assert(times_at_most(ws0[i as int].buf@, old(self).last_ms));
                assert forall|t: int| 0 <= t < ws0[i as int].buf@.len() implies #[trigger] ws0[
                    i as int].buf@[t].at_ms <= now by {}
            }
            let mut w = self.windows.remove(i);
            w.prune(now);
            let emit = w.buf.len() > 0;
            if emit {
                let na = window_avg(&w, now);
                out.push(na);
            }
            self.windows.insert(i, w);
            proof {
                assert(ws0.take(i + 1 as int).drop_last() =~= ws0.take(i as int));
                assert(ws0.take(i + 1 as int).last() == ws0[i as int]);
                assert(forall|k: int| 0 <= k < i ==> self.windows@[k] == ws_loop[k]);
                assert(forall|k: int| i < k < n ==> self.windows@[k] == ws_loop[k]);
                assert(out@ == tick_outputs(ws0.take(i + 1 as int), now));
            }
            i = i + 1;
        }
        proof {
            assert(ws0.take(n as int) =~= ws0);
        }
        self.last_ms = now;
        proof {
            let ws1 = self.windows@;
            assert(unique_keys(ws1)) by {
                assert forall|a: int, b: int| 0 <= a < b < ws1.len() implies !(
                ws1[a].greenhouse_id == ws1[b].greenhouse_id && ws1[a].node_id
                    == ws1[b].node_id) by {
                    assert(ws1[a].greenhouse_id == ws0[a].greenhouse_id && ws1[a].node_id
                        == ws0[a].node_id);
                    assert(ws1[b].greenhouse_id == ws0[b].greenhouse_id && ws1[b].node_id
                        == ws0[b].node_id);
                }
            }
        }
        out
    }
}

} // verus!
