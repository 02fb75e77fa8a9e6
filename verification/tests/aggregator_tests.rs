use greenhouse_core::aggregator::{NodeAggregator, MAX_SAMPLES_PER_NODE};
use greenhouse_core::decoder::{Decoded, OUTDOOR_NODE_ID};

fn standard_sample(gh: u16, node: u16, air_temp: f32) -> Decoded {
    Decoded::Standard {
        greenhouse_id: gh,
        node_id: node,
        air_temp_c: air_temp.to_bits(),
        leaf_temp_c: 21.0f32.to_bits(),
        bag_temp_c: 22.0f32.to_bits(),
        air_rh_pct: 50.0f32.to_bits(),
        bag_rh1_pct: 51.0f32.to_bits(),
        bag_rh2_pct: 52.0f32.to_bits(),
        bag_rh3_pct: 53.0f32.to_bits(),
        bag_rh4_pct: 54.0f32.to_bits(),
        bag_rh_avg_pct: 52.5f32.to_bits(),
        par_value: 400,
        weight_g: 1500,
        ea_air_kpa: 1.5f32.to_bits(),
        ea_leaf_kpa: 1.25f32.to_bits(),
        es_kpa: 2.5f32.to_bits(),
        vpd_kpa: 1.0f32.to_bits(),
    }
}

fn outdoor_sample(gh: u16, air_rh: f32) -> Decoded {
    Decoded::Outdoor {
        greenhouse_id: gh,
        node_id: OUTDOOR_NODE_ID,
        air_temp_c: 15.5f32.to_bits(),
        air_rh_pct: air_rh.to_bits(),
        par_value: 210,
        ea_air_kpa: 0.9f32.to_bits(),
        es_kpa: 1.7f32.to_bits(),
    }
}

#[test]
fn two_samples_mean_is_exact() {
    // Two air temperatures of 20.0 and 22.0 within one window: the mean is
    // exactly 21.0, with no rounding upstream of storage.
    let mut agg = NodeAggregator::new();
    agg.on_sample(1_000, standard_sample(1, 1, 20.0));
    agg.on_sample(2_000, standard_sample(1, 1, 22.0));
    let out = agg.on_tick(60_000);
    assert_eq!(out.len(), 1);
    let na = &out[0];
    assert_eq!(na.greenhouse_id, 1);
    assert_eq!(na.node_id, 1);
    assert_eq!(na.at_ms, 60_000);
    assert_eq!(na.air_temp_c, Some(21.0f32.to_bits()));
    // integer-coded fields are widened to binary32 before averaging
    assert_eq!(na.par_value, Some(400.0f32.to_bits()));
    assert_eq!(na.weight_g, Some(1500.0f32.to_bits()));
}

#[test]
fn single_sample_mean_is_identity() {
    let mut agg = NodeAggregator::new();
    agg.on_sample(500, outdoor_sample(1, 55.3));
    let out = agg.on_tick(30_000);
    assert_eq!(out.len(), 1);
    let na = &out[0];
    assert_eq!(na.node_id, OUTDOOR_NODE_ID);
    assert_eq!(na.air_rh_pct, Some(55.3f32.to_bits()));
    // fields the outdoor layout does not carry stay absent
    assert_eq!(na.leaf_temp_c, None);
    assert_eq!(na.weight_g, None);
    assert_eq!(na.vpd_kpa, None);
}

#[test]
fn stale_sample_contributes_to_no_mean() {
    // A sample older than the window length relative to the tick instant is
    // pruned and contributes nothing.
    let mut agg = NodeAggregator::new();
    agg.on_sample(0, standard_sample(1, 1, 99.0));
    agg.on_sample(55_000, standard_sample(1, 1, 20.0));
    // at instant 61_000 the first sample is 61s old: out of the window
    let out = agg.on_tick(61_000);
    assert_eq!(out.len(), 1);
    assert_eq!(out[0].air_temp_c, Some(20.0f32.to_bits()));
}

#[test]
fn fully_stale_window_emits_nothing() {
    // A key whose window prunes to nothing emits no snapshot at all that
    // tick (the chosen policy: skip silently, not an all-absent snapshot).
    let mut agg = NodeAggregator::new();
    agg.on_sample(0, standard_sample(1, 1, 20.0));
    let out = agg.on_tick(61_000);
    assert_eq!(out.len(), 0);
}

#[test]
fn window_boundary_is_inclusive() {
    // A sample exactly the window length old still counts.
    let mut agg = NodeAggregator::new();
    agg.on_sample(1_000, standard_sample(1, 1, 20.0));
    let out = agg.on_tick(61_000);
    assert_eq!(out.len(), 1);
    assert_eq!(out[0].air_temp_c, Some(20.0f32.to_bits()));
}

#[test]
fn non_finite_samples_are_excluded() {
    // NaN and infinities never contribute; the finite samples alone decide
    // the mean.
    let mut agg = NodeAggregator::new();
    agg.on_sample(1_000, standard_sample(1, 1, f32::NAN));
    agg.on_sample(2_000, standard_sample(1, 1, f32::INFINITY));
    agg.on_sample(3_000, standard_sample(1, 1, 20.0));
    agg.on_sample(4_000, standard_sample(1, 1, 22.0));
    let out = agg.on_tick(30_000);
    assert_eq!(out.len(), 1);
    assert_eq!(out[0].air_temp_c, Some(21.0f32.to_bits()));
}

#[test]
fn zero_finite_samples_yield_absent_mean_not_zero() {
    let mut agg = NodeAggregator::new();
    agg.on_sample(1_000, standard_sample(1, 1, f32::NAN));
    agg.on_sample(2_000, standard_sample(1, 1, f32::NEG_INFINITY));
    let out = agg.on_tick(30_000);
    assert_eq!(out.len(), 1);
    // the air-temperature mean is absent, never a fabricated zero
    assert_eq!(out[0].air_temp_c, None);
    // other fields were finite throughout and are present
    assert_eq!(out[0].leaf_temp_c, Some(21.0f32.to_bits()));
}

#[test]
fn exactly_one_snapshot_per_active_key() {
    let mut agg = NodeAggregator::new();
    agg.on_sample(1_000, standard_sample(1, 1, 20.0));
    agg.on_sample(2_000, standard_sample(1, 2, 24.0));
    agg.on_sample(3_000, standard_sample(2, 1, 28.0));
    agg.on_sample(4_000, standard_sample(1, 1, 22.0));
    let out = agg.on_tick(30_000);
    assert_eq!(out.len(), 3);
    let count = |gh: u16, node: u16| out.iter().filter(|na| na.greenhouse_id == gh && na.node_id == node).count();
    assert_eq!(count(1, 1), 1);
    assert_eq!(count(1, 2), 1);
    assert_eq!(count(2, 1), 1);
    let first = out.iter().find(|na| na.greenhouse_id == 1 && na.node_id == 1).unwrap();
    assert_eq!(first.air_temp_c, Some(21.0f32.to_bits()));
}

#[test]
fn count_cap_keeps_latest_samples() {
    let mut agg = NodeAggregator::new();
    for i in 0..(MAX_SAMPLES_PER_NODE as u64 + 6) {
        agg.on_sample(1_000 + i, standard_sample(1, 1, 20.0));
    }
    assert_eq!(agg.windows.len(), 1);
    assert_eq!(agg.windows[0].buf.len(), MAX_SAMPLES_PER_NODE);
    // the oldest arrivals were trimmed from the front
    assert_eq!(agg.windows[0].buf[0].at_ms, 1_006);
}

#[test]
fn first_seen_kind_is_retained() {
    // A window keeps its first-seen shape: a later sample claiming the other
    // shape for the same key contributes to no mean.
    let mut agg = NodeAggregator::new();
    agg.on_sample(1_000, standard_sample(3, 9, 20.0));
    // a (malformed) outdoor-shaped message claiming the same key
    let odd = Decoded::Outdoor {
        greenhouse_id: 3,
        node_id: 9,
        air_temp_c: 99.0f32.to_bits(),
        air_rh_pct: 99.0f32.to_bits(),
        par_value: 999,
        ea_air_kpa: 9.9f32.to_bits(),
        es_kpa: 9.9f32.to_bits(),
    };
    agg.on_sample(2_000, odd);
    let out = agg.on_tick(30_000);
    assert_eq!(out.len(), 1);
    assert_eq!(out[0].air_temp_c, Some(20.0f32.to_bits()));
}

#[test]
fn ticks_are_repeatable_per_period() {
    // Each tick re-evaluates the window: the same key emits one snapshot per
    // tick while its window holds samples, and stops once they age out.
    let mut agg = NodeAggregator::new();
    agg.on_sample(1_000, standard_sample(1, 1, 20.0));
    assert_eq!(agg.on_tick(60_000).len(), 1);
    assert_eq!(agg.on_tick(61_000).len(), 1);
    assert_eq!(agg.on_tick(62_000).len(), 0);
}
