use greenhouse_core::aggregator::{NodeAggregator, NodeAvg};
use greenhouse_core::config::mqtt_auth;
use greenhouse_core::decoder::OUTDOOR_NODE_ID;
use greenhouse_core::greenhouse_aggregator::{GhAvg, GhTick, GreenhouseAggregator};
use greenhouse_core::storage::{
    flush_batch, label_for, now_ms, open_and_init, scaled2, StorageError, StorageWriter,
    BATCH_SIZE,
};

fn full_node_avg(gh: u16, node: u16, at_ms: u64, value: f32) -> NodeAvg {
    let v = Some(value.to_bits());
    NodeAvg {
        greenhouse_id: gh,
        node_id: node,
        at_ms,
        air_temp_c: v,
        leaf_temp_c: v,
        bag_temp_c: v,
        air_rh_pct: v,
        bag_rh1_pct: v,
        bag_rh2_pct: v,
        bag_rh3_pct: v,
        bag_rh4_pct: v,
        bag_rh_avg_pct: v,
        par_value: v,
        weight_g: v,
        ea_air_kpa: v,
        ea_leaf_kpa: v,
        es_kpa: v,
        vpd_kpa: v,
    }
}

#[test]
fn scaled_values_match_two_decimal_rounding() {
    // The stored integer of hundredths agrees with widening to binary64,
    // scaling by 100 and rounding ties away from zero.
    for x in [55.3f32, 21.0, 20.0, -2.5, 0.0, 0.004, -0.004, 123.456, 1e6] {
        let expected = ((x as f64) * 100.0).round() as i64;
        assert_eq!(scaled2(Some(x.to_bits())), Some(expected), "value {}", x);
    }
    assert_eq!(scaled2(None), None);
    assert_eq!(scaled2(Some(f32::NAN.to_bits())), None);
}

#[test]
fn labels_are_stable() {
    assert_eq!(label_for(OUTDOOR_NODE_ID), "Outdoor_Node");
    assert_eq!(label_for(1), "node01");
    assert_eq!(label_for(12), "node12");
    assert_eq!(label_for(13), "nodeXX");
    assert_eq!(label_for(0), "nodeXX");
}

#[test]
fn broker_configuration_is_fixed() {
    let auth = mqtt_auth();
    assert_eq!(auth.host, "192.168.20.1");
    assert_eq!(auth.port, 1883);
    assert_eq!(auth.client_id_prefix, "tauri-greenhouse");
    assert_eq!(auth.username, "cresla");
    assert_eq!(auth.password, "cresla123.");
    assert_eq!(auth.keep_alive_secs, 30);
}

#[test]
fn wall_clock_is_past_the_epoch() {
    assert!(now_ms() > 0);
}

#[test]
fn batch_threshold_triggers_immediate_flush() {
    // A batch of 600 buffered snapshots asks for a flush as soon as the
    // threshold is crossed, independent of the timer.
    let mut w = StorageWriter::new();
    assert!(!w.has_pending());
    let mut first_trigger = None;
    for i in 0..600usize {
        let due = w.push_node(full_node_avg(1, 1, i as u64, 20.0));
        if due && first_trigger.is_none() {
            first_trigger = Some(i + 1);
        }
    }
    assert_eq!(first_trigger, Some(BATCH_SIZE));
    assert!(w.has_pending());
    let (nodes, gh) = w.take_batches();
    assert_eq!(nodes.len(), 600);
    assert_eq!(gh.len(), 0);
    assert!(!w.has_pending());
}

#[test]
fn mixed_pushes_count_toward_one_threshold() {
    let mut w = StorageWriter::new();
    for i in 0..300usize {
        assert!(!w.push_node(full_node_avg(1, 1, i as u64, 20.0)));
    }
    let ga = GhAvg {
        greenhouse_id: 1,
        air_temp_c: Some(20.0f32.to_bits()),
        leaf_temp_c: None,
        bag_temp_c: None,
        air_rh_pct: None,
        bag_rh1_pct: None,
        bag_rh2_pct: None,
        bag_rh3_pct: None,
        bag_rh4_pct: None,
        bag_rh_avg_pct: None,
        par_value: None,
        weight_g: None,
        ea_air_kpa: None,
        ea_leaf_kpa: None,
        es_kpa: None,
        vpd_kpa: None,
        nodes: 1,
    };
    for i in 0..212usize {
        let due = w.push_gh(ga);
        assert_eq!(due, 300 + i + 1 >= BATCH_SIZE, "push {}", i);
    }
}

fn count_rows(conn: &rusqlite::Connection, table: &str, ts: i64) -> i64 {
    let sql = format!("SELECT COUNT(*) FROM {} WHERE ts_ms=?1", table);
    conn.query_row(&sql, (ts,), |r| r.get(0)).unwrap()
}

fn node_value_for(conn: &rusqlite::Connection, ts: i64, key: &str) -> Option<f64> {
    conn.query_row(
        "SELECT nv.value FROM node_values nv JOIN sensor_type st ON nv.sensor_type_id = st.id
         WHERE nv.ts_ms = ?1 AND st.key = ?2",
        (ts, key),
        |r| r.get(0),
    )
    .unwrap()
}

#[test]
fn reflushing_an_identical_row_is_a_no_op() {
    // The uniqueness constraint on (timestamp, entity, sensor kind,
    // aggregation kind) with insert-or-ignore makes re-insertion idempotent.
    let path = "/tmp/greenhouse_core_test_idempotent.db";
    let ts = now_ms();
    let batch = vec![full_node_avg(1, 1, 1_000, 21.0)];
    let none: Vec<GhAvg> = Vec::new();
    flush_batch(path, ts, &batch, &none).unwrap();
    let conn = open_and_init(path).unwrap();
    assert_eq!(count_rows(&conn, "node_values", ts), 15);
    drop(conn);
    // the very same rows again: nothing changes
    flush_batch(path, ts, &batch, &none).unwrap();
    let conn = open_and_init(path).unwrap();
    assert_eq!(count_rows(&conn, "node_values", ts), 15);
}

#[test]
fn unopenable_store_abandons_the_batch() {
    let batch = vec![full_node_avg(1, 1, 1_000, 20.0)];
    let none: Vec<GhAvg> = Vec::new();
    let r = flush_batch("/nonexistent/dir/never.db", 1, &batch, &none);
    assert_eq!(r, Err(StorageError::OpenFailed));
}

#[test]
fn empty_batch_is_a_no_op() {
    let nodes: Vec<NodeAvg> = Vec::new();
    let gh: Vec<GhAvg> = Vec::new();
    // no database is even opened: this path need not exist
    flush_batch("/nonexistent/dir/never.db", 1, &nodes, &gh).unwrap();
}

#[test]
fn standard_scenario_stores_rounded_mean() {
    // Two standard samples of 20.0 and 22.0 within one window: the per-node
    // mean is exactly 21.0 upstream, and the stored row value is 21.0 after
    // the two-decimal rounding at the storage boundary.
    let mut agg = NodeAggregator::new();
    let s = |t: f32| greenhouse_core::decoder::Decoded::Standard {
        greenhouse_id: 1,
        node_id: 1,
        air_temp_c: t.to_bits(),
        leaf_temp_c: 21.0f32.to_bits(),
        bag_temp_c: 22.0f32.to_bits(),
        air_rh_pct: 50.004f32.to_bits(),
        bag_rh1_pct: 51.0f32.to_bits(),
        bag_rh2_pct: 52.0f32.to_bits(),
        bag_rh3_pct: 53.0f32.to_bits(),
        bag_rh4_pct: 54.0f32.to_bits(),
        bag_rh_avg_pct: 52.5f32.to_bits(),
        par_value: 400,
        weight_g: 1500,
        ea_air_kpa: 1.5f32.to_bits(),
        ea_leaf_kpa: 1.25f32.to_bits(),
        es_kpa: 2.5f32.to_bits(),
        vpd_kpa: 1.0f32.to_bits(),
    };
    agg.on_sample(1_000, s(20.0));
    agg.on_sample(2_000, s(22.0));
    let nas = agg.on_tick(60_000);
    assert_eq!(nas.len(), 1);
    assert_eq!(nas[0].air_temp_c, Some(21.0f32.to_bits()));

    let path = "/tmp/greenhouse_core_test_scenario.db";
    let ts = now_ms();
    let gh: Vec<GhAvg> = Vec::new();
    flush_batch(path, ts, &nas, &gh).unwrap();
    let conn = open_and_init(path).unwrap();
    assert_eq!(node_value_for(&conn, ts, "air_temp_c"), Some(21.0));
    // rounding happened only at the boundary: 50.004 rounds to 50.0 stored
    assert_eq!(node_value_for(&conn, ts, "air_rh_pct"), Some(50.0));
    assert_eq!(node_value_for(&conn, ts, "par_value"), Some(400.0));
}

#[test]
fn greenhouse_rows_carry_node_count() {
    let mut gh = GreenhouseAggregator::new();
    let mut na = full_node_avg(1, OUTDOOR_NODE_ID, 1_000, 55.3);
    na.leaf_temp_c = None;
    gh.on_node_avg(na);
    let out = gh.on_tick(2_000);
    let ga = match &out[0] {
        GhTick::Avg(ga) => *ga,
        other => panic!("expected a snapshot, got {:?}", other),
    };
    assert_eq!(ga.air_rh_pct, Some(55.3f32.to_bits()));

    let path = "/tmp/greenhouse_core_test_ghrows.db";
    let ts = now_ms();
    let nodes: Vec<NodeAvg> = Vec::new();
    flush_batch(path, ts, &nodes, &vec![ga]).unwrap();
    let conn = open_and_init(path).unwrap();
    let (value, n): (Option<f64>, i64) = conn
        .query_row(
            "SELECT ga.value, ga.nodes FROM greenhouse_average ga
             JOIN sensor_type st ON ga.sensor_type_id = st.id
             WHERE ga.ts_ms = ?1 AND st.key = 'air_rh_pct'",
            (ts,),
            |r| Ok((r.get(0)?, r.get(1)?)),
        )
        .unwrap();
    assert_eq!(value, Some(55.3));
    assert_eq!(n, 1);
    // a field no fresh node carried is stored as NULL, never zero
    let leaf: Option<f64> = conn
        .query_row(
            "SELECT ga.value FROM greenhouse_average ga
             JOIN sensor_type st ON ga.sensor_type_id = st.id
             WHERE ga.ts_ms = ?1 AND st.key = 'leaf_temp_c'",
            (ts,),
            |r| r.get(0),
        )
        .unwrap();
    assert_eq!(leaf, None);
}

#[test]
fn absent_means_store_as_null() {
    let mut na = full_node_avg(2, 3, 1_000, 20.0);
    na.vpd_kpa = None;
    let path = "/tmp/greenhouse_core_test_null.db";
    let ts = now_ms();
    let gh: Vec<GhAvg> = Vec::new();
    flush_batch(path, ts, &vec![na], &gh).unwrap();
    let conn = open_and_init(path).unwrap();
    assert_eq!(node_value_for(&conn, ts, "vpd_kpa"), None);
    assert_eq!(node_value_for(&conn, ts, "air_temp_c"), Some(20.0));
}

#[test]
fn node_identity_rows_are_unique() {
    let path = "/tmp/greenhouse_core_test_identity.db";
    let ts1 = now_ms();
    let gh: Vec<GhAvg> = Vec::new();
    flush_batch(path, ts1, &vec![full_node_avg(5, 2, 1_000, 20.0)], &gh).unwrap();
    let ts2 = ts1 + 60_000;
    flush_batch(path, ts2, &vec![full_node_avg(5, 2, 2_000, 22.0)], &gh).unwrap();
    let conn = open_and_init(path).unwrap();
    let n: i64 = conn
        .query_row(
            "SELECT COUNT(*) FROM node_name WHERE greenhouse_id = 5 AND node_id = 2",
            (),
            |r| r.get(0),
        )
        .unwrap();
    assert_eq!(n, 1);
    let label: String = conn
        .query_row(
            "SELECT label FROM node_name WHERE greenhouse_id = 5 AND node_id = 2",
            (),
            |r| r.get(0),
        )
        .unwrap();
    assert_eq!(label, "node02");
}
