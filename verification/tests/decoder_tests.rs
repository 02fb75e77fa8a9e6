use greenhouse_core::decoder::{decode_payload, Decoded, OUTDOOR_NODE_ID};

fn standard_payload(gh: u16, node: u16, fields: [f32; 9], par: u16, weight: u16, vp: [f32; 4]) -> Vec<u8> {
    let mut p: Vec<u8> = Vec::new();
    p.extend_from_slice(&gh.to_le_bytes());
    p.extend_from_slice(&node.to_le_bytes());
    for f in fields {
        p.extend_from_slice(&f.to_le_bytes());
    }
    p.extend_from_slice(&par.to_le_bytes());
    p.extend_from_slice(&weight.to_le_bytes());
    for f in vp {
        p.extend_from_slice(&f.to_le_bytes());
    }
    assert_eq!(p.len(), 60);
    p
}

fn outdoor_payload(gh: u16, air_temp: f32, air_rh: f32, par: u16, ea_air: f32, es: f32) -> Vec<u8> {
    let mut p: Vec<u8> = Vec::new();
    p.extend_from_slice(&gh.to_le_bytes());
    p.extend_from_slice(&OUTDOOR_NODE_ID.to_le_bytes());
    p.extend_from_slice(&air_temp.to_le_bytes());
    p.extend_from_slice(&air_rh.to_le_bytes());
    p.extend_from_slice(&par.to_le_bytes());
    p.extend_from_slice(&ea_air.to_le_bytes());
    p.extend_from_slice(&es.to_le_bytes());
    assert_eq!(p.len(), 22);
    p
}

#[test]
fn short_standard_buffers_fail() {
    // Every buffer shorter than the standard minimum fails, with no
    // out-of-bounds read and no panic.
    let full = standard_payload(
        1,
        1,
        [20.0, 21.0, 22.0, 50.0, 51.0, 52.0, 53.0, 54.0, 55.0],
        400,
        1500,
        [1.0, 1.1, 1.2, 0.4],
    );
    for len in 0..60 {
        let p = &full[..len];
        assert!(decode_payload(p).is_none(), "len {} must fail", len);
    }
    assert!(decode_payload(&full).is_some());
}

#[test]
fn short_outdoor_buffers_fail() {
    let full = outdoor_payload(1, 15.5, 55.3, 210, 0.9, 1.7);
    for len in 0..22 {
        let p = &full[..len];
        assert!(decode_payload(p).is_none(), "len {} must fail", len);
    }
    assert!(decode_payload(&full).is_some());
}

#[test]
fn empty_buffer_fails() {
    assert!(decode_payload(&[]).is_none());
}

#[test]
fn standard_round_trip() {
    // Encoded field values come back as exactly the little-endian bits at
    // the documented offsets.
    let fields = [20.5f32, -3.25, 22.125, 50.0, 51.5, 52.75, 53.0, 54.5, 55.25];
    let vp = [1.5f32, 1.25, 2.5, 0.75];
    let p = standard_payload(7, 3, fields, 410, 1510, vp);
    match decode_payload(&p) {
        Some(Decoded::Standard {
            greenhouse_id,
            node_id,
            air_temp_c,
            leaf_temp_c,
            bag_temp_c,
            air_rh_pct,
            bag_rh1_pct,
            bag_rh2_pct,
            bag_rh3_pct,
            bag_rh4_pct,
            bag_rh_avg_pct,
            par_value,
            weight_g,
            ea_air_kpa,
            ea_leaf_kpa,
            es_kpa,
            vpd_kpa,
        }) => {
            assert_eq!(greenhouse_id, 7);
            assert_eq!(node_id, 3);
            assert_eq!(air_temp_c, fields[0].to_bits());
            assert_eq!(leaf_temp_c, fields[1].to_bits());
            assert_eq!(bag_temp_c, fields[2].to_bits());
            assert_eq!(air_rh_pct, fields[3].to_bits());
            assert_eq!(bag_rh1_pct, fields[4].to_bits());
            assert_eq!(bag_rh2_pct, fields[5].to_bits());
            assert_eq!(bag_rh3_pct, fields[6].to_bits());
            assert_eq!(bag_rh4_pct, fields[7].to_bits());
            assert_eq!(bag_rh_avg_pct, fields[8].to_bits());
            assert_eq!(par_value, 410);
            assert_eq!(weight_g, 1510);
            assert_eq!(ea_air_kpa, vp[0].to_bits());
            assert_eq!(ea_leaf_kpa, vp[1].to_bits());
            assert_eq!(es_kpa, vp[2].to_bits());
            assert_eq!(vpd_kpa, vp[3].to_bits());
        }
        other => panic!("expected a standard decode, got {:?}", other),
    }
}

#[test]
fn outdoor_round_trip() {
    let p = outdoor_payload(2, 15.5, 55.3, 210, 0.875, 1.75);
    match decode_payload(&p) {
        Some(Decoded::Outdoor { greenhouse_id, node_id, air_temp_c, air_rh_pct, par_value, ea_air_kpa, es_kpa }) => {
            assert_eq!(greenhouse_id, 2);
            assert_eq!(node_id, OUTDOOR_NODE_ID);
            assert_eq!(air_temp_c, 15.5f32.to_bits());
            assert_eq!(air_rh_pct, 55.3f32.to_bits());
            assert_eq!(par_value, 210);
            assert_eq!(ea_air_kpa, 0.875f32.to_bits());
            assert_eq!(es_kpa, 1.75f32.to_bits());
        }
        other => panic!("expected an outdoor decode, got {:?}", other),
    }
}

#[test]
fn unknown_node_id_decodes_as_standard() {
    // Any node id other than the reserved outdoor id selects the standard
    // layout rather than failing.
    let p = standard_payload(
        1,
        999,
        [1.0, 2.0, 3.0, 4.0, 5.0, 6.0, 7.0, 8.0, 9.0],
        10,
        20,
        [0.1, 0.2, 0.3, 0.4],
    );
    match decode_payload(&p) {
        Some(Decoded::Standard { node_id, .. }) => assert_eq!(node_id, 999),
        other => panic!("expected a standard decode, got {:?}", other),
    }
}

#[test]
fn oversized_buffers_decode() {
    // The variant minimum is a lower bound: extra trailing bytes are ignored.
    let mut p = standard_payload(
        1,
        1,
        [1.0, 2.0, 3.0, 4.0, 5.0, 6.0, 7.0, 8.0, 9.0],
        10,
        20,
        [0.1, 0.2, 0.3, 0.4],
    );
    p.push(0xaa);
    p.push(0xbb);
    assert!(matches!(decode_payload(&p), Some(Decoded::Standard { .. })));

    let mut q = outdoor_payload(1, 15.5, 55.3, 210, 0.9, 1.7);
    q.push(0xcc);
    assert!(matches!(decode_payload(&q), Some(Decoded::Outdoor { .. })));
}

#[test]
fn outdoor_truncated_to_standard_length_check_fails() {
    // A 22-byte buffer whose node id is not the outdoor id is a standard
    // message and therefore too short.
    let q = outdoor_payload(1, 15.5, 55.3, 210, 0.9, 1.7);
    let mut p = q.clone();
    // overwrite the node id with a standard one
    p[2..4].copy_from_slice(&5u16.to_le_bytes());
    assert!(decode_payload(&p).is_none());
}
