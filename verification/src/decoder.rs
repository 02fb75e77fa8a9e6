//! Decode fixed little-endian binary payloads from greenhouse sensor nodes.
//!
//! Two layouts exist, selected by the node id carried at byte offset 2:
//! - Standard nodes (at least 60 bytes):
//!   u16 greenhouse id, u16 node id, nine binary32 fields (temperatures and
//!   humidities), u16 PAR, u16 weight, four binary32 vapour-pressure fields.
//! - The reserved outdoor probe (at least 22 bytes):
//!   u16 greenhouse id, u16 node id, binary32 air temperature, binary32 air
//!   humidity, u16 PAR, two binary32 vapour-pressure fields.
//!
//! Every binary32 field is carried as its bit pattern (`u32`); the wire bits
//! of the number are exactly the little-endian 32-bit word at its offset.
//! Decoding never reads out of bounds and never fails fatally: an undersized
//! payload yields `None`.

use vstd::bytes::spec_u16_from_le_bytes;
use vstd::bytes::spec_u32_from_le_bytes;
use vstd::bytes::u16_from_le_bytes;
use vstd::bytes::u32_from_le_bytes;
use vstd::prelude::*;

verus! {

/// Node id reserved for the outdoor probe; every other id is a standard node.
pub const OUTDOOR_NODE_ID: u16 = 65001;

/// Least payload length a standard node's message may have.
pub const STANDARD_MIN_LEN: usize = 60;

/// Least payload length the outdoor probe's message may have.
pub const OUTDOOR_MIN_LEN: usize = 22;

/// A decoded reading. Numeric fields named `*_c`, `*_pct` and `*_kpa` hold
/// the bit pattern of the IEEE binary32 value on the wire; `par_value` and
/// `weight_g` are transmitted as unsigned 16-bit integers and widened to
/// binary32 downstream.
#[derive(Clone, Copy, Debug)]
pub enum Decoded {
    Standard {
        greenhouse_id: u16,
        node_id: u16,
        air_temp_c: u32,
        leaf_temp_c: u32,
        bag_temp_c: u32,
        air_rh_pct: u32,
        bag_rh1_pct: u32,
        bag_rh2_pct: u32,
        bag_rh3_pct: u32,
        bag_rh4_pct: u32,
        bag_rh_avg_pct: u32,
        par_value: u16,
        weight_g: u16,
        ea_air_kpa: u32,
        ea_leaf_kpa: u32,
        es_kpa: u32,
        vpd_kpa: u32,
    },
    Outdoor {
        greenhouse_id: u16,
        node_id: u16,
        air_temp_c: u32,
        air_rh_pct: u32,
        par_value: u16,
        ea_air_kpa: u32,
        es_kpa: u32,
    },
}

/// The little-endian 16-bit word at offset `o` of `s`.
pub open spec fn le16(s: Seq<u8>, o: int) -> u16 {
    spec_u16_from_le_bytes(s.subrange(o, o + 2))
}

/// The little-endian 32-bit word at offset `o` of `s`.
pub open spec fn le32(s: Seq<u8>, o: int) -> u32 {
    spec_u32_from_le_bytes(s.subrange(o, o + 4))
}

/// What decoding a payload yields: the node id at offset 2 selects the
/// variant, the variant fixes the least length and the field offsets, and
/// each field is the little-endian word at its offset.
pub open spec fn spec_decode(s: Seq<u8>) -> Option<Decoded> {
    if s.len() < 4 {
        None
    } else if le16(s, 2) == OUTDOOR_NODE_ID {
        if s.len() < OUTDOOR_MIN_LEN {
            None
        } else {
            Some(
                Decoded::Outdoor {
                    greenhouse_id: le16(s, 0),
                    node_id: le16(s, 2),
                    air_temp_c: le32(s, 4),
                    air_rh_pct: le32(s, 8),
                    par_value: le16(s, 12),
                    ea_air_kpa: le32(s, 14),
                    es_kpa: le32(s, 18),
                },
            )
        }
    } else {
        if s.len() < STANDARD_MIN_LEN {
            None
        } else {
            Some(
                Decoded::Standard {
                    greenhouse_id: le16(s, 0),
                    node_id: le16(s, 2),
                    air_temp_c: le32(s, 4),
                    leaf_temp_c: le32(s, 8),
                    bag_temp_c: le32(s, 12),
                    air_rh_pct: le32(s, 16),
                    bag_rh1_pct: le32(s, 20),
                    bag_rh2_pct: le32(s, 24),
                    bag_rh3_pct: le32(s, 28),
                    bag_rh4_pct: le32(s, 32),
                    bag_rh_avg_pct: le32(s, 36),
                    par_value: le16(s, 40),
                    weight_g: le16(s, 42),
                    ea_air_kpa: le32(s, 44),
                    ea_leaf_kpa: le32(s, 48),
                    es_kpa: le32(s, 52),
                    vpd_kpa: le32(s, 56),
                },
            )
        }
    }
}

/// Read the little-endian 16-bit word at offset `o`, when it lies in bounds.
pub fn rd_u16_le(b: &[u8], o: usize) -> (r: Option<u16>)
    ensures
        o + 2 <= b@.len() ==> r == Some(le16(b@, o as int)),
        o + 2 > b@.len() ==> r is None,
{
    if b.len() >= 2 && o <= b.len() - 2 {
        Some(u16_from_le_bytes(&b[o..o + 2]))
    } else {
        None
    }
}

/// Read the little-endian 16-bit word at `o`; the caller shows it in bounds.
fn rd_u16(b: &[u8], o: usize) -> (r: u16)
    requires
        o + 2 <= b@.len(),
    ensures
        r == le16(b@, o as int),
{
    let len = b.len();
    assert(o + 2 <= len);
    u16_from_le_bytes(&b[o..o + 2])
}

/// Read the little-endian 32-bit word at `o`; the caller shows it in bounds.
fn rd_u32(b: &[u8], o: usize) -> (r: u32)
    requires
        o + 4 <= b@.len(),
    ensures
        r == le32(b@, o as int),
{
    let len = b.len();
    assert(o + 4 <= len);
    u32_from_le_bytes(&b[o..o + 4])
}

/// Decode one raw payload into a tagged reading, or `None` when the payload
/// is shorter than its variant's least length. No read goes out of bounds,
/// and no input raises an error beyond the `None` outcome.
pub fn decode_payload(p: &[u8]) -> (r: Option<Decoded>)
    ensures
        r == spec_decode(p@),
        p@.len() < 4 ==> r is None,
        p@.len() >= 4 && le16(p@, 2) == OUTDOOR_NODE_ID && p@.len() < OUTDOOR_MIN_LEN ==> r
            is None,
        p@.len() >= 4 && le16(p@, 2) != OUTDOOR_NODE_ID && p@.len() < STANDARD_MIN_LEN ==> r
            is None,
{
    if p.len() < 4 {
        return None;
    }
    let node_id = rd_u16(p, 2);
    if node_id == OUTDOOR_NODE_ID {
        if p.len() < OUTDOOR_MIN_LEN {
            return None;
        }
        Some(
            Decoded::Outdoor {
                greenhouse_id: rd_u16(p, 0),
                node_id,
                air_temp_c: rd_u32(p, 4),
                air_rh_pct: rd_u32(p, 8),
                par_value: rd_u16(p, 12),
                ea_air_kpa: rd_u32(p, 14),
                es_kpa: rd_u32(p, 18),
            },
        )
    } else {
        if p.len() < STANDARD_MIN_LEN {
            return None;
        }
        Some(
            Decoded::Standard {
                greenhouse_id: rd_u16(p, 0),
                node_id,
                air_temp_c: rd_u32(p, 4),
                leaf_temp_c: rd_u32(p, 8),
                bag_temp_c: rd_u32(p, 12),
                air_rh_pct: rd_u32(p, 16),
                bag_rh1_pct: rd_u32(p, 20),
                bag_rh2_pct: rd_u32(p, 24),
                bag_rh3_pct: rd_u32(p, 28),
                bag_rh4_pct: rd_u32(p, 32),
                bag_rh_avg_pct: rd_u32(p, 36),
                par_value: rd_u16(p, 40),
                weight_g: rd_u16(p, 42),
                ea_air_kpa: rd_u32(p, 44),
                ea_leaf_kpa: rd_u32(p, 48),
                es_kpa: rd_u32(p, 52),
                vpd_kpa: rd_u32(p, 56),
            },
        )
    }
}

/// The greenhouse id a decoded reading declares.
pub open spec fn spec_greenhouse_of(d: Decoded) -> u16 {
    match d {
        Decoded::Standard { greenhouse_id, .. } => greenhouse_id,
        Decoded::Outdoor { greenhouse_id, .. } => greenhouse_id,
    }
}

/// The node id a decoded reading declares.
pub open spec fn spec_node_of(d: Decoded) -> u16 {
    match d {
        Decoded::Standard { node_id, .. } => node_id,
        Decoded::Outdoor { node_id, .. } => node_id,
    }
}

/// The greenhouse id a decoded reading declares.
pub fn greenhouse_of(d: &Decoded) -> (r: u16)
    ensures
        r == spec_greenhouse_of(*d),
{
    match d {
        Decoded::Standard { greenhouse_id, .. } => *greenhouse_id,
        Decoded::Outdoor { greenhouse_id, .. } => *greenhouse_id,
    }
}

/// The node id a decoded reading declares.
pub fn node_of(d: &Decoded) -> (r: u16)
    ensures
        r == spec_node_of(*d),
{
    match d {
        Decoded::Standard { node_id, .. } => *node_id,
        Decoded::Outdoor { node_id, .. } => *node_id,
    }
}

} // verus!
