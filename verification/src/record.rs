//! The normalized record of one tracked aircraft, built by lenient,
//! total-but-filtering conversion from the loosely-typed feed fields that
//! the unverified boundary hands over.

use vstd::prelude::*;
use crate::text::str_eq;

verus! {

/// One loosely-typed feed field: a number (already scaled to the integer
/// unit of its field), a bare token, or nothing at all.
pub enum RawField {
    Number(i64),
    Token(String),
    Missing,
}

/// One feed entry exactly as the boundary decoded it, every field still
/// optional. Numeric fields carry knots (speed), feet (altitudes) or
/// microdegrees (coordinates).
pub struct RawAircraft {
    pub icao: Option<String>,
    pub callsign: Option<String>,
    pub type_code: Option<String>,
    pub registration: Option<String>,
    pub ground_speed: Option<i64>,
    pub alt_baro: RawField,
    pub alt_geom: RawField,
    pub source_type: Option<String>,
    pub lat: Option<i64>,
    pub lon: Option<i64>,
    pub is_military: Option<bool>,
}

/// A latitude/longitude pair in microdegrees.
#[derive(Clone, Copy, PartialEq, Eq, Structural, Debug)]
pub struct Position {
    pub lat: i64,
    pub lon: i64,
}

/// A position is well formed when it lies on the globe.
pub open spec fn pos_wf(p: Position) -> bool {
    &&& -90_000_000 <= p.lat <= 90_000_000
    &&& -180_000_000 <= p.lon <= 180_000_000
}

/// One tracked aircraft after normalization. The position is present only
/// as a complete, in-range pair — never one coordinate without the other.
pub struct Aircraft {
    pub icao: String,
    pub callsign: Option<String>,
    pub type_code: Option<String>,
    pub registration: Option<String>,
    pub ground_speed: Option<i64>,
    pub alt_baro: Option<i64>,
    pub alt_geom: Option<i64>,
    pub source_type: String,
    pub position: Option<Position>,
    pub is_military: Option<bool>,
}

/// A record is well formed when its identifier is non-empty and any
/// position it carries lies on the globe.
pub open spec fn aircraft_wf(a: Aircraft) -> bool {
    &&& a.icao@.len() > 0
    &&& match a.position {
        Some(p) => pos_wf(p),
        None => true,
    }
}

/// What an altitude field means: a number is taken as feet; the literal
/// ground token means an altitude of zero (on the ground, which is not
/// the same as not reporting); anything else means the instrument did not
/// report, so the altitude is absent.
pub open spec fn spec_parse_altitude(v: RawField) -> Option<i64> {
    match v {
        RawField::Number(n) => Some(n),
        RawField::Token(s) => if s@ == "ground"@ {
            Some(0)
        } else {
            None
        },
        RawField::Missing => None,
    }
}

/// Reads an altitude field, mapping the ground sentinel to zero and any
/// other non-numeric value to absent.
pub fn parse_altitude(v: &RawField) -> (r: Option<i64>)
    ensures
        r == spec_parse_altitude(*v),
{
    match v {
        RawField::Number(n) => Some(*n),
        RawField::Token(s) => if str_eq(s.as_str(), "ground") {
            Some(0i64)
        } else {
            None
        },
        RawField::Missing => None,
    }
}

/// The position a raw entry yields: both coordinates present and in
/// range, or no position at all.
pub open spec fn spec_position(lat: Option<i64>, lon: Option<i64>) -> Option<Position> {
    match (lat, lon) {
        (Some(la), Some(lo)) => {
            let p = Position { lat: la, lon: lo };
            if pos_wf(p) {
                Some(p)
            } else {
                None
            }
        },
        _ => None,
    }
}

/// The record a raw entry yields: rejected (`None`) when the identifier
/// is missing or empty or the source tag is missing; otherwise every
/// field normalized as the field specs above say.
pub open spec fn spec_from_fields(r: RawAircraft) -> Option<Aircraft> {
    match (r.icao, r.source_type) {
        (Some(id), Some(st)) => if id@.len() == 0 {
            None
        } else {
            Some(
                Aircraft {
                    icao: id,
                    callsign: r.callsign,
                    type_code: r.type_code,
                    registration: r.registration,
                    ground_speed: r.ground_speed,
                    alt_baro: spec_parse_altitude(r.alt_baro),
                    alt_geom: spec_parse_altitude(r.alt_geom),
                    source_type: st,
                    position: spec_position(r.lat, r.lon),
                    is_military: r.is_military,
                },
            )
        },
        _ => None,
    }
}

fn clone_opt_string(s: &Option<String>) -> (r: Option<String>)
    ensures
        r == *s,
{
    match s {
        Some(v) => Some(v.clone()),
        None => None,
    }
}

impl Aircraft {
    /// Builds a record from one raw feed entry, or rejects it. A truncated
    /// or corrupt entry (no identifier, no source tag) is dropped here with
    /// no error surfaced further: that is steady-state feed noise.
    pub fn from_fields(r: &RawAircraft) -> (res: Option<Aircraft>)
        ensures
            res == spec_from_fields(*r),
            match res {
                Some(a) => aircraft_wf(a),
                None => true,
            },
    {
        let id: String = match &r.icao {
            Some(s) => s.clone(),
            None => {
                return None;
            },
        };
        let st: String = match &r.source_type {
            Some(s) => s.clone(),
            None => {
                return None;
            },
        };
        if id.as_str().unicode_len() == 0 {
            return None;
        }
        let position: Option<Position> = match (&r.lat, &r.lon) {
            (Some(la), Some(lo)) => {
                if -90_000_000 <= *la && *la <= 90_000_000 && -180_000_000 <= *lo && *lo
                    <= 180_000_000 {
                    Some(Position { lat: *la, lon: *lo })
                } else {
                    None
                }
            },
            _ => None,
        };
        Some(
            Aircraft {
                icao: id,
                callsign: clone_opt_string(&r.callsign),
                type_code: clone_opt_string(&r.type_code),
                registration: clone_opt_string(&r.registration),
                ground_speed: r.ground_speed,
                alt_baro: parse_altitude(&r.alt_baro),
                alt_geom: parse_altitude(&r.alt_geom),
                source_type: st,
                position,
                is_military: r.is_military,
            },
        )
    }
}

} // verus!
