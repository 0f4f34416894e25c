//! The classification engine: evaluates one aircraft record against the
//! scan configuration and produces either nothing (not of interest, or
//! excluded by a hard altitude filter) or a non-empty list of trigger
//! reasons in a fixed evaluation order, so that reports are reproducible.
//!
//! Of the two geofencing styles this tool has had, the sector one is the
//! one implemented: a configured centre and radius flag any aircraft
//! whose position lies within the circle. Matching on a reported origin
//! country is not part of this rule set.

use vstd::prelude::*;
use crate::record::Aircraft;
use crate::record::Position;
use crate::record::aircraft_wf;
use crate::record::pos_wf;
use crate::geo::abs_diff;
use crate::geo::distance;
use crate::geo::distance_spec;
use crate::text::contains_str;
use crate::text::contains_sub;
use crate::text::str_eq;

verus! {

/// The configuration of one scan run, immutable for its lifetime.
/// Speeds are knots, altitudes feet, the radius nautical miles, the
/// centre microdegrees.
pub struct ScanConfig {
    pub speed_limit: i64,
    pub aircraft_type: Option<String>,
    pub center: Option<Position>,
    pub radius_nm: u32,
    pub spoof_delta: i64,
    pub min_alt: Option<i64>,
    pub max_alt: Option<i64>,
}

/// The run invariants: a positive radius, a non-negative spoof
/// threshold, a centre on the globe, and altitude bounds in order.
pub open spec fn config_wf(c: ScanConfig) -> bool {
    &&& c.radius_nm > 0
    &&& c.spoof_delta >= 0
    &&& match c.center {
        Some(p) => pos_wf(p),
        None => true,
    }
    &&& match (c.min_alt, c.max_alt) {
        (Some(lo), Some(hi)) => lo <= hi,
        _ => true,
    }
}

/// Why a configuration was rejected before the loop started.
#[derive(Clone, Copy, PartialEq, Eq, Structural, Debug)]
pub enum ConfigError {
    NonPositiveRadius,
    NegativeSpoofDelta,
    CenterOffGlobe,
    AltitudeBoundsInverted,
}

/// The outcome validation must give: the first violated invariant, in a
/// fixed order, or success.
pub open spec fn spec_validate(c: ScanConfig) -> Result<(), ConfigError> {
    if c.radius_nm == 0 {
        Err(ConfigError::NonPositiveRadius)
    } else if c.spoof_delta < 0 {
        Err(ConfigError::NegativeSpoofDelta)
    } else if match c.center {
        Some(p) => !pos_wf(p),
        None => false,
    } {
        Err(ConfigError::CenterOffGlobe)
    } else if match (c.min_alt, c.max_alt) {
        (Some(lo), Some(hi)) => lo > hi,
        _ => false,
    } {
        Err(ConfigError::AltitudeBoundsInverted)
    } else {
        Ok(())
    }
}

impl ScanConfig {
    /// Checks the run invariants. A violation is a caller error, found
    /// before the scan loop ever starts.
    pub fn validate(&self) -> (r: Result<(), ConfigError>)
        ensures
            r == spec_validate(*self),
            r is Ok <==> config_wf(*self),
    {
        if self.radius_nm == 0 {
            return Err(ConfigError::NonPositiveRadius);
        }
        if self.spoof_delta < 0 {
            return Err(ConfigError::NegativeSpoofDelta);
        }
        match self.center {
            Some(p) => {
                if !(-90_000_000 <= p.lat && p.lat <= 90_000_000 && -180_000_000 <= p.lon && p.lon
                    <= 180_000_000) {
                    return Err(ConfigError::CenterOffGlobe);
                }
            },
            None => {},
        }
        match (self.min_alt, self.max_alt) {
            (Some(lo), Some(hi)) => {
                if lo > hi {
                    return Err(ConfigError::AltitudeBoundsInverted);
                }
            },
            _ => {},
        }
        Ok(())
    }
}

/// One trigger reason, in the order the engine evaluates them.
#[derive(Debug)]
pub enum Reason {
    NavAnomaly { delta_ft: u64 },
    Speed { speed_kt: i64, alt_ft: i64 },
    GhostTracking,
    HighValueType { type_code: String },
    TargetTypeMatch,
    MilitaryFlag,
    Sector { distance_m: u64 },
}

/// The speed used for threshold tests: absent speed counts as zero.
pub open spec fn eff_speed(a: Aircraft) -> i64 {
    match a.ground_speed {
        Some(s) => s,
        None => 0,
    }
}

/// The altitude used for filters and threshold tests: absent barometric
/// altitude counts as zero.
pub open spec fn eff_alt(a: Aircraft) -> i64 {
    match a.alt_baro {
        Some(v) => v,
        None => 0,
    }
}

/// Hard filters: a configured altitude ceiling or floor excludes the
/// aircraft outright, whatever else would have fired.
pub open spec fn hard_filtered(a: Aircraft, c: ScanConfig) -> bool {
    ||| match c.max_alt {
        Some(m) => eff_alt(a) > m,
        None => false,
    }
    ||| match c.min_alt {
        Some(m) => eff_alt(a) < m,
        None => false,
    }
}

/// The altimeter discrepancy, when both altitudes are reported.
pub open spec fn spoof_delta_of(a: Aircraft) -> int {
    match (a.alt_baro, a.alt_geom) {
        (Some(b), Some(g)) => abs_diff(b as int, g as int),
        _ => 0,
    }
}

/// The spoof/jamming trigger: both altitudes present and their absolute
/// difference strictly above the threshold. A missing altitude means
/// insufficient data, never an anomaly.
pub open spec fn spoof_fires(a: Aircraft, c: ScanConfig) -> bool {
    match (a.alt_baro, a.alt_geom) {
        (Some(b), Some(g)) => abs_diff(b as int, g as int) > c.spoof_delta as int,
        _ => false,
    }
}

/// The speed trigger: fast at low altitude by the configured limit, or
/// past the unconditional 550-knot ceiling at any altitude.
pub open spec fn speed_fires(a: Aircraft, c: ScanConfig) -> bool {
    (eff_alt(a) < 25000 && eff_speed(a) > c.speed_limit) || eff_speed(a) > 550
}

/// The routine light-aircraft types whose multilateration tracks are
/// noise, not ghosts.
pub open spec fn is_boring_type(t: Seq<char>) -> bool {
    ||| t == "C172"@
    ||| t == "C152"@
    ||| t == "P28A"@
    ||| t == "DA40"@
    ||| t == "R44"@
    ||| t == "G115"@
}

/// Is this type on the allow-list of routine light aircraft?
pub fn boring_type(t: &str) -> (r: bool)
    ensures
        r == is_boring_type(t@),
{
    str_eq(t, "C172") || str_eq(t, "C152") || str_eq(t, "P28A") || str_eq(t, "DA40") || str_eq(
        t,
        "R44",
    ) || str_eq(t, "G115")
}

/// The ghost-tracking trigger: a multilateration source whose type is
/// not on the boring allow-list (a missing type is not boring).
pub open spec fn ghost_fires(a: Aircraft) -> bool {
    a.source_type@ == "mlat"@ && match a.type_code {
        Some(t) => !is_boring_type(t@),
        None => true,
    }
}

/// The high-value watch-list: tankers and transports, bombers, fighters.
pub open spec fn is_high_value_type(t: Seq<char>) -> bool {
    ||| t == "K35R"@
    ||| t == "K46"@
    ||| t == "A332"@
    ||| t == "E3TF"@
    ||| t == "C17"@
    ||| t == "A400"@
    ||| t == "B52"@
    ||| t == "B1"@
    ||| t == "B2"@
    ||| t == "EUFI"@
    ||| t == "F35"@
    ||| t == "F16"@
    ||| t == "F18"@
    ||| t == "TORN"@
}

/// Is this type on the high-value watch-list?
pub fn high_value_type(t: &str) -> (r: bool)
    ensures
        r == is_high_value_type(t@),
{
    str_eq(t, "K35R") || str_eq(t, "K46") || str_eq(t, "A332") || str_eq(t, "E3TF") || str_eq(
        t,
        "C17",
    ) || str_eq(t, "A400") || str_eq(t, "B52") || str_eq(t, "B1") || str_eq(t, "B2") || str_eq(
        t,
        "EUFI",
    ) || str_eq(t, "F35") || str_eq(t, "F16") || str_eq(t, "F18") || str_eq(t, "TORN")
}

/// The high-value-type trigger.
pub open spec fn hvt_fires(a: Aircraft) -> bool {
    match a.type_code {
        Some(t) => is_high_value_type(t@),
        None => false,
    }
}

/// The user-requested type match: the configured substring occurs in the
/// aircraft's type code.
pub open spec fn target_type_fires(a: Aircraft, c: ScanConfig) -> bool {
    match (a.type_code, c.aircraft_type) {
        (Some(t), Some(q)) => contains_sub(t@, q@),
        _ => false,
    }
}

/// The explicit military flag from the feed.
pub open spec fn mil_fires(a: Aircraft) -> bool {
    a.is_military == Some(true)
}

/// The geofence trigger: a configured centre, a reported position, and
/// the great-circle distance within the configured radius.
pub open spec fn sector_fires(a: Aircraft, c: ScanConfig) -> bool {
    match (c.center, a.position) {
        (Some(ctr), Some(p)) => distance_spec(ctr, p) <= c.radius_nm as int * 1852,
        _ => false,
    }
}

/// The distance behind a geofence trigger (zero when it cannot fire).
pub open spec fn sector_distance(a: Aircraft, c: ScanConfig) -> int {
    match (c.center, a.position) {
        (Some(ctr), Some(p)) => distance_spec(ctr, p),
        _ => 0,
    }
}

/// The full ordered reason list for an aircraft that passed the hard
/// filters: one entry per firing trigger, in evaluation order.
pub open spec fn reasons_spec(a: Aircraft, c: ScanConfig) -> Seq<Reason> {
    (if spoof_fires(a, c) {
        seq![Reason::NavAnomaly { delta_ft: spoof_delta_of(a) as u64 }]
    } else {
        Seq::empty()
    }) + (if speed_fires(a, c) {
        seq![Reason::Speed { speed_kt: eff_speed(a), alt_ft: eff_alt(a) }]
    } else {
        Seq::empty()
    }) + (if ghost_fires(a) {
        seq![Reason::GhostTracking]
    } else {
        Seq::empty()
    }) + (if hvt_fires(a) {
        seq![
            Reason::HighValueType {
                type_code: match a.type_code {
                    Some(t) => t,
                    None => a.icao,
                },
            },
        ]
    } else {
        Seq::empty()
    }) + (if target_type_fires(a, c) {
        seq![Reason::TargetTypeMatch]
    } else {
        Seq::empty()
    }) + (if mil_fires(a) {
        seq![Reason::MilitaryFlag]
    } else {
        Seq::empty()
    }) + (if sector_fires(a, c) {
        seq![Reason::Sector { distance_m: sector_distance(a, c) as u64 }]
    } else {
        Seq::empty()
    })
}

impl Aircraft {
    /// Evaluates every trigger in order. Returns nothing for an aircraft
    /// the hard filters exclude or that fires no trigger; otherwise the
    /// non-empty ordered reason list.
    #[verifier::rlimit(100)]
    pub fn classify(&self, cfg: &ScanConfig) -> (r: Option<Vec<Reason>>)
        requires
            config_wf(*cfg),
            aircraft_wf(*self),
        ensures
            hard_filtered(*self, *cfg) ==> r is None,
            !hard_filtered(*self, *cfg) ==> match r {
                Some(v) => v@ == reasons_spec(*self, *cfg) && v@.len() > 0,
                None => reasons_spec(*self, *cfg).len() == 0,
            },
    {
        let speed: i64 = match self.ground_speed {
            Some(s) => s,
            None => 0,
        };
        let alt: i64 = match self.alt_baro {
            Some(v) => v,
            None => 0,
        };
        match cfg.max_alt {
            Some(m) => {
                if alt > m {
                    return None;
                }
            },
            None => {},
        }
        match cfg.min_alt {
            Some(m) => {
                if alt < m {
                    return None;
                }
            },
            None => {},
        }
        let mut reasons: Vec<Reason> = Vec::new();

        match (self.alt_baro, self.alt_geom) {
            (Some(b), Some(g)) => {
                let delta: u64 = if b >= g {
                    ((b as i128) - (g as i128)) as u64
                } else {
                    ((g as i128) - (b as i128)) as u64
                };
                if delta > cfg.spoof_delta as u64 {
                    reasons.push(Reason::NavAnomaly { delta_ft: delta });
                }
            },
            _ => {},
        }
        let ghost r1 = (if spoof_fires(*self, *cfg) {
            seq![Reason::NavAnomaly { delta_ft: spoof_delta_of(*self) as u64 }]
        } else {
            Seq::<Reason>::empty()
        });
        proof {
            assert(reasons@ =~= r1);
        }

        if (alt < 25000 && speed > cfg.speed_limit) || speed > 550 {
            reasons.push(Reason::Speed { speed_kt: speed, alt_ft: alt });
        }
        let ghost r2 = r1 + (if speed_fires(*self, *cfg) {
            seq![Reason::Speed { speed_kt: eff_speed(*self), alt_ft: eff_alt(*self) }]
        } else {
            Seq::<Reason>::empty()
        });
        proof {
            assert(reasons@ =~= r2);
        }

        if str_eq(self.source_type.as_str(), "mlat") {
            let ghostly: bool = match &self.type_code {
                Some(t) => !boring_type(t.as_str()),
                None => true,
            };
            if ghostly {
                reasons.push(Reason::GhostTracking);
            }
        }
        let ghost r3 = r2 + (if ghost_fires(*self) {
            seq![Reason::GhostTracking]
        } else {
            Seq::<Reason>::empty()
        });
        proof {
            assert(reasons@ =~= r3);
        }

        match &self.type_code {
            Some(t) => {
                if high_value_type(t.as_str()) {
                    reasons.push(Reason::HighValueType { type_code: t.clone() });
                }
            },
            None => {},
        }
        let ghost r4 = r3 + (if hvt_fires(*self) {
            seq![Reason::HighValueType { type_code: self.type_code->Some_0 }]
        } else {
            Seq::<Reason>::empty()
        });
        proof {
            assert(reasons@ =~= r4);
        }

        match (&self.type_code, &cfg.aircraft_type) {
            (Some(t), Some(q)) => {
                if contains_str(t.as_str(), q.as_str()) {
                    reasons.push(Reason::TargetTypeMatch);
                }
            },
            _ => {},
        }
        let ghost r5 = r4 + (if target_type_fires(*self, *cfg) {
            seq![Reason::TargetTypeMatch]
        } else {
            Seq::<Reason>::empty()
        });
        proof {
            assert(reasons@ =~= r5);
        }

        match self.is_military {
            Some(true) => {
                reasons.push(Reason::MilitaryFlag);
            },
            _ => {},
        }
        let ghost r6 = r5 + (if mil_fires(*self) {
            seq![Reason::MilitaryFlag]
        } else {
            Seq::<Reason>::empty()
        });
        proof {
            assert(reasons@ =~= r6);
        }

        match (cfg.center, self.position) {
            (Some(ctr), Some(p)) => {
                let d = distance(ctr, p);
                if d <= (cfg.radius_nm as u64) * 1852 {
                    reasons.push(Reason::Sector { distance_m: d });
                }
            },
            _ => {},
        }
        let ghost r7 = r6 + (if sector_fires(*self, *cfg) {
            seq![Reason::Sector { distance_m: sector_distance(*self, *cfg) as u64 }]
        } else {
            Seq::<Reason>::empty()
        });
        proof {
            assert(reasons@ =~= r7);
            assert(r7 == reasons_spec(*self, *cfg));
        }

        if reasons.len() == 0 {
            None
        } else {
            Some(reasons)
        }
    }
}

/// Law: with both altitudes reported, the spoof trigger fires exactly
/// when the absolute discrepancy strictly exceeds the threshold —
/// boundary equality does not fire — and the navigation-anomaly reason
/// stands in the reason list exactly then.
pub proof fn lemma_spoof_boundary(a: Aircraft, c: ScanConfig, b: i64, g: i64)
    requires
        a.alt_baro == Some(b),
        a.alt_geom == Some(g),
    ensures
        spoof_fires(a, c) <==> abs_diff(b as int, g as int) > c.spoof_delta as int,
        (exists|i: int|
            0 <= i < reasons_spec(a, c).len() && reasons_spec(a, c)[i] is NavAnomaly)
            <==> spoof_fires(a, c),
{
    let rs = reasons_spec(a, c);
    if spoof_fires(a, c) {
        assert(rs[0] is NavAnomaly);
    } else {
        assert forall|i: int| 0 <= i < rs.len() implies !(rs[i] is NavAnomaly) by {}
    }
}

/// Law: an aircraft that reports no speed is treated as standing still,
/// so the speed trigger cannot fire for it at all — neither through the
/// configured threshold (as long as that threshold is not negative) nor
/// through the unconditional 550-knot ceiling — and no speed reason
/// stands in its reason list.
pub proof fn lemma_absent_speed_never_triggers(a: Aircraft, c: ScanConfig)
    requires
        a.ground_speed is None,
        c.speed_limit >= 0,
    ensures
        !speed_fires(a, c),
        forall|i: int|
            0 <= i < reasons_spec(a, c).len() ==> !(reasons_spec(a, c)[i] is Speed),
{
    let rs = reasons_spec(a, c);
    assert forall|i: int| 0 <= i < rs.len() implies !(rs[i] is Speed) by {}
}

} // verus!
