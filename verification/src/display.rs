//! The display row for one flagged aircraft: rendered reason text, the
//! resolved operator, the altimeter-discrepancy column, and the severity
//! tier that the export styles by.

use vstd::prelude::*;
use vstd::hash_map::StringHashMap;
use crate::classify::Reason;
use crate::classify::ScanConfig;
use crate::classify::config_wf;
use crate::classify::hard_filtered;
use crate::classify::reasons_spec;
use crate::record::aircraft_wf;
use crate::db::AircraftInfo;
use crate::db::resolve_operator;
use crate::db::spec_resolve_operator;
use crate::geo::abs_diff;
use crate::record::Aircraft;
use crate::record::Position;
use crate::text::dec_str;
use crate::text::int_str;
use crate::text::i64_to_string;
use crate::text::u64_to_string;

verus! {

/// The text of one trigger reason.
pub open spec fn reason_text(r: Reason) -> Seq<char> {
    match r {
        Reason::NavAnomaly { delta_ft } => "NAV ANOMALY ("@ + dec_str(delta_ft as nat)
            + " ft)"@,
        Reason::Speed { speed_kt, alt_ft } => "Speed ("@ + int_str(speed_kt as int) + " kts @ "@
            + int_str(alt_ft as int) + " ft)"@,
        Reason::GhostTracking => "MLAT as source"@,
        Reason::HighValueType { type_code } => "HVT: "@ + type_code@,
        Reason::TargetTypeMatch => "Target Type Match"@,
        Reason::MilitaryFlag => "MIL FLAG"@,
        Reason::Sector { distance_m } => "Sector ("@ + dec_str((distance_m as int / 1000) as nat)
            + " km)"@,
    }
}

/// Renders one trigger reason.
pub fn render_reason(r: &Reason) -> (s: String)
    ensures
        s@ == reason_text(*r),
{
    match r {
        Reason::NavAnomaly { delta_ft } => String::from_str("NAV ANOMALY (").concat(
            u64_to_string(*delta_ft).as_str(),
        ).concat(" ft)"),
        Reason::Speed { speed_kt, alt_ft } => String::from_str("Speed (").concat(
            i64_to_string(*speed_kt).as_str(),
        ).concat(" kts @ ").concat(i64_to_string(*alt_ft).as_str()).concat(" ft)"),
        Reason::GhostTracking => String::from_str("MLAT as source"),
        Reason::HighValueType { type_code } => String::from_str("HVT: ").concat(
            type_code.as_str(),
        ),
        Reason::TargetTypeMatch => String::from_str("Target Type Match"),
        Reason::MilitaryFlag => String::from_str("MIL FLAG"),
        Reason::Sector { distance_m } => String::from_str("Sector (").concat(
            u64_to_string(*distance_m / 1000).as_str(),
        ).concat(" km)"),
    }
}

/// The reason list joined into one line, separated by comma and space,
/// in evaluation order.
pub open spec fn join_reasons(rs: Seq<Reason>) -> Seq<char>
    decreases rs.len(),
{
    if rs.len() == 0 {
        Seq::empty()
    } else if rs.len() == 1 {
        reason_text(rs[0])
    } else {
        join_reasons(rs.drop_last()) + ", "@ + reason_text(rs.last())
    }
}

/// Joins the reason list into one display line.
pub fn render_reasons(rs: &Vec<Reason>) -> (s: String)
    ensures
        s@ == join_reasons(rs@),
{
    let mut s = String::new();
    let mut i: usize = 0;
    while i < rs.len()
        invariant
            i <= rs@.len(),
            s@ == join_reasons(rs@.take(i as int)),
        decreases rs@.len() - i,
    {
        if i > 0 {
            s.append(", ");
        }
        let t = render_reason(&rs[i]);
        s.append(t.as_str());
        proof {
            assert(rs@.take(i + 1).drop_last() =~= rs@.take(i as int));
            assert(rs@.take(i + 1).last() == rs@[i as int]);
        }
        i = i + 1;
    }
    proof {
        assert(rs@.take(rs@.len() as int) =~= rs@);
    }
    s
}

/// The three severity tiers of the export: critical for high-value or
/// military matches, warning for a navigation anomaly, informational for
/// everything else.
#[derive(Clone, Copy, PartialEq, Eq, Structural, Debug)]
pub enum Severity {
    Critical,
    Warning,
    Informational,
}

/// Does any reason name a high-value type or the military flag?
pub open spec fn has_critical_reason(rs: Seq<Reason>) -> bool {
    exists|i: int|
        0 <= i < rs.len() && (rs[i] is HighValueType || rs[i] is MilitaryFlag)
}

/// Does any reason report the navigation anomaly?
pub open spec fn has_nav_reason(rs: Seq<Reason>) -> bool {
    exists|i: int| 0 <= i < rs.len() && rs[i] is NavAnomaly
}

/// The severity a reason list maps to.
pub open spec fn severity_spec(rs: Seq<Reason>) -> Severity {
    if has_critical_reason(rs) {
        Severity::Critical
    } else if has_nav_reason(rs) {
        Severity::Warning
    } else {
        Severity::Informational
    }
}

/// Derives the severity tier from the reason list.
pub fn severity_of(rs: &Vec<Reason>) -> (s: Severity)
    ensures
        s == severity_spec(rs@),
{
    let mut critical = false;
    let mut nav = false;
    let mut i: usize = 0;
    while i < rs.len()
        invariant
            i <= rs@.len(),
            critical == has_critical_reason(rs@.take(i as int)),
            nav == has_nav_reason(rs@.take(i as int)),
        decreases rs@.len() - i,
    {
        proof {
            assert(rs@.take(i + 1)[i as int] == rs@[i as int]);
            assert(forall|j: int| 0 <= j < i ==> rs@.take(i + 1)[j] == rs@.take(i as int)[j]);
        }
        match &rs[i] {
            Reason::HighValueType { .. } => {
                critical = true;
            },
            Reason::MilitaryFlag => {
                critical = true;
            },
            Reason::NavAnomaly { .. } => {
                nav = true;
            },
            _ => {},
        }
        proof {
            let pre = rs@.take(i as int);
            let post = rs@.take(i + 1);
            if has_critical_reason(pre) {
                let j = choose|j: int|
                    0 <= j < pre.len() && (pre[j] is HighValueType || pre[j] is MilitaryFlag);
                assert(post[j] is HighValueType || post[j] is MilitaryFlag);
            }
            if has_critical_reason(post) && !has_critical_reason(pre) {
                let j = choose|j: int|
                    0 <= j < post.len() && (post[j] is HighValueType || post[j] is MilitaryFlag);
                assert(j == i);
            }
            if has_nav_reason(pre) {
                let j = choose|j: int| 0 <= j < pre.len() && pre[j] is NavAnomaly;
                assert(post[j] is NavAnomaly);
            }
            if has_nav_reason(post) && !has_nav_reason(pre) {
                let j = choose|j: int| 0 <= j < post.len() && post[j] is NavAnomaly;
                assert(j == i);
            }
        }
        i = i + 1;
    }
    proof {
        assert(rs@.take(rs@.len() as int) =~= rs@);
    }
    if critical {
        Severity::Critical
    } else if nav {
        Severity::Warning
    } else {
        Severity::Informational
    }
}

/// One row of the published snapshot: everything the console table and
/// the geospatial export need about one flagged aircraft.
pub struct DefenseDisplay {
    pub icao: String,
    pub type_code: String,
    pub operator: String,
    pub callsign: String,
    pub speed: i64,
    pub alt: i64,
    pub delta: String,
    pub source: String,
    pub reason: String,
    pub position: Option<Position>,
    pub severity: Severity,
}

/// The ghost image of a display row.
pub struct RowView {
    pub icao: Seq<char>,
    pub type_code: Seq<char>,
    pub operator: Seq<char>,
    pub callsign: Seq<char>,
    pub speed: i64,
    pub alt: i64,
    pub delta: Seq<char>,
    pub source: Seq<char>,
    pub reason: Seq<char>,
    pub position: Option<Position>,
    pub severity: Severity,
}

impl View for DefenseDisplay {
    type V = RowView;

    open spec fn view(&self) -> RowView {
        RowView {
            icao: self.icao@,
            type_code: self.type_code@,
            operator: self.operator@,
            callsign: self.callsign@,
            speed: self.speed,
            alt: self.alt,
            delta: self.delta@,
            source: self.source@,
            reason: self.reason@,
            position: self.position,
            severity: self.severity,
        }
    }
}

/// The discrepancy column: the absolute altimeter difference when both
/// altitudes are reported, a dash when the comparison is impossible.
pub open spec fn delta_str_spec(a: Aircraft) -> Seq<char> {
    match (a.alt_baro, a.alt_geom) {
        (Some(b), Some(g)) => dec_str(abs_diff(b as int, g as int) as nat),
        _ => "-"@,
    }
}

/// The row an aircraft, its reason list and the reference table
/// determine, field by field.
pub open spec fn row_view_spec(
    a: Aircraft,
    rs: Seq<Reason>,
    db: Map<Seq<char>, AircraftInfo>,
) -> RowView {
    RowView {
        icao: a.icao@,
        type_code: match a.type_code {
            Some(t) => t@,
            None => "???"@,
        },
        operator: spec_resolve_operator(
            db,
            a.icao@,
            match a.callsign {
                Some(c) => c@,
                None => Seq::empty(),
            },
        ),
        callsign: match a.callsign {
            Some(c) => c@,
            None => Seq::empty(),
        },
        speed: crate::classify::eff_speed(a),
        alt: crate::classify::eff_alt(a),
        delta: delta_str_spec(a),
        source: a.source_type@,
        reason: join_reasons(rs),
        position: a.position,
        severity: severity_spec(rs),
    }
}

impl DefenseDisplay {
    /// Builds the display row for one flagged aircraft: resolves the
    /// operator through the reference table with the callsign fallback,
    /// renders the discrepancy column and the joined reason line, and
    /// fixes the severity tier.
    pub fn new(a: &Aircraft, reasons: &Vec<Reason>, db: &StringHashMap<AircraftInfo>) -> (row:
        DefenseDisplay)
        ensures
            row@ == row_view_spec(*a, reasons@, db@),
    {
        let callsign: String = match &a.callsign {
            Some(c) => c.clone(),
            None => String::new(),
        };
        let operator = resolve_operator(db, a.icao.as_str(), callsign.as_str());
        let delta: String = match (a.alt_baro, a.alt_geom) {
            (Some(b), Some(g)) => {
                let d: u64 = if b >= g {
                    ((b as i128) - (g as i128)) as u64
                } else {
                    ((g as i128) - (b as i128)) as u64
                };
                u64_to_string(d)
            },
            _ => String::from_str("-"),
        };
        DefenseDisplay {
            icao: a.icao.clone(),
            type_code: match &a.type_code {
                Some(t) => t.clone(),
                None => String::from_str("???"),
            },
            operator,
            callsign,
            speed: match a.ground_speed {
                Some(s) => s,
                None => 0,
            },
            alt: match a.alt_baro {
                Some(v) => v,
                None => 0,
            },
            delta,
            source: a.source_type.clone(),
            reason: render_reasons(reasons),
            position: a.position,
            severity: severity_of(reasons),
        }
    }
}


/// A display row is well formed when its reason line is non-empty: only
/// aircraft with at least one trigger ever become rows.
pub open spec fn row_wf(r: DefenseDisplay) -> bool {
    r.reason@.len() > 0
}

/// Every trigger reason renders to visible text.
pub proof fn lemma_reason_text_nonempty(r: Reason)
    ensures
        reason_text(r).len() > 0,
{
    reveal_strlit("NAV ANOMALY (");
    reveal_strlit("Speed (");
    reveal_strlit("MLAT as source");
    reveal_strlit("HVT: ");
    reveal_strlit("Target Type Match");
    reveal_strlit("MIL FLAG");
    reveal_strlit("Sector (");
}

/// A non-empty reason list renders to a non-empty line.
pub proof fn lemma_join_reasons_nonempty(rs: Seq<Reason>)
    requires
        rs.len() > 0,
    ensures
        join_reasons(rs).len() > 0,
{
    if rs.len() == 1 {
        lemma_reason_text_nonempty(rs[0]);
    } else {
        lemma_reason_text_nonempty(rs.last());
    }
}

/// Copies one display row, field by field.
pub fn clone_row(r: &DefenseDisplay) -> (c: DefenseDisplay)
    ensures
        c == *r,
{
    DefenseDisplay {
        icao: r.icao.clone(),
        type_code: r.type_code.clone(),
        operator: r.operator.clone(),
        callsign: r.callsign.clone(),
        speed: r.speed,
        alt: r.alt,
        delta: r.delta.clone(),
        source: r.source.clone(),
        reason: r.reason.clone(),
        position: r.position,
        severity: r.severity,
    }
}


impl Aircraft {
    /// The single-line interface over the engine: the joined reason text
    /// for an aircraft of interest, nothing for one the hard filters
    /// exclude or that fires no trigger.
    pub fn check_interest(&self, cfg: &ScanConfig) -> (r: Option<String>)
        requires
            config_wf(*cfg),
            aircraft_wf(*self),
        ensures
            hard_filtered(*self, *cfg) ==> r is None,
            !hard_filtered(*self, *cfg) ==> match r {
                Some(s) => reasons_spec(*self, *cfg).len() > 0 && s@ == join_reasons(
                    reasons_spec(*self, *cfg),
                ),
                None => reasons_spec(*self, *cfg).len() == 0,
            },
    {
        match self.classify(cfg) {
            Some(reasons) => Some(render_reasons(&reasons)),
            None => None,
        }
    }
}

} // verus!
