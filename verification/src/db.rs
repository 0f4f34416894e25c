//! The reference database: a read-only table from ICAO hex identifier to
//! registered operator, loaded once before scanning, plus the two-tier
//! operator resolution (table first, callsign-prefix heuristics second)
//! used to label flagged aircraft. Registration data is incomplete for
//! military and government aircraft, so callsign prefixes are kept as a
//! reliable secondary signal for exactly those.

use vstd::prelude::*;
use vstd::hash_map::StringHashMap;
use crate::text::has_ci_prefix;
use crate::text::has_prefix_upper;

verus! {

/// One row of the reference database: an airframe keyed by its ICAO hex
/// identifier, with the operator it is registered to, if known.
#[derive(Debug)]
pub struct AircraftInfo {
    pub icao: String,
    pub operator: Option<String>,
}

/// The table a row list builds: every row keyed by its identifier, a
/// later row with the same identifier replacing an earlier one.
pub open spec fn table_spec(rows: Seq<AircraftInfo>) -> Map<Seq<char>, AircraftInfo>
    decreases rows.len(),
{
    if rows.len() == 0 {
        Map::empty()
    } else {
        table_spec(rows.drop_last()).insert(rows.last().icao@, rows.last())
    }
}

fn clone_info(r: &AircraftInfo) -> (c: AircraftInfo)
    ensures
        c == *r,
{
    AircraftInfo {
        icao: r.icao.clone(),
        operator: match &r.operator {
            Some(s) => Some(s.clone()),
            None => None,
        },
    }
}

/// Builds the lookup table from parsed rows. Loading the rows (and
/// tolerating a missing or partly broken backing file) is the caller's
/// concern; an empty row list simply gives an empty table.
pub fn build_database(rows: &Vec<AircraftInfo>) -> (db: StringHashMap<AircraftInfo>)
    ensures
        db@ == table_spec(rows@),
{
    let mut db = StringHashMap::new();
    let mut i: usize = 0;
    while i < rows.len()
        invariant
            i <= rows@.len(),
            db@ == table_spec(rows@.take(i as int)),
        decreases rows@.len() - i,
    {
        let info = clone_info(&rows[i]);
        let key = info.icao.clone();
        db.insert(key, info);
        proof {
            assert(rows@.take(i + 1).drop_last() =~= rows@.take(i as int));
            assert(rows@.take(i + 1).last() == rows@[i as int]);
        }
        i = i + 1;
    }
    proof {
        assert(rows@.take(rows@.len() as int) =~= rows@);
    }
    db
}

/// The operator a callsign prefix implies, first match in declaration
/// order winning: military and government prefixes first, then the
/// common civil airlines.
pub open spec fn callsign_operator(cs: Seq<char>) -> Option<Seq<char>> {
    if has_prefix_upper(cs, "RCH"@) {
        Some("US Air Force (AMC)"@)
    } else if has_prefix_upper(cs, "RRR"@) {
        Some("Royal Air Force"@)
    } else if has_prefix_upper(cs, "RRF"@) {
        Some("Royal Air Force"@)
    } else if has_prefix_upper(cs, "NATO"@) {
        Some("NATO E-3A Component"@)
    } else if has_prefix_upper(cs, "CNV"@) {
        Some("US Navy"@)
    } else if has_prefix_upper(cs, "GAF"@) {
        Some("German Air Force"@)
    } else if has_prefix_upper(cs, "IAM"@) {
        Some("Italian Air Force"@)
    } else if has_prefix_upper(cs, "FAF"@) {
        Some("French Air Force"@)
    } else if has_prefix_upper(cs, "SUI"@) {
        Some("Swiss Air Force"@)
    } else if has_prefix_upper(cs, "TUAF"@) {
        Some("Turkish Air Force"@)
    } else if has_prefix_upper(cs, "DLH"@) {
        Some("Lufthansa"@)
    } else if has_prefix_upper(cs, "RYR"@) {
        Some("Ryanair"@)
    } else if has_prefix_upper(cs, "EZY"@) {
        Some("EasyJet"@)
    } else if has_prefix_upper(cs, "BAW"@) {
        Some("British Airways"@)
    } else if has_prefix_upper(cs, "AFR"@) {
        Some("Air France"@)
    } else if has_prefix_upper(cs, "KLM"@) {
        Some("KLM Royal Dutch Airlines"@)
    } else if has_prefix_upper(cs, "SAS"@) {
        Some("Scandinavian Airlines"@)
    } else if has_prefix_upper(cs, "SVA"@) {
        Some("Saudia"@)
    } else if has_prefix_upper(cs, "UAE"@) {
        Some("Emirates"@)
    } else if has_prefix_upper(cs, "QTR"@) {
        Some("Qatar Airways"@)
    } else {
        None
    }
}

/// Guesses the operator from the callsign alone, without regard to case,
/// first matching prefix winning.
pub fn resolve_operator_by_callsign(callsign: &str) -> (r: Option<String>)
    ensures
        match (r, callsign_operator(callsign@)) {
            (Some(s), Some(v)) => s@ == v,
            (None, None) => true,
            _ => false,
        },
{
    if has_ci_prefix(callsign, "RCH") {
        Some(String::from_str("US Air Force (AMC)"))
    } else if has_ci_prefix(callsign, "RRR") {
        Some(String::from_str("Royal Air Force"))
    } else if has_ci_prefix(callsign, "RRF") {
        Some(String::from_str("Royal Air Force"))
    } else if has_ci_prefix(callsign, "NATO") {
        Some(String::from_str("NATO E-3A Component"))
    } else if has_ci_prefix(callsign, "CNV") {
        Some(String::from_str("US Navy"))
    } else if has_ci_prefix(callsign, "GAF") {
        Some(String::from_str("German Air Force"))
    } else if has_ci_prefix(callsign, "IAM") {
        Some(String::from_str("Italian Air Force"))
    } else if has_ci_prefix(callsign, "FAF") {
        Some(String::from_str("French Air Force"))
    } else if has_ci_prefix(callsign, "SUI") {
        Some(String::from_str("Swiss Air Force"))
    } else if has_ci_prefix(callsign, "TUAF") {
        Some(String::from_str("Turkish Air Force"))
    } else if has_ci_prefix(callsign, "DLH") {
        Some(String::from_str("Lufthansa"))
    } else if has_ci_prefix(callsign, "RYR") {
        Some(String::from_str("Ryanair"))
    } else if has_ci_prefix(callsign, "EZY") {
        Some(String::from_str("EasyJet"))
    } else if has_ci_prefix(callsign, "BAW") {
        Some(String::from_str("British Airways"))
    } else if has_ci_prefix(callsign, "AFR") {
        Some(String::from_str("Air France"))
    } else if has_ci_prefix(callsign, "KLM") {
        Some(String::from_str("KLM Royal Dutch Airlines"))
    } else if has_ci_prefix(callsign, "SAS") {
        Some(String::from_str("Scandinavian Airlines"))
    } else if has_ci_prefix(callsign, "SVA") {
        Some(String::from_str("Saudia"))
    } else if has_ci_prefix(callsign, "UAE") {
        Some(String::from_str("Emirates"))
    } else if has_ci_prefix(callsign, "QTR") {
        Some(String::from_str("Qatar Airways"))
    } else {
        None
    }
}

/// What the table alone contributes: the stored operator whenever the
/// row exists and the operator it holds is non-blank, whatever its
/// wording; nothing otherwise.
pub open spec fn table_operator(
    db: Map<Seq<char>, AircraftInfo>,
    icao: Seq<char>,
) -> Option<Seq<char>> {
    if db.contains_key(icao) {
        match db[icao].operator {
            Some(op) => if op@.len() > 0 {
                Some(op@)
            } else {
                None
            },
            None => None,
        }
    } else {
        None
    }
}

/// The resolved operator label, in two tiers: the table's non-blank
/// entry if there is one; otherwise the callsign heuristic; otherwise
/// the literal unknown label.
pub open spec fn spec_resolve_operator(
    db: Map<Seq<char>, AircraftInfo>,
    icao: Seq<char>,
    cs: Seq<char>,
) -> Seq<char> {
    match table_operator(db, icao) {
        Some(op) => op,
        None => match callsign_operator(cs) {
            Some(g) => g,
            None => "Unknown"@,
        },
    }
}

/// Resolves the display label for an aircraft: any non-blank table entry
/// stands as it is; only a missing or blank one falls through to the
/// callsign heuristic, and failing that to the unknown label.
pub fn resolve_operator(db: &StringHashMap<AircraftInfo>, icao: &str, callsign: &str) -> (r:
    String)
    ensures
        r@ == spec_resolve_operator(db@, icao@, callsign@),
{
    match db.get(icao) {
        Some(info) => match &info.operator {
            Some(op) => {
                if op.as_str().unicode_len() > 0 {
                    return op.clone();
                }
            },
            None => {},
        },
        None => {},
    }
    match resolve_operator_by_callsign(callsign) {
        Some(g) => g,
        None => String::from_str("Unknown"),
    }
}

/// Law: an aircraft present in the reference table with a non-blank
/// operator always resolves to that operator, whatever its callsign
/// says.
pub proof fn lemma_table_operator_wins(
    db: Map<Seq<char>, AircraftInfo>,
    icao: Seq<char>,
    cs: Seq<char>,
    op: String,
)
    requires
        db.contains_key(icao),
        db[icao].operator == Some(op),
        op@.len() > 0,
    ensures
        spec_resolve_operator(db, icao, cs) == op@,
{
}

} // verus!
