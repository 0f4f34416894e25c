use skyscan::classify::Reason;
use skyscan::classify::ScanConfig;
use skyscan::db::AircraftInfo;
use skyscan::db::build_database;
use skyscan::db::resolve_operator;
use skyscan::db::resolve_operator_by_callsign;
use skyscan::display::DefenseDisplay;
use skyscan::display::Severity;
use skyscan::display::severity_of;
use skyscan::kml::get_header;
use skyscan::kml::network_link_content;
use skyscan::kml::render_kml;
use skyscan::record::Aircraft;
use skyscan::record::Position;
use skyscan::record::RawAircraft;
use skyscan::record::RawField;
use skyscan::snapshot::FetchOutcome;
use skyscan::snapshot::SnapshotStore;
use skyscan::snapshot::build_snapshot;
use skyscan::snapshot::scan_cycle;

fn default_config() -> ScanConfig {
    ScanConfig {
        speed_limit: 300,
        aircraft_type: None,
        center: None,
        radius_nm: 250,
        spoof_delta: 1000,
        min_alt: None,
        max_alt: None,
    }
}

fn feed_aircraft() -> RawAircraft {
    RawAircraft {
        icao: Some("4b1814".to_string()),
        callsign: None,
        type_code: Some("C172".to_string()),
        registration: None,
        ground_speed: Some(600),
        alt_baro: RawField::Number(10000),
        alt_geom: RawField::Missing,
        source_type: Some("mlat".to_string()),
        lat: None,
        lon: None,
        is_military: None,
    }
}

#[test]
fn single_fast_boring_aircraft_flags_speed_only() {
    let cfg = default_config();
    let db = build_database(&Vec::new());
    let rows = build_snapshot(&vec![feed_aircraft()], &cfg, &db);
    assert_eq!(rows.len(), 1);
    let row = &rows[0];
    assert_eq!(row.icao, "4b1814");
    assert!(row.reason.contains("Speed"));
    assert!(!row.reason.contains("MLAT"));
    assert_eq!(row.reason, "Speed (600 kts @ 10000 ft)");
}

#[test]
fn same_aircraft_as_f35_adds_high_value_reason() {
    let cfg = default_config();
    let db = build_database(&Vec::new());
    let mut raw = feed_aircraft();
    raw.type_code = Some("F35".to_string());
    let rows = build_snapshot(&vec![raw], &cfg, &db);
    assert_eq!(rows.len(), 1);
    let row = &rows[0];
    assert!(row.reason.contains("Speed"));
    assert!(row.reason.contains("HVT: F35"));
    assert_eq!(row.severity, Severity::Critical);
}

#[test]
fn empty_feed_gives_empty_snapshot() {
    let cfg = default_config();
    let db = build_database(&Vec::new());
    let store = SnapshotStore::new();
    let published = scan_cycle(&store, FetchOutcome::Decoded(Vec::new()), &cfg, &db);
    assert_eq!(published.map(|rows| rows.len()), Some(0));
    assert_eq!(store.read().len(), 0);
}

#[test]
fn failed_fetch_preserves_previous_snapshot() {
    let cfg = default_config();
    let db = build_database(&Vec::new());
    let store = SnapshotStore::new();
    let published = scan_cycle(
        &store,
        FetchOutcome::Decoded(vec![feed_aircraft()]),
        &cfg,
        &db,
    );
    assert_eq!(published.map(|rows| rows.len()), Some(1));
    assert_eq!(store.read().len(), 1);
    let after_failure = scan_cycle(&store, FetchOutcome::Failed, &cfg, &db);
    assert!(after_failure.is_none());
    let snapshot = store.read();
    assert_eq!(snapshot.len(), 1);
    assert_eq!(snapshot[0].icao, "4b1814");
}

#[test]
fn malformed_entries_are_dropped_silently() {
    let cfg = default_config();
    let db = build_database(&Vec::new());
    let mut broken = feed_aircraft();
    broken.icao = None;
    let rows = build_snapshot(&vec![broken, feed_aircraft()], &cfg, &db);
    assert_eq!(rows.len(), 1);
}

#[test]
fn table_operator_wins_over_callsign() {
    let rows = vec![AircraftInfo {
        icao: "4b1814".to_string(),
        operator: Some("Swiss Air Force".to_string()),
    }];
    let db = build_database(&rows);
    assert_eq!(resolve_operator(&db, "4b1814", "RCH123"), "Swiss Air Force");
}

#[test]
fn absent_table_entry_falls_back_to_callsign() {
    let db = build_database(&Vec::new());
    assert_eq!(resolve_operator(&db, "4b1814", "RCH123"), "US Air Force (AMC)");
    assert_eq!(resolve_operator(&db, "4b1814", "ZZZ999"), "Unknown");
}

#[test]
fn blank_table_operator_falls_back_to_callsign() {
    let rows = vec![
        AircraftInfo { icao: "aaa111".to_string(), operator: Some("".to_string()) },
        AircraftInfo { icao: "bbb222".to_string(), operator: None },
    ];
    let db = build_database(&rows);
    assert_eq!(resolve_operator(&db, "aaa111", "DLH44"), "Lufthansa");
    assert_eq!(resolve_operator(&db, "bbb222", "baw12"), "British Airways");
}

#[test]
fn blank_table_operator_with_unmatched_callsign_is_unknown() {
    // Neither tier yields a label: the literal unknown label is the
    // final fallback, never the blank string.
    let rows = vec![AircraftInfo { icao: "aaa111".to_string(), operator: Some("".to_string()) }];
    let db = build_database(&rows);
    assert_eq!(resolve_operator(&db, "aaa111", "ZZZ999"), "Unknown");
}

#[test]
fn stored_unknown_operator_stands_over_callsign() {
    // "Unknown" stored in the table is a non-blank operator like any
    // other: it stands, and the callsign heuristic never runs.
    let rows = vec![AircraftInfo {
        icao: "aaa111".to_string(),
        operator: Some("Unknown".to_string()),
    }];
    let db = build_database(&rows);
    assert_eq!(resolve_operator(&db, "aaa111", "RCH123"), "Unknown");
}

#[test]
fn callsign_prefixes_resolve_in_declaration_order() {
    assert_eq!(
        resolve_operator_by_callsign("RCH123"),
        Some("US Air Force (AMC)".to_string())
    );
    assert_eq!(
        resolve_operator_by_callsign("rrf01"),
        Some("Royal Air Force".to_string())
    );
    assert_eq!(
        resolve_operator_by_callsign("NATO05"),
        Some("NATO E-3A Component".to_string())
    );
    assert_eq!(
        resolve_operator_by_callsign("QTR900"),
        Some("Qatar Airways".to_string())
    );
    assert_eq!(resolve_operator_by_callsign(""), None);
    assert_eq!(resolve_operator_by_callsign("XXX1"), None);
}

#[test]
fn severity_tiers_from_reasons() {
    assert_eq!(
        severity_of(&vec![Reason::Speed { speed_kt: 600, alt_ft: 10000 }]),
        Severity::Informational
    );
    assert_eq!(
        severity_of(&vec![Reason::NavAnomaly { delta_ft: 2000 }]),
        Severity::Warning
    );
    assert_eq!(severity_of(&vec![Reason::MilitaryFlag]), Severity::Critical);
    assert_eq!(
        severity_of(&vec![
            Reason::NavAnomaly { delta_ft: 2000 },
            Reason::HighValueType { type_code: "B52".to_string() },
        ]),
        Severity::Critical
    );
    assert_eq!(severity_of(&Vec::new()), Severity::Informational);
}

fn flagged_aircraft() -> Aircraft {
    Aircraft {
        icao: "ae1460".to_string(),
        callsign: Some("RCH123".to_string()),
        type_code: Some("C17".to_string()),
        registration: None,
        ground_speed: Some(450),
        alt_baro: Some(31000),
        alt_geom: Some(30000),
        source_type: "adsb".to_string(),
        position: Some(Position { lat: 52_520_000, lon: 13_405_000 }),
        is_military: None,
    }
}

#[test]
fn display_row_fields() {
    let db = build_database(&Vec::new());
    let a = flagged_aircraft();
    let reasons = vec![Reason::HighValueType { type_code: "C17".to_string() }];
    let row = DefenseDisplay::new(&a, &reasons, &db);
    assert_eq!(row.icao, "ae1460");
    assert_eq!(row.type_code, "C17");
    assert_eq!(row.operator, "US Air Force (AMC)");
    assert_eq!(row.callsign, "RCH123");
    assert_eq!(row.speed, 450);
    assert_eq!(row.alt, 31000);
    assert_eq!(row.delta, "1000");
    assert_eq!(row.source, "adsb");
    assert_eq!(row.reason, "HVT: C17");
    assert_eq!(row.severity, Severity::Critical);
}

#[test]
fn display_row_defaults_for_missing_fields() {
    let db = build_database(&Vec::new());
    let mut a = flagged_aircraft();
    a.callsign = None;
    a.type_code = None;
    a.ground_speed = None;
    a.alt_baro = None;
    a.alt_geom = None;
    let reasons = vec![Reason::MilitaryFlag];
    let row = DefenseDisplay::new(&a, &reasons, &db);
    assert_eq!(row.type_code, "???");
    assert_eq!(row.callsign, "");
    assert_eq!(row.operator, "Unknown");
    assert_eq!(row.speed, 0);
    assert_eq!(row.alt, 0);
    assert_eq!(row.delta, "-");
}

#[test]
fn kml_document_shape() {
    let db = build_database(&Vec::new());
    let a = flagged_aircraft();
    let reasons = vec![Reason::HighValueType { type_code: "C17".to_string() }];
    let row = DefenseDisplay::new(&a, &reasons, &db);
    let doc = render_kml(&vec![row]);
    assert!(doc.starts_with(get_header()));
    assert!(doc.ends_with("\n</Document>\n</kml>"));
    assert!(doc.contains("<Placemark>"));
    assert!(doc.contains("<name>ae1460</name>"));
    assert!(doc.contains("#style_mil"));
    // 31000 ft is 9448 m (truncated); longitude comes before latitude.
    assert!(doc.contains("<coordinates>13.405000,52.520000,9448</coordinates>"));
    assert!(doc.contains("<b>Operator:</b> US Air Force (AMC)"));
}

#[test]
fn kml_skips_rows_without_position() {
    let db = build_database(&Vec::new());
    let mut a = flagged_aircraft();
    a.position = None;
    let reasons = vec![Reason::MilitaryFlag];
    let row = DefenseDisplay::new(&a, &reasons, &db);
    let doc = render_kml(&vec![row]);
    assert!(!doc.contains("<Placemark>"));
}

#[test]
fn kml_styles_follow_severity() {
    let db = build_database(&Vec::new());
    let a = flagged_aircraft();
    let warn_row = DefenseDisplay::new(&a, &vec![Reason::NavAnomaly { delta_ft: 1500 }], &db);
    let info_row = DefenseDisplay::new(
        &a,
        &vec![Reason::Speed { speed_kt: 600, alt_ft: 10000 }],
        &db,
    );
    let doc = render_kml(&vec![warn_row, info_row]);
    assert!(doc.contains("#style_warn"));
    assert!(doc.contains("#style_norm"));
}

#[test]
fn kml_negative_altitude_truncates_toward_zero() {
    let db = build_database(&Vec::new());
    let mut a = flagged_aircraft();
    a.alt_baro = Some(-100);
    a.alt_geom = None;
    let row = DefenseDisplay::new(&a, &vec![Reason::MilitaryFlag], &db);
    let doc = render_kml(&vec![row]);
    // -100 ft is -30.48 m; conversion truncates toward zero.
    assert!(doc.contains("<coordinates>13.405000,52.520000,-30</coordinates>"));
}

#[test]
fn network_link_points_at_live_file() {
    let content = network_link_content();
    assert!(content.contains("<href>intelligence.kml</href>"));
    assert!(content.contains("<refreshInterval>5</refreshInterval>"));
}

#[test]
fn header_declares_all_three_styles() {
    let header = get_header();
    assert!(header.contains("style_mil"));
    assert!(header.contains("style_warn"));
    assert!(header.contains("style_norm"));
}
