use skyscan::classify::ConfigError;
use skyscan::classify::Reason;
use skyscan::classify::ScanConfig;
use skyscan::record::Aircraft;
use skyscan::record::Position;
use skyscan::record::RawAircraft;
use skyscan::record::RawField;
use skyscan::record::parse_altitude;

fn default_config() -> ScanConfig {
    ScanConfig {
        speed_limit: 300,
        aircraft_type: None,
        center: None,
        radius_nm: 250,
        spoof_delta: 1000,
        min_alt: None,
        max_alt: None,
    }
}

fn plain_aircraft() -> Aircraft {
    Aircraft {
        icao: "4b1814".to_string(),
        callsign: None,
        type_code: None,
        registration: None,
        ground_speed: None,
        alt_baro: None,
        alt_geom: None,
        source_type: "adsb".to_string(),
        position: None,
        is_military: None,
    }
}

#[test]
fn validate_accepts_defaults() {
    assert_eq!(default_config().validate(), Ok(()));
}

#[test]
fn validate_rejects_zero_radius() {
    let mut cfg = default_config();
    cfg.radius_nm = 0;
    assert_eq!(cfg.validate(), Err(ConfigError::NonPositiveRadius));
}

#[test]
fn validate_rejects_negative_spoof_delta() {
    let mut cfg = default_config();
    cfg.spoof_delta = -1;
    assert_eq!(cfg.validate(), Err(ConfigError::NegativeSpoofDelta));
}

#[test]
fn validate_rejects_inverted_altitude_bounds() {
    let mut cfg = default_config();
    cfg.min_alt = Some(5000);
    cfg.max_alt = Some(1000);
    assert_eq!(cfg.validate(), Err(ConfigError::AltitudeBoundsInverted));
}

#[test]
fn validate_rejects_center_off_globe() {
    let mut cfg = default_config();
    cfg.center = Some(Position { lat: 91_000_000, lon: 0 });
    assert_eq!(cfg.validate(), Err(ConfigError::CenterOffGlobe));
}

#[test]
fn spoof_boundary_equality_does_not_fire() {
    let cfg = default_config();
    let mut a = plain_aircraft();
    a.alt_baro = Some(11000);
    a.alt_geom = Some(10000);
    // The difference equals the threshold exactly: strictly-greater means no trigger.
    assert_eq!(a.check_interest(&cfg), None);
}

#[test]
fn spoof_above_boundary_fires_with_delta() {
    let cfg = default_config();
    let mut a = plain_aircraft();
    a.alt_baro = Some(11001);
    a.alt_geom = Some(10000);
    assert_eq!(a.check_interest(&cfg), Some("NAV ANOMALY (1001 ft)".to_string()));
}

#[test]
fn spoof_needs_both_altitudes() {
    let cfg = default_config();
    let mut a = plain_aircraft();
    a.alt_baro = Some(50000);
    a.alt_geom = None;
    // Insufficient data: no anomaly, and nothing else fires either.
    assert_eq!(a.check_interest(&cfg), None);
}

#[test]
fn absent_speed_never_triggers_speed() {
    let cfg = default_config();
    let mut a = plain_aircraft();
    a.ground_speed = None;
    a.alt_baro = Some(1000);
    assert_eq!(a.check_interest(&cfg), None);
    let mut zero_limit = default_config();
    zero_limit.speed_limit = 0;
    assert_eq!(a.check_interest(&zero_limit), None);
}

#[test]
fn speed_threshold_needs_low_altitude() {
    let cfg = default_config();
    let mut a = plain_aircraft();
    a.ground_speed = Some(400);
    a.alt_baro = Some(30000);
    // 400 kt above the 25000 ft band and below 550 kt: no trigger.
    assert_eq!(a.check_interest(&cfg), None);
    a.alt_baro = Some(20000);
    assert_eq!(
        a.check_interest(&cfg),
        Some("Speed (400 kts @ 20000 ft)".to_string())
    );
}

#[test]
fn unconditional_speed_ceiling_ignores_altitude() {
    let cfg = default_config();
    let mut a = plain_aircraft();
    a.ground_speed = Some(551);
    a.alt_baro = Some(40000);
    assert_eq!(
        a.check_interest(&cfg),
        Some("Speed (551 kts @ 40000 ft)".to_string())
    );
}

#[test]
fn hard_max_altitude_filter_excludes_entirely() {
    let mut cfg = default_config();
    cfg.max_alt = Some(20000);
    let mut a = plain_aircraft();
    a.ground_speed = Some(600);
    a.alt_baro = Some(30000);
    a.is_military = Some(true);
    // Plenty of triggers would fire, but the hard filter wins: no result at all.
    assert_eq!(a.check_interest(&cfg), None);
    assert!(a.classify(&cfg).is_none());
}

#[test]
fn hard_min_altitude_filter_excludes_entirely() {
    let mut cfg = default_config();
    cfg.min_alt = Some(5000);
    let mut a = plain_aircraft();
    a.ground_speed = Some(600);
    a.alt_baro = Some(1000);
    assert_eq!(a.check_interest(&cfg), None);
}

#[test]
fn mlat_ghost_fires_unless_boring() {
    let cfg = default_config();
    let mut a = plain_aircraft();
    a.source_type = "mlat".to_string();
    a.type_code = Some("C172".to_string());
    assert_eq!(a.check_interest(&cfg), None);
    a.type_code = Some("PC12".to_string());
    assert_eq!(a.check_interest(&cfg), Some("MLAT as source".to_string()));
    a.type_code = None;
    assert_eq!(a.check_interest(&cfg), Some("MLAT as source".to_string()));
}

#[test]
fn high_value_type_fires_with_name() {
    let cfg = default_config();
    let mut a = plain_aircraft();
    a.type_code = Some("K35R".to_string());
    assert_eq!(a.check_interest(&cfg), Some("HVT: K35R".to_string()));
}

#[test]
fn target_type_substring_match() {
    let mut cfg = default_config();
    cfg.aircraft_type = Some("35".to_string());
    let mut a = plain_aircraft();
    a.type_code = Some("F35".to_string());
    assert_eq!(
        a.check_interest(&cfg),
        Some("HVT: F35, Target Type Match".to_string())
    );
}

#[test]
fn military_flag_fires() {
    let cfg = default_config();
    let mut a = plain_aircraft();
    a.is_military = Some(true);
    assert_eq!(a.check_interest(&cfg), Some("MIL FLAG".to_string()));
    a.is_military = Some(false);
    assert_eq!(a.check_interest(&cfg), None);
}

#[test]
fn sector_trigger_inside_radius() {
    let mut cfg = default_config();
    cfg.center = Some(Position { lat: 51_507_400, lon: -127_800 });
    cfg.radius_nm = 250;
    let mut a = plain_aircraft();
    a.position = Some(Position { lat: 51_507_400, lon: -127_800 });
    let reasons = a.classify(&cfg).expect("inside the sector must flag");
    assert_eq!(reasons.len(), 1);
    assert!(matches!(reasons[0], Reason::Sector { distance_m: 0 }));
    assert_eq!(a.check_interest(&cfg), Some("Sector (0 km)".to_string()));
}

#[test]
fn sector_trigger_outside_radius() {
    let mut cfg = default_config();
    // Berlin centre, 250 NM: London is about 500 NM away.
    cfg.center = Some(Position { lat: 52_520_000, lon: 13_405_000 });
    let mut a = plain_aircraft();
    a.position = Some(Position { lat: 51_507_400, lon: -127_800 });
    assert_eq!(a.check_interest(&cfg), None);
}

#[test]
fn sector_needs_position() {
    let mut cfg = default_config();
    cfg.center = Some(Position { lat: 52_520_000, lon: 13_405_000 });
    let a = plain_aircraft();
    // No position: excluded from the geofence trigger only, not from evaluation.
    assert_eq!(a.check_interest(&cfg), None);
}

#[test]
fn reasons_come_in_evaluation_order() {
    let cfg = default_config();
    let mut a = plain_aircraft();
    a.alt_baro = Some(12000);
    a.alt_geom = Some(10000);
    a.ground_speed = Some(600);
    a.source_type = "mlat".to_string();
    a.type_code = Some("F16".to_string());
    a.is_military = Some(true);
    assert_eq!(
        a.check_interest(&cfg),
        Some(
            "NAV ANOMALY (2000 ft), Speed (600 kts @ 12000 ft), MLAT as source, HVT: F16, MIL FLAG"
                .to_string()
        )
    );
}

#[test]
fn parse_altitude_sentinel_and_noise() {
    assert_eq!(parse_altitude(&RawField::Number(5000)), Some(5000));
    assert_eq!(parse_altitude(&RawField::Number(-100)), Some(-100));
    assert_eq!(parse_altitude(&RawField::Token("ground".to_string())), Some(0));
    assert_eq!(parse_altitude(&RawField::Token("n/a".to_string())), None);
    assert_eq!(parse_altitude(&RawField::Token("".to_string())), None);
    assert_eq!(parse_altitude(&RawField::Missing), None);
}

fn raw_entry() -> RawAircraft {
    RawAircraft {
        icao: Some("4b1814".to_string()),
        callsign: None,
        type_code: None,
        registration: None,
        ground_speed: None,
        alt_baro: RawField::Missing,
        alt_geom: RawField::Missing,
        source_type: Some("adsb".to_string()),
        lat: None,
        lon: None,
        is_military: None,
    }
}

#[test]
fn record_requires_identifier_and_source() {
    let good = raw_entry();
    assert!(Aircraft::from_fields(&good).is_some());
    let mut no_id = raw_entry();
    no_id.icao = None;
    assert!(Aircraft::from_fields(&no_id).is_none());
    let mut blank_id = raw_entry();
    blank_id.icao = Some("".to_string());
    assert!(Aircraft::from_fields(&blank_id).is_none());
    let mut no_source = raw_entry();
    no_source.source_type = None;
    assert!(Aircraft::from_fields(&no_source).is_none());
}

#[test]
fn record_position_is_both_or_neither() {
    let mut partial = raw_entry();
    partial.lat = Some(51_507_400);
    assert_eq!(Aircraft::from_fields(&partial).unwrap().position, None);
    let mut full = raw_entry();
    full.lat = Some(51_507_400);
    full.lon = Some(-127_800);
    assert_eq!(
        Aircraft::from_fields(&full).unwrap().position,
        Some(Position { lat: 51_507_400, lon: -127_800 })
    );
    let mut off_globe = raw_entry();
    off_globe.lat = Some(95_000_000);
    off_globe.lon = Some(0);
    assert_eq!(Aircraft::from_fields(&off_globe).unwrap().position, None);
}

#[test]
fn record_ground_sentinel_not_conflated_with_absent() {
    let mut grounded = raw_entry();
    grounded.alt_baro = RawField::Token("ground".to_string());
    let a = Aircraft::from_fields(&grounded).unwrap();
    assert_eq!(a.alt_baro, Some(0));
    let mut silent = raw_entry();
    silent.alt_baro = RawField::Token("unknown".to_string());
    let b = Aircraft::from_fields(&silent).unwrap();
    assert_eq!(b.alt_baro, None);
}
