use skyscan::geo::distance;
use skyscan::geo::get_static_coords;
use skyscan::geo::isqrt64;
use skyscan::geo::parse_coord;
use skyscan::record::Position;
use skyscan::text::i64_to_string;
use skyscan::text::micro_to_string;
use skyscan::text::str_eq;
use skyscan::text::contains_str;
use skyscan::text::has_ci_prefix;
use skyscan::text::u64_to_string;
use skyscan::text::u64_to_padded;

#[test]
fn decimal_rendering_exact() {
    assert_eq!(u64_to_string(0), "0");
    assert_eq!(u64_to_string(7), "7");
    assert_eq!(u64_to_string(12345), "12345");
    assert_eq!(u64_to_string(1000000), "1000000");
    assert_eq!(i64_to_string(-42), "-42");
    assert_eq!(i64_to_string(0), "0");
    assert_eq!(i64_to_string(i64::MIN), "-9223372036854775808");
    assert_eq!(u64_to_string(u64::MAX), "18446744073709551615");
}

#[test]
fn padded_rendering_exact() {
    assert_eq!(u64_to_padded(7, 6), "000007");
    assert_eq!(u64_to_padded(507400, 6), "507400");
    assert_eq!(u64_to_padded(0, 0), "");
}

#[test]
fn coordinate_rendering_exact() {
    assert_eq!(micro_to_string(51507400), "51.507400");
    assert_eq!(micro_to_string(-127800), "-0.127800");
    assert_eq!(micro_to_string(0), "0.000000");
    assert_eq!(micro_to_string(13405000), "13.405000");
}

#[test]
fn string_comparisons() {
    assert!(str_eq("mlat", "mlat"));
    assert!(!str_eq("mlat", "adsb"));
    assert!(!str_eq("mlat", "mlat "));
    assert!(contains_str("K35R", "35"));
    assert!(contains_str("K35R", "K35R"));
    assert!(!contains_str("K35R", "F16"));
    assert!(contains_str("anything", ""));
    assert!(has_ci_prefix("rch123", "RCH"));
    assert!(has_ci_prefix("RCH123", "RCH"));
    assert!(!has_ci_prefix("rc", "RCH"));
}

#[test]
fn isqrt_exact() {
    assert_eq!(isqrt64(0), 0);
    assert_eq!(isqrt64(1), 1);
    assert_eq!(isqrt64(3), 1);
    assert_eq!(isqrt64(4), 2);
    assert_eq!(isqrt64(999_999_999_999), 999_999);
    assert_eq!(isqrt64(1_000_000_000_000), 1_000_000);
    assert_eq!(isqrt64(u64::MAX), 4_294_967_295);
}

#[test]
fn distance_zero_for_same_point() {
    let p = Position { lat: 51507400, lon: -127800 };
    assert_eq!(distance(p, p), 0);
    let q = Position { lat: -33868800, lon: 151209300 };
    assert_eq!(distance(q, q), 0);
}

#[test]
fn distance_symmetric() {
    let a = Position { lat: 51507400, lon: -127800 };
    let b = Position { lat: 52520000, lon: 13405000 };
    assert_eq!(distance(a, b), distance(b, a));
    let c = Position { lat: -12043300, lon: -77028300 };
    assert_eq!(distance(a, c), distance(c, a));
}

#[test]
fn distance_london_berlin_plausible() {
    // The great-circle distance is about 930 km; the fixed-point
    // approximation must land within about one percent of it.
    let london = Position { lat: 51507400, lon: -127800 };
    let berlin = Position { lat: 52520000, lon: 13405000 };
    let d = distance(london, berlin);
    assert!(d > 900_000, "distance {d} too small");
    assert!(d < 960_000, "distance {d} too large");
}

#[test]
fn static_coords_hits_and_misses() {
    assert_eq!(
        get_static_coords("london"),
        Some(Position { lat: 51_507_400, lon: -127_800 })
    );
    assert_eq!(
        get_static_coords("LoNdOn"),
        Some(Position { lat: 51_507_400, lon: -127_800 })
    );
    assert_eq!(
        get_static_coords("area 51"),
        Some(Position { lat: 37_234_300, lon: -115_806_700 })
    );
    assert_eq!(
        get_static_coords("ramstein air base"),
        Some(Position { lat: 49_436_500, lon: 7_600_300 })
    );
    assert_eq!(get_static_coords("nowhere"), None);
    assert_eq!(get_static_coords(""), None);
}

#[test]
fn parse_coord_exact() {
    assert_eq!(parse_coord("51.5074"), Some(51_507_400));
    assert_eq!(parse_coord("-0.1278"), Some(-127_800));
    assert_eq!(parse_coord("13.4050"), Some(13_405_000));
    assert_eq!(parse_coord("5"), Some(5_000_000));
    assert_eq!(parse_coord("-180"), Some(-180_000_000));
    assert_eq!(parse_coord("52.40931234567"), Some(52_409_312));
    assert_eq!(parse_coord("0.000001"), Some(1));
}

#[test]
fn parse_coord_rejects_malformed() {
    assert_eq!(parse_coord(""), None);
    assert_eq!(parse_coord("-"), None);
    assert_eq!(parse_coord("."), None);
    assert_eq!(parse_coord("1."), None);
    assert_eq!(parse_coord(".5"), None);
    assert_eq!(parse_coord("1e5"), None);
    assert_eq!(parse_coord("12.34.56"), None);
    assert_eq!(parse_coord("181"), None);
    assert_eq!(parse_coord("180.000001"), None);
    assert_eq!(parse_coord("99999999999999999999"), None);
}
