//! The geospatial export document: a fixed header with one icon style
//! per severity tier, one placemark per flagged aircraft that has a
//! position, and the companion pointer document that tells the mapping
//! client to poll the live file on a short interval.

use vstd::prelude::*;
use crate::display::DefenseDisplay;
use crate::display::RowView;
use crate::display::Severity;
use crate::record::Position;
use crate::text::coord_str;
use crate::text::int_str;
use crate::text::i64_to_string;
use crate::text::micro_to_string;

verus! {

/// The document header.
pub open spec fn kml_header() -> Seq<char> {
    r#"<?xml version="1.0" encoding="UTF-8"?>
    <kml xmlns="http://www.opengis.net/kml/2.2">
    <Document>
        <name>Flight Radar Intelligence</name>
        <Style id="style_mil">
            <IconStyle>
                <color>ff0000ff</color> <scale>1.2</scale>
                <Icon><href>http://maps.google.com/mapfiles/kml/shapes/airports.png</href></Icon>
            </IconStyle>
        </Style>
        <Style id="style_warn">
            <IconStyle>
                <color>ff00ffff</color> <scale>1.0</scale>
                <Icon><href>http://maps.google.com/mapfiles/kml/shapes/caution.png</href></Icon>
            </IconStyle>
        </Style>
        <Style id="style_norm">
            <IconStyle>
                <color>ffffffff</color> <scale>0.8</scale>
                <Icon><href>http://maps.google.com/mapfiles/kml/shapes/airports.png</href></Icon>
            </IconStyle>
        </Style>
    "#@
}

/// The fixed document header, one icon style per severity tier.
pub fn get_header() -> (r: &'static str)
    ensures
        r@ == kml_header(),
{
    r#"<?xml version="1.0" encoding="UTF-8"?>
    <kml xmlns="http://www.opengis.net/kml/2.2">
    <Document>
        <name>Flight Radar Intelligence</name>
        <Style id="style_mil">
            <IconStyle>
                <color>ff0000ff</color> <scale>1.2</scale>
                <Icon><href>http://maps.google.com/mapfiles/kml/shapes/airports.png</href></Icon>
            </IconStyle>
        </Style>
        <Style id="style_warn">
            <IconStyle>
                <color>ff00ffff</color> <scale>1.0</scale>
                <Icon><href>http://maps.google.com/mapfiles/kml/shapes/caution.png</href></Icon>
            </IconStyle>
        </Style>
        <Style id="style_norm">
            <IconStyle>
                <color>ffffffff</color> <scale>0.8</scale>
                <Icon><href>http://maps.google.com/mapfiles/kml/shapes/airports.png</href></Icon>
            </IconStyle>
        </Style>
    "#
}

/// The document footer.
pub open spec fn kml_footer() -> Seq<char> {
    "\n</Document>\n</kml>"@
}

/// The style reference each severity tier maps to.
pub open spec fn style_of(s: Severity) -> Seq<char> {
    match s {
        Severity::Critical => "#style_mil"@,
        Severity::Warning => "#style_warn"@,
        Severity::Informational => "#style_norm"@,
    }
}

fn style_str(s: &Severity) -> (r: &'static str)
    ensures
        r@ == style_of(*s),
{
    match s {
        Severity::Critical => "#style_mil",
        Severity::Warning => "#style_warn",
        Severity::Informational => "#style_norm",
    }
}

/// The export's vertical unit is metres; altitudes arrive in feet.
/// Conversion truncates toward zero.
pub open spec fn alt_metres(alt_ft: i64) -> int {
    if alt_ft >= 0 {
        (alt_ft * 3048) / 10000
    } else {
        -(((-alt_ft) * 3048) / 10000)
    }
}

fn alt_metres_e(alt_ft: i64) -> (m: i64)
    ensures
        m as int == alt_metres(alt_ft),
{
    if alt_ft >= 0 {
        (((alt_ft as i128) * 3048) / 10000) as i64
    } else {
        let mag: i128 = ((-(alt_ft as i128)) * 3048) / 10000;
        (-mag) as i64
    }
}

/// The human-readable description block of one placemark.
pub open spec fn description_spec(r: RowView) -> Seq<char> {
    "<b>Operator:</b> "@ + r.operator + "<br/><b>Type:</b> "@ + r.type_code
        + "<br/><b>Callsign:</b> "@ + r.callsign + "<br/><b>Speed:</b> "@ + int_str(
        r.speed as int,
    ) + " kts<br/><b>Alt:</b> "@ + int_str(r.alt as int) + " ft<br/><b>Reason:</b> "@ + r.reason
}

fn render_description(row: &DefenseDisplay) -> (s: String)
    ensures
        s@ == description_spec(row@),
{
    String::from_str("<b>Operator:</b> ").concat(row.operator.as_str()).concat(
        "<br/><b>Type:</b> ",
    ).concat(row.type_code.as_str()).concat("<br/><b>Callsign:</b> ").concat(
        row.callsign.as_str(),
    ).concat("<br/><b>Speed:</b> ").concat(i64_to_string(row.speed).as_str()).concat(
        " kts<br/><b>Alt:</b> ",
    ).concat(i64_to_string(row.alt).as_str()).concat(" ft<br/><b>Reason:</b> ").concat(
        row.reason.as_str(),
    )
}

/// One placemark: name, description, style, and the position with the
/// altitude unit-converted for the export format.
pub open spec fn placemark_spec(r: RowView, p: Position) -> Seq<char> {
    "\n<Placemark>\n    <name>"@ + r.icao + "</name>\n    <description><![CDATA["@
        + description_spec(r) + "]]></description>\n    <styleUrl>"@ + style_of(r.severity)
        + "</styleUrl>\n    <Point>\n        <coordinates>"@ + coord_str(p.lon as int) + ","@
        + coord_str(p.lat as int) + ","@ + int_str(alt_metres(r.alt)) + "</coordinates>\n    </Point>\n</Placemark>"@
}

fn render_placemark(row: &DefenseDisplay, p: Position) -> (s: String)
    ensures
        s@ == placemark_spec(row@, p),
{
    String::from_str("\n<Placemark>\n    <name>").concat(row.icao.as_str()).concat(
        "</name>\n    <description><![CDATA[",
    ).concat(render_description(row).as_str()).concat("]]></description>\n    <styleUrl>").concat(
        style_str(&row.severity),
    ).concat("</styleUrl>\n    <Point>\n        <coordinates>").concat(
        micro_to_string(p.lon).as_str(),
    ).concat(",").concat(micro_to_string(p.lat).as_str()).concat(",").concat(
        i64_to_string(alt_metres_e(row.alt)).as_str(),
    ).concat("</coordinates>\n    </Point>\n</Placemark>")
}

/// What one row contributes to the document: its placemark, or nothing
/// when it has no position to map.
pub open spec fn placemark_row(r: DefenseDisplay) -> Seq<char> {
    match r@.position {
        Some(p) => placemark_spec(r@, p),
        None => Seq::empty(),
    }
}

/// The placemarks of all rows, in snapshot order.
pub open spec fn kml_body(rows: Seq<DefenseDisplay>) -> Seq<char>
    decreases rows.len(),
{
    if rows.len() == 0 {
        Seq::empty()
    } else {
        kml_body(rows.drop_last()) + placemark_row(rows.last())
    }
}

/// The whole export document for a snapshot.
pub open spec fn kml_doc(rows: Seq<DefenseDisplay>) -> Seq<char> {
    kml_header() + kml_body(rows) + kml_footer()
}

/// Renders the export document for the given snapshot: the header, one
/// placemark per row that carries a position, and the footer. Writing
/// the result anywhere is the caller's concern.
pub fn render_kml(rows: &Vec<DefenseDisplay>) -> (s: String)
    ensures
        s@ == kml_doc(rows@),
{
    let mut s = String::from_str(get_header());
    let mut i: usize = 0;
    while i < rows.len()
        invariant
            i <= rows@.len(),
            s@ == kml_header() + kml_body(rows@.take(i as int)),
        decreases rows@.len() - i,
    {
        match rows[i].position {
            Some(p) => {
                let pm = render_placemark(&rows[i], p);
                s.append(pm.as_str());
            },
            None => {},
        }
        proof {
            assert(rows@.take(i + 1).drop_last() =~= rows@.take(i as int));
            assert(rows@.take(i + 1).last() == rows@[i as int]);
        }
        i = i + 1;
    }
    proof {
        assert(rows@.take(rows@.len() as int) =~= rows@);
    }
    s.append("\n</Document>\n</kml>");
    s
}

/// The pointer document, regenerated once at startup, that directs the
/// mapping client to reload the live export file every few seconds.
pub open spec fn network_link_spec() -> Seq<char> {
    r#"<?xml version="1.0" encoding="UTF-8"?>
    <kml xmlns="http://www.opengis.net/kml/2.2">
        <NetworkLink>
            <name>Flight Radar Live Feed</name>
            <open>1</open>
            <Link>
                <href>intelligence.kml</href>
                <refreshMode>onInterval</refreshMode>
                <refreshInterval>5</refreshInterval> </Link>
        </NetworkLink>
    </kml>
    "#@
}

/// The content of the pointer document. Writing it to its file is the
/// caller's concern.
pub fn network_link_content() -> (r: &'static str)
    ensures
        r@ == network_link_spec(),
{
    r#"<?xml version="1.0" encoding="UTF-8"?>
    <kml xmlns="http://www.opengis.net/kml/2.2">
        <NetworkLink>
            <name>Flight Radar Live Feed</name>
            <open>1</open>
            <Link>
                <href>intelligence.kml</href>
                <refreshMode>onInterval</refreshMode>
                <refreshInterval>5</refreshInterval> </Link>
        </NetworkLink>
    </kml>
    "#
}

} // verus!
