//! Sidecar text for elevation rasters: world files, SRTM-style names,
//! WKT projection text, and the projection heuristics.

use ve_analyzer::dem_text::{
    detect_datum, extract_parameter_token, extract_utm_zone, mentions_transverse_mercator,
    parse_srtm_filename, world_file_fields, Datum, SrtmCoords,
};
use ve_analyzer::projection::{
    classify_projection, estimate_utm_zone_from_coords, zone_from_central_meridian,
    ProjectionKind,
};

#[test]
fn test_world_file_six_lines() {
    let text = b"1.0\r\n0.0\n0.0\n-1.0\n500000.0\n4600000.0\n";
    let fields = world_file_fields(text).unwrap();
    assert_eq!(fields.pixel_width, b"1.0".to_vec());
    assert_eq!(fields.rotation_y, b"0.0".to_vec());
    assert_eq!(fields.rotation_x, b"0.0".to_vec());
    assert_eq!(fields.pixel_height, b"-1.0".to_vec());
    assert_eq!(fields.origin_x, b"500000.0".to_vec());
    assert_eq!(fields.origin_y, b"4600000.0".to_vec());
}

#[test]
fn test_world_file_too_few_lines() {
    let text = b"1.0\n0.0\n0.0\n-1.0\n500000.0";
    assert!(world_file_fields(text).is_err());
    assert!(world_file_fields(b"").is_err());
}

#[test]
fn test_detect_datum() {
    assert_eq!(detect_datum(b"PROJCS[\"NAD83 / UTM zone 16N\"]"), Datum::Nad83);
    assert_eq!(detect_datum(b"GEOGCS[\"North_American_Datum_1983\"]"), Datum::Nad83);
    assert_eq!(detect_datum(b"GEOGCS[\"NAD27 something\"]"), Datum::Nad27);
    assert_eq!(detect_datum(b"GEOGCS[\"North_American_1927\"]"), Datum::Nad27);
    assert_eq!(detect_datum(b"GEOGCS[\"WGS 84\"]"), Datum::Wgs84);
}

#[test]
fn test_extract_utm_zone() {
    assert_eq!(extract_utm_zone(b"PROJCS[\"NAD83 / UTM zone 16N\"]"), Some(16));
    assert_eq!(extract_utm_zone(b"PROJCS[\"WGS 84 / utm ZONE 33\"]"), Some(33));
    assert_eq!(extract_utm_zone(b"PROJCS[\"UTM Zone 61\"]"), None);
    assert_eq!(extract_utm_zone(b"PROJCS[\"Lambert\"]"), None);
}

#[test]
fn test_mentions_transverse_mercator() {
    assert!(mentions_transverse_mercator(b"PROJECTION[\"Transverse_Mercator\"]"));
    assert!(!mentions_transverse_mercator(b"PROJECTION[\"Lambert\"]"));
}

#[test]
fn test_extract_parameter_token() {
    let wkt = b"PROJCS[PARAMETER[\"central_meridian\",-87.5],PARAMETER[\"scale_factor\",0.9996]]";
    assert_eq!(
        extract_parameter_token(wkt, b"central_meridian").unwrap(),
        b"-87.5".to_vec()
    );
    assert_eq!(
        extract_parameter_token(wkt, b"SCALE_FACTOR").unwrap(),
        b"0.9996".to_vec()
    );
    assert!(extract_parameter_token(wkt, b"false_easting").is_none());
}

#[test]
fn test_parse_srtm_filename_geographic() {
    assert_eq!(
        parse_srtm_filename(b"N47E007.tif"),
        Some(SrtmCoords::Geographic { lat_deg: 47, lon_deg: 7 })
    );
    assert_eq!(
        parse_srtm_filename(b"s12w034.tif"),
        Some(SrtmCoords::Geographic { lat_deg: -12, lon_deg: -34 })
    );
    assert_eq!(parse_srtm_filename(b"elevation.tif"), None);
}

#[test]
fn test_parse_srtm_filename_projected() {
    // Numbers over one hundred eighty mark a projected tile corner in
    // units of ten kilometers.
    assert_eq!(
        parse_srtm_filename(b"N325E455.tif"),
        Some(SrtmCoords::Projected { easting_m: 4_550_000, northing_m: 3_250_000 })
    );
}

#[test]
fn test_classify_projection() {
    // Small origins read as geographic coordinates.
    assert_eq!(classify_projection(7_000, -45_000), ProjectionKind::Geographic);
    // A European equal-area origin.
    assert_eq!(
        classify_projection(4_321_000_000, 3_210_000_000),
        ProjectionKind::EtrsLaea
    );
    // A UTM-looking origin over the southern United States.
    assert_eq!(
        classify_projection(500_000_000, 3_500_000_000),
        ProjectionKind::Utm(16)
    );
    // Projected but unrecognized.
    assert_eq!(
        classify_projection(20_000_000_000, 50_000),
        ProjectionKind::UnknownProjected
    );
}

#[test]
fn test_estimate_utm_zone() {
    assert_eq!(estimate_utm_zone_from_coords(300_000_000, 3_500_000_000), 15);
    assert_eq!(estimate_utm_zone_from_coords(500_000_000, 3_500_000_000), 16);
    assert_eq!(estimate_utm_zone_from_coords(600_000_000, 3_500_000_000), 17);
    assert_eq!(estimate_utm_zone_from_coords(300_000_000, 4_500_000_000), 12);
    assert_eq!(estimate_utm_zone_from_coords(500_000_000, 2_000_000_000), 16);
}

#[test]
fn test_zone_from_central_meridian() {
    // Zone sixteen runs from ninety to eighty-four degrees west.
    assert_eq!(zone_from_central_meridian(-87_000_000), Some(16));
    assert_eq!(zone_from_central_meridian(3_000_000), Some(31));
    assert_eq!(zone_from_central_meridian(-177_000_000), Some(1));
    assert_eq!(zone_from_central_meridian(177_000_000), Some(60));
    assert_eq!(zone_from_central_meridian(-200_000_000), None);
}
