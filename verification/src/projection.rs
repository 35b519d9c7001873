//! Decisions about which map projection an elevation raster uses, made
//! from its geotransform origin in milli-units (thousandths of the map
//! unit), and the arithmetic of UTM zone numbers.

use vstd::prelude::*;

verus! {

/// The projection family inferred for a raster with no projection file.
#[derive(Clone, Copy, Debug, PartialEq, Eq, Structural)]
pub enum ProjectionKind {
    /// Small origin values: the raster is taken as geographic WGS84.
    Geographic,
    /// An origin in the European equal-area grid's range.
    EtrsLaea,
    /// An origin in a UTM easting/northing range, with the guessed zone.
    Utm(u8),
    /// Projected by the look of it, but in no recognized range.
    UnknownProjected,
}

/// The zone guessed for a UTM-looking origin, from easting and northing
/// in milli-meters: rough bands over the United States.
pub open spec fn spec_estimate_utm_zone(easting_milli: int, northing_milli: int) -> u8 {
    if northing_milli > 3_000_000_000 && northing_milli < 4_000_000_000 {
        if easting_milli < 400_000_000 {
            15u8
        } else if easting_milli < 550_000_000 {
            16u8
        } else {
            17u8
        }
    } else if northing_milli > 4_000_000_000 {
        if easting_milli < 400_000_000 {
            12u8
        } else if easting_milli < 550_000_000 {
            16u8
        } else {
            17u8
        }
    } else {
        16u8
    }
}

/// The projection family inferred from a geotransform origin in
/// milli-units: beyond a thousand units from zero means projected;
/// the European equal-area window wins first, then a UTM window, else
/// the range is unrecognized.
pub open spec fn spec_classify_projection(x_milli: int, y_milli: int) -> ProjectionKind {
    if !(x_milli > 1_000_000 || x_milli < -1_000_000 || y_milli > 1_000_000 || y_milli
        < -1_000_000) {
        ProjectionKind::Geographic
    } else if x_milli > 2_000_000_000 && x_milli < 8_000_000_000 && y_milli > 1_000_000_000
        && y_milli < 6_000_000_000 {
        ProjectionKind::EtrsLaea
    } else if x_milli > 100_000_000 && x_milli < 900_000_000 && y_milli > 0 && y_milli
        < 10_000_000_000 {
        ProjectionKind::Utm(spec_estimate_utm_zone(x_milli, y_milli))
    } else {
        ProjectionKind::UnknownProjected
    }
}

/// Guesses a UTM zone from an easting and northing in milli-meters.
pub fn estimate_utm_zone_from_coords(easting_milli: i64, northing_milli: i64) -> (r: u8)
    ensures
        r == spec_estimate_utm_zone(easting_milli as int, northing_milli as int),
        1 <= r <= 60,
{
    if northing_milli > 3_000_000_000 && northing_milli < 4_000_000_000 {
        if easting_milli < 400_000_000 {
            15
        } else if easting_milli < 550_000_000 {
            16
        } else {
            17
        }
    } else if northing_milli > 4_000_000_000 {
        if easting_milli < 400_000_000 {
            12
        } else if easting_milli < 550_000_000 {
            16
        } else {
            17
        }
    } else {
        16
    }
}

/// Chooses the projection family for a raster that came without a
/// projection file, from its geotransform origin in milli-units.
pub fn classify_projection(x_milli: i64, y_milli: i64) -> (r: ProjectionKind)
    ensures
        r == spec_classify_projection(x_milli as int, y_milli as int),
{
    if !(x_milli > 1_000_000 || x_milli < -1_000_000 || y_milli > 1_000_000 || y_milli
        < -1_000_000) {
        ProjectionKind::Geographic
    } else if x_milli > 2_000_000_000 && x_milli < 8_000_000_000 && y_milli > 1_000_000_000
        && y_milli < 6_000_000_000 {
        ProjectionKind::EtrsLaea
    } else if x_milli > 100_000_000 && x_milli < 900_000_000 && y_milli > 0 && y_milli
        < 10_000_000_000 {
        ProjectionKind::Utm(estimate_utm_zone_from_coords(x_milli, y_milli))
    } else {
        ProjectionKind::UnknownProjected
    }
}

/// The UTM zone whose band holds a central meridian given in
/// micro-degrees: one plus the floor of (meridian + 180) over 6, kept
/// only in one through sixty.
pub open spec fn spec_zone_from_central_meridian(cm_micro: int) -> Option<u8> {
    let shifted = cm_micro + 180_000_000;
    let zone = (if shifted >= 0 {
        shifted / 6_000_000
    } else {
        -((-shifted + 5_999_999) / 6_000_000)
    }) + 1;
    if 1 <= zone <= 60 {
        Some(zone as u8)
    } else {
        None
    }
}

/// The UTM zone holding a central meridian given in micro-degrees, when
/// one does.
pub fn zone_from_central_meridian(cm_micro: i64) -> (r: Option<u8>)
    requires
        -100_000_000_000 <= cm_micro <= 100_000_000_000,
    ensures
        r == spec_zone_from_central_meridian(cm_micro as int),
        r is Some ==> 1 <= r->Some_0 <= 60,
{
    let shifted = cm_micro + 180_000_000;
    let zone: i64 = if shifted >= 0 {
        ((shifted as u64) / 6_000_000) as i64 + 1
    } else {
        let up = ((-shifted) as u64 + 5_999_999) / 6_000_000;
        -(up as i64) + 1
    };
    if 1 <= zone && zone <= 60 {
        Some(zone as u8)
    } else {
        None
    }
}

} // verus!
