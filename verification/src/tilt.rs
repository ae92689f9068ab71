//! The tilt model: from a latitude to the recommended placement of a panel
//! that stays fixed all year.

use vstd::prelude::*;
use vstd::string::StringExecFns;
use crate::latitude::{Hemisphere, Lat, Latitude};

verus! {

/// The direction in which a panel should face.
#[derive(Clone, Copy, Debug, PartialEq, Eq, Structural)]
pub enum OrientationHint {
    FaceNorth,
    FaceSouth,
    HemisphereUnknown,
}

/// A recommended placement: the angle of the panel from the horizontal, in
/// hundredths of a degree, and the direction in which it faces.
#[derive(Clone, Copy, Debug, PartialEq, Eq, Structural)]
pub struct TiltAdvisory {
    pub tilt_hundredths: u16,
    pub orientation_hint: OrientationHint,
}

/// The tilt of a fixed panel at a latitude of `degrees`, in hundredths of a
/// degree: 0.87 times the latitude below 25 degrees, 0.76 times the latitude
/// plus 3.1 from 25 to 50 degrees, and the latitude itself above 50.
pub open spec fn fixed_tilt(degrees: nat) -> nat {
    if degrees < 25 {
        87 * degrees
    } else if degrees <= 50 {
        76 * degrees + 310
    } else {
        100 * degrees
    }
}

/// The direction that faces the equator from a hemisphere.
pub open spec fn facing(hemisphere: Hemisphere) -> OrientationHint {
    match hemisphere {
        Hemisphere::North => OrientationHint::FaceSouth,
        Hemisphere::South => OrientationHint::FaceNorth,
        Hemisphere::Unspecified => OrientationHint::HemisphereUnknown,
    }
}

/// The placement of a fixed panel at a latitude.
pub open spec fn fixed_placement(l: Latitude) -> TiltAdvisory {
    TiltAdvisory {
        tilt_hundredths: fixed_tilt(l.degrees) as u16,
        orientation_hint: facing(l.hemisphere),
    }
}

/// What is said of a panel that is tilted anew with the seasons: that no
/// placement is worked out for it.
pub open spec fn seasonal_notice() -> Seq<char> {
    "Seasonally adjusted placement is not implemented yet."@
}

/// The placement of a fixed panel at latitude `l`. The tilt lies between the
/// horizontal and the vertical, and the panel faces the equator.
pub fn naive_calculate(l: Lat) -> (advisory: TiltAdvisory)
    ensures
        advisory == fixed_placement(l@),
        advisory.tilt_hundredths == fixed_tilt(l@.degrees),
        advisory.tilt_hundredths <= 9000,
        advisory.orientation_hint == facing(l@.hemisphere),
        advisory.orientation_hint == OrientationHint::FaceSouth <==> l@.hemisphere
            == Hemisphere::North,
        advisory.orientation_hint == OrientationHint::FaceNorth <==> l@.hemisphere
            == Hemisphere::South,
        advisory.orientation_hint == OrientationHint::HemisphereUnknown <==> l@.hemisphere
            == Hemisphere::Unspecified,
{
    let deg: u16 = l.degrees() as u16;
    let tilt: u16 = if deg < 25 {
        87 * deg
    } else if deg <= 50 {
        76 * deg + 310
    } else {
        100 * deg
    };
    let orientation_hint = match l.hemisphere() {
        Hemisphere::North => OrientationHint::FaceSouth,
        Hemisphere::South => OrientationHint::FaceNorth,
        Hemisphere::Unspecified => OrientationHint::HemisphereUnknown,
    };
    TiltAdvisory { tilt_hundredths: tilt, orientation_hint }
}

/// The placement of a panel at latitude `l` that is tilted anew with the
/// seasons. No model stands behind this mode: the result is a notice that
/// says so, whatever the latitude, and never the placement of a fixed panel.
#[allow(unused_variables)]
pub fn season_calculate(l: Lat) -> (notice: String)
    ensures
        notice@ == seasonal_notice(),
{
    String::from_str("Seasonally adjusted placement is not implemented yet.")
}

} // verus!
