//! Device orientations and the integers by which the firmware names them.

use vstd::prelude::*;

verus! {

/// How the device is held.
#[derive(Clone, Copy, Debug, PartialEq, Eq, Structural)]
pub enum ScreenOrientation {
    Portrait0Deg,
    Landscape90Deg,
    Portrait180Deg,
    Landscape270Deg,
}

/// The orientation is one of the two sideways ones.
pub open spec fn sideways(orientation: ScreenOrientation) -> bool {
    orientation is Landscape90Deg || orientation is Landscape270Deg
}

/// The integer that the firmware uses for an orientation, both when it reports
/// one and when it is told to apply one.
pub open spec fn raw_code(orientation: ScreenOrientation) -> int {
    match orientation {
        ScreenOrientation::Portrait0Deg => 0,
        ScreenOrientation::Landscape270Deg => 1,
        ScreenOrientation::Landscape90Deg => 2,
        ScreenOrientation::Portrait180Deg => 3,
    }
}

/// The orientation that a raw reading stands for. A reading outside `0..=3`
/// counts as upright portrait.
pub open spec fn orientation_of(raw: int) -> ScreenOrientation {
    if raw == 1 {
        ScreenOrientation::Landscape270Deg
    } else if raw == 2 {
        ScreenOrientation::Landscape90Deg
    } else if raw == 3 {
        ScreenOrientation::Portrait180Deg
    } else {
        ScreenOrientation::Portrait0Deg
    }
}

pub fn is_landscape(orientation: ScreenOrientation) -> (landscape: bool)
    ensures
        landscape == sideways(orientation),
{
    match orientation {
        ScreenOrientation::Landscape90Deg | ScreenOrientation::Landscape270Deg => true,
        ScreenOrientation::Portrait0Deg | ScreenOrientation::Portrait180Deg => false,
    }
}

/// Raw firmware integer to orientation. The G-sensor reading, the application
/// orientation and the argument of the firmware's "set orientation" call share
/// this encoding, so a reading can be handed straight back to the firmware.
pub fn orient_from_raw(raw: i32) -> (orientation: ScreenOrientation)
    ensures
        orientation == orientation_of(raw as int),
{
    match raw {
        0 => ScreenOrientation::Portrait0Deg,
        1 => ScreenOrientation::Landscape270Deg,
        2 => ScreenOrientation::Landscape90Deg,
        3 => ScreenOrientation::Portrait180Deg,
        _ => ScreenOrientation::Portrait0Deg,
    }
}

/// Reading a code back gives the orientation that the code was written for:
/// a reading handed to the firmware applies the orientation that it reported.
pub proof fn law_codes_round_trip(orientation: ScreenOrientation, raw: int)
    ensures
        orientation_of(raw_code(orientation)) == orientation,
        0 <= raw <= 3 ==> raw_code(orientation_of(raw)) == raw,
{
}

/// The device is held sideways exactly for the readings 1 and 2, which are two
/// different ways to hold it; the readings 0 and 3 are the two upright ways.
/// Every reading outside that range stands for the same hold as reading 0.
pub proof fn law_readings_tell_the_hold(raw: int)
    ensures
        sideways(orientation_of(raw)) <==> raw == 1 || raw == 2,
        orientation_of(raw) is Landscape270Deg <==> raw == 1,
        orientation_of(raw) is Landscape90Deg <==> raw == 2,
        orientation_of(raw) is Portrait180Deg <==> raw == 3,
        orientation_of(raw) is Portrait0Deg <==> raw <= 0 || raw > 3,
{
}

/// Sideways are the two landscape orientations, and a half turn keeps a device
/// sideways or upright.
pub proof fn law_landscape_is_sideways(orientation: ScreenOrientation)
    ensures
        sideways(orientation) <==> orientation is Landscape90Deg || orientation is Landscape270Deg,
        !sideways(orientation) <==> orientation is Portrait0Deg || orientation is Portrait180Deg,
{
}

} // verus!
