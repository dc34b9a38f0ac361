//! Label tables of the telemetry reshaper.
//!
//! The surrounding transport fetches raw aircraft-state rows and hands the
//! numeric codes to these functions; each maps a code to its human-readable
//! label, with an explicit "Unknown" fallback.

use vstd::prelude::*;

verus! {

/// Label of a positional-source code.
pub open spec fn spec_position_source_label(idx: int) -> Seq<char> {
    if idx == 0 {
        "ADS-B"@
    } else if idx == 1 {
        "ASTERIX"@
    } else if idx == 2 {
        "MLAT"@
    } else if idx == 3 {
        "FLARM"@
    } else {
        "Unknown"@
    }
}

/// Label of an aircraft-category code.  Code 13 is unassigned and falls
/// back to "Unknown" like every code outside the table.
pub open spec fn spec_category_label(code: int) -> Seq<char> {
    if code == 0 {
        "Unknown"@
    } else if code == 1 {
        "No Info"@
    } else if code == 2 {
        "Light"@
    } else if code == 3 {
        "Small"@
    } else if code == 4 {
        "Large"@
    } else if code == 5 {
        "High Vortex"@
    } else if code == 6 {
        "Heavy"@
    } else if code == 7 {
        "High Performance"@
    } else if code == 8 {
        "Rotorcraft"@
    } else if code == 9 {
        "Glider"@
    } else if code == 10 {
        "Lighter-than-air"@
    } else if code == 11 {
        "Parachutist"@
    } else if code == 12 {
        "Ultralight"@
    } else if code == 14 {
        "UAV/Drone"@
    } else if code == 15 {
        "Space Vehicle"@
    } else {
        "Unknown"@
    }
}

/// Maps a positional-source code to its label.
pub fn position_source_label(idx: u64) -> (r: String)
    ensures
        r@ == spec_position_source_label(idx as int),
{
    if idx == 0 {
        "ADS-B".to_owned()
    } else if idx == 1 {
        "ASTERIX".to_owned()
    } else if idx == 2 {
        "MLAT".to_owned()
    } else if idx == 3 {
        "FLARM".to_owned()
    } else {
        "Unknown".to_owned()
    }
}

/// Maps an aircraft-category code to its label.
pub fn category_label(code: u8) -> (r: String)
    ensures
        r@ == spec_category_label(code as int),
{
    if code == 0 {
        "Unknown".to_owned()
    } else if code == 1 {
        "No Info".to_owned()
    } else if code == 2 {
        "Light".to_owned()
    } else if code == 3 {
        "Small".to_owned()
    } else if code == 4 {
        "Large".to_owned()
    } else if code == 5 {
        "High Vortex".to_owned()
    } else if code == 6 {
        "Heavy".to_owned()
    } else if code == 7 {
        "High Performance".to_owned()
    } else if code == 8 {
        "Rotorcraft".to_owned()
    } else if code == 9 {
        "Glider".to_owned()
    } else if code == 10 {
        "Lighter-than-air".to_owned()
    } else if code == 11 {
        "Parachutist".to_owned()
    } else if code == 12 {
        "Ultralight".to_owned()
    } else if code == 14 {
        "UAV/Drone".to_owned()
    } else if code == 15 {
        "Space Vehicle".to_owned()
    } else {
        "Unknown".to_owned()
    }
}

} // verus!
