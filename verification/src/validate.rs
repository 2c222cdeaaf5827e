//! Validation layer: per-action bounds on intensity and duration.
//!
//! A supplied value outside its range is rejected with a
//! `ValidationError` naming the field, the value and the allowed range;
//! nothing is clamped silently. A missing value is replaced by an
//! explicit default. `Stop` carries no effect, so it ignores both
//! values and always validates.

use vstd::prelude::*;
use crate::model::ControlType;

verus! {

/// Least allowed intensity, in percent.
pub const INTENSITY_MIN: u8 = 1;

/// Greatest allowed intensity, in percent.
pub const INTENSITY_MAX: u8 = 100;

/// Least allowed duration, in milliseconds.
pub const DURATION_MIN: u16 = 300;

/// Greatest allowed duration, in milliseconds.
pub const DURATION_MAX: u16 = 30000;

/// Intensity used when the caller supplies none.
pub const DEFAULT_INTENSITY: u8 = 1;

/// Duration used when the caller supplies none, in milliseconds.
pub const DEFAULT_DURATION: u16 = 300;

/// The command field a validation error is about.
#[derive(Clone, Copy, Debug, PartialEq, Eq, Structural)]
pub enum CommandField {
    Intensity,
    Duration,
}

/// A rejected caller-supplied value: which field, what was supplied,
/// and the allowed inclusive range.
#[derive(Clone, Copy, Debug, PartialEq, Eq, Structural)]
pub struct ValidationError {
    pub field: CommandField,
    pub got: u16,
    pub min: u16,
    pub max: u16,
}

/// Whether an intensity is inside the allowed range.
pub open spec fn intensity_in_range(i: u8) -> bool {
    INTENSITY_MIN <= i <= INTENSITY_MAX
}

/// Whether a duration is inside the allowed range.
pub open spec fn duration_in_range(d: u16) -> bool {
    DURATION_MIN <= d <= DURATION_MAX
}

/// Intensity a request carries: the supplied value, or the default.
pub open spec fn effective_intensity(intensity: Option<u8>) -> u8 {
    match intensity {
        Some(i) => i,
        None => DEFAULT_INTENSITY,
    }
}

/// Duration a request carries: the supplied value, or the default.
pub open spec fn effective_duration(duration: Option<u16>) -> u16 {
    match duration {
        Some(d) => d,
        None => DEFAULT_DURATION,
    }
}

/// What validation returns: for `Stop`, the defaults, whatever was
/// supplied; otherwise the effective values when both are in range,
/// else the error for the first field out of range (intensity first).
pub open spec fn spec_validate(
    action: ControlType,
    intensity: Option<u8>,
    duration: Option<u16>,
) -> Result<(u8, u16), ValidationError> {
    if action is Stop {
        Ok((DEFAULT_INTENSITY, DEFAULT_DURATION))
    } else if !intensity_in_range(effective_intensity(intensity)) {
        Err(ValidationError {
            field: CommandField::Intensity,
            got: effective_intensity(intensity) as u16,
            min: INTENSITY_MIN as u16,
            max: INTENSITY_MAX as u16,
        })
    } else if !duration_in_range(effective_duration(duration)) {
        Err(ValidationError {
            field: CommandField::Duration,
            got: effective_duration(duration),
            min: DURATION_MIN,
            max: DURATION_MAX,
        })
    } else {
        Ok((effective_intensity(intensity), effective_duration(duration)))
    }
}

/// Validate one requested command, substituting defaults for missing
/// values and rejecting out-of-range ones.
pub fn validate_command(
    action: ControlType,
    intensity: Option<u8>,
    duration: Option<u16>,
) -> (r: Result<(u8, u16), ValidationError>)
    ensures
        r == spec_validate(action, intensity, duration),
        r matches Ok((i, d)) ==> intensity_in_range(i) && duration_in_range(d),
{
    let i: u8 = match intensity {
        Some(i) => i,
        None => DEFAULT_INTENSITY,
    };
    let d: u16 = match duration {
        Some(d) => d,
        None => DEFAULT_DURATION,
    };
    match action {
        ControlType::Stop => Ok((DEFAULT_INTENSITY, DEFAULT_DURATION)),
        _ => {
            if i < INTENSITY_MIN || i > INTENSITY_MAX {
                Err(ValidationError {
                    field: CommandField::Intensity,
                    got: i as u16,
                    min: INTENSITY_MIN as u16,
                    max: INTENSITY_MAX as u16,
                })
            } else if d < DURATION_MIN || d > DURATION_MAX {
                Err(ValidationError {
                    field: CommandField::Duration,
                    got: d,
                    min: DURATION_MIN,
                    max: DURATION_MAX,
                })
            } else {
                Ok((i, d))
            }
        }
    }
}

} // verus!
