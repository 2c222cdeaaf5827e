//! The facade's governing laws, stated once and proved from the
//! contracts of the validation and wire layers.

use vstd::prelude::*;
use crate::model::{ControlType, ShockV};
use crate::validate::{
    spec_validate, intensity_in_range, duration_in_range, effective_intensity, effective_duration,
    ValidationError, CommandField, DEFAULT_INTENSITY, DEFAULT_DURATION, INTENSITY_MIN,
    INTENSITY_MAX, DURATION_MIN, DURATION_MAX,
};
use crate::client::spec_batch;
use crate::wire::{shocker_of_jval, jobj_get, jstr, jint, jbool, jopt_str};
use crate::json::JVal;
use crate::model::model_of_token;

verus! {

/// For every effect action and every in-range intensity and duration,
/// validation accepts them unchanged and the planned batch carries
/// exactly one command with exactly those values.
pub proof fn lemma_actuate_exact_values(
    id: Seq<char>,
    label: Seq<char>,
    action: ControlType,
    i: u8,
    d: u16,
)
    requires
        !(action is Stop),
        intensity_in_range(i),
        duration_in_range(d),
    ensures
        spec_validate(action, Some(i), Some(d)) == Ok::<(u8, u16), ValidationError>((i, d)),
        spec_batch(id, action, i, d, label).shocks =~= seq![
            ShockV { id, control_type: action, intensity: i, duration: d, exclusive: true },
        ],
        spec_batch(id, action, i, d, label).custom_name == label,
{
}

/// For every effect action, an out-of-range intensity or duration is
/// rejected with the offending field, the supplied value and the
/// allowed range. The facade returns this rejection before a request
/// plan exists, so nothing reaches the transport.
pub proof fn lemma_actuate_rejects_out_of_range(
    action: ControlType,
    intensity: Option<u8>,
    duration: Option<u16>,
)
    requires
        !(action is Stop),
        !intensity_in_range(effective_intensity(intensity)) || !duration_in_range(
            effective_duration(duration),
        ),
    ensures
        spec_validate(action, intensity, duration) is Err,
        !intensity_in_range(effective_intensity(intensity)) ==> spec_validate(
            action,
            intensity,
            duration,
        ) == Err::<(u8, u16), ValidationError>(
            ValidationError {
                field: CommandField::Intensity,
                got: effective_intensity(intensity) as u16,
                min: INTENSITY_MIN as u16,
                max: INTENSITY_MAX as u16,
            },
        ),
        intensity_in_range(effective_intensity(intensity)) && !duration_in_range(
            effective_duration(duration),
        ) ==> spec_validate(action, intensity, duration) == Err::<(u8, u16), ValidationError>(
            ValidationError {
                field: CommandField::Duration,
                got: effective_duration(duration),
                min: DURATION_MIN,
                max: DURATION_MAX,
            },
        ),
{
}

/// `Stop` ignores whatever intensity and duration were supplied: every
/// value validates, and the defaults are what the wire carries.
pub proof fn lemma_stop_accepts_any(intensity: Option<u8>, duration: Option<u16>)
    ensures
        spec_validate(ControlType::Stop, intensity, duration) == Ok::<(u8, u16), ValidationError>(
            (DEFAULT_INTENSITY, DEFAULT_DURATION),
        ),
{
}

/// A device object whose `model` token is unrecognized decodes to an
/// error carrying that token, never to a default model.
pub proof fn lemma_unknown_model_rejected(o: Seq<(Seq<char>, JVal)>, t: Seq<char>)
    requires
        jopt_str(jobj_get(o, "name"@)) is Ok,
        jbool(jobj_get(o, "isPaused"@)) is Some,
        jstr(jobj_get(o, "createdOn"@)) is Some,
        jstr(jobj_get(o, "id"@)) is Some,
        jint(jobj_get(o, "rfId"@)) matches Some(n) && i32::MIN <= n <= i32::MAX,
        jstr(jobj_get(o, "model"@)) == Some(t),
        model_of_token(t) is None,
    ensures
        shocker_of_jval(JVal::Obj(o)) == Err::<crate::model::ShockerV, Seq<char>>(t),
{
}

} // verus!
