//! Domain model: the wire shapes of the remote control service.
//!
//! `GET {base}/1/shockers/own` answers with a `ListShockersBaseResponse`
//! envelope; `POST {base}/2/shockers/control` takes a `ControlRequest`
//! body and answers with an `ObjectBaseResponse` envelope.

use vstd::prelude::*;

verus! {

/// Device hardware variant. The set is closed: a wire token outside it is
/// a decode error, never silently coerced to a default.
#[derive(Clone, Copy, Debug, PartialEq, Eq, Structural)]
pub enum ShockerModel {
    CaiXianlin,
    PetTrainer,
    Petrainer998DR,
}

/// Effect requested of a device. `Stop` ignores intensity and duration;
/// the other three carry validated values.
#[derive(Clone, Copy, Debug, PartialEq, Eq, Structural)]
pub enum ControlType {
    Stop,
    Shock,
    Vibrate,
    Sound,
}

/// One physical device as the listing endpoint reports it.
#[derive(Clone, Debug, PartialEq)]
pub struct ShockerResponse {
    pub name: Option<String>,
    pub is_paused: bool,
    pub created_on: String,
    pub id: String,
    pub rf_id: i32,
    pub model: ShockerModel,
}

/// A named group of devices, in the server's response order.
#[derive(Clone, Debug, PartialEq)]
pub struct ListShockersResponse {
    pub shockers: Vec<ShockerResponse>,
    pub id: String,
    pub name: String,
    pub created_on: String,
}

/// Envelope of the listing endpoint: optional message, optional data.
#[derive(Clone, Debug, PartialEq)]
pub struct ListShockersBaseResponse {
    pub message: Option<String>,
    pub data: Option<Vec<ListShockersResponse>>,
}

/// Envelope of the control endpoint: optional message, optional data.
#[derive(Clone, Debug, PartialEq)]
pub struct ObjectBaseResponse {
    pub message: Option<String>,
    pub data: Option<String>,
}

/// One instruction to one device. `exclusive` means the device preempts
/// any currently running effect with this one.
#[derive(Clone, Debug, PartialEq)]
pub struct Shock {
    pub id: String,
    pub control_type: ControlType,
    pub intensity: u8,
    pub duration: u16,
    pub exclusive: bool,
}

/// The outbound control payload: a batch of commands plus a free-text
/// client label (`customName` on the wire, not a security token).
#[derive(Clone, Debug, PartialEq)]
pub struct ControlRequest {
    pub shocks: Vec<Shock>,
    pub custom_name: String,
}

/// Mathematical view of a `Shock`.
pub ghost struct ShockV {
    pub id: Seq<char>,
    pub control_type: ControlType,
    pub intensity: u8,
    pub duration: u16,
    pub exclusive: bool,
}

/// Mathematical view of a `ControlRequest`.
pub ghost struct ControlRequestV {
    pub shocks: Seq<ShockV>,
    pub custom_name: Seq<char>,
}

/// Mathematical view of a `ShockerResponse`.
pub ghost struct ShockerV {
    pub name: Option<Seq<char>>,
    pub is_paused: bool,
    pub created_on: Seq<char>,
    pub id: Seq<char>,
    pub rf_id: i32,
    pub model: ShockerModel,
}

/// Mathematical view of a `ListShockersResponse`.
pub ghost struct GroupV {
    pub shockers: Seq<ShockerV>,
    pub id: Seq<char>,
    pub name: Seq<char>,
    pub created_on: Seq<char>,
}

impl View for Shock {
    type V = ShockV;

    open spec fn view(&self) -> ShockV {
        ShockV {
            id: self.id@,
            control_type: self.control_type,
            intensity: self.intensity,
            duration: self.duration,
            exclusive: self.exclusive,
        }
    }
}

impl View for ControlRequest {
    type V = ControlRequestV;

    open spec fn view(&self) -> ControlRequestV {
        ControlRequestV {
            shocks: self.shocks@.map_values(|s: Shock| s@),
            custom_name: self.custom_name@,
        }
    }
}

impl View for ShockerResponse {
    type V = ShockerV;

    open spec fn view(&self) -> ShockerV {
        ShockerV {
            name: match self.name {
                Some(n) => Some(n@),
                None => None,
            },
            is_paused: self.is_paused,
            created_on: self.created_on@,
            id: self.id@,
            rf_id: self.rf_id,
            model: self.model,
        }
    }
}

impl View for ListShockersResponse {
    type V = GroupV;

    open spec fn view(&self) -> GroupV {
        GroupV {
            shockers: self.shockers@.map_values(|s: ShockerResponse| s@),
            id: self.id@,
            name: self.name@,
            created_on: self.created_on@,
        }
    }
}

/// Mathematical view of a `ListShockersBaseResponse`.
pub ghost struct ListRespV {
    pub message: Option<Seq<char>>,
    pub data: Option<Seq<GroupV>>,
}

/// Mathematical view of an `ObjectBaseResponse`.
pub ghost struct ObjectRespV {
    pub message: Option<Seq<char>>,
    pub data: Option<Seq<char>>,
}

impl View for ListShockersBaseResponse {
    type V = ListRespV;

    open spec fn view(&self) -> ListRespV {
        ListRespV {
            message: match self.message {
                Some(m) => Some(m@),
                None => None,
            },
            data: match self.data {
                Some(d) => Some(d@.map_values(|g: ListShockersResponse| g@)),
                None => None,
            },
        }
    }
}

impl View for ObjectBaseResponse {
    type V = ObjectRespV;

    open spec fn view(&self) -> ObjectRespV {
        ObjectRespV {
            message: match self.message {
                Some(m) => Some(m@),
                None => None,
            },
            data: match self.data {
                Some(d) => Some(d@),
                None => None,
            },
        }
    }
}

/// Wire token of a device model, as the service spells it.
pub open spec fn model_token(m: ShockerModel) -> Seq<char> {
    match m {
        ShockerModel::CaiXianlin => "CaiXianlin"@,
        ShockerModel::PetTrainer => "PetTrainer"@,
        ShockerModel::Petrainer998DR => "Petrainer998DR"@,
    }
}

/// Inverse of `model_token`: the model a wire token names, if any.
pub open spec fn model_of_token(t: Seq<char>) -> Option<ShockerModel> {
    if t == model_token(ShockerModel::CaiXianlin) {
        Some(ShockerModel::CaiXianlin)
    } else if t == model_token(ShockerModel::PetTrainer) {
        Some(ShockerModel::PetTrainer)
    } else if t == model_token(ShockerModel::Petrainer998DR) {
        Some(ShockerModel::Petrainer998DR)
    } else {
        None
    }
}

/// Wire token of a control action, as the service spells it.
pub open spec fn action_token(a: ControlType) -> Seq<char> {
    match a {
        ControlType::Stop => "Stop"@,
        ControlType::Shock => "Shock"@,
        ControlType::Vibrate => "Vibrate"@,
        ControlType::Sound => "Sound"@,
    }
}

/// Inverse of `action_token`: the action a wire token names, if any.
pub open spec fn action_of_token(t: Seq<char>) -> Option<ControlType> {
    if t == action_token(ControlType::Stop) {
        Some(ControlType::Stop)
    } else if t == action_token(ControlType::Shock) {
        Some(ControlType::Shock)
    } else if t == action_token(ControlType::Vibrate) {
        Some(ControlType::Vibrate)
    } else if t == action_token(ControlType::Sound) {
        Some(ControlType::Sound)
    } else {
        None
    }
}

/// Each model's token maps back to that model alone.
pub proof fn lemma_model_token_inverse(m: ShockerModel)
    ensures
        model_of_token(model_token(m)) == Some(m),
{
    reveal_strlit("CaiXianlin");
    reveal_strlit("PetTrainer");
    reveal_strlit("Petrainer998DR");
    assert("CaiXianlin"@.len() == 10);
    assert("PetTrainer"@.len() == 10);
    assert("Petrainer998DR"@.len() == 14);
    if m is CaiXianlin {
        assert(model_of_token(model_token(m)) == Some(m));
    } else if m is PetTrainer {
        assert("PetTrainer"@[0] != "CaiXianlin"@[0]);
        assert("PetTrainer"@ != "CaiXianlin"@);
        assert(model_of_token(model_token(m)) == Some(m));
    } else {
        assert("Petrainer998DR"@ != "CaiXianlin"@);
        assert("Petrainer998DR"@ != "PetTrainer"@);
        assert(model_of_token(model_token(m)) == Some(m));
    }
}

/// Each action's token maps back to that action alone.
pub proof fn lemma_action_token_inverse(a: ControlType)
    ensures
        action_of_token(action_token(a)) == Some(a),
{
    reveal_strlit("Stop");
    reveal_strlit("Shock");
    reveal_strlit("Vibrate");
    reveal_strlit("Sound");
    assert("Stop"@.len() == 4);
    assert("Shock"@.len() == 5);
    assert("Vibrate"@.len() == 7);
    assert("Sound"@.len() == 5);
    if a is Stop {
        assert(action_of_token(action_token(a)) == Some(a));
    } else if a is Shock {
        assert("Shock"@ != "Stop"@);
        assert(action_of_token(action_token(a)) == Some(a));
    } else if a is Vibrate {
        assert("Vibrate"@ != "Stop"@);
        assert("Vibrate"@ != "Shock"@);
        assert(action_of_token(action_token(a)) == Some(a));
    } else {
        assert("Sound"@ != "Stop"@);
        assert("Sound"@[1] != "Shock"@[1]);
        assert("Sound"@ != "Shock"@);
        assert("Sound"@ != "Vibrate"@);
        assert(action_of_token(action_token(a)) == Some(a));
    }
}

} // verus!
