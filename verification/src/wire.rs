//! Typed codec between the domain model and the JSON wire shapes.
//!
//! Encoding renders a `ControlRequest` as the control endpoint's body.
//! Decoding maps parsed JSON onto the response types, taking fields in
//! any order, tolerating unknown extra fields, and failing with the
//! offending token when an enumerated value is unrecognized.

use vstd::prelude::*;
use crate::json::{
    JsonValue, JVal, jval_of, jvals_of, jmembers_of, json_text, spec_json, parse_json, write_json,
    jval_ints_wf,
};
use crate::model::{
    Shock, ShockV, ControlRequest, ControlRequestV, ControlType, ShockerModel, ShockerResponse,
    ShockerV, ListShockersResponse, GroupV, ListShockersBaseResponse, ListRespV,
    ObjectBaseResponse, ObjectRespV, action_token, action_of_token, model_of_token,
};
use crate::error::DecodeError;

verus! {

/// First value bound to `k` in the member list, if any.
pub open spec fn jobj_get(o: Seq<(Seq<char>, JVal)>, k: Seq<char>) -> Option<JVal>
    decreases o.len(),
{
    if o.len() == 0 {
        None
    } else if o[0].0 == k {
        Some(o[0].1)
    } else {
        jobj_get(o.drop_first(), k)
    }
}

/// The string behind a looked-up member, if it is one.
pub open spec fn jstr(v: Option<JVal>) -> Option<Seq<char>> {
    match v {
        Some(JVal::Str(s)) => Some(s),
        _ => None,
    }
}

/// The integer behind a looked-up member, if it is one.
pub open spec fn jint(v: Option<JVal>) -> Option<int> {
    match v {
        Some(JVal::Int(i)) => Some(i),
        _ => None,
    }
}

/// The boolean behind a looked-up member, if it is one.
pub open spec fn jbool(v: Option<JVal>) -> Option<bool> {
    match v {
        Some(JVal::Bool(b)) => Some(b),
        _ => None,
    }
}

/// The array behind a looked-up member, if it is one.
pub open spec fn jarr(v: Option<JVal>) -> Option<Seq<JVal>> {
    match v {
        Some(JVal::Arr(a)) => Some(a),
        _ => None,
    }
}

/// An optional string member: absent or null is `None`, a string is
/// `Some`, anything else is a shape error.
pub open spec fn jopt_str(v: Option<JVal>) -> Result<Option<Seq<char>>, ()> {
    match v {
        None => Ok(None),
        Some(JVal::Null) => Ok(None),
        Some(JVal::Str(s)) => Ok(Some(s)),
        Some(_) => Err(()),
    }
}

/// Wire value of one command.
pub open spec fn shock_jval(s: ShockV) -> JVal {
    JVal::Obj(
        seq![
            ("id"@, JVal::Str(s.id)),
            ("type"@, JVal::Str(action_token(s.control_type))),
            ("intensity"@, JVal::Int(s.intensity as int)),
            ("duration"@, JVal::Int(s.duration as int)),
            ("exclusive"@, JVal::Bool(s.exclusive)),
        ],
    )
}

/// Wire value of a whole control request.
pub open spec fn control_request_jval(r: ControlRequestV) -> JVal {
    JVal::Obj(
        seq![
            ("shocks"@, JVal::Arr(r.shocks.map_values(|s: ShockV| shock_jval(s)))),
            ("customName"@, JVal::Str(r.custom_name)),
        ],
    )
}

/// A command read back from its wire value.
pub open spec fn shock_of_jval(v: JVal) -> Result<ShockV, Seq<char>> {
    match v {
        JVal::Obj(o) => {
            if jstr(jobj_get(o, "id"@)) is None {
                Err("id"@)
            } else if jstr(jobj_get(o, "type"@)) is None {
                Err("type"@)
            } else if action_of_token(jstr(jobj_get(o, "type"@))->0) is None {
                Err(jstr(jobj_get(o, "type"@))->0)
            } else if jint(jobj_get(o, "intensity"@)) is None || !(0 <= jint(
                jobj_get(o, "intensity"@),
            )->0 <= 255) {
                Err("intensity"@)
            } else if jint(jobj_get(o, "duration"@)) is None || !(0 <= jint(
                jobj_get(o, "duration"@),
            )->0 <= 65535) {
                Err("duration"@)
            } else if jbool(jobj_get(o, "exclusive"@)) is None {
                Err("exclusive"@)
            } else {
                Ok(
                    ShockV {
                        id: jstr(jobj_get(o, "id"@))->0,
                        control_type: action_of_token(jstr(jobj_get(o, "type"@))->0)->0,
                        intensity: jint(jobj_get(o, "intensity"@))->0 as u8,
                        duration: jint(jobj_get(o, "duration"@))->0 as u16,
                        exclusive: jbool(jobj_get(o, "exclusive"@))->0,
                    },
                )
            }
        }
        _ => Err("shock"@),
    }
}

/// Commands read back from an array of wire values, first error wins.
pub open spec fn shocks_of_jvals(a: Seq<JVal>) -> Result<Seq<ShockV>, Seq<char>>
    decreases a.len(),
{
    if a.len() == 0 {
        Ok(Seq::empty())
    } else {
        match shocks_of_jvals(a.drop_last()) {
            Ok(pre) => match shock_of_jval(a.last()) {
                Ok(s) => Ok(pre.push(s)),
                Err(e) => Err(e),
            },
            Err(e) => Err(e),
        }
    }
}

/// A control request read back from its wire value.
pub open spec fn control_request_of_jval(v: JVal) -> Result<ControlRequestV, Seq<char>> {
    match v {
        JVal::Obj(o) => {
            if jarr(jobj_get(o, "shocks"@)) is None {
                Err("shocks"@)
            } else if jstr(jobj_get(o, "customName"@)) is None {
                Err("customName"@)
            } else {
                match shocks_of_jvals(jarr(jobj_get(o, "shocks"@))->0) {
                    Ok(ss) => Ok(
                        ControlRequestV {
                            shocks: ss,
                            custom_name: jstr(jobj_get(o, "customName"@))->0,
                        },
                    ),
                    Err(e) => Err(e),
                }
            }
        }
        _ => Err("object"@),
    }
}

/// One device read from the listing response.
pub open spec fn shocker_of_jval(v: JVal) -> Result<ShockerV, Seq<char>> {
    match v {
        JVal::Obj(o) => {
            if jopt_str(jobj_get(o, "name"@)) is Err {
                Err("name"@)
            } else if jbool(jobj_get(o, "isPaused"@)) is None {
                Err("isPaused"@)
            } else if jstr(jobj_get(o, "createdOn"@)) is None {
                Err("createdOn"@)
            } else if jstr(jobj_get(o, "id"@)) is None {
                Err("id"@)
            } else if jint(jobj_get(o, "rfId"@)) is None || !(i32::MIN <= jint(
                jobj_get(o, "rfId"@),
            )->0 <= i32::MAX) {
                Err("rfId"@)
            } else if jstr(jobj_get(o, "model"@)) is None {
                Err("model"@)
            } else if model_of_token(jstr(jobj_get(o, "model"@))->0) is None {
                Err(jstr(jobj_get(o, "model"@))->0)
            } else {
                Ok(
                    ShockerV {
                        name: jopt_str(jobj_get(o, "name"@))->Ok_0,
                        is_paused: jbool(jobj_get(o, "isPaused"@))->0,
                        created_on: jstr(jobj_get(o, "createdOn"@))->0,
                        id: jstr(jobj_get(o, "id"@))->0,
                        rf_id: jint(jobj_get(o, "rfId"@))->0 as i32,
                        model: model_of_token(jstr(jobj_get(o, "model"@))->0)->0,
                    },
                )
            }
        }
        _ => Err("shocker"@),
    }
}

/// Devices read from an array of wire values, first error wins.
pub open spec fn shockers_of_jvals(a: Seq<JVal>) -> Result<Seq<ShockerV>, Seq<char>>
    decreases a.len(),
{
    if a.len() == 0 {
        Ok(Seq::empty())
    } else {
        match shockers_of_jvals(a.drop_last()) {
            Ok(pre) => match shocker_of_jval(a.last()) {
                Ok(s) => Ok(pre.push(s)),
                Err(e) => Err(e),
            },
            Err(e) => Err(e),
        }
    }
}

/// One group read from the listing response.
pub open spec fn group_of_jval(v: JVal) -> Result<GroupV, Seq<char>> {
    match v {
        JVal::Obj(o) => {
            if jarr(jobj_get(o, "shockers"@)) is None {
                Err("shockers"@)
            } else if jstr(jobj_get(o, "id"@)) is None {
                Err("id"@)
            } else if jstr(jobj_get(o, "name"@)) is None {
                Err("name"@)
            } else if jstr(jobj_get(o, "createdOn"@)) is None {
                Err("createdOn"@)
            } else {
                match shockers_of_jvals(jarr(jobj_get(o, "shockers"@))->0) {
                    Ok(ss) => Ok(
                        GroupV {
                            shockers: ss,
                            id: jstr(jobj_get(o, "id"@))->0,
                            name: jstr(jobj_get(o, "name"@))->0,
                            created_on: jstr(jobj_get(o, "createdOn"@))->0,
                        },
                    ),
                    Err(e) => Err(e),
                }
            }
        }
        _ => Err("group"@),
    }
}

/// Groups read from an array of wire values, first error wins.
pub open spec fn groups_of_jvals(a: Seq<JVal>) -> Result<Seq<GroupV>, Seq<char>>
    decreases a.len(),
{
    if a.len() == 0 {
        Ok(Seq::empty())
    } else {
        match groups_of_jvals(a.drop_last()) {
            Ok(pre) => match group_of_jval(a.last()) {
                Ok(g) => Ok(pre.push(g)),
                Err(e) => Err(e),
            },
            Err(e) => Err(e),
        }
    }
}

/// The listing envelope read from its wire value.
pub open spec fn list_response_of_jval(v: JVal) -> Result<ListRespV, Seq<char>> {
    match v {
        JVal::Obj(o) => {
            if jopt_str(jobj_get(o, "message"@)) is Err {
                Err("message"@)
            } else {
                match jobj_get(o, "data"@) {
                    None => Ok(
                        ListRespV { message: jopt_str(jobj_get(o, "message"@))->Ok_0, data: None },
                    ),
                    Some(JVal::Null) => Ok(
                        ListRespV { message: jopt_str(jobj_get(o, "message"@))->Ok_0, data: None },
                    ),
                    Some(JVal::Arr(a)) => match groups_of_jvals(a) {
                        Ok(gs) => Ok(
                            ListRespV {
                                message: jopt_str(jobj_get(o, "message"@))->Ok_0,
                                data: Some(gs),
                            },
                        ),
                        Err(e) => Err(e),
                    },
                    Some(_) => Err("data"@),
                }
            }
        }
        _ => Err("object"@),
    }
}

/// The control envelope read from its wire value.
pub open spec fn object_response_of_jval(v: JVal) -> Result<ObjectRespV, Seq<char>> {
    match v {
        JVal::Obj(o) => {
            if jopt_str(jobj_get(o, "message"@)) is Err {
                Err("message"@)
            } else if jopt_str(jobj_get(o, "data"@)) is Err {
                Err("data"@)
            } else {
                Ok(
                    ObjectRespV {
                        message: jopt_str(jobj_get(o, "message"@))->Ok_0,
                        data: jopt_str(jobj_get(o, "data"@))->Ok_0,
                    },
                )
            }
        }
        _ => Err("object"@),
    }
}

/// Whether a `String` holds exactly this text.
fn string_eq(a: &String, b: &str) -> (r: bool)
    ensures
        r == (a@ == b@),
{
    let bs = String::from_str(b);
    a.eq(&bs)
}

/// Exec counterpart of `jobj_get`.
fn obj_get<'a>(o: &'a Vec<(String, JsonValue)>, k: &str) -> (r: Option<&'a JsonValue>)
    ensures
        match r {
            Some(v) => jobj_get(jmembers_of(o@), k@) == Some(jval_of(*v)),
            None => jobj_get(jmembers_of(o@), k@) is None,
        },
{
    proof {
        assert(jmembers_of(o@).skip(0) =~= jmembers_of(o@));
    }
    let mut i: usize = 0;
    while i < o.len()
        invariant
            i <= o@.len(),
            jobj_get(jmembers_of(o@), k@) == jobj_get(jmembers_of(o@).skip(i as int), k@),
        decreases o@.len() - i,
    {
        proof {
            assert(jmembers_of(o@).skip(i as int)[0] == (o@[i as int].0@, jval_of(o@[i as int].1)));
        }
        if string_eq(&o[i].0, k) {
            return Some(&o[i].1);
        }
        proof {
            assert(jmembers_of(o@).skip(i as int).drop_first() =~= jmembers_of(o@).skip(i + 1));
        }
        i = i + 1;
    }
    proof {
        assert(jmembers_of(o@).skip(o@.len() as int) =~= Seq::<(Seq<char>, JVal)>::empty());
    }
    None
}

/// View of an optional borrowed value.
pub open spec fn jopt_of(v: Option<&JsonValue>) -> Option<JVal> {
    match v {
        Some(p) => Some(jval_of(*p)),
        None => None,
    }
}

/// The string member, if the value is a string.
fn take_str(v: Option<&JsonValue>) -> (r: Option<String>)
    ensures
        match r {
            Some(s) => jstr(jopt_of(v)) == Some(s@),
            None => jstr(jopt_of(v)) is None,
        },
{
    match v {
        Some(JsonValue::Str(s)) => Some(s.clone()),
        Some(JsonValue::Null) => None,
        Some(JsonValue::Bool(_)) => None,
        Some(JsonValue::Int(_)) => None,
        Some(JsonValue::Arr(_)) => None,
        Some(JsonValue::Obj(_)) => None,
        None => None,
    }
}

/// The integer member, if the value is an integer.
fn take_int(v: Option<&JsonValue>) -> (r: Option<i64>)
    ensures
        match r {
            Some(n) => jint(jopt_of(v)) == Some(n as int),
            None => jint(jopt_of(v)) is None,
        },
{
    match v {
        Some(JsonValue::Int(n)) => Some(*n),
        Some(JsonValue::Null) => None,
        Some(JsonValue::Bool(_)) => None,
        Some(JsonValue::Str(_)) => None,
        Some(JsonValue::Arr(_)) => None,
        Some(JsonValue::Obj(_)) => None,
        None => None,
    }
}

/// The boolean member, if the value is a boolean.
fn take_bool(v: Option<&JsonValue>) -> (r: Option<bool>)
    ensures
        match r {
            Some(b) => jbool(jopt_of(v)) == Some(b),
            None => jbool(jopt_of(v)) is None,
        },
{
    match v {
        Some(JsonValue::Bool(b)) => Some(*b),
        Some(JsonValue::Null) => None,
        Some(JsonValue::Int(_)) => None,
        Some(JsonValue::Str(_)) => None,
        Some(JsonValue::Arr(_)) => None,
        Some(JsonValue::Obj(_)) => None,
        None => None,
    }
}

/// The array member, if the value is an array.
fn take_arr<'a>(v: Option<&'a JsonValue>) -> (r: Option<&'a Vec<JsonValue>>)
    ensures
        match r {
            Some(a) => jarr(jopt_of(v)) == Some(jvals_of(a@)),
            None => jarr(jopt_of(v)) is None,
        },
{
    match v {
        Some(JsonValue::Arr(a)) => Some(a),
        Some(JsonValue::Null) => None,
        Some(JsonValue::Int(_)) => None,
        Some(JsonValue::Str(_)) => None,
        Some(JsonValue::Bool(_)) => None,
        Some(JsonValue::Obj(_)) => None,
        None => None,
    }
}

/// An optional string member: absent or null is fine, a string is
/// taken, anything else is a shape error.
fn take_opt_str(v: Option<&JsonValue>) -> (r: Result<Option<String>, ()>)
    ensures
        match r {
            Ok(Some(s)) => jopt_str(jopt_of(v)) == Ok::<Option<Seq<char>>, ()>(Some(s@)),
            Ok(None) => jopt_str(jopt_of(v)) == Ok::<Option<Seq<char>>, ()>(None),
            Err(()) => jopt_str(jopt_of(v)) is Err,
        },
{
    match v {
        None => Ok(None),
        Some(JsonValue::Null) => Ok(None),
        Some(JsonValue::Str(s)) => Ok(Some(s.clone())),
        Some(JsonValue::Bool(_)) => Err(()),
        Some(JsonValue::Int(_)) => Err(()),
        Some(JsonValue::Arr(_)) => Err(()),
        Some(JsonValue::Obj(_)) => Err(()),
    }
}

/// The action a wire token names, if any.
pub fn action_from_name(s: &String) -> (r: Option<ControlType>)
    ensures
        r == action_of_token(s@),
{
    if string_eq(s, "Stop") {
        Some(ControlType::Stop)
    } else if string_eq(s, "Shock") {
        Some(ControlType::Shock)
    } else if string_eq(s, "Vibrate") {
        Some(ControlType::Vibrate)
    } else if string_eq(s, "Sound") {
        Some(ControlType::Sound)
    } else {
        None
    }
}

/// The device model a wire token names, if any.
pub fn model_from_name(s: &String) -> (r: Option<ShockerModel>)
    ensures
        r == model_of_token(s@),
{
    if string_eq(s, "CaiXianlin") {
        Some(ShockerModel::CaiXianlin)
    } else if string_eq(s, "PetTrainer") {
        Some(ShockerModel::PetTrainer)
    } else if string_eq(s, "Petrainer998DR") {
        Some(ShockerModel::Petrainer998DR)
    } else {
        None
    }
}

/// The wire token of an action, as a `String`.
pub fn action_name(a: ControlType) -> (r: String)
    ensures
        r@ == action_token(a),
{
    match a {
        ControlType::Stop => String::from_str("Stop"),
        ControlType::Shock => String::from_str("Shock"),
        ControlType::Vibrate => String::from_str("Vibrate"),
        ControlType::Sound => String::from_str("Sound"),
    }
}

/// A decode error carrying this token.
fn mk_decode_err(t: &str) -> (e: DecodeError)
    ensures
        e@ == t@,
{
    DecodeError { raw: String::from_str(t) }
}

/// Wire value of one command.
fn shock_json(s: &Shock) -> (out: JsonValue)
    ensures
        jval_of(out) == shock_jval(s@),
{
    let mut fields: Vec<(String, JsonValue)> = Vec::new();
    fields.push((String::from_str("id"), JsonValue::Str(s.id.clone())));
    fields.push((String::from_str("type"), JsonValue::Str(action_name(s.control_type))));
    fields.push((String::from_str("intensity"), JsonValue::Int(s.intensity as i64)));
    fields.push((String::from_str("duration"), JsonValue::Int(s.duration as i64)));
    fields.push((String::from_str("exclusive"), JsonValue::Bool(s.exclusive)));
    let out = JsonValue::Obj(fields);
    proof {
        let ghost m = jval_of(out)->Obj_0;
        assert(fields@.len() == 5);
        assert(fields@[0].0@ == "id"@ && jval_of(fields@[0].1) == JVal::Str(s.id@));
        assert(fields@[1].0@ == "type"@ && jval_of(fields@[1].1) == JVal::Str(
            action_token(s.control_type),
        ));
        assert(fields@[2].0@ == "intensity"@ && jval_of(fields@[2].1) == JVal::Int(
            s.intensity as int,
        ));
        assert(fields@[3].0@ == "duration"@ && jval_of(fields@[3].1) == JVal::Int(
            s.duration as int,
        ));
        assert(fields@[4].0@ == "exclusive"@ && jval_of(fields@[4].1) == JVal::Bool(s.exclusive));
        assert(m =~= shock_jval(s@)->Obj_0);
        assert(jval_of(out) == shock_jval(s@));
    }
    out
}

/// Wire value of a whole control request.
fn control_request_json(r: &ControlRequest) -> (out: JsonValue)
    ensures
        jval_of(out) == control_request_jval(r@),
{
    let mut items: Vec<JsonValue> = Vec::new();
    let mut k: usize = 0;
    while k < r.shocks.len()
        invariant
            k <= r.shocks@.len(),
            items@.len() == k,
            forall|t: int| 0 <= t < k ==> jval_of(#[trigger] items@[t]) == shock_jval(
                r.shocks@[t]@,
            ),
        decreases r.shocks@.len() - k,
    {
        items.push(shock_json(&r.shocks[k]));
        k = k + 1;
    }
    let mut fields: Vec<(String, JsonValue)> = Vec::new();
    fields.push((String::from_str("shocks"), JsonValue::Arr(items)));
    fields.push((String::from_str("customName"), JsonValue::Str(r.custom_name.clone())));
    let out = JsonValue::Obj(fields);
    proof {
        let ghost m = jval_of(out)->Obj_0;
        assert(fields@.len() == 2);
        assert(fields@[0].0@ == "shocks"@);
        assert(fields@[1].0@ == "customName"@ && jval_of(fields@[1].1) == JVal::Str(
            r.custom_name@,
        ));
        assert(jval_of(fields@[0].1)->Arr_0 =~= r@.shocks.map_values(|s: ShockV| shock_jval(s)));
        assert(jval_of(fields@[0].1) == JVal::Arr(r@.shocks.map_values(|s: ShockV| shock_jval(s))));
        assert(m =~= control_request_jval(r@)->Obj_0);
        assert(jval_of(out) == control_request_jval(r@));
    }
    out
}

/// Every integer a command's wire value holds is a small nonnegative
/// number.
pub proof fn lemma_shock_jval_wf(s: ShockV)
    ensures
        jval_ints_wf(shock_jval(s)),
{
    assert forall|i: int| 0 <= i < shock_jval(s)->Obj_0.len() implies jval_ints_wf(
        #[trigger] shock_jval(s)->Obj_0[i].1,
    ) by {
        if i == 2 {
        } else if i == 3 {
        }
    }
}

/// Every integer a request's wire value holds is a small nonnegative
/// number.
pub proof fn lemma_control_request_jval_wf(r: ControlRequestV)
    ensures
        jval_ints_wf(control_request_jval(r)),
{
    let v = control_request_jval(r);
    let arr = r.shocks.map_values(|s: ShockV| shock_jval(s));
    assert forall|i: int| 0 <= i < arr.len() implies jval_ints_wf(#[trigger] arr[i]) by {
        lemma_shock_jval_wf(r.shocks[i]);
    }
    assert(jval_ints_wf(v->Obj_0[0].1));
    assert(jval_ints_wf(v->Obj_0[1].1));
    assert forall|i: int| 0 <= i < v->Obj_0.len() implies jval_ints_wf(
        #[trigger] v->Obj_0[i].1,
    ) by {
    }
}

/// Render a control request as the control endpoint's body text.
pub fn encode_control_request(r: &ControlRequest) -> (out: String)
    ensures
        out@ == json_text(control_request_jval(r@)),
{
    let v = control_request_json(r);
    proof {
        lemma_control_request_jval_wf(r@);
    }
    write_json(&v)
}

/// An error at index `k` makes every longer prefix decode to it, once
/// the shorter prefix decodes cleanly.
proof fn lemma_shocks_err_extends(a: Seq<JVal>, k: int, j: int, e: Seq<char>)
    requires
        0 <= k < j <= a.len(),
        shocks_of_jvals(a.subrange(0, k)) is Ok,
        shock_of_jval(a[k]) == Err::<ShockV, Seq<char>>(e),
    ensures
        shocks_of_jvals(a.subrange(0, j)) == Err::<Seq<ShockV>, Seq<char>>(e),
    decreases j,
{
    if j == k + 1 {
        assert(a.subrange(0, j).drop_last() =~= a.subrange(0, k));
        assert(a.subrange(0, j).last() == a[k]);
    } else {
        lemma_shocks_err_extends(a, k, j - 1, e);
        assert(a.subrange(0, j).drop_last() =~= a.subrange(0, j - 1));
    }
}

/// As `lemma_shocks_err_extends`, for devices.
proof fn lemma_shockers_err_extends(a: Seq<JVal>, k: int, j: int, e: Seq<char>)
    requires
        0 <= k < j <= a.len(),
        shockers_of_jvals(a.subrange(0, k)) is Ok,
        shocker_of_jval(a[k]) == Err::<ShockerV, Seq<char>>(e),
    ensures
        shockers_of_jvals(a.subrange(0, j)) == Err::<Seq<ShockerV>, Seq<char>>(e),
    decreases j,
{
    if j == k + 1 {
        assert(a.subrange(0, j).drop_last() =~= a.subrange(0, k));
        assert(a.subrange(0, j).last() == a[k]);
    } else {
        lemma_shockers_err_extends(a, k, j - 1, e);
        assert(a.subrange(0, j).drop_last() =~= a.subrange(0, j - 1));
    }
}

/// As `lemma_shocks_err_extends`, for groups.
proof fn lemma_groups_err_extends(a: Seq<JVal>, k: int, j: int, e: Seq<char>)
    requires
        0 <= k < j <= a.len(),
        groups_of_jvals(a.subrange(0, k)) is Ok,
        group_of_jval(a[k]) == Err::<GroupV, Seq<char>>(e),
    ensures
        groups_of_jvals(a.subrange(0, j)) == Err::<Seq<GroupV>, Seq<char>>(e),
    decreases j,
{
    if j == k + 1 {
        assert(a.subrange(0, j).drop_last() =~= a.subrange(0, k));
        assert(a.subrange(0, j).last() == a[k]);
    } else {
        lemma_groups_err_extends(a, k, j - 1, e);
        assert(a.subrange(0, j).drop_last() =~= a.subrange(0, j - 1));
    }
}

/// One command read back from its wire value.
fn shock_from_jval(v: &JsonValue) -> (r: Result<Shock, DecodeError>)
    ensures
        match r {
            Ok(s) => shock_of_jval(jval_of(*v)) == Ok::<ShockV, Seq<char>>(s@),
            Err(e) => shock_of_jval(jval_of(*v)) matches Err(t) && t == e@,
        },
{
    match v {
        JsonValue::Obj(o) => {
            let id = match take_str(obj_get(o, "id")) {
                Some(s) => s,
                None => {
                    return Err(mk_decode_err("id"));
                }
            };
            let ty = match take_str(obj_get(o, "type")) {
                Some(s) => s,
                None => {
                    return Err(mk_decode_err("type"));
                }
            };
            let action = match action_from_name(&ty) {
                Some(a) => a,
                None => {
                    return Err(DecodeError { raw: ty });
                }
            };
            let n = match take_int(obj_get(o, "intensity")) {
                Some(n) => n,
                None => {
                    return Err(mk_decode_err("intensity"));
                }
            };
            if n < 0 || n > 255 {
                return Err(mk_decode_err("intensity"));
            }
            let d = match take_int(obj_get(o, "duration")) {
                Some(d) => d,
                None => {
                    return Err(mk_decode_err("duration"));
                }
            };
            if d < 0 || d > 65535 {
                return Err(mk_decode_err("duration"));
            }
            let ex = match take_bool(obj_get(o, "exclusive")) {
                Some(b) => b,
                None => {
                    return Err(mk_decode_err("exclusive"));
                }
            };
            Ok(
                Shock {
                    id,
                    control_type: action,
                    intensity: n as u8,
                    duration: d as u16,
                    exclusive: ex,
                },
            )
        }
        JsonValue::Null => Err(mk_decode_err("shock")),
        JsonValue::Bool(_) => Err(mk_decode_err("shock")),
        JsonValue::Int(_) => Err(mk_decode_err("shock")),
        JsonValue::Str(_) => Err(mk_decode_err("shock")),
        JsonValue::Arr(_) => Err(mk_decode_err("shock")),
    }
}

/// Commands read back from an array, first error wins.
fn shocks_from_jvals(a: &Vec<JsonValue>) -> (r: Result<Vec<Shock>, DecodeError>)
    ensures
        match r {
            Ok(ss) => shocks_of_jvals(jvals_of(a@)) == Ok::<Seq<ShockV>, Seq<char>>(
                ss@.map_values(|s: Shock| s@),
            ),
            Err(e) => shocks_of_jvals(jvals_of(a@)) matches Err(t) && t == e@,
        },
{
    let mut out: Vec<Shock> = Vec::new();
    let mut k: usize = 0;
    proof {
        assert(jvals_of(a@).subrange(0, 0) =~= Seq::<JVal>::empty());
        assert(out@.map_values(|s: Shock| s@) =~= Seq::<ShockV>::empty());
    }
    while k < a.len()
        invariant
            k <= a@.len(),
            out@.len() == k,
            shocks_of_jvals(jvals_of(a@).subrange(0, k as int)) == Ok::<Seq<ShockV>, Seq<char>>(
                out@.map_values(|s: Shock| s@),
            ),
        decreases a@.len() - k,
    {
        let ghost pre = out@.map_values(|s: Shock| s@);
        match shock_from_jval(&a[k]) {
            Ok(s) => {
                let ghost sv = s@;
                out.push(s);
                proof {
                    assert(jvals_of(a@).subrange(0, k + 1).drop_last() =~= jvals_of(a@).subrange(
                        0,
                        k as int,
                    ));
                    assert(jvals_of(a@).subrange(0, k + 1).last() == jval_of(a@[k as int]));
                    assert(out@.map_values(|s: Shock| s@) =~= pre.push(sv));
                }
            }
            Err(e) => {
                proof {
                    lemma_shocks_err_extends(jvals_of(a@), k as int, a@.len() as int, e@);
                    assert(jvals_of(a@).subrange(0, a@.len() as int) =~= jvals_of(a@));
                }
                return Err(e);
            }
        }
        k = k + 1;
    }
    proof {
        assert(jvals_of(a@).subrange(0, a@.len() as int) =~= jvals_of(a@));
    }
    Ok(out)
}

/// A whole control request read back from its wire value.
fn control_request_from_jval(v: &JsonValue) -> (r: Result<ControlRequest, DecodeError>)
    ensures
        match r {
            Ok(c) => control_request_of_jval(jval_of(*v)) == Ok::<ControlRequestV, Seq<char>>(c@),
            Err(e) => control_request_of_jval(jval_of(*v)) matches Err(t) && t == e@,
        },
{
    match v {
        JsonValue::Obj(o) => {
            let arr = match take_arr(obj_get(o, "shocks")) {
                Some(a) => a,
                None => {
                    return Err(mk_decode_err("shocks"));
                }
            };
            let name = match take_str(obj_get(o, "customName")) {
                Some(s) => s,
                None => {
                    return Err(mk_decode_err("customName"));
                }
            };
            match shocks_from_jvals(arr) {
                Ok(ss) => Ok(ControlRequest { shocks: ss, custom_name: name }),
                Err(e) => Err(e),
            }
        }
        JsonValue::Null => Err(mk_decode_err("object")),
        JsonValue::Bool(_) => Err(mk_decode_err("object")),
        JsonValue::Int(_) => Err(mk_decode_err("object")),
        JsonValue::Str(_) => Err(mk_decode_err("object")),
        JsonValue::Arr(_) => Err(mk_decode_err("object")),
    }
}

/// One device read from its wire value.
fn shocker_from_jval(v: &JsonValue) -> (r: Result<ShockerResponse, DecodeError>)
    ensures
        match r {
            Ok(s) => shocker_of_jval(jval_of(*v)) == Ok::<ShockerV, Seq<char>>(s@),
            Err(e) => shocker_of_jval(jval_of(*v)) matches Err(t) && t == e@,
        },
{
    match v {
        JsonValue::Obj(o) => {
            let name = match take_opt_str(obj_get(o, "name")) {
                Ok(n) => n,
                Err(()) => {
                    return Err(mk_decode_err("name"));
                }
            };
            let paused = match take_bool(obj_get(o, "isPaused")) {
                Some(b) => b,
                None => {
                    return Err(mk_decode_err("isPaused"));
                }
            };
            let created = match take_str(obj_get(o, "createdOn")) {
                Some(s) => s,
                None => {
                    return Err(mk_decode_err("createdOn"));
                }
            };
            let id = match take_str(obj_get(o, "id")) {
                Some(s) => s,
                None => {
                    return Err(mk_decode_err("id"));
                }
            };
            let rf = match take_int(obj_get(o, "rfId")) {
                Some(n) => n,
                None => {
                    return Err(mk_decode_err("rfId"));
                }
            };
            if rf < i32::MIN as i64 || rf > i32::MAX as i64 {
                return Err(mk_decode_err("rfId"));
            }
            let model_s = match take_str(obj_get(o, "model")) {
                Some(s) => s,
                None => {
                    return Err(mk_decode_err("model"));
                }
            };
            let model = match model_from_name(&model_s) {
                Some(m) => m,
                None => {
                    return Err(DecodeError { raw: model_s });
                }
            };
            Ok(
                ShockerResponse {
                    name,
                    is_paused: paused,
                    created_on: created,
                    id,
                    rf_id: rf as i32,
                    model,
                },
            )
        }
        JsonValue::Null => Err(mk_decode_err("shocker")),
        JsonValue::Bool(_) => Err(mk_decode_err("shocker")),
        JsonValue::Int(_) => Err(mk_decode_err("shocker")),
        JsonValue::Str(_) => Err(mk_decode_err("shocker")),
        JsonValue::Arr(_) => Err(mk_decode_err("shocker")),
    }
}

/// Devices read back from an array, first error wins.
fn shockers_from_jvals(a: &Vec<JsonValue>) -> (r: Result<Vec<ShockerResponse>, DecodeError>)
    ensures
        match r {
            Ok(ss) => shockers_of_jvals(jvals_of(a@)) == Ok::<Seq<ShockerV>, Seq<char>>(
                ss@.map_values(|s: ShockerResponse| s@),
            ),
            Err(e) => shockers_of_jvals(jvals_of(a@)) matches Err(t) && t == e@,
        },
{
    let mut out: Vec<ShockerResponse> = Vec::new();
    let mut k: usize = 0;
    proof {
        assert(jvals_of(a@).subrange(0, 0) =~= Seq::<JVal>::empty());
        assert(out@.map_values(|s: ShockerResponse| s@) =~= Seq::<ShockerV>::empty());
    }
    while k < a.len()
        invariant
            k <= a@.len(),
            out@.len() == k,
            shockers_of_jvals(jvals_of(a@).subrange(0, k as int)) == Ok::<
                Seq<ShockerV>,
                Seq<char>,
            >(out@.map_values(|s: ShockerResponse| s@)),
        decreases a@.len() - k,
    {
        let ghost pre = out@.map_values(|s: ShockerResponse| s@);
        match shocker_from_jval(&a[k]) {
            Ok(s) => {
                let ghost sv = s@;
                out.push(s);
                proof {
                    assert(jvals_of(a@).subrange(0, k + 1).drop_last() =~= jvals_of(a@).subrange(
                        0,
                        k as int,
                    ));
                    assert(jvals_of(a@).subrange(0, k + 1).last() == jval_of(a@[k as int]));
                    assert(out@.map_values(|s: ShockerResponse| s@) =~= pre.push(sv));
                }
            }
            Err(e) => {
                proof {
                    lemma_shockers_err_extends(jvals_of(a@), k as int, a@.len() as int, e@);
                    assert(jvals_of(a@).subrange(0, a@.len() as int) =~= jvals_of(a@));
                }
                return Err(e);
            }
        }
        k = k + 1;
    }
    proof {
        assert(jvals_of(a@).subrange(0, a@.len() as int) =~= jvals_of(a@));
    }
    Ok(out)
}

/// One group read from its wire value.
fn group_from_jval(v: &JsonValue) -> (r: Result<ListShockersResponse, DecodeError>)
    ensures
        match r {
            Ok(g) => group_of_jval(jval_of(*v)) == Ok::<GroupV, Seq<char>>(g@),
            Err(e) => group_of_jval(jval_of(*v)) matches Err(t) && t == e@,
        },
{
    match v {
        JsonValue::Obj(o) => {
            let arr = match take_arr(obj_get(o, "shockers")) {
                Some(a) => a,
                None => {
                    return Err(mk_decode_err("shockers"));
                }
            };
            let id = match take_str(obj_get(o, "id")) {
                Some(s) => s,
                None => {
                    return Err(mk_decode_err("id"));
                }
            };
            let name = match take_str(obj_get(o, "name")) {
                Some(s) => s,
                None => {
                    return Err(mk_decode_err("name"));
                }
            };
            let created = match take_str(obj_get(o, "createdOn")) {
                Some(s) => s,
                None => {
                    return Err(mk_decode_err("createdOn"));
                }
            };
            match shockers_from_jvals(arr) {
                Ok(ss) => Ok(
                    ListShockersResponse { shockers: ss, id, name, created_on: created },
                ),
                Err(e) => Err(e),
            }
        }
        JsonValue::Null => Err(mk_decode_err("group")),
        JsonValue::Bool(_) => Err(mk_decode_err("group")),
        JsonValue::Int(_) => Err(mk_decode_err("group")),
        JsonValue::Str(_) => Err(mk_decode_err("group")),
        JsonValue::Arr(_) => Err(mk_decode_err("group")),
    }
}

/// Groups read back from an array, first error wins.
fn groups_from_jvals(a: &Vec<JsonValue>) -> (r: Result<Vec<ListShockersResponse>, DecodeError>)
    ensures
        match r {
            Ok(gs) => groups_of_jvals(jvals_of(a@)) == Ok::<Seq<GroupV>, Seq<char>>(
                gs@.map_values(|g: ListShockersResponse| g@),
            ),
            Err(e) => groups_of_jvals(jvals_of(a@)) matches Err(t) && t == e@,
        },
{
    let mut out: Vec<ListShockersResponse> = Vec::new();
    let mut k: usize = 0;
    proof {
        assert(jvals_of(a@).subrange(0, 0) =~= Seq::<JVal>::empty());
        assert(out@.map_values(|g: ListShockersResponse| g@) =~= Seq::<GroupV>::empty());
    }
    while k < a.len()
        invariant
            k <= a@.len(),
            out@.len() == k,
            groups_of_jvals(jvals_of(a@).subrange(0, k as int)) == Ok::<Seq<GroupV>, Seq<char>>(
                out@.map_values(|g: ListShockersResponse| g@),
            ),
        decreases a@.len() - k,
    {
        let ghost pre = out@.map_values(|g: ListShockersResponse| g@);
        match group_from_jval(&a[k]) {
            Ok(g) => {
                let ghost gv = g@;
                out.push(g);
                proof {
                    assert(jvals_of(a@).subrange(0, k + 1).drop_last() =~= jvals_of(a@).subrange(
                        0,
                        k as int,
                    ));
                    assert(jvals_of(a@).subrange(0, k + 1).last() == jval_of(a@[k as int]));
                    assert(out@.map_values(|g: ListShockersResponse| g@) =~= pre.push(gv));
                }
            }
            Err(e) => {
                proof {
                    lemma_groups_err_extends(jvals_of(a@), k as int, a@.len() as int, e@);
                    assert(jvals_of(a@).subrange(0, a@.len() as int) =~= jvals_of(a@));
                }
                return Err(e);
            }
        }
        k = k + 1;
    }
    proof {
        assert(jvals_of(a@).subrange(0, a@.len() as int) =~= jvals_of(a@));
    }
    Ok(out)
}

/// The listing envelope read from its wire value.
fn list_response_from_jval(v: &JsonValue) -> (r: Result<ListShockersBaseResponse, DecodeError>)
    ensures
        match r {
            Ok(resp) => list_response_of_jval(jval_of(*v)) == Ok::<ListRespV, Seq<char>>(resp@),
            Err(e) => list_response_of_jval(jval_of(*v)) matches Err(t) && t == e@,
        },
{
    match v {
        JsonValue::Obj(o) => {
            let msg = match take_opt_str(obj_get(o, "message")) {
                Ok(m) => m,
                Err(()) => {
                    return Err(mk_decode_err("message"));
                }
            };
            match obj_get(o, "data") {
                None => Ok(ListShockersBaseResponse { message: msg, data: None }),
                Some(JsonValue::Null) => Ok(ListShockersBaseResponse { message: msg, data: None }),
                Some(JsonValue::Arr(a)) => match groups_from_jvals(a) {
                    Ok(gs) => Ok(ListShockersBaseResponse { message: msg, data: Some(gs) }),
                    Err(e) => Err(e),
                },
                Some(JsonValue::Bool(_)) => Err(mk_decode_err("data")),
                Some(JsonValue::Int(_)) => Err(mk_decode_err("data")),
                Some(JsonValue::Str(_)) => Err(mk_decode_err("data")),
                Some(JsonValue::Obj(_)) => Err(mk_decode_err("data")),
            }
        }
        JsonValue::Null => Err(mk_decode_err("object")),
        JsonValue::Bool(_) => Err(mk_decode_err("object")),
        JsonValue::Int(_) => Err(mk_decode_err("object")),
        JsonValue::Str(_) => Err(mk_decode_err("object")),
        JsonValue::Arr(_) => Err(mk_decode_err("object")),
    }
}

/// The control envelope read from its wire value.
fn object_response_from_jval(v: &JsonValue) -> (r: Result<ObjectBaseResponse, DecodeError>)
    ensures
        match r {
            Ok(resp) => object_response_of_jval(jval_of(*v)) == Ok::<ObjectRespV, Seq<char>>(
                resp@,
            ),
            Err(e) => object_response_of_jval(jval_of(*v)) matches Err(t) && t == e@,
        },
{
    match v {
        JsonValue::Obj(o) => {
            let msg = match take_opt_str(obj_get(o, "message")) {
                Ok(m) => m,
                Err(()) => {
                    return Err(mk_decode_err("message"));
                }
            };
            let data = match take_opt_str(obj_get(o, "data")) {
                Ok(d) => d,
                Err(()) => {
                    return Err(mk_decode_err("data"));
                }
            };
            Ok(ObjectBaseResponse { message: msg, data })
        }
        JsonValue::Null => Err(mk_decode_err("object")),
        JsonValue::Bool(_) => Err(mk_decode_err("object")),
        JsonValue::Int(_) => Err(mk_decode_err("object")),
        JsonValue::Str(_) => Err(mk_decode_err("object")),
        JsonValue::Arr(_) => Err(mk_decode_err("object")),
    }
}

/// What decoding a text yields: a parse failure, a shape or token
/// failure, or the decoded view.
pub open spec fn spec_decode<T>(parsed: Option<JVal>, of_jval: spec_fn(JVal) -> Result<T, Seq<char>>) -> Result<T, Seq<char>> {
    match parsed {
        None => Err("json"@),
        Some(v) => of_jval(v),
    }
}

/// Decode the control endpoint's request body.
pub fn decode_control_request(text: &str) -> (r: Result<ControlRequest, DecodeError>)
    ensures
        match r {
            Ok(c) => spec_decode(spec_json(text@), |v: JVal| control_request_of_jval(v)) == Ok::<
                ControlRequestV,
                Seq<char>,
            >(c@),
            Err(e) => spec_decode(spec_json(text@), |v: JVal| control_request_of_jval(v))
                matches Err(t) && t == e@,
        },
{
    match parse_json(text) {
        Some(v) => control_request_from_jval(&v),
        None => Err(mk_decode_err("json")),
    }
}

/// Decode the listing endpoint's response body.
pub fn decode_list_response(text: &str) -> (r: Result<ListShockersBaseResponse, DecodeError>)
    ensures
        match r {
            Ok(resp) => spec_decode(spec_json(text@), |v: JVal| list_response_of_jval(v)) == Ok::<
                ListRespV,
                Seq<char>,
            >(resp@),
            Err(e) => spec_decode(spec_json(text@), |v: JVal| list_response_of_jval(v))
                matches Err(t) && t == e@,
        },
{
    match parse_json(text) {
        Some(v) => list_response_from_jval(&v),
        None => Err(mk_decode_err("json")),
    }
}

/// Decode the control endpoint's response body.
pub fn decode_object_response(text: &str) -> (r: Result<ObjectBaseResponse, DecodeError>)
    ensures
        match r {
            Ok(resp) => spec_decode(spec_json(text@), |v: JVal| object_response_of_jval(v)) == Ok::<
                ObjectRespV,
                Seq<char>,
            >(resp@),
            Err(e) => spec_decode(spec_json(text@), |v: JVal| object_response_of_jval(v))
                matches Err(t) && t == e@,
        },
{
    match parse_json(text) {
        Some(v) => object_response_from_jval(&v),
        None => Err(mk_decode_err("json")),
    }
}

/// Round trip, one command: a command decodes back from its own wire
/// value, unchanged.
pub proof fn lemma_shock_round_trip(s: ShockV)
    ensures
        shock_of_jval(shock_jval(s)) == Ok::<ShockV, Seq<char>>(s),
{
    reveal_with_fuel(jobj_get, 6);
    reveal_strlit("id");
    reveal_strlit("type");
    reveal_strlit("intensity");
    reveal_strlit("duration");
    reveal_strlit("exclusive");
    assert("id"@.len() == 2);
    assert("type"@.len() == 4);
    assert("intensity"@.len() == 9);
    assert("duration"@.len() == 8);
    assert("exclusive"@.len() == 9);
    assert("intensity"@[0] != "exclusive"@[0]);
    let o = shock_jval(s)->Obj_0;
    let o1 = o.drop_first();
    let o2 = o1.drop_first();
    let o3 = o2.drop_first();
    let o4 = o3.drop_first();
    assert(o1[0] == o[1] && o1.len() == 4);
    assert(o2[0] == o[2] && o2.len() == 3);
    assert(o3[0] == o[3] && o3.len() == 2);
    assert(o4[0] == o[4] && o4.len() == 1);
    assert(jobj_get(o, "id"@) == Some(JVal::Str(s.id)));
    assert(jobj_get(o, "type"@) == Some(JVal::Str(action_token(s.control_type))));
    assert(jobj_get(o, "intensity"@) == Some(JVal::Int(s.intensity as int)));
    assert(jobj_get(o, "duration"@) == Some(JVal::Int(s.duration as int)));
    assert(jobj_get(o, "exclusive"@) == Some(JVal::Bool(s.exclusive)));
    crate::model::lemma_action_token_inverse(s.control_type);
    assert(shock_of_jval(shock_jval(s)) == Ok::<ShockV, Seq<char>>(s));
}

/// Round trip, a batch of commands: each decodes back, in order.
pub proof fn lemma_shocks_round_trip(ss: Seq<ShockV>)
    ensures
        shocks_of_jvals(ss.map_values(|s: ShockV| shock_jval(s))) == Ok::<Seq<ShockV>, Seq<char>>(
            ss,
        ),
    decreases ss.len(),
{
    let m = ss.map_values(|s: ShockV| shock_jval(s));
    if ss.len() == 0 {
        assert(m.len() == 0);
        assert(shocks_of_jvals(m) == Ok::<Seq<ShockV>, Seq<char>>(Seq::empty()));
        assert(ss =~= Seq::<ShockV>::empty());
    } else {
        lemma_shocks_round_trip(ss.drop_last());
        lemma_shock_round_trip(ss.last());
        assert(m.drop_last() =~= ss.drop_last().map_values(|s: ShockV| shock_jval(s)));
        assert(m.last() == shock_jval(ss.last()));
        assert(ss.drop_last().push(ss.last()) =~= ss);
    }
}

/// Round trip: a control request decodes back from its own wire value,
/// unchanged. Together with the writer's and parser's contracts this
/// pins the control body's encoding.
pub proof fn lemma_control_request_round_trip(r: ControlRequestV)
    ensures
        control_request_of_jval(control_request_jval(r)) == Ok::<ControlRequestV, Seq<char>>(r),
{
    reveal_with_fuel(jobj_get, 3);
    reveal_strlit("shocks");
    reveal_strlit("customName");
    assert("shocks"@.len() == 6);
    assert("customName"@.len() == 10);
    let o = control_request_jval(r)->Obj_0;
    let o1 = o.drop_first();
    assert(o1[0] == o[1] && o1.len() == 1);
    assert(jobj_get(o, "shocks"@) == Some(
        JVal::Arr(r.shocks.map_values(|s: ShockV| shock_jval(s))),
    ));
    assert(jobj_get(o, "customName"@) == Some(JVal::Str(r.custom_name)));
    lemma_shocks_round_trip(r.shocks);
    assert(control_request_of_jval(control_request_jval(r)) == Ok::<ControlRequestV, Seq<char>>(
        ControlRequestV { shocks: r.shocks, custom_name: r.custom_name },
    ));
    assert(ControlRequestV { shocks: r.shocks, custom_name: r.custom_name } == r);
}

} // verus!
