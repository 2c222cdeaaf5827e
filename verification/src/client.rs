//! Transport client and command facade.
//!
//! A `ShockerClient` holds the immutable session configuration: base
//! URL, auth token and request label. It builds complete request plans
//! (method, path, fixed headers, body) for the two endpoints and
//! classifies raw HTTP outcomes into the error taxonomy. The network
//! round trip itself is performed by the embedding program, which
//! hands the outcome back.

use vstd::prelude::*;
use crate::model::{ControlRequest, ControlRequestV, ControlType, ListShockersResponse, GroupV, Shock, ShockV};
use crate::validate::{spec_validate, validate_command};
use crate::error::{Ack, ClientError, ClientErrV, CommandError};
use crate::wire::{
    control_request_jval, decode_list_response, encode_control_request, list_response_of_jval,
    spec_decode,
};
use crate::json::{json_text, spec_json, JVal};

verus! {

/// A complete outbound request: everything the transport needs.
#[derive(Debug)]
pub struct RequestPlan {
    pub method: String,
    pub path: String,
    pub headers: Vec<(String, String)>,
    pub body: Option<String>,
}

/// Mathematical view of a `RequestPlan`.
pub ghost struct PlanV {
    pub method: Seq<char>,
    pub path: Seq<char>,
    pub headers: Seq<(Seq<char>, Seq<char>)>,
    pub body: Option<Seq<char>>,
}

impl View for RequestPlan {
    type V = PlanV;

    open spec fn view(&self) -> PlanV {
        PlanV {
            method: self.method@,
            path: self.path@,
            headers: self.headers@.map_values(|h: (String, String)| (h.0@, h.1@)),
            body: match self.body {
                Some(b) => Some(b@),
                None => None,
            },
        }
    }
}

/// What one HTTP round trip came to: a response with its status and
/// body, or none at all.
pub enum HttpOutcome {
    Response { status: u16, body: String },
    NoResponse,
}

/// Mathematical view of an `HttpOutcome`.
pub ghost enum OutcomeV {
    Response { status: u16, body: Seq<char> },
    NoResponse,
}

impl View for HttpOutcome {
    type V = OutcomeV;

    open spec fn view(&self) -> OutcomeV {
        match self {
            HttpOutcome::Response { status, body } => OutcomeV::Response {
                status: *status,
                body: body@,
            },
            HttpOutcome::NoResponse => OutcomeV::NoResponse,
        }
    }
}

/// The authenticated session configuration, immutable once built.
pub struct ShockerClient {
    pub base_url: String,
    pub auth_token: String,
    pub label: String,
}

/// Mathematical view of a `ShockerClient`.
pub ghost struct ClientV {
    pub base_url: Seq<char>,
    pub auth_token: Seq<char>,
    pub label: Seq<char>,
}

impl View for ShockerClient {
    type V = ClientV;

    open spec fn view(&self) -> ClientV {
        ClientV {
            base_url: self.base_url@,
            auth_token: self.auth_token@,
            label: self.label@,
        }
    }
}

/// The fixed headers every request carries: content type, accept, and
/// the service's token header.
pub open spec fn spec_headers(c: ClientV) -> Seq<(Seq<char>, Seq<char>)> {
    seq![
        ("Content-Type"@, "application/json"@),
        ("Accept"@, "application/json"@),
        ("OpenShockToken"@, c.auth_token),
    ]
}

/// The listing request: an authenticated read, no body.
pub open spec fn spec_list_plan(c: ClientV) -> PlanV {
    PlanV {
        method: "GET"@,
        path: c.base_url + "/1/shockers/own"@,
        headers: spec_headers(c),
        body: None,
    }
}

/// The control request: an authenticated write carrying the encoded
/// batch.
pub open spec fn spec_control_plan(c: ClientV, b: ControlRequestV) -> PlanV {
    PlanV {
        method: "POST"@,
        path: c.base_url + "/2/shockers/control"@,
        headers: spec_headers(c),
        body: Some(json_text(control_request_jval(b))),
    }
}

/// The batch one actuation builds: exactly one command, exclusive, the
/// client's label.
pub open spec fn spec_batch(
    id: Seq<char>,
    action: ControlType,
    intensity: u8,
    duration: u16,
    label: Seq<char>,
) -> ControlRequestV {
    ControlRequestV {
        shocks: seq![
            ShockV { id, control_type: action, intensity, duration, exclusive: true },
        ],
        custom_name: label,
    }
}

/// Classification of a control outcome: no response is `Unreachable`,
/// a status outside `2xx` is `Rejected`, a `2xx` acknowledges.
pub open spec fn spec_actuate_outcome(o: OutcomeV) -> Result<Ack, CommandError> {
    match o {
        OutcomeV::NoResponse => Err(CommandError::Unreachable),
        OutcomeV::Response { status, body } => {
            if 200 <= status < 300 {
                Ok(Ack)
            } else {
                Err(CommandError::Rejected(status))
            }
        }
    }
}

/// Classification of a listing outcome: no response, a bad status, an
/// undecodable body, a missing `data` field, or the groups.
pub open spec fn spec_list_outcome(o: OutcomeV) -> Result<Seq<GroupV>, ClientErrV> {
    match o {
        OutcomeV::NoResponse => Err(ClientErrV::Transport),
        OutcomeV::Response { status, body } => {
            if !(200 <= status < 300) {
                Err(ClientErrV::Http(status))
            } else {
                match spec_decode(spec_json(body), |v: JVal| list_response_of_jval(v)) {
                    Err(t) => Err(ClientErrV::Decode(t)),
                    Ok(lv) => match lv.data {
                        None => Err(ClientErrV::EmptyResult),
                        Some(gs) => Ok(gs),
                    },
                }
            }
        }
    }
}

impl ShockerClient {
    /// Build a client from its resolved configuration. Nothing is
    /// loaded or reloaded afterwards.
    pub fn new(base_url: String, auth_token: String, label: String) -> (c: Self)
        ensures
            c@ == (ClientV { base_url: base_url@, auth_token: auth_token@, label: label@ }),
    {
        ShockerClient { base_url, auth_token, label }
    }

    /// The fixed headers, as owned pairs.
    fn headers(&self) -> (h: Vec<(String, String)>)
        ensures
            h@.map_values(|p: (String, String)| (p.0@, p.1@)) == spec_headers(self@),
    {
        let mut h: Vec<(String, String)> = Vec::new();
        h.push((String::from_str("Content-Type"), String::from_str("application/json")));
        h.push((String::from_str("Accept"), String::from_str("application/json")));
        h.push((String::from_str("OpenShockToken"), self.auth_token.clone()));
        proof {
            assert(h@.map_values(|p: (String, String)| (p.0@, p.1@)) =~= spec_headers(self@));
        }
        h
    }

    /// Plan the listing request.
    pub fn list_request(&self) -> (p: RequestPlan)
        ensures
            p@ == spec_list_plan(self@),
    {
        let p = RequestPlan {
            method: String::from_str("GET"),
            path: self.base_url.clone().concat("/1/shockers/own"),
            headers: self.headers(),
            body: None,
        };
        p
    }

    /// Plan the control request for an already-validated batch.
    pub fn control_request_plan(&self, batch: &ControlRequest) -> (p: RequestPlan)
        ensures
            p@ == spec_control_plan(self@, batch@),
    {
        let body = encode_control_request(batch);
        let p = RequestPlan {
            method: String::from_str("POST"),
            path: self.base_url.clone().concat("/2/shockers/control"),
            headers: self.headers(),
            body: Some(body),
        };
        p
    }

    /// The command facade's outbound half: validate, build the batch
    /// of exactly one command, and plan the request. Out-of-range
    /// input is rejected here and nothing is planned, so no request
    /// can be issued for it.
    pub fn actuate_request(
        &self,
        device_id: &str,
        action: ControlType,
        intensity: Option<u8>,
        duration: Option<u16>,
    ) -> (r: Result<RequestPlan, CommandError>)
        ensures
            match spec_validate(action, intensity, duration) {
                Ok((vi, vd)) => r matches Ok(p) && p@ == spec_control_plan(
                    self@,
                    spec_batch(device_id@, action, vi, vd, self@.label),
                ),
                Err(ve) => r == Err::<RequestPlan, CommandError>(CommandError::Invalid(ve)),
            },
    {
        let (vi, vd) = match validate_command(action, intensity, duration) {
            Ok(pair) => pair,
            Err(ve) => {
                return Err(CommandError::Invalid(ve));
            }
        };
        let mut shocks: Vec<Shock> = Vec::new();
        shocks.push(
            Shock {
                id: String::from_str(device_id),
                control_type: action,
                intensity: vi,
                duration: vd,
                exclusive: true,
            },
        );
        let batch = ControlRequest { shocks, custom_name: self.label.clone() };
        proof {
            assert(batch@.shocks =~= spec_batch(device_id@, action, vi, vd, self@.label).shocks);
            assert(batch@ == spec_batch(device_id@, action, vi, vd, self@.label));
        }
        Ok(self.control_request_plan(&batch))
    }

    /// The command facade's inbound half: classify what the round
    /// trip came to.
    pub fn actuate_outcome(&self, outcome: &HttpOutcome) -> (r: Result<Ack, CommandError>)
        ensures
            r == spec_actuate_outcome(outcome@),
    {
        match outcome {
            HttpOutcome::NoResponse => Err(CommandError::Unreachable),
            HttpOutcome::Response { status, body } => {
                if 200 <= *status && *status < 300 {
                    Ok(Ack)
                } else {
                    Err(CommandError::Rejected(*status))
                }
            }
        }
    }

    /// The listing operation's inbound half: classify the outcome and
    /// decode the groups, with an absent `data` field kept distinct
    /// from an empty list.
    pub fn list_outcome(&self, outcome: &HttpOutcome) -> (r: Result<
        Vec<ListShockersResponse>,
        ClientError,
    >)
        ensures
            match r {
                Ok(gs) => spec_list_outcome(outcome@) == Ok::<Seq<GroupV>, ClientErrV>(
                    gs@.map_values(|g: ListShockersResponse| g@),
                ),
                Err(e) => spec_list_outcome(outcome@) == Err::<Seq<GroupV>, ClientErrV>(e@),
            },
    {
        match outcome {
            HttpOutcome::NoResponse => Err(ClientError::Transport),
            HttpOutcome::Response { status, body } => {
                if !(200 <= *status && *status < 300) {
                    return Err(ClientError::Http(*status));
                }
                match decode_list_response(body.as_str()) {
                    Err(e) => Err(ClientError::Decode(e)),
                    Ok(resp) => match resp.data {
                        None => Err(ClientError::EmptyResult),
                        Some(gs) => Ok(gs),
                    },
                }
            }
        }
    }
}

} // verus!
