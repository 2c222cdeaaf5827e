use shock_client::client::{HttpOutcome, ShockerClient};
use shock_client::error::{command_error_of, Ack, ClientError, CommandError, DecodeError};
use shock_client::model::ControlType;
use shock_client::validate::CommandField;

fn client() -> ShockerClient {
    ShockerClient::new(
        String::from("https://api.example.test"),
        String::from("tok-123"),
        String::from("label"),
    )
}

#[test]
fn actuate_builds_exact_body() {
    let c = client();
    let plan = c
        .actuate_request("s1", ControlType::Shock, Some(50), Some(500))
        .expect("in-range command must validate");
    assert_eq!(plan.method, "POST");
    assert_eq!(plan.path, "https://api.example.test/2/shockers/control");
    assert_eq!(
        plan.body.as_deref(),
        Some(
            "{\"shocks\":[{\"id\":\"s1\",\"type\":\"Shock\",\"intensity\":50,\"duration\":500,\"exclusive\":true}],\"customName\":\"label\"}"
        )
    );
}

#[test]
fn actuate_success_on_http_200() {
    let c = client();
    let outcome = HttpOutcome::Response {
        status: 200,
        body: String::from("{\"message\":null,\"data\":\"ok\"}"),
    };
    assert_eq!(c.actuate_outcome(&outcome), Ok(Ack));
}

#[test]
fn actuate_rejected_on_http_403() {
    let c = client();
    let outcome = HttpOutcome::Response { status: 403, body: String::new() };
    assert_eq!(c.actuate_outcome(&outcome), Err(CommandError::Rejected(403)));
}

#[test]
fn actuate_unreachable_without_response() {
    let c = client();
    assert_eq!(
        c.actuate_outcome(&HttpOutcome::NoResponse),
        Err(CommandError::Unreachable)
    );
}

#[test]
fn actuate_rejects_overlarge_intensity_before_any_request() {
    let c = client();
    let r = c.actuate_request("s1", ControlType::Shock, Some(150), Some(500));
    match r {
        Err(CommandError::Invalid(ve)) => {
            assert_eq!(ve.field, CommandField::Intensity);
            assert_eq!(ve.got, 150);
            assert_eq!(ve.min, 1);
            assert_eq!(ve.max, 100);
        }
        other => panic!("expected a validation rejection, got {:?}", other),
    }
}

#[test]
fn actuate_rejects_zero_intensity() {
    let c = client();
    let r = c.actuate_request("s1", ControlType::Vibrate, Some(0), Some(500));
    match r {
        Err(CommandError::Invalid(ve)) => {
            assert_eq!(ve.field, CommandField::Intensity);
            assert_eq!(ve.got, 0);
        }
        other => panic!("expected a validation rejection, got {:?}", other),
    }
}

#[test]
fn actuate_rejects_short_and_long_durations() {
    let c = client();
    for bad in [299u16, 30001u16] {
        let r = c.actuate_request("s1", ControlType::Sound, Some(10), Some(bad));
        match r {
            Err(CommandError::Invalid(ve)) => {
                assert_eq!(ve.field, CommandField::Duration);
                assert_eq!(ve.got, bad);
                assert_eq!(ve.min, 300);
                assert_eq!(ve.max, 30000);
            }
            other => panic!("expected a validation rejection, got {:?}", other),
        }
    }
}

#[test]
fn actuate_accepts_duration_bounds() {
    let c = client();
    assert!(c.actuate_request("s1", ControlType::Shock, Some(1), Some(300)).is_ok());
    assert!(c.actuate_request("s1", ControlType::Shock, Some(100), Some(30000)).is_ok());
}

#[test]
fn actuate_defaults_when_values_missing() {
    let c = client();
    let plan = c
        .actuate_request("s1", ControlType::Vibrate, None, None)
        .expect("defaults are in range");
    assert_eq!(
        plan.body.as_deref(),
        Some(
            "{\"shocks\":[{\"id\":\"s1\",\"type\":\"Vibrate\",\"intensity\":1,\"duration\":300,\"exclusive\":true}],\"customName\":\"label\"}"
        )
    );
}

#[test]
fn stop_accepts_any_values() {
    let c = client();
    let plan = c
        .actuate_request("s1", ControlType::Stop, Some(255), Some(1))
        .expect("stop ignores intensity and duration");
    assert_eq!(
        plan.body.as_deref(),
        Some(
            "{\"shocks\":[{\"id\":\"s1\",\"type\":\"Stop\",\"intensity\":1,\"duration\":300,\"exclusive\":true}],\"customName\":\"label\"}"
        )
    );
}

#[test]
fn list_request_is_authenticated_read() {
    let c = client();
    let plan = c.list_request();
    assert_eq!(plan.method, "GET");
    assert_eq!(plan.path, "https://api.example.test/1/shockers/own");
    assert!(plan.body.is_none());
    let headers: Vec<(String, String)> = plan.headers;
    assert!(headers.iter().any(|h| h.0 == "Content-Type" && h.1 == "application/json"));
    assert!(headers.iter().any(|h| h.0 == "Accept" && h.1 == "application/json"));
    assert!(headers.iter().any(|h| h.0 == "OpenShockToken" && h.1 == "tok-123"));
}

#[test]
fn list_outcome_classifies_failures() {
    let c = client();
    assert_eq!(
        c.list_outcome(&HttpOutcome::NoResponse),
        Err(ClientError::Transport)
    );
    let not_found = HttpOutcome::Response { status: 404, body: String::new() };
    assert_eq!(c.list_outcome(&not_found), Err(ClientError::Http(404)));
}

#[test]
fn list_outcome_empty_data_is_distinct() {
    let c = client();
    let no_data = HttpOutcome::Response {
        status: 200,
        body: String::from("{\"message\":\"fine\"}"),
    };
    assert_eq!(c.list_outcome(&no_data), Err(ClientError::EmptyResult));
    let empty_list = HttpOutcome::Response {
        status: 200,
        body: String::from("{\"data\":[]}"),
    };
    let groups = c.list_outcome(&empty_list).expect("an empty list is a success");
    assert!(groups.is_empty());
}

#[test]
fn transport_errors_map_into_the_facade_taxonomy() {
    assert_eq!(command_error_of(ClientError::Http(500)), CommandError::Rejected(500));
    assert_eq!(command_error_of(ClientError::Transport), CommandError::Unreachable);
    assert_eq!(
        command_error_of(ClientError::Decode(DecodeError { raw: String::from("x") })),
        CommandError::MalformedResponse
    );
    assert_eq!(
        command_error_of(ClientError::EmptyResult),
        CommandError::MalformedResponse
    );
}

#[test]
fn list_outcome_surfaces_decode_failures() {
    let c = client();
    let bad = HttpOutcome::Response { status: 200, body: String::from("[1,2") };
    match c.list_outcome(&bad) {
        Err(ClientError::Decode(_)) => {}
        other => panic!("expected a decode failure, got {:?}", other),
    }
}
