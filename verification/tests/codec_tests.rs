use shock_client::model::{ControlRequest, ControlType, Shock, ShockerModel};
use shock_client::wire::{decode_control_request, decode_list_response, decode_object_response, encode_control_request};

fn sample_batch() -> ControlRequest {
    ControlRequest {
        shocks: vec![
            Shock {
                id: String::from("s1"),
                control_type: ControlType::Shock,
                intensity: 50,
                duration: 500,
                exclusive: true,
            },
            Shock {
                id: String::from("s2"),
                control_type: ControlType::Stop,
                intensity: 1,
                duration: 300,
                exclusive: true,
            },
        ],
        custom_name: String::from("probe"),
    }
}

#[test]
fn control_batch_round_trips_through_json() {
    let batch = sample_batch();
    let text = encode_control_request(&batch);
    let back = decode_control_request(&text).expect("own encoding must decode");
    assert_eq!(back, batch);
}

#[test]
fn control_batch_round_trips_with_escapes() {
    let batch = ControlRequest {
        shocks: vec![Shock {
            id: String::from("a\"b\\c"),
            control_type: ControlType::Sound,
            intensity: 2,
            duration: 400,
            exclusive: true,
        }],
        custom_name: String::from("line\none\ttab"),
    };
    let text = encode_control_request(&batch);
    let back = decode_control_request(&text).expect("escaped strings must decode");
    assert_eq!(back, batch);
}

#[test]
fn encoding_matches_documented_shape() {
    let batch = ControlRequest {
        shocks: vec![Shock {
            id: String::from("s1"),
            control_type: ControlType::Vibrate,
            intensity: 7,
            duration: 1000,
            exclusive: true,
        }],
        custom_name: String::from("bot"),
    };
    assert_eq!(
        encode_control_request(&batch),
        "{\"shocks\":[{\"id\":\"s1\",\"type\":\"Vibrate\",\"intensity\":7,\"duration\":1000,\"exclusive\":true}],\"customName\":\"bot\"}"
    );
}

#[test]
fn list_response_decodes_documented_sample() {
    let body = "{\"data\":[{\"id\":\"g1\",\"name\":\"Group\",\"createdOn\":\"2024-01-01T00:00:00Z\",\"shockers\":[{\"id\":\"s1\",\"isPaused\":false,\"createdOn\":\"2024-01-01T00:00:00Z\",\"rfId\":12,\"model\":\"PetTrainer\"}]}]}";
    let resp = decode_list_response(body).expect("documented sample must decode");
    let groups = resp.data.expect("sample has data");
    assert_eq!(groups.len(), 1);
    let group = &groups[0];
    assert_eq!(group.id, "g1");
    assert_eq!(group.name, "Group");
    assert_eq!(group.created_on, "2024-01-01T00:00:00Z");
    assert_eq!(group.shockers.len(), 1);
    let shocker = &group.shockers[0];
    assert_eq!(shocker.id, "s1");
    assert_eq!(shocker.name, None);
    assert!(!shocker.is_paused);
    assert_eq!(shocker.rf_id, 12);
    assert_eq!(shocker.model, ShockerModel::PetTrainer);
}

#[test]
fn list_response_tolerates_spacing_and_field_order() {
    let body = " { \"message\" : null , \"data\" : [ { \"shockers\" : [ ] , \"createdOn\" : \"t\" , \"name\" : \"n\" , \"id\" : \"g\" } ] } ";
    let resp = decode_list_response(body).expect("reordered fields must decode");
    let groups = resp.data.expect("data present");
    assert_eq!(groups.len(), 1);
    assert_eq!(groups[0].id, "g");
    assert!(groups[0].shockers.is_empty());
}

#[test]
fn unknown_model_token_is_a_decode_error() {
    let body = "{\"data\":[{\"id\":\"g1\",\"name\":\"G\",\"createdOn\":\"t\",\"shockers\":[{\"id\":\"s1\",\"isPaused\":false,\"createdOn\":\"t\",\"rfId\":1,\"model\":\"FutureModel9000\"}]}]}";
    let err = decode_list_response(body).expect_err("unknown model must not decode");
    assert_eq!(err.raw, "FutureModel9000");
}

#[test]
fn unknown_action_token_is_a_decode_error() {
    let body = "{\"shocks\":[{\"id\":\"s1\",\"type\":\"Tickle\",\"intensity\":1,\"duration\":300,\"exclusive\":true}],\"customName\":\"x\"}";
    let err = decode_control_request(body).expect_err("unknown action must not decode");
    assert_eq!(err.raw, "Tickle");
}

#[test]
fn malformed_text_is_a_decode_error() {
    assert!(decode_list_response("not json at all").is_err());
    assert!(decode_list_response("{\"data\":[").is_err());
    assert!(decode_list_response("").is_err());
}

#[test]
fn negative_rf_id_decodes() {
    let body = "{\"data\":[{\"id\":\"g\",\"name\":\"n\",\"createdOn\":\"t\",\"shockers\":[{\"id\":\"s\",\"isPaused\":true,\"createdOn\":\"t\",\"rfId\":-5,\"model\":\"CaiXianlin\"}]}]}";
    let resp = decode_list_response(body).expect("negative radio ids are valid");
    let groups = resp.data.unwrap();
    assert_eq!(groups[0].shockers[0].rf_id, -5);
    assert!(groups[0].shockers[0].is_paused);
}

#[test]
fn shocker_name_present_decodes() {
    let body = "{\"data\":[{\"id\":\"g\",\"name\":\"n\",\"createdOn\":\"t\",\"shockers\":[{\"name\":\"left\",\"id\":\"s\",\"isPaused\":false,\"createdOn\":\"t\",\"rfId\":3,\"model\":\"Petrainer998DR\"}]}]}";
    let resp = decode_list_response(body).expect("named shocker must decode");
    let groups = resp.data.unwrap();
    assert_eq!(groups[0].shockers[0].name.as_deref(), Some("left"));
    assert_eq!(groups[0].shockers[0].model, ShockerModel::Petrainer998DR);
}

#[test]
fn object_response_decodes_message_and_data() {
    let resp = decode_object_response("{\"message\":\"Successfully sent control messages\",\"data\":null}")
        .expect("control envelope must decode");
    assert_eq!(resp.message.as_deref(), Some("Successfully sent control messages"));
    assert_eq!(resp.data, None);
}
