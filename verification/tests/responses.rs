use rest_bindings::envelope_workflow_definition::EnvelopeWorkflowDefinition;
use rest_bindings::response::{acknowledge, decoded, payload, ApiError, Outcome};
use rest_bindings::webhooks::Webhooks;

fn answer(status: u16, body: &[u8]) -> Outcome {
    Outcome::Answer { status, body: body.to_vec() }
}

#[test]
fn delete_of_a_missing_id_is_a_transport_error() {
    let request = Webhooks::new(()).delete(404404);
    assert_eq!(request.url, "/webhook/404404");
    let result = acknowledge(answer(404, b"{\"message\":\"not found\"}"));
    assert_eq!(result, Err(ApiError::Transport { status: Some(404) }));
}

#[test]
fn successful_statuses() {
    assert_eq!(payload(answer(200, b"[]")), Ok(b"[]".to_vec()));
    assert_eq!(payload(answer(204, b"")), Ok(Vec::new()));
    assert_eq!(payload(answer(299, b"x")), Ok(b"x".to_vec()));
    assert_eq!(acknowledge(answer(200, b"ignored")), Ok(()));
    assert_eq!(acknowledge(answer(204, b"")), Ok(()));
}

#[test]
fn other_statuses_are_transport_errors() {
    assert_eq!(payload(answer(199, b"x")), Err(ApiError::Transport { status: Some(199) }));
    assert_eq!(payload(answer(300, b"x")), Err(ApiError::Transport { status: Some(300) }));
    assert_eq!(payload(answer(500, b"")), Err(ApiError::Transport { status: Some(500) }));
    assert_eq!(payload(answer(0, b"")), Err(ApiError::Transport { status: Some(0) }));
    assert_eq!(acknowledge(answer(301, b"")), Err(ApiError::Transport { status: Some(301) }));
    assert_eq!(
        acknowledge(answer(u16::MAX, b"")),
        Err(ApiError::Transport { status: Some(u16::MAX) })
    );
}

#[test]
fn no_answer_is_a_transport_error_without_status() {
    assert_eq!(payload(Outcome::Unreachable), Err(ApiError::Transport { status: None }));
    assert_eq!(acknowledge(Outcome::Unreachable), Err(ApiError::Transport { status: None }));
}

#[test]
fn unreadable_body_is_a_serialization_error() {
    assert_eq!(decoded::<u8>(None), Err(ApiError::Serialization));
    assert_eq!(decoded(Some(5u8)), Ok(5u8));
}

#[test]
fn json_body_comes_back_equal() {
    let mut step = serde_json::Map::new();
    step.insert("action".to_string(), serde_json::Value::String("pause_before".to_string()));
    step.insert("itemId".to_string(), serde_json::Value::from(3u64));
    let mut workflow = serde_json::Map::new();
    workflow.insert("currentWorkflowStepId".to_string(), serde_json::Value::Null);
    workflow.insert(
        "workflowSteps".to_string(),
        serde_json::Value::Array(vec![serde_json::Value::Object(step)]),
    );
    let value = serde_json::Value::Object(workflow);

    let bytes = serde_json::to_vec(&value).unwrap();
    let request = EnvelopeWorkflowDefinition::new(()).put("A1", "E1", bytes.clone());
    assert_eq!(request.body, Some(bytes));

    let echoed = payload(Outcome::Answer { status: 200, body: request.body.unwrap() }).unwrap();
    let back = decoded(serde_json::from_slice::<serde_json::Value>(&echoed).ok());
    assert_eq!(back, Ok(value));
}

#[test]
fn malformed_json_is_a_serialization_error() {
    let bytes = payload(answer(200, b"{\"a\":")).unwrap();
    let back = decoded(serde_json::from_slice::<serde_json::Value>(&bytes).ok());
    assert_eq!(back, Err(ApiError::Serialization));
}
