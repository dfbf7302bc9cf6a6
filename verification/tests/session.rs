use emporium::json::Json;
use emporium::protocol::{Command, Response};
use emporium::session::{interpret_outcome, run_session, Event, GuestMetadata, GuestOutcome};

fn meta() -> GuestMetadata {
    GuestMetadata {
        id: "kv".to_string(),
        name: "Key-Value Extension".to_string(),
        version: "0.1.0".to_string(),
        description: "store".to_string(),
    }
}

#[test]
fn closing_with_no_commands_emits_only_metadata_and_readiness() {
    let events = run_session(meta(), vec![]);
    assert_eq!(events.len(), 2);
    assert_eq!(
        events[0],
        Event::Core(Response::Metadata {
            id: "kv".to_string(),
            name: "Key-Value Extension".to_string(),
            version: "0.1.0".to_string(),
            description: "store".to_string(),
        })
    );
    assert_eq!(events[1], Event::Connected);
}

#[test]
fn responses_come_in_submission_order() {
    let a = Command::ListTools { correlation_id: Some("a".to_string()) };
    let b = Command::ListTools { correlation_id: Some("b".to_string()) };
    let events = run_session(
        meta(),
        vec![
            (a, GuestOutcome::GuestFailure("first".to_string())),
            (b, GuestOutcome::GuestFailure("second".to_string())),
        ],
    );
    assert_eq!(events.len(), 4);
    assert_eq!(
        events[2],
        Event::Core(Response::Error {
            message: "first".to_string(),
            correlation_id: Some("a".to_string()),
        })
    );
    assert_eq!(
        events[3],
        Event::Core(Response::Error {
            message: "second".to_string(),
            correlation_id: Some("b".to_string()),
        })
    );
}

#[test]
fn missing_tool_error_keeps_session_processing() {
    let failing = Command::ExecuteTool {
        tool_id: "missing_tool".to_string(),
        params: Json::Obj(vec![]),
        correlation_id: Some("c1".to_string()),
    };
    let next = Command::ListTools { correlation_id: Some("c2".to_string()) };
    let reply = "{\"type\":\"ToolList\",\"payload\":{\"tools\":[],\"correlation_id\":\"c2\"}}";
    let events = run_session(
        meta(),
        vec![
            (
                failing,
                GuestOutcome::GuestFailure(
                    "tool execution failed: tool 'missing_tool' not found".to_string(),
                ),
            ),
            (next, GuestOutcome::Reply(reply.to_string())),
        ],
    );
    assert_eq!(events.len(), 4);
    assert_eq!(
        events[2],
        Event::Core(Response::Error {
            message: "tool execution failed: tool 'missing_tool' not found".to_string(),
            correlation_id: Some("c1".to_string()),
        })
    );
    assert_eq!(
        events[3],
        Event::Core(Response::ToolList { tools: vec![], correlation_id: Some("c2".to_string()) })
    );
}

#[test]
fn reply_that_decodes_passes_through() {
    let text = "{\"type\":\"Error\",\"payload\":{\"message\":\"from guest\",\
        \"correlation_id\":\"own\"}}";
    let r = interpret_outcome(GuestOutcome::Reply(text.to_string()), Some("outer".to_string()));
    assert_eq!(
        r,
        Response::Error { message: "from guest".to_string(), correlation_id: Some("own".to_string()) }
    );
}

#[test]
fn reply_that_does_not_decode_becomes_error_with_correlation_id() {
    let r = interpret_outcome(
        GuestOutcome::Reply("garbage".to_string()),
        Some("c9".to_string()),
    );
    assert_eq!(
        r,
        Response::Error {
            message: "Failed to deserialize response".to_string(),
            correlation_id: Some("c9".to_string()),
        }
    );
}

#[test]
fn runtime_fault_is_reported_and_non_fatal() {
    let r = interpret_outcome(GuestOutcome::RuntimeFault("trap".to_string()), None);
    assert_eq!(
        r,
        Response::Error { message: "Runtime error: trap".to_string(), correlation_id: None }
    );
}
