use emporium::codec::{decode_command, decode_response, encode_command};
use emporium::json::{obj_get, to_text, Json};
use emporium::parse::parse_json;
use emporium::protocol::{Command, CoreError, Response, ToolResult};

fn obj(ms: Vec<(&str, Json)>) -> Json {
    Json::Obj(ms.into_iter().map(|(k, v)| (k.to_string(), v)).collect())
}

fn params() -> Json {
    obj(vec![
        ("symbol", Json::Str("ACME".to_string())),
        ("days", Json::Num("30".to_string())),
        ("flags", Json::Arr(vec![Json::Bool(true), Json::Null])),
    ])
}

#[test]
fn command_round_trip_with_correlation_id() {
    let c = Command::ExecuteTool {
        tool_id: "quotes".to_string(),
        params: params(),
        correlation_id: Some("req-1".to_string()),
    };
    let text = encode_command(c);
    let back = decode_command(&text).unwrap();
    let expected = Command::ExecuteTool {
        tool_id: "quotes".to_string(),
        params: params(),
        correlation_id: Some("req-1".to_string()),
    };
    assert_eq!(back, expected);
}

#[test]
fn command_round_trip_without_correlation_id() {
    let text = encode_command(Command::ListTools { correlation_id: None });
    assert_eq!(decode_command(&text), Some(Command::ListTools { correlation_id: None }));

    let text2 = encode_command(Command::GetToolDetails {
        tool_id: "t".to_string(),
        correlation_id: None,
    });
    assert_eq!(
        decode_command(&text2),
        Some(Command::GetToolDetails { tool_id: "t".to_string(), correlation_id: None })
    );

    let text3 = encode_command(Command::Custom {
        command: "legacy \"quoted\"\n".to_string(),
        correlation_id: Some("z".to_string()),
    });
    assert_eq!(
        decode_command(&text3),
        Some(Command::Custom {
            command: "legacy \"quoted\"\n".to_string(),
            correlation_id: Some("z".to_string()),
        })
    );
}

#[test]
fn encoded_command_is_plain_json() {
    let text = encode_command(Command::ExecuteTool {
        tool_id: "quotes".to_string(),
        params: params(),
        correlation_id: Some("req-9".to_string()),
    });
    let v: serde_json::Value = serde_json::from_str(&text).unwrap();
    assert_eq!(v["type"], "ExecuteTool");
    assert_eq!(v["payload"]["tool_id"], "quotes");
    assert_eq!(v["payload"]["correlation_id"], "req-9");
    assert_eq!(v["payload"]["params"]["symbol"], "ACME");
    assert_eq!(v["payload"]["params"]["days"], 30);

    let text2 = encode_command(Command::ListTools { correlation_id: None });
    let v2: serde_json::Value = serde_json::from_str(&text2).unwrap();
    assert!(v2["payload"].get("correlation_id").is_none());
}

#[test]
fn decode_response_tool_list() {
    let text = " {\"type\": \"ToolList\", \"payload\": {\"tools\": [\
        {\"id\": \"a\", \"name\": \"A\", \"description\": \"d\", \"schema\": {}}\
        ], \"correlation_id\": null}} ";
    let r = decode_response(text).unwrap();
    match r {
        Response::ToolList { tools, correlation_id } => {
            assert_eq!(tools.len(), 1);
            assert_eq!(tools[0].id, "a");
            assert_eq!(tools[0].schema, Json::Obj(vec![]));
            assert_eq!(correlation_id, None);
        },
        other => panic!("unexpected response: {:?}", other),
    }
}

#[test]
fn decode_response_metadata_and_error() {
    let text = "{\"type\":\"Metadata\",\"payload\":{\"id\":\"kv\",\"name\":\"KV\",\
        \"version\":\"0.1.0\",\"description\":\"store\"}}";
    assert_eq!(
        decode_response(text),
        Some(Response::Metadata {
            id: "kv".to_string(),
            name: "KV".to_string(),
            version: "0.1.0".to_string(),
            description: "store".to_string(),
        })
    );

    let err = "{\"type\":\"Error\",\"payload\":{\"message\":\"boom\",\"correlation_id\":\"c7\"}}";
    assert_eq!(
        decode_response(err),
        Some(Response::Error { message: "boom".to_string(), correlation_id: Some("c7".to_string()) })
    );
}

#[test]
fn decode_response_tool_result_frame() {
    let text = "{\"type\":\"ToolResult\",\"payload\":{\"tool_id\":\"q\",\"result\":{\"Ok\":\
        {\"DataFrame\":{\"schema\":[{\"name\":\"x\",\"alias\":\"X\",\"dtype\":\"integer\"}],\
        \"data\":{\"x\":[1,2]},\"metadata\":null}}},\"correlation_id\":\"cc\"}}";
    let r = decode_response(text).unwrap();
    match r {
        Response::ToolResult { tool_id, result, correlation_id } => {
            assert_eq!(tool_id, "q");
            assert_eq!(correlation_id, Some("cc".to_string()));
            let frame = match result {
                Ok(ToolResult::DataFrame(f)) => f,
                other => panic!("unexpected result: {:?}", other),
            };
            let t = frame.to_dataframe().unwrap();
            assert_eq!(
                t.columns[0].cells,
                emporium::table::Cells::Ints(vec![Some(1), Some(2)])
            );
        },
        other => panic!("unexpected response: {:?}", other),
    }
}

#[test]
fn decode_response_guest_error_result() {
    let text = "{\"type\":\"ToolResult\",\"payload\":{\"tool_id\":\"q\",\
        \"result\":{\"Err\":{\"Custom\":\"nope\"}},\"correlation_id\":null}}";
    let r = decode_response(text).unwrap();
    match r {
        Response::ToolResult { result, .. } => {
            assert_eq!(result, Err(CoreError::Custom("nope".to_string())));
        },
        other => panic!("unexpected response: {:?}", other),
    }
}

#[test]
fn rejected_response_texts() {
    assert_eq!(decode_response("not json"), None);
    assert_eq!(decode_response("{\"type\":\"Nope\",\"payload\":{}}"), None);
    assert_eq!(decode_response("{\"type\":\"Error\",\"payload\":{}}"), None);
    assert_eq!(decode_response("[1,2,3]"), None);
}

#[test]
fn parse_json_values() {
    assert_eq!(parse_json("null"), Some(Json::Null));
    assert_eq!(parse_json(" true "), Some(Json::Bool(true)));
    assert_eq!(parse_json("-12.5e3"), Some(Json::Num("-12.5e3".to_string())));
    assert_eq!(parse_json("\"a\\u0041\\n\""), Some(Json::Str("aA\n".to_string())));
    assert_eq!(
        parse_json("[1, \"x\", {\"k\": false}]"),
        Some(Json::Arr(vec![
            Json::Num("1".to_string()),
            Json::Str("x".to_string()),
            obj(vec![("k", Json::Bool(false))]),
        ]))
    );
}

#[test]
fn parse_json_surrogate_pairs() {
    assert_eq!(
        parse_json("\"\\ud835\\udd38\""),
        Some(Json::Str("\u{1d538}".to_string()))
    );
    assert_eq!(parse_json("\"\\udc00\""), None);
    assert_eq!(parse_json("\"\\ud835x\""), None);
}

#[test]
fn parse_json_rejects() {
    assert_eq!(parse_json("01"), None);
    assert_eq!(parse_json("1 2"), None);
    assert_eq!(parse_json("[1,]"), None);
    assert_eq!(parse_json("\"\\ud800\""), None);
    assert_eq!(parse_json("{\"a\":}"), None);
    assert_eq!(parse_json(""), None);
}

#[test]
fn render_then_parse_is_identity() {
    let v = obj(vec![
        ("name", Json::Str("a\"b\\c\u{0007}".to_string())),
        ("nums", Json::Arr(vec![Json::Num("0".to_string()), Json::Num("-3.5".to_string())])),
        ("empty", Json::Obj(vec![])),
        ("nothing", Json::Null),
    ]);
    let text = to_text(&v);
    let back = parse_json(&text).unwrap();
    assert_eq!(back, v);
}

#[test]
fn object_lookup_takes_last_duplicate() {
    let v = parse_json("{\"k\":1,\"k\":2}").unwrap();
    match &v {
        Json::Obj(ms) => {
            assert_eq!(obj_get(ms, "k"), Some(&Json::Num("2".to_string())));
        },
        other => panic!("unexpected value: {:?}", other),
    }
}

#[test]
fn decode_response_tool_details() {
    let text = "{\"type\":\"ToolDetails\",\"payload\":{\"tool_id\":\"t\",\"tool_info\":{\"id\":\"t\",\"name\":\"T\",\"description\":\"d\",\"schema\":{\"k\":1}},\"correlation_id\":\"c\"}}";
    let r = decode_response(text).unwrap();
    match r {
        Response::ToolDetails { tool_id, tool_info, correlation_id } => {
            assert_eq!(tool_id, "t");
            assert_eq!(tool_info.name, "T");
            assert_eq!(tool_info.schema, obj(vec![("k", Json::Num("1".to_string()))]));
            assert_eq!(correlation_id, Some("c".to_string()));
        },
        other => panic!("unexpected response: {:?}", other),
    }
}

#[test]
fn decode_response_core_error_variants() {
    let je = "{\"type\":\"ToolResult\",\"payload\":{\"tool_id\":\"q\",\"result\":{\"Err\":{\"JsonError\":\"bad json\"}},\"correlation_id\":null}}";
    match decode_response(je).unwrap() {
        Response::ToolResult { result, .. } => {
            assert_eq!(result, Err(CoreError::JsonError("bad json".to_string())));
        },
        other => panic!("unexpected response: {:?}", other),
    }
    let de = "{\"type\":\"ToolResult\",\"payload\":{\"tool_id\":\"q\",\"result\":{\"Err\":{\"DataFrameError\":\"bad frame\"}},\"correlation_id\":null}}";
    match decode_response(de).unwrap() {
        Response::ToolResult { result, .. } => {
            assert_eq!(result, Err(CoreError::DataFrameError("bad frame".to_string())));
        },
        other => panic!("unexpected response: {:?}", other),
    }
}

#[test]
fn decode_command_accepts_and_rejects() {
    let ok = "{\"type\":\"GetToolDetails\",\"payload\":{\"tool_id\":\"t\"}}";
    assert_eq!(
        decode_command(ok),
        Some(Command::GetToolDetails { tool_id: "t".to_string(), correlation_id: None })
    );
    let wrong_cid = "{\"type\":\"ListTools\",\"payload\":{\"correlation_id\":5}}";
    assert_eq!(decode_command(wrong_cid), None);
    let unknown = "{\"type\":\"Shutdown\",\"payload\":{}}";
    assert_eq!(decode_command(unknown), None);
    let missing_params = "{\"type\":\"ExecuteTool\",\"payload\":{\"tool_id\":\"t\"}}";
    assert_eq!(decode_command(missing_params), None);
}
