use serde_json::Value;
use vk_kernel::json::{Fields, Items, Json};
use vk_kernel::mcp::{
    call_answer, handle, initialize_result, kernel_of, lease_of, refused_text, render,
    tool_syscall, Asked, PROTOCOL_VERSION, SERVER_NAME,
};

fn json_of(v: &Value) -> Json {
    match v {
        Value::Null => Json::Null,
        Value::Bool(b) => Json::Bool(*b),
        Value::Number(n) => match n.as_u64() {
            Some(u) => Json::Unsigned(u),
            None => Json::Real(n.to_string()),
        },
        Value::String(s) => Json::Text(s.clone()),
        Value::Array(items) => {
            let mut out = Items::new();
            for i in items {
                out.add(json_of(i));
            }
            out.array()
        }
        Value::Object(members) => {
            let mut out = Fields::new();
            for (name, value) in members {
                out.put(name, json_of(value));
            }
            out.object()
        }
    }
}

fn parsed(s: &str) -> Json {
    json_of(&serde_json::from_str(s).unwrap())
}

fn answered(a: Asked) -> Json {
    match a {
        Asked::Answer(v) => v,
        other => panic!("not an answer: {other:?}"),
    }
}

#[test]
fn initialize_lists_tools_and_calls_a_tool_as_a_syscall() {
    let token = lease_of(Some("lease-token-42".to_string())).unwrap();

    // 1: initialize — the server identifies as `vk` and echoes the version.
    let init = answered(handle(
        &parsed(
            "{\"jsonrpc\": \"2.0\", \"id\": 1, \"method\": \"initialize\", \"params\": {\"protocolVersion\": \"2024-11-05\", \"capabilities\": {}}}",
        ),
        "0.1.0",
    ));
    assert_eq!(init.number_at("id"), Some(1));
    let result = init.get("result").unwrap();
    assert_eq!(result.get("serverInfo").unwrap().text_at("name").unwrap(), "vk");
    assert_eq!(result.text_at("protocolVersion").unwrap(), "2024-11-05");
    assert!(matches!(
        result.get("capabilities").unwrap().get("tools"),
        Some(Json::Object(_))
    ));

    // 2: tools/list — the five vk_* tools.
    let list = answered(handle(
        &parsed("{\"jsonrpc\": \"2.0\", \"id\": 2, \"method\": \"tools/list\", \"params\": {}}"),
        "0.1.0",
    ));
    assert_eq!(list.number_at("id"), Some(2));
    let names: Vec<String> = match list.get("result").unwrap().get("tools").unwrap() {
        Json::Array(tools) => tools.iter().map(|t| t.text_at("name").unwrap().clone()).collect(),
        other => panic!("{other:?}"),
    };
    for expected in [
        "vk_read_register",
        "vk_write_decision",
        "vk_attach_artefact",
        "vk_request_approval",
        "vk_log",
    ] {
        assert!(names.iter().any(|n| n == expected), "missing {expected} in {names:?}");
    }

    // 3: tools/call vk_log — bridged to the harness.log syscall and back.
    let (id, name, args) = match handle(
        &parsed(
            "{\"jsonrpc\": \"2.0\", \"id\": 3, \"method\": \"tools/call\", \"params\": {\"name\": \"vk_log\", \"arguments\": {\"message\": \"hello from the harness\"}}}",
        ),
        "0.1.0",
    ) {
        Asked::Call { id, name, args } => (id, name, args),
        other => panic!("{other:?}"),
    };
    let call = match tool_syscall(&token, &name, &args) {
        Ok(c) => c,
        Err(e) => panic!("{e}"),
    };
    // The syscall carries the token that the caller never supplied.
    assert_eq!(call.method, "harness.log");
    assert_eq!(call.params.text_at("token").unwrap(), "lease-token-42");
    assert_eq!(call.params.text_at("message").unwrap(), "hello from the harness");
    let text = render(&name, &parsed("{\"ok\": true}"));
    let called = call_answer(id, Ok(text));
    assert_eq!(called.number_at("id"), Some(3));
    let result = called.get("result").unwrap();
    assert_eq!(result.bool_at("isError"), Some(false));
    match result.get("content").unwrap() {
        Json::Array(parts) => assert_eq!(parts[0].text_at("text").unwrap(), "logged"),
        other => panic!("{other:?}"),
    }
}

#[test]
fn a_token_in_the_arguments_does_not_reach_the_kernel() {
    let call = match tool_syscall(
        "mine",
        "vk_write_decision",
        &parsed("{\"token\": \"theirs\", \"text\": \"do it\"}"),
    ) {
        Ok(c) => c,
        Err(e) => panic!("{e}"),
    };
    assert_eq!(call.method, "harness.write_decision");
    assert_eq!(call.params.text_at("token").unwrap(), "mine");
    assert!(!call.params.render().contains("theirs"));
}

#[test]
fn a_tool_that_is_not_there_or_lacks_an_argument_is_an_error_of_the_tool() {
    assert!(tool_syscall("t", "vk_shell", &parsed("{}")).is_err());
    match tool_syscall("t", "vk_log", &parsed("{}")) {
        Err(why) => assert_eq!(why, "vk_log needs a string `message`"),
        Ok(_) => panic!("a log with no message"),
    }
    let v = call_answer(Json::Unsigned(4), Err("no".to_string()));
    assert_eq!(v.get("result").unwrap().bool_at("isError"), Some(true));
    assert_eq!(refused_text("vk_log", "I1"), "vk_log refused by the kernel: I1");
}

#[test]
fn a_notification_is_not_answered_and_an_unknown_method_is_refused() {
    let note = parsed("{\"jsonrpc\": \"2.0\", \"method\": \"notifications/initialized\"}");
    assert!(matches!(handle(&note, "0.1.0"), Asked::Nothing));
    let v = answered(handle(
        &parsed("{\"jsonrpc\": \"2.0\", \"id\": 9, \"method\": \"nope\"}"),
        "0.1.0",
    ));
    match v.get("error").unwrap().get("code") {
        Some(Json::Negative(n)) => assert_eq!(*n, -32601),
        other => panic!("{other:?}"),
    }
}

#[test]
fn the_facade_says_what_it_lacks() {
    assert!(lease_of(None).unwrap_err().contains("VK_LEASE_TOKEN"));
    assert!(kernel_of(None).unwrap_err().contains("VK_ENDPOINT"));
    assert_eq!(kernel_of(Some("e".to_string())), Ok("e".to_string()));
    let v = initialize_result(None, "0.1.0");
    assert_eq!(v.text_at("protocolVersion").unwrap(), PROTOCOL_VERSION);
    assert_eq!(v.get("serverInfo").unwrap().text_at("name").unwrap(), SERVER_NAME);
}
