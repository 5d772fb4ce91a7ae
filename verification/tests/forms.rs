use serde_json::Value;
use vk_kernel::json::{Fields, Items, Json};
use vk_kernel::manifest::{ArchManifest, Capabilities};
use vk_kernel::mcp::render;
use vk_kernel::mock::mock_manifest;
use vk_kernel::principal::ApprovalKind;
use vk_kernel::reading::{
    read_approval, read_challenge, read_manifest, read_principal, read_step_kind, read_steps,
};
use vk_kernel::rpc::{read_request, read_response};
use vk_kernel::runs::read_run_params;
use vk_kernel::wire::manifest_to_json;

fn json_of(v: &Value) -> Json {
    match v {
        Value::Null => Json::Null,
        Value::Bool(b) => Json::Bool(*b),
        Value::Number(n) => match (n.as_u64(), n.as_i64()) {
            (Some(u), _) => Json::Unsigned(u),
            (None, Some(i)) => Json::Negative(i),
            (None, None) => Json::Real(n.to_string()),
        },
        Value::String(s) => Json::Text(s.clone()),
        Value::Array(items) => {
            let mut out = Items::new();
            for i in items {
                out.add(json_of(i));
            }
            out.array()
        }
        Value::Object(members) => {
            let mut out = Fields::new();
            for (name, value) in members {
                out.put(name, json_of(value));
            }
            out.object()
        }
    }
}

fn parsed(s: &str) -> Json {
    json_of(&serde_json::from_str(s).unwrap())
}

/// A mock arch that runs on this engine.
fn on(engine: &str, engine_version: &str) -> ArchManifest {
    let mut m = mock_manifest("m", 100);
    m.identity.engine = engine.to_string();
    m.identity.engine_version = engine_version.to_string();
    m
}

#[test]
fn an_arch_id_is_the_hash_of_its_identity() {
    assert_eq!(
        mock_manifest("gemma-mock", 4096).arch_id(),
        "sha256:fd4b8acfa16d9873453504217e77000ad8d240f573cccb4c278a413eb6887c50"
    );
    // What the arch may be used for is no part of what it is.
    assert_eq!(
        mock_manifest("m", 1).arch_id(),
        mock_manifest("m", 2).arch_id()
    );
}

#[test]
fn identities_that_differ_have_different_ids() {
    assert_ne!(on("x\n1", "2").arch_id(), on("x", "1\n2").arch_id());
    assert_ne!(on("\"", "1").arch_id(), on("\\\"", "1").arch_id());
    assert_eq!(on("x", "1").arch_id(), on("x", "1").arch_id());
}

#[test]
fn a_manifest_lists_its_capabilities_and_has_its_sampling_as_an_object() {
    let mut m = mock_manifest("m", 100);
    m.capabilities = Capabilities { generate: true, plan: false, judge: true };
    let v = manifest_to_json(&m);
    assert_eq!(v.get("capabilities").unwrap().render(), "[\"generate\",\"judge\"]");
    assert_eq!(v.get("identity").unwrap().get("sampling").unwrap().render(), "{}");

    let text = v.render();
    let top_p = text.replace("\"sampling\":{}", "\"sampling\":{\"top_p\":0.5}");
    let back = read_manifest(&parsed(&top_p)).unwrap();
    assert_eq!(
        manifest_to_json(&back).get("identity").unwrap().get("sampling").unwrap().render(),
        "{\"top_p\":0.5}"
    );
    assert_ne!(back.arch_id(), m.arch_id());
    let unknown = text.replace("\"judge\"", "\"sing\"");
    assert!(read_manifest(&parsed(&unknown)).is_none());
    let old = text.replace("[\"generate\",\"judge\"]", "{\"generate\":true}");
    assert!(read_manifest(&parsed(&old)).is_none());
}

#[test]
fn a_price_may_be_a_whole_number() {
    let text = manifest_to_json(&mock_manifest("m", 100)).render();
    for (said, read) in [("1", "1.0"), ("0", "0.0"), ("-2", "-2.0"), ("0.5", "0.5")] {
        let priced = text.replace(
            "\"cost_per_1k_tokens_eur\":0.0",
            &format!("\"cost_per_1k_tokens_eur\":{said}"),
        );
        let m = read_manifest(&parsed(&priced)).unwrap();
        assert_eq!(m.cost_per_1k_tokens_eur.as_deref(), Some(read));
    }
    let worded = text.replace("\"cost_per_1k_tokens_eur\":0.0", "\"cost_per_1k_tokens_eur\":\"1\"");
    assert!(read_manifest(&parsed(&worded)).is_none());
}

#[test]
fn what_has_fields_may_come_as_a_list_of_them() {
    let same = |list: &str, object: &str| {
        assert_eq!(
            format!("{:?}", read_step_kind(&parsed(list)).unwrap()),
            format!("{:?}", read_step_kind(&parsed(object)).unwrap())
        );
    };
    same("[\"plan\", \"a\"]", "{\"kind\": \"plan\", \"arch_id\": \"a\"}");
    same("[\"harness\", \"h\"]", "{\"kind\": \"harness\", \"name\": \"h\"}");
    same("[\"release\", \"out\"]", "{\"kind\": \"release\", \"to_dir\": \"out\"}");
    same("[\"approve\"]", "{\"kind\": \"approve\"}");
    for not in ["[\"plan\"]", "[\"plan\", \"a\", \"b\"]", "[\"approve\", 1]", "[]", "[1]", "[\"sing\"]"] {
        assert!(read_step_kind(&parsed(not)).is_none(), "{not}");
    }
    assert_eq!(read_steps(&parsed("[[\"approve\"], {\"kind\": \"approve\"}]")).unwrap().len(), 2);

    let challenge = "[\"task:t\", \"sha256:s\", \"n\", 9]";
    let c = read_challenge(&parsed(challenge)).unwrap();
    assert_eq!((c.resource.as_str(), c.expires_at_ms), ("task:t", 9));
    assert!(read_challenge(&parsed("[\"task:t\", \"sha256:s\", \"n\"]")).is_none());

    let approver = "{\"human\": {\"device_id\": \"phone\"}}";
    let a = read_approval(&parsed(&format!(
        "[\"sha256:s\", \"human\", {approver}, {challenge}, \"ab\"]"
    )))
    .unwrap();
    assert_eq!(a.subject_hash, "sha256:s");
    assert!(matches!(a.kind, ApprovalKind::Human));
    assert_eq!(a.challenge.unwrap().nonce, "n");
    assert_eq!(a.signature_hex.as_deref(), Some("ab"));
    // A variant with fields is read from an object alone.
    assert!(read_principal(&parsed("{\"human\": [\"phone\"]}")).is_none());
}

#[test]
fn a_word_may_come_with_nothing_beside_it() {
    let of = |kind: &str| {
        read_approval(&parsed(&format!(
            "{{\"subject_hash\": \"s\", \"kind\": {kind}, \"approver\": {{\"human\": {{\"device_id\": \"d\"}}}}}}"
        )))
    };
    assert!(matches!(of("{\"audit\": null}").unwrap().kind, ApprovalKind::Audit));
    assert!(matches!(of("\"audit\"").unwrap().kind, ApprovalKind::Audit));
    assert!(of("{\"audit\": 1}").is_none());
    assert!(of("{\"audit\": null, \"human\": null}").is_none());
}

#[test]
fn a_call_and_its_answer_may_come_as_lists() {
    let r = read_request(&parsed("[\"2.0\", 7, \"task.ls\"]")).unwrap();
    assert_eq!((r.id, r.method.as_str()), (7, "task.ls"));
    assert!(r.presence.is_none());
    let r = read_request(&parsed("[\"2.0\", 7, \"stop\", {}, [\"d\", \"n\", \"ab\"]]")).unwrap();
    assert_eq!(r.presence.unwrap().device_id, "d");
    assert!(read_request(&parsed("[\"2.0\", 7]")).is_none());
    assert!(read_request(&parsed("[\"2.0\", 7, \"stop\", {}, null, 1]")).is_none());

    let r = read_response(&parsed("[\"2.0\", 7, {\"ok\": true}]")).unwrap();
    assert_eq!(r.id, 7);
    assert_eq!(r.result.unwrap().bool_at("ok"), Some(true));
    let r = read_response(&parsed("[\"2.0\", 7, null, [-32001, \"I1: no\"]]")).unwrap();
    assert_eq!(r.error.unwrap().message, "I1: no");
    assert!(read_response(&parsed("[\"2.0\"]")).is_none());
}

#[test]
fn a_run_may_be_asked_for_by_a_list() {
    let p = read_run_params(&parsed("[\"t\"]"), "coder", "").unwrap();
    assert_eq!((p.task_id.as_str(), p.name.as_str()), ("t", "coder-code"));
    assert!(!p.dry_run && !p.keep);
    let p = read_run_params(&parsed("[\"t\", null, true, true]"), "coder", "").unwrap();
    assert!(p.dry_run && p.keep);
    for not in ["[]", "[1]", "[\"t\", null, true, true, 1]", "3"] {
        let err = read_run_params(&parsed(not), "coder", "the reader's words").unwrap_err();
        assert_eq!(
            err.message,
            "harness.run takes task_id, name, dry_run and keep, nothing else: the reader's words"
        );
    }
}

#[test]
fn a_register_is_shown_over_lines() {
    let text = "{\"a\": [1, {\"b\": null}], \"c\": {}, \"d\": [], \"e\": \"x\\ny\"}";
    let shown = render("vk_read_register", &parsed(text));
    assert_eq!(
        shown,
        "{\n  \"a\": [\n    1,\n    {\n      \"b\": null\n    }\n  ],\n  \"c\": {},\n  \"d\": [],\n  \"e\": \"x\\ny\"\n}"
    );
    let value: Value = serde_json::from_str(text).unwrap();
    assert_eq!(shown, serde_json::to_string_pretty(&value).unwrap());
    assert_eq!(render("vk_log", &parsed(text)), "logged");
}
