use vk_kernel::adapter::{strip_prefixes, MockAdapter};
use vk_kernel::arches::manifest_difference;
use vk_kernel::artefacts::address_of;
use vk_kernel::error::KernelError;
use vk_kernel::hash::{hash_bytes, hash_text};
use vk_kernel::ir::{lower, raise};
use vk_kernel::json::{hash_canonical, Fields, Items, Json};
use vk_kernel::labels::{Clearance, DataClass, Label, Origin, Origins, Scope};
use vk_kernel::mock::{mock_factory, mock_manifest};
use vk_kernel::model::Duplicate;
use vk_kernel::mount::MountSpec;
use vk_kernel::path::{is_below, join_path, one_name, split_on};
use vk_kernel::presence::{HumanKey, SoftwareHumanKey};
use vk_kernel::kernel::{RealKernel, RecordState};
use vk_kernel::principal::{Approval, ApprovalKind, Challenge, Ctx, Principal};
use vk_kernel::store::Store;
use vk_kernel::projection::project;
use vk_kernel::reading::{read_approval, read_manifest, read_principal, read_steps};
use vk_kernel::register::{Evidence, Register};
use vk_kernel::rpc::{
    call_outcome, kerr, reply, takes_presence, CallOutcome, RpcError, E_INVARIANT, E_NOT_FOUND,
    E_RETRY, E_STORE,
};
use vk_kernel::table::Table;
use vk_kernel::task::StepKind;
use vk_kernel::tasks::validate_artefact_kind;
use vk_kernel::transport::eq_ignoring_case;
use vk_kernel::wire::{
    approval_to_json, manifest_to_json, principal_to_json, step_kind_to_json,
};

fn register() -> Register {
    Register {
        id: "reg-1".to_string(),
        task_id: "task-1".to_string(),
        label: Label::bottom(),
        goal: "Quote for Acme".to_string(),
        constraints: vec!["be brief".to_string()],
        evidence: vec![Evidence {
            content: "revenue 1.2M".to_string(),
            origin: Origin::OwnerAuthored,
            source_hash: "sha256:x".to_string(),
        }],
        decisions: vec!["plan: gather".to_string()],
        open_questions: vec![],
        artefacts: vec![],
    }
}

#[test]
fn hashes_are_sha_256_in_lower_hex() {
    assert_eq!(
        hash_bytes(b"abc"),
        "sha256:ba7816bf8f01cfea414140de5dae2223b00361a396177a9cb410ff61f20015ad"
    );
    assert_eq!(hash_text("abc"), hash_bytes(b"abc"));
    assert_eq!(hash_canonical(&Json::Bool(true)), hash_bytes(b"true"));
    assert_eq!(address_of("t", b"abc"), hash_bytes(b"t\0abc"));
    assert_ne!(address_of("ta", b"bc"), address_of("t", b"abc"));
}

#[test]
fn json_is_quoted_as_json_is() {
    let mut f = Fields::new();
    f.put_text("a\"b", "line\nbreak \u{1} é");
    let mut items = Items::new();
    items.add(Json::Null);
    items.add(Json::Negative(-3));
    items.add(Json::Real("0.50".to_string()));
    f.put("list", items.array());
    assert_eq!(
        f.object().render(),
        "{\"a\\\"b\":\"line\\nbreak \\u0001 é\",\"list\":[null,-3,0.50]}"
    );
}

#[test]
fn a_path_leads_down_or_it_does_not() {
    assert!(is_below("out", false));
    assert!(is_below("out/deep", false));
    assert!(is_below("./out", false));
    assert!(!is_below("", false));
    assert!(!is_below("/out", false));
    assert!(!is_below("out/../..", false));
    assert!(one_name("a.md", false));
    assert!(!one_name("a/b", false));
    assert!(!one_name("..", false));
    assert_eq!(join_path("/state", "out", false), "/state/out");
    assert_eq!(split_on("a,,b", ','), vec!["a", "", "b"]);
}

#[test]
fn an_artefact_kind_is_a_short_plain_token() {
    assert!(validate_artefact_kind("proposal.md").is_ok());
    assert!(validate_artefact_kind("a-b_C9").is_ok());
    for bad in ["", ".hidden", "a b", "a/b", "bad kind!"] {
        assert!(validate_artefact_kind(bad).is_err(), "{bad}");
    }
    assert!(validate_artefact_kind(&"x".repeat(32)).is_ok());
    assert!(validate_artefact_kind(&"x".repeat(33)).is_err());
}

#[test]
fn a_register_is_lowered_for_its_role_and_an_answer_raised_into_it() {
    let mut reg = register();
    let prompt = lower(&reg, "draft");
    assert!(prompt.starts_with(
        "ROLE: draft\nGOAL: Quote for Acme\nCONSTRAINTS:\n- be brief\n"
    ));
    assert!(prompt.contains("revenue 1.2M"), "{prompt}");
    assert!(prompt.contains("plan: gather"), "{prompt}");
    raise(&mut reg, "draft", "  done \n");
    assert_eq!(reg.decisions.last().unwrap(), "draft: done");
    raise(&mut reg, "judge", "why?");
    assert_eq!(reg.open_questions, vec!["judge: why?".to_string()]);
    assert_eq!(reg.decisions.len(), 2);
}

#[test]
fn a_projection_fits_keeps_the_goal_and_says_what_it_drops() {
    let adapter = MockAdapter { manifest: mock_manifest("m", 4096), budget: 4096 };
    let mut reg = register();
    for i in 0..40 {
        reg.decisions.push(format!("decision number {i} with some words in it"));
    }
    let prompt = lower(&reg, "plan");
    assert_eq!(project(&prompt, 4096, &adapter).as_deref(), Some(prompt.as_str()));
    let cut = project(&prompt, 100, &adapter).expect("a prompt that fits");
    assert!(cut.len() < prompt.len());
    assert!(cut.starts_with("ROLE: plan\nGOAL: Quote for Acme\n"), "{cut}");
    assert!(cut.contains("decision number 5 "), "{cut}");
    assert!(!cut.contains("decision number 6 "), "{cut}");
    assert!(cut.ends_with("\n[PROJECTED: 37 lines dropped]\n"), "{cut}");
    assert!(project(&prompt, 1, &adapter).is_none());
}

#[test]
fn a_mock_answers_in_its_role() {
    assert_eq!(strip_prefixes("ROLE: ROLE: plan", "ROLE: "), "plan");
    let spec = MountSpec::mock(&mock_manifest("m", 100), 100);
    let m = mock_factory(&spec, "").unwrap();
    assert_eq!(m.budget, 100);
    assert!(manifest_difference(&m.manifest, &mock_manifest("m", 100)).is_none());
    let other = MountSpec { kind: "ollama".to_string(), config: Json::Null };
    assert!(mock_factory(&other, "").is_err());
}

#[test]
fn a_manifest_that_differs_says_where() {
    let a = mock_manifest("m", 100);
    let mut b = a.dup();
    b.context_ceiling = 200;
    b.jurisdiction = "US".to_string();
    let named = manifest_difference(&a, &b).unwrap();
    assert!(named.contains("context_ceiling") && named.contains("jurisdiction"), "{named}");
    let mut c = a.dup();
    c.identity.quant = "q4".to_string();
    assert!(manifest_difference(&a, &c).unwrap().starts_with("identity sha256:"));
    assert_ne!(a.arch_id(), c.arch_id());
    assert_eq!(a.arch_id(), b.arch_id());
}

#[test]
fn labels_flow_up_and_never_down() {
    let business = Clearance { max_scope: Scope::Business, third_party_allowed: false };
    let label = |scope, data_class| Label {
        scope,
        data_class,
        origins: Origins { owner_authored: false, web: false },
    };
    assert!(label(Scope::Business, DataClass::Own).flows_to(&business));
    assert!(!label(Scope::Personal, DataClass::Own).flows_to(&business));
    assert!(!label(Scope::Public, DataClass::ThirdPartyMandated).flows_to(&business));
    assert!(!label(Scope::Public, DataClass::Unknown).flows_to(&business));
    let open = Clearance { max_scope: Scope::Holdout, third_party_allowed: true };
    assert!(label(Scope::Holdout, DataClass::Unknown).flows_to(&open));
    assert!(Label::bottom().flows_to(&business));
}

#[test]
fn what_goes_over_the_wire_reads_back() {
    let m = mock_manifest("m", 100);
    let back = read_manifest(&manifest_to_json(&m)).unwrap();
    assert_eq!(format!("{back:?}"), format!("{m:?}"));

    let p = Principal::Human { device_id: "phone".to_string() };
    assert_eq!(
        format!("{:?}", read_principal(&principal_to_json(&p)).unwrap()),
        format!("{p:?}")
    );

    let a = Approval {
        subject_hash: "sha256:s".to_string(),
        kind: ApprovalKind::Audit,
        approver: p,
        challenge: Some(Challenge {
            resource: "task:t".to_string(),
            action_digest: "sha256:s".to_string(),
            nonce: "n".to_string(),
            expires_at_ms: 9,
        }),
        signature_hex: None,
    };
    assert_eq!(
        format!("{:?}", read_approval(&approval_to_json(&a)).unwrap()),
        format!("{a:?}")
    );
    assert!(read_approval(&Json::Null).is_none());

    let mut steps = Items::new();
    for k in [
        StepKind::Plan { arch_id: "a".to_string() },
        StepKind::Approve,
        StepKind::Release { to_dir: "out".to_string() },
        StepKind::Harness { name: "h".to_string() },
    ] {
        steps.add(step_kind_to_json(&k));
    }
    assert_eq!(read_steps(&steps.array()).unwrap().len(), 4);
    let mut bad = Items::new();
    bad.add(Json::Null);
    assert!(read_steps(&bad.array()).is_none());
}

#[test]
fn each_refusal_has_its_code() {
    let code = |e: KernelError| kerr(&e).code;
    assert_eq!(code(KernelError::NotFound("x".to_string())), E_NOT_FOUND);
    assert_eq!(code(KernelError::Store("x".to_string())), E_STORE);
    assert_eq!(code(KernelError::ArchUnavailable("x".to_string())), E_STORE);
    assert_eq!(code(KernelError::ArchStarting("x".to_string())), E_RETRY);
    assert_eq!(code(KernelError::I1("x".to_string())), E_INVARIANT);
    assert_eq!(code(KernelError::Gate("x".to_string())), E_INVARIANT);
    assert_eq!(kerr(&KernelError::I2("x".to_string())).message, "I2: x");
    assert!(takes_presence("stop") && takes_presence("approve"));
    assert!(!takes_presence("task.show"));
}

#[test]
fn an_answer_is_that_of_its_call() {
    assert!(matches!(
        call_outcome(3, reply(3, Ok(Json::Bool(true)))),
        CallOutcome::Answered(Json::Bool(true))
    ));
    match call_outcome(3, reply(4, Ok(Json::Null))) {
        CallOutcome::Malformed(why) => assert_eq!(why, "malformed response to request 3"),
        _ => panic!("another call's answer"),
    }
    let refused = reply(9, Err(RpcError { code: E_STORE, message: "no".to_string() }));
    match call_outcome(3, refused) {
        CallOutcome::Refused(e) => assert_eq!((e.code, e.message.as_str()), (E_STORE, "no")),
        _ => panic!("a refusal"),
    }
}

#[test]
fn a_signature_is_of_its_key_and_its_message() {
    let a = SoftwareHumanKey::generate("a");
    let b = SoftwareHumanKey::generate("b");
    assert_ne!(a.verifying_key_bytes(), b.verifying_key_bytes());
    assert_eq!(a.sign(b"m"), a.sign(b"m"));
    assert_ne!(a.sign(b"m"), a.sign(b"n"));
    assert_ne!(a.sign(b"m"), b.sign(b"m"));
}

#[test]
fn a_table_keeps_one_row_per_key_in_order() {
    let mut t: Table<u64> = Table::new();
    t.insert("b", 1);
    t.insert("a", 2);
    t.insert("b", 3);
    assert_eq!(t.key_list(), vec!["a".to_string(), "b".to_string()]);
    assert_eq!(t.get("b"), Some(&3));
    assert_eq!(t.remove("a"), Some(2));
    assert!(!t.has("a"));
    assert_eq!(t.len(), 1);
    assert!(eq_ignoring_case("BuiltIn", "bUILTiN"));
    assert!(!eq_ignoring_case("a", "ab"));
}

#[test]
fn a_path_leads_down_by_the_rules_of_its_platform() {
    for good in ["out", "a/b", "./a", "a//b/"] {
        assert!(is_below(good, false), "{good}");
        assert!(is_below(good, true), "{good}");
    }
    for bad in ["", "/a", "..", "a/../b"] {
        assert!(!is_below(bad, false), "{bad}");
        assert!(!is_below(bad, true), "{bad}");
    }
    for elsewhere in ["..\\x", "a\\..\\b", "\\a", "C:x", "c:\\x", "\\\\host\\share"] {
        assert!(is_below(elsewhere, false), "a plain name on Unix: {elsewhere}");
        assert!(!is_below(elsewhere, true), "{elsewhere}");
    }
    assert!(is_below("a\\b", true));

    assert!(one_name("a.md", false) && one_name("a.md", true));
    assert!(one_name("a\\b", false) && !one_name("a\\b", true));
    assert!(one_name("c:a", false) && !one_name("c:a", true));
    assert!(!one_name("a/b", false) && !one_name("../a", true));

    assert_eq!(join_path("/state", "x", false), "/state/x");
    assert_eq!(join_path("C:\\state", "x", true), "C:\\state\\x");
    assert_eq!(join_path("C:/state/", "x", true), "C:/state/x");
    assert_eq!(join_path("C:", "x", true), "C:x");
}

#[test]
fn a_node_on_windows_releases_nothing_outside_its_exports() {
    let mut k = RealKernel::<MockAdapter>::open(
        Store::new_on("C:\\state", true),
        "n1",
        RecordState { chain_ok: true, head_ok: true, recovered_partial_line: false },
        1,
        &Table::new(),
    );
    assert_eq!(k.export_root(), "C:\\state\\exports");
    assert_eq!(k.release_dest("out").unwrap(), "C:\\state\\exports\\out");
    for bad in ["..\\x", "D:\\x", "\\x"] {
        assert!(k.release_dest(bad).is_err(), "{bad}");
    }
    assert_eq!(k.harness_config_dir("t"), "C:\\state\\harness\\t.mcp");
    k.store.windows = false;
    assert!(k.release_dest("..\\x").is_ok());
}

#[test]
fn a_store_is_opened_only_when_it_is_one_that_this_node_kept() {
    let sound = RecordState { chain_ok: true, head_ok: true, recovered_partial_line: false };
    let mut k = RealKernel::<MockAdapter>::open(Store::new("/state"), "n1", sound, 1, &Table::new());
    let ctx = Ctx {
        principal: Principal::Human { device_id: "phone-1".to_string() },
        clearance: Clearance { max_scope: Scope::Personal, third_party_allowed: true },
        partition: "local".to_string(),
        now_ms: 1,
    };
    let stop = k.stop(&ctx, "node").unwrap();
    k.resume(&ctx, &stop).unwrap();
    let mut s = k.into_store();
    assert!(s.can_be_opened("n1"));

    // An id that is still to be given out is taken.
    let counter = s.counter;
    s.counter = 0;
    assert!(!s.can_be_opened("n1"));
    assert!(s.can_be_opened("n2"), "another node gives out other ids");
    s.counter = counter;

    // A resume of a stop that was never made.
    s.stops = Table::new();
    assert!(!s.can_be_opened("n1"));
}
