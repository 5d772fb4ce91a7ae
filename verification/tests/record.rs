use vk_kernel::adapter::MockAdapter;
use vk_kernel::arches::Remount;
use vk_kernel::error::KernelError;
use vk_kernel::harness::{FileRead, OutFile};
use vk_kernel::json::{Fields, Json};
use vk_kernel::kernel::{RealKernel, RecordState};
use vk_kernel::labels::{Clearance, DataClass, Label, Origins, Scope};
use vk_kernel::launch::{ExitReason, HarnessRun};
use vk_kernel::manifest::Capability;
use vk_kernel::methods::{link_answer, WebLink};
use vk_kernel::mock::mock_manifest;
use vk_kernel::mount::MountSpec;
use vk_kernel::ns::LEDGER_TAIL;
use vk_kernel::outside::now_ms;
use vk_kernel::principal::{Approval, ApprovalKind, Ctx, Principal};
use vk_kernel::runs::HarnessRunParams;
use vk_kernel::store::{GateKind, GateVerdict, ModuleManifest, Store};
use vk_kernel::table::Table;
use vk_kernel::task::StepKind;

type Mocked = RealKernel<MockAdapter>;

const SOUND: RecordState = RecordState {
    chain_ok: true,
    head_ok: true,
    recovered_partial_line: false,
};

fn fresh() -> Mocked {
    RealKernel::<MockAdapter>::open(Store::new("/state"), "n1", SOUND, now_ms(), &Table::new())
}

fn held_by(lease_id: &str, now: u64) -> Ctx {
    Ctx {
        principal: Principal::Machine {
            node_id: "n1".to_string(),
            lease_id: lease_id.to_string(),
        },
        clearance: Clearance { max_scope: Scope::Holdout, third_party_allowed: true },
        partition: "p".to_string(),
        now_ms: now,
    }
}

fn machine(now: u64) -> Ctx {
    held_by("cli", now)
}

fn human(now: u64) -> Ctx {
    Ctx {
        principal: Principal::Human { device_id: "phone-1".to_string() },
        ..machine(now)
    }
}

fn unsigned(kind: ApprovalKind) -> Approval {
    Approval {
        subject_hash: "sha256:s".to_string(),
        kind,
        approver: Principal::Human { device_id: "phone-1".to_string() },
        challenge: None,
        signature_hex: None,
    }
}

#[test]
fn whatever_machines_do_nobody_is_stopped_or_approved_for_and_a_person_still_stops() {
    let mut k = fresh();
    k.renew_liveness_persisted("acme", "phone-1", 1_000_000).unwrap();
    for i in 0..12u64 {
        let ctx = machine(1 + i);
        let kind = match i % 3 {
            0 => ApprovalKind::Test,
            1 => ApprovalKind::Audit,
            _ => ApprovalKind::Human,
        };
        let _ = k.approve(&ctx, unsigned(kind));
        let _ = k.lease(&ctx, "a", 10);
        assert!(k.stop(&ctx, "business:acme").is_err());
        assert!(k.resume(&ctx, "stop-1").is_err());
        assert!(k.run_automation(&ctx, "acme", "m").is_ok());
    }
    assert!(!k.has_human_approval("sha256:s"));
    assert!(k.approvals_for("sha256:s").iter().all(|a| a.kind != ApprovalKind::Human));
    assert!(!k.stopped("business:acme"), "a machine managed to stop");
    assert!(k.stop(&human(50), "business:acme").is_ok());
    assert!(k.stopped("business:acme"));
    assert!(matches!(
        k.run_automation(&machine(51), "acme", "m"),
        Err(KernelError::Stopped(_))
    ));
}

#[test]
fn automation_runs_only_while_somebody_attends() {
    let mut k = fresh();
    assert!(matches!(
        k.run_automation(&machine(1), "acme", "m"),
        Err(KernelError::I4(_))
    ));
    k.renew_liveness_persisted("acme", "phone-1", 100).unwrap();
    for now in [1, 50, 99, 100, 101, 2000] {
        assert_eq!(k.run_automation(&machine(now), "acme", "m").is_ok(), now < 100);
    }
}

#[test]
fn an_arch_is_never_sent_what_is_above_its_clearance() {
    let scopes = [
        Scope::Public,
        Scope::Vertical,
        Scope::Business,
        Scope::Personal,
        Scope::Holdout,
    ];
    let classes = [DataClass::Own, DataClass::ThirdPartyMandated, DataClass::Unknown];
    for max_scope in scopes {
        for third_party_allowed in [false, true] {
            let mut k = fresh();
            let mut manifest = mock_manifest("m", 10_000);
            let clearance = Clearance { max_scope, third_party_allowed };
            manifest.clearance = clearance;
            let arch = k.register_arch(manifest);
            for scope in scopes {
                for data_class in classes {
                    let label = Label {
                        scope,
                        data_class,
                        origins: Origins { owner_authored: false, web: false },
                    };
                    let reg = k.submit_task(&machine(1), "g", label).unwrap();
                    let asked = k.infer(&machine(1), &arch, Capability::Generate, &reg);
                    assert_eq!(asked.is_ok(), label.flows_to(&clearance));
                    if let Err(e) = asked {
                        assert!(matches!(e, KernelError::I2(_)), "{e:?}");
                    }
                }
            }
        }
    }
}

#[test]
fn a_prompt_is_projected_on_the_record_or_refused_without_a_trace() {
    for goal_len in [0usize, 10, 150, 220, 2000] {
        for budget in [1u32, 10, 20, 40, 63] {
            let mut k = fresh();
            let arch = k.register_arch(mock_manifest("m", budget));
            let reg = k
                .submit_task(&machine(1), &"g".repeat(goal_len), Label::bottom())
                .unwrap();
            let asked = k.infer(&machine(1), &arch, Capability::Generate, &reg);
            let has = |kind: &str| k.store.ledger.iter().any(|e| e.kind == kind);
            match asked {
                Err(KernelError::I4Prime(_)) => {
                    assert!(!has("infer") && !has("infer.projected"));
                }
                Err(e) => panic!("{e:?}"),
                Ok(out) => {
                    assert_eq!(out.projected, has("infer.projected"));
                    assert!(out.tokens_in <= budget);
                }
            }
        }
    }
}

#[test]
fn a_lease_excludes_others_until_it_ends_and_its_fence_only_grows() {
    let mut k = fresh();
    let first = k.lease(&held_by("a", 1), "disk", 100).unwrap();
    assert_eq!((first.fence, first.expires_at_ms), (1, 101));
    assert!(matches!(
        k.lease(&held_by("b", 50), "disk", 100),
        Err(KernelError::Lock(_))
    ));
    let again = k.lease(&held_by("a", 60), "disk", 100).unwrap();
    assert_eq!(again.fence, 2);
    assert_eq!(k.store.leases.len(), 1, "one row per resource and partition");
    assert!(k.lease(&held_by("b", 159), "disk", 100).is_err());
    let taken = k.lease(&held_by("b", 160), "disk", 100).unwrap();
    assert_eq!(taken.fence, 3);
    // A restart keeps the fence.
    let mut k = RealKernel::<MockAdapter>::open(k.into_store(), "n1", SOUND, now_ms(), &Table::new());
    let now = now_ms() + 1_000_000;
    assert_eq!(k.lease(&held_by("c", now), "disk", 1).unwrap().fence, 4);
}

#[test]
fn a_resume_lifts_the_one_stop_it_cites() {
    let mut k = fresh();
    let first = k.stop(&human(1), "node").unwrap();
    let second = k.stop(&human(2), "node").unwrap();
    assert_ne!(first, second, "ids differ");
    k.resume(&human(3), &first).unwrap();
    assert!(k.stopped("node"), "the other stop still holds");
    assert!(k.resume(&human(4), "stop-none").is_err());
    k.resume(&human(5), &second).unwrap();
    assert!(!k.stopped("node"));
}

#[test]
fn a_promotion_needs_its_verdict() {
    let mut k = fresh();
    let module = ModuleManifest {
        name: "m".to_string(),
        version: "1".to_string(),
        content_hash: "sha256:m".to_string(),
        auto_approve_allowed: Some(true),
    };
    let verdict = |gate: GateKind, subject: &str, pass: bool| GateVerdict {
        gate,
        subject_hash: subject.to_string(),
        pass,
        evidence_hash: "sha256:e".to_string(),
        signer: "founder".to_string(),
    };
    for wrong in [
        vec![],
        vec![verdict(GateKind::Declassification, "sha256:m", true)],
        vec![verdict(GateKind::AnnexIii, "sha256:other", true)],
        vec![verdict(GateKind::AnnexIii, "sha256:m", false)],
    ] {
        assert!(matches!(
            k.promote(&machine(1), &module, Ok(()), &wrong),
            Err(KernelError::Gate(_))
        ));
    }
    assert!(!k.store.hot.has("m"));
    let passed = vec![verdict(GateKind::AnnexIii, "sha256:m", true)];
    let before = k.store.ledger.len();
    assert!(matches!(
        k.promote(&machine(1), &module, Err("no entry point".to_string()), &passed),
        Err(KernelError::Module(why)) if why == "no entry point"
    ));
    assert_eq!(k.store.ledger.len(), before);
    assert_eq!(k.store.hot.len(), 0);
    k.promote(&machine(2), &module, Ok(()), &passed).unwrap();
    assert_eq!(k.store.hot.len(), 1);
}

#[test]
fn an_arch_whose_manifest_failed_its_check_is_not_mounted() {
    let mut k = fresh();
    let mock = || MockAdapter { manifest: mock_manifest("m", 4096), budget: 100 };
    let spec = || MountSpec::mock(&mock_manifest("m", 4096), 100);
    let before = k.store.ledger.len();
    let refused = k.mount_with(mock(), Err("no name".to_string()), spec(), Remount::Keep);
    assert_eq!(refused.err().unwrap(), "no name");
    assert_eq!(k.store.ledger.len(), before);
    assert_eq!(k.arches().len(), 0);
    let mounted = k.mount_with(mock(), Ok(()), spec(), Remount::Keep).ok().unwrap();
    assert!(!mounted.already_mounted);
    assert_eq!(k.arches().len(), 1);
}

#[test]
fn a_passkey_is_enrolled_once_and_listed_without_its_credential() {
    let mut k = fresh();
    let mut c = Fields::new();
    c.put_text("public_key", "the-credential");
    let credential = c.object();
    let err = k.enroll_passkey("phone\n", credential.copy(), 1).unwrap_err();
    assert!(err.text().contains("\"phone\\n\""), "{}", err.text());
    k.enroll_passkey("passkey:abc", credential.copy(), 2).unwrap();
    assert!(k.enroll_passkey("passkey:abc", Json::Null, 3).is_err());
    assert_eq!(k.passkeys().len(), 1);
    let listed = k.passkey_list_to_json().render();
    assert!(listed.contains("passkey:abc"), "{listed}");
    assert!(!listed.contains("the-credential"), "{listed}");
}

#[test]
fn attached_bytes_read_back_and_only_for_who_may_see_them() {
    let mut k = fresh();
    let label = Label {
        scope: Scope::Personal,
        data_class: DataClass::Own,
        origins: Origins { owner_authored: true, web: false },
    };
    let reg = k.submit_task(&machine(1), "g", label).unwrap();
    let env = k.attach_artefact(&machine(2), &reg, "note", b"bytes").unwrap();
    assert_eq!(env.len, 5);
    assert_eq!(k.read_artefact(&machine(3), &env.hash).unwrap(), b"bytes".to_vec());
    assert_eq!(k.artefact_label(&env.hash), Some(label));
    let low = Ctx {
        clearance: Clearance { max_scope: Scope::Business, third_party_allowed: true },
        ..machine(4)
    };
    assert!(matches!(k.read_artefact(&low, &env.hash), Err(KernelError::I2(_))));
    assert!(matches!(
        k.read_artefact(&machine(5), "sha256:none"),
        Err(KernelError::NotFound(_))
    ));
}

fn recorded(k: &Mocked) -> Vec<String> {
    k.store
        .ledger
        .iter()
        .map(|e| format!("{} {} {}", e.kind, e.wall_ms, e.payload.render()))
        .collect()
}

#[test]
fn what_is_on_the_record_stays_in_its_place() {
    let mut k = fresh();
    let mut seen = recorded(&k);
    let mut keeps = |k: &Mocked| {
        let now = recorded(k);
        assert_eq!(now[..seen.len()], seen[..]);
        seen = now;
    };
    k.lease(&machine(1), "crm", 60_000).unwrap();
    keeps(&k);
    let stop = k.stop(&human(2), "node").unwrap();
    keeps(&k);
    k.resume(&human(3), &stop).unwrap();
    keeps(&k);
    k.create_task(&machine(4), "Draft", "note", Label::bottom(), vec![]).unwrap();
    keeps(&k);
    assert!(k.approve(&human(5), unsigned(ApprovalKind::Human)).is_err());
    keeps(&k);
    assert!(k.stop(&machine(6), "node").is_err());
    keeps(&k);
    assert!(seen.len() >= 4);
}

#[test]
fn the_tail_of_the_record_is_its_last_events() {
    let mut k = fresh();
    for i in 0..60 {
        k.renew_liveness_persisted("acme", "phone-1", 1_000).unwrap();
        k.run_automation(&machine(i), "acme", &format!("m{i}")).unwrap();
    }
    let tail = k.ledger_tail();
    assert_eq!(tail.len(), LEDGER_TAIL);
    assert!(tail.last().unwrap().payload.render().contains("m59"));
    match k.last_events_to_json(2, &vec![]) {
        Json::Array(events) => assert_eq!(events.len(), 2),
        other => panic!("{other:?}"),
    }
    assert!(matches!(k.last_events_to_json(0, &vec![]), Json::Array(v) if v.is_empty()));
}

#[test]
fn a_link_says_what_the_approval_must_name() {
    let v = link_answer(
        &WebLink::Approve { task_id: "t".to_string(), subject: "sha256:s".to_string() },
        "http://localhost/x",
    );
    assert_eq!(v.text_at("url").unwrap(), "http://localhost/x");
    assert_eq!(v.text_at("subject_hash").unwrap(), "sha256:s");
    assert_eq!(link_answer(&WebLink::Enroll, "u").render(), "{\"url\":\"u\"}");
}

#[test]
fn a_run_is_started_and_settled_and_its_answer_tells_how_it_went() {
    let mut k = fresh();
    let t = k
        .create_task(
            &machine(1),
            "Draft",
            "proposal",
            Label::bottom(),
            vec![StepKind::Harness { name: "coder-code".to_string() }],
        )
        .unwrap();
    let params = HarnessRunParams {
        task_id: t.id.clone(),
        name: "coder-code".to_string(),
        dry_run: false,
        keep: true,
    };
    assert!(!k.should_stop());
    let start = match k.run_start_as(10, &params, 1_000, "run-1", "token-1") {
        Ok(s) => s,
        Err(e) => panic!("{}", e.message),
    };
    let launch = match k.harness_materialised(&machine(11), start, Ok(())) {
        Ok(l) => l,
        Err(e) => panic!("{}", e.text()),
    };
    let mut p = Fields::new();
    p.put_text("token", "token-1");
    p.put_text("path", "OUT/proposal.md");
    assert_eq!(
        k.file_asked(&p.object(), 12),
        Some(format!("{}/OUT/proposal.md", launch.workspace))
    );
    assert!(k
        .read_harness_file(
            &t.id,
            "OUT/proposal.md",
            FileRead { len: Err("gone".to_string()), bytes: Ok(vec![]) }
        )
        .is_err());
    let run = HarnessRun {
        exit_code: Some(0),
        exit_reason: ExitReason::Exited(0),
        stdout_json: String::new(),
        outcome: None,
        connections: vec!["10.0.0.1:443".to_string()],
        samples: 2,
        duration_ms: 900,
        governed: true,
    };
    let left = vec![OutFile {
        name: "proposal.md".to_string(),
        file: FileRead { len: Ok(2), bytes: Ok(b"# ".to_vec()) },
    }];
    let v = k
        .run_settle(20, &t.id, &launch, &run, &left, params.keep, &None)
        .unwrap();
    assert_eq!(v.text_at("status").unwrap(), "done");
    assert_eq!(v.text_at("exit").unwrap(), "code 0");
    assert_eq!(v.number_at("artefacts"), Some(1));
    assert_eq!(v.number_at("samples"), Some(2));
    assert_eq!(v.bool_at("kept"), Some(true));
    assert_eq!(v.get("connections").unwrap().render(), "[\"10.0.0.1:443\"]");
    assert!(matches!(v.get("error"), Some(Json::Null)));
    assert!(matches!(v.get("num_turns"), Some(Json::Null)));
    k.stop(&human(30), "node").unwrap();
    assert!(k.should_stop());
}
