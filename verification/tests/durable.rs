use vk_kernel::adapter::{AdapterError, Completion, MockAdapter};
use vk_kernel::arches::Remount;
use vk_kernel::durable_rows::SubmitAnswers;
use vk_kernel::durable_runs::{
    AnswerAnswers, AttachAnswers, LeaseAnswers, SettleAnswers, Unnoted,
};
use vk_kernel::error::KernelError;
use vk_kernel::harness::{FileRead, HarnessLaunch, HarnessStart, OutFile, Unwritten};
use vk_kernel::json::Json;
use vk_kernel::kernel::{RealKernel, RecordState};
use vk_kernel::labels::{Clearance, Label, Scope};
use vk_kernel::launch::{ExitReason, HarnessRun};
use vk_kernel::manifest::Capability;
use vk_kernel::mock::mock_manifest;
use vk_kernel::model::Duplicate;
use vk_kernel::mount::MountSpec;
use vk_kernel::outside::now_ms;
use vk_kernel::principal::{Approval, ApprovalKind, Challenge, Ctx, Principal};
use vk_kernel::store::{GateKind, GateVerdict, ModuleManifest, Store};
use vk_kernel::table::Table;
use vk_kernel::task::{StepKind, StepStatus, Task, TaskStatus};

type Mocked = RealKernel<MockAdapter>;

const HARNESS: &str = "coder-code";

const SOUND: RecordState = RecordState {
    chain_ok: true,
    head_ok: true,
    recovered_partial_line: false,
};

fn fresh() -> Mocked {
    RealKernel::<MockAdapter>::open(Store::new("/state"), "n1", SOUND, now_ms(), &Table::new())
}

fn machine(now: u64) -> Ctx {
    Ctx {
        principal: Principal::Machine { node_id: "n1".to_string(), lease_id: "cli".to_string() },
        clearance: Clearance { max_scope: Scope::Personal, third_party_allowed: true },
        partition: "local".to_string(),
        now_ms: now,
    }
}

fn human(now: u64) -> Ctx {
    Ctx { principal: Principal::Human { device_id: "phone-1".to_string() }, ..machine(now) }
}

fn full() -> Result<(), String> {
    Err("disk full".to_string())
}

fn is_full<T>(r: Result<T, KernelError>) -> bool {
    matches!(r, Err(KernelError::Store(why)) if why == "disk full")
}

fn kinds_since(k: &Mocked, n: usize) -> Vec<String> {
    k.store.ledger[n..].iter().map(|e| e.kind.clone()).collect()
}

fn attached() -> AttachAnswers {
    AttachAnswers { blob: Ok(()), row: Ok(()), written: Ok(()) }
}

fn settled() -> SettleAnswers {
    SettleAnswers {
        recorded: Ok(()),
        attached: attached(),
        logged: Ok(()),
        released: Ok(()),
        saved: Ok(()),
    }
}

fn harness_task(k: &mut Mocked) -> Task {
    let steps = vec![StepKind::Harness { name: HARNESS.to_string() }];
    k.create_task(&machine(1), "Draft a proposal", "proposal", Label::bottom(), steps).unwrap()
}

fn started(k: &mut Mocked, task_id: &str) -> HarnessStart {
    match k.harness_launch(&machine(2), task_id, HARNESS, 30_000) {
        Ok(s) => s,
        Err(e) => panic!("{}", e.text()),
    }
}

fn launched(k: &mut Mocked, task_id: &str) -> HarnessLaunch {
    let s = started(k, task_id);
    match k.harness_materialised(&machine(2), s, Ok(())) {
        Ok(l) => l,
        Err(e) => panic!("{}", e.text()),
    }
}

fn clean_run() -> HarnessRun {
    HarnessRun {
        exit_code: Some(0),
        exit_reason: ExitReason::Exited(0),
        stdout_json: String::new(),
        outcome: None,
        connections: vec![],
        samples: 0,
        duration_ms: 1,
        governed: false,
    }
}

fn proposal() -> Vec<OutFile> {
    vec![OutFile {
        name: "proposal.md".to_string(),
        file: FileRead { len: Ok(4), bytes: Ok(b"Dear".to_vec()) },
    }]
}

#[test]
fn whatever_cannot_be_kept_a_settled_run_has_no_authority() {
    for i in 0..7 {
        let mut k = fresh();
        let t = harness_task(&mut k);
        let launch = launched(&mut k, &t.id);
        let before = k.store.ledger.len();
        let mut w = settled();
        match i {
            0 => w.recorded = full(),
            1 => w.logged = full(),
            2 => w.released = full(),
            3 => w.saved = full(),
            4 => w.attached.blob = full(),
            5 => w.attached.row = full(),
            _ => {
                w.recorded = full();
                w.logged = Err("read only".to_string());
                w.saved = Err("read only".to_string());
            },
        }
        let r = k.harness_settle_answered(
            &machine(9),
            &t.id,
            &launch,
            &clean_run(),
            &proposal(),
            w,
        );
        assert!(k.harness_session(&launch.token, 10).is_err(), "{i}");
        assert!(!k.harness_running(&t.id), "{i}");
        assert_eq!(k.store.leases.has(&launch.lease_id), i == 2, "{i}");
        let row = k.task(&machine(10), &t.id).unwrap();
        match i {
            0 => {
                assert!(is_full(r));
                assert!(matches!(row.steps[0].status, StepStatus::Done));
                assert_eq!(kinds_since(&k, before), ["register.written", "task.step"]);
            },
            1 => {
                assert!(is_full(r));
                assert_eq!(kinds_since(&k, before), ["harness.connections", "register.written"]);
            },
            2 => assert!(matches!(r.unwrap().status, TaskStatus::Done)),
            3 => {
                assert!(is_full(r));
                assert!(matches!(row.steps[0].status, StepStatus::Running));
                assert_eq!(
                    kinds_since(&k, before),
                    ["harness.connections", "register.written", "task.step"]
                );
            },
            4 | 5 => {
                assert!(matches!(r.unwrap().status, TaskStatus::Failed));
                assert!(matches!(
                    &row.steps[0].status,
                    StepStatus::Failed(why) if why.contains("disk full")
                ));
                assert_eq!(kinds_since(&k, before), ["harness.connections", "task.step"]);
            },
            // The first that could not be kept is the one that is told.
            _ => {
                assert!(is_full(r));
                assert_eq!(kinds_since(&k, before), ["register.written"]);
            },
        }
    }
}

#[test]
fn a_run_whose_store_keeps_everything_is_settled_as_ever() {
    let (mut a, mut b) = (fresh(), fresh());
    let (s, t) = (harness_task(&mut a), harness_task(&mut b));
    let (l, m) = (launched(&mut a, &s.id), launched(&mut b, &t.id));
    let one = a.harness_settle(&machine(9), &s.id, &l, &clean_run(), &proposal()).unwrap();
    let two = b
        .harness_settle_answered(&machine(9), &t.id, &m, &clean_run(), &proposal(), settled())
        .unwrap();
    assert_eq!(format!("{one:?}"), format!("{two:?}"));
    assert_eq!(kinds_since(&a, 0), kinds_since(&b, 0));
}

#[test]
fn a_run_whose_start_is_not_kept_does_not_start() {
    let mut k = fresh();
    let t = harness_task(&mut k);
    let first = k.attach_artefact(&machine(1), &t.register, "figures", b"1.2M").unwrap();
    k.attach_artefact(&machine(1), &t.register, "letter", b"Dear").unwrap();

    let s = started(&mut k, &t.id);
    let token = s.launch.token.clone();
    let before = k.store.ledger.len();
    assert!(is_full(k.harness_materialised_answered(&machine(3), s, Ok(()), None, full())));
    assert_eq!(kinds_since(&k, before), ["infer.projected", "infer.projected"]);
    assert!(k.harness_session(&token, 4).is_err());
    assert!(matches!(k.task(&machine(4), &t.id).unwrap().status, TaskStatus::Queued));

    let s = started(&mut k, &t.id);
    let token = s.launch.token.clone();
    let before = k.store.ledger.len();
    let unnoted = Some(Unnoted { file: 1, why: "disk full".to_string() });
    let err = k
        .harness_materialised_answered(&machine(5), s, Ok(()), unnoted, Ok(()))
        .err()
        .unwrap();
    assert!(err.text().contains("log projection: "), "{}", err.text());
    assert!(err.text().contains("disk full"), "{}", err.text());
    assert_eq!(kinds_since(&k, before), ["infer.projected"]);
    assert!(k.store.ledger[before].payload.render().contains(&first.hash));
    assert!(k.harness_session(&token, 6).is_err());

    // A file that was never written has no event to lose.
    let s = started(&mut k, &t.id);
    let unwritten = Err(Unwritten { brief: 0, why: "no room".to_string() });
    let unnoted = Some(Unnoted { file: 1, why: "disk full".to_string() });
    let err = k
        .harness_materialised_answered(&machine(7), s, unwritten, unnoted, Ok(()))
        .err()
        .unwrap();
    assert!(err.text().contains("no room"), "{}", err.text());
}

#[test]
fn a_prompt_that_is_not_on_the_record_is_not_sent() {
    let mut k = fresh();
    let arch = k.register_arch(mock_manifest("m", 40));
    let reg = k.submit_task(&machine(1), &"g".repeat(40), Label::bottom()).unwrap();
    k.attach_artefact(&machine(1), &reg, "figures", b"1.2M").unwrap();
    let before = k.store.ledger.len();
    let ask = |k: &mut Mocked, cut: Result<(), String>, requested: Result<(), String>| {
        k.infer_ask_answered(&machine(2), &arch, Capability::Generate, &reg, cut, requested)
    };
    assert!(is_full(ask(&mut k, Ok(()), full())));
    assert!(!kinds_since(&k, before).contains(&"infer".to_string()));
    let before = k.store.ledger.len();
    assert!(ask(&mut k, Ok(()), Ok(())).is_ok());
    assert_eq!(k.store.ledger.last().unwrap().kind, "infer");
    assert!(k.store.ledger.len() > before);
}

#[test]
fn a_prompt_whose_cut_is_not_on_the_record_is_not_sent() {
    let mut k = fresh();
    let arch = k.register_arch(mock_manifest("m", 60));
    let reg = k.submit_task(&machine(1), "goal", Label::bottom()).unwrap();
    let mut long = k.read_register(&machine(1), &reg).unwrap();
    for i in 0..40 {
        long.constraints.push(format!("constraint number {i}"));
    }
    k.write_register(&machine(1), long).unwrap();
    let asked = k
        .infer_ask_answered(&machine(2), &arch, Capability::Generate, &reg, Ok(()), Ok(()))
        .unwrap();
    assert!(asked.projected);
    let before = k.store.ledger.len();
    assert!(is_full(k.infer_ask_answered(
        &machine(3),
        &arch,
        Capability::Generate,
        &reg,
        full(),
        Ok(()),
    )));
    assert_eq!(k.store.ledger.len(), before);
    assert!(is_full(k.infer_ask_answered(
        &machine(4),
        &arch,
        Capability::Generate,
        &reg,
        Ok(()),
        full(),
    )));
    assert_eq!(kinds_since(&k, before), ["infer.projected"]);
}

#[test]
fn an_answer_is_on_the_record_before_anything_is_done_with_it() {
    for i in 0..5 {
        let mut k = fresh();
        let arch = k.register_arch(mock_manifest("m", 4096));
        let reg = k.submit_task(&machine(1), "goal", Label::bottom()).unwrap();
        let asked = k.infer_ask(&machine(2), &arch, Capability::Generate, &reg).unwrap();
        let before = k.store.ledger.len();
        let mut w =
            AnswerAnswers { completed: Ok(()), counted: Ok(()), row: Ok(()), written: Ok(()) };
        match i {
            0 => w.completed = full(),
            1 => w.counted = full(),
            2 => w.row = full(),
            3 => w.written = full(),
            _ => {},
        }
        let answer = Completion {
            text: "the answer".to_string(),
            tokens_in_measured: Some(7),
            cost_list_usd: None,
            details: None,
        };
        let r = k.infer_answer_kept(&machine(3), asked, Ok(answer), 9, w);
        let decisions = k.read_register(&machine(4), &reg).unwrap().decisions.len();
        let counted = k.store.stats.has(&arch);
        let kinds = kinds_since(&k, before);
        match i {
            0 => assert_eq!((decisions, counted, kinds.len()), (0, false, 0)),
            1 => assert_eq!((decisions, counted, kinds.len()), (0, false, 1)),
            2 => assert_eq!((decisions, counted, kinds.len()), (0, true, 1)),
            3 => assert_eq!((decisions, counted, kinds.len()), (1, true, 1)),
            _ => {
                assert_eq!((decisions, counted), (1, true));
                assert_eq!(kinds, ["infer", "register.written"]);
            },
        }
        assert_eq!(is_full(r), i < 4);
    }
}

#[test]
fn an_arch_that_failed_is_told_of_before_the_store() {
    let mut k = fresh();
    let arch = k.register_arch(mock_manifest("m", 4096));
    let reg = k.submit_task(&machine(1), "goal", Label::bottom()).unwrap();
    let asked = k.infer_ask(&machine(2), &arch, Capability::Generate, &reg).unwrap();
    let w = AnswerAnswers { completed: full(), counted: full(), row: full(), written: full() };
    let failed = Err(AdapterError::Other("no engine".to_string()));
    let r = k.infer_answer_kept(&machine(3), asked, failed, 9, w);
    assert!(!is_full(r));
}

#[test]
fn an_unkept_artefact_is_not_in_its_register() {
    let mut k = fresh();
    let reg = k.submit_task(&machine(1), "goal", Label::bottom()).unwrap();
    let count = |k: &Mocked| k.read_register(&machine(3), &reg).unwrap().artefacts.len();
    let mut w = attached();
    w.blob = full();
    assert!(is_full(k.attach_artefact_answered(&machine(2), &reg, "note", b"x", w)));
    assert_eq!((k.store.blobs.len(), count(&k)), (0, 0));
    let mut w = attached();
    w.row = full();
    assert!(is_full(k.attach_artefact_answered(&machine(2), &reg, "note", b"x", w)));
    assert_eq!((k.store.blobs.len(), count(&k)), (1, 0));
    let mut w = attached();
    w.written = full();
    assert!(is_full(k.attach_artefact_answered(&machine(2), &reg, "note", b"x", w)));
    assert_eq!((k.store.blobs.len(), count(&k)), (1, 1));
    let kept = k.attach_artefact_answered(&machine(2), &reg, "note", b"x", attached()).unwrap();
    assert_eq!(kept.len, 1);
    assert_eq!(count(&k), 2);
    // What is refused anyway is refused for its own reason.
    let mut w = attached();
    w.blob = full();
    assert!(matches!(
        k.attach_artefact_answered(&machine(2), &reg, "../x", b"x", w),
        Err(KernelError::Gate(_))
    ));
}

#[test]
fn a_fence_that_could_not_be_kept_is_not_given_out_again() {
    let kept = || LeaseAnswers {
        row: Ok(()),
        cleared: Ok(()),
        left: vec![],
        fence: Ok(()),
        logged: Ok(()),
    };
    let mut k = fresh();
    assert_eq!(k.lease_answered(&machine(1), "disk", 100, kept()).unwrap().fence, 1);
    let mut w = kept();
    w.row = full();
    assert!(is_full(k.lease_answered(&machine(2), "disk", 100, w)));
    assert_eq!(k.store.leases.len(), 1);
    let mut w = kept();
    w.cleared = full();
    w.left = vec!["lease-disk-1".to_string(), "lease-other-1".to_string()];
    assert!(is_full(k.lease_answered(&machine(3), "disk", 100, w)));
    assert!(k.store.leases.has("lease-disk-1") && k.store.leases.has("lease-disk-3"));
    assert_eq!(k.store.leases.len(), 2);
    let mut w = kept();
    w.fence = full();
    assert!(is_full(k.lease_answered(&machine(4), "disk", 100, w)));
    assert_eq!(k.store.fences.get("disk"), Some(&1));
    let before = k.store.ledger.len();
    let mut w = kept();
    w.logged = full();
    assert!(is_full(k.lease_answered(&machine(5), "disk", 100, w)));
    assert_eq!(k.store.ledger.len(), before);
    assert_eq!(k.lease_answered(&machine(6), "disk", 100, kept()).unwrap().fence, 6);
    assert_eq!(k.store.leases.len(), 1);
}

#[test]
fn a_stop_that_could_not_be_kept_is_told_and_one_in_force_stays() {
    let mut k = fresh();
    assert!(is_full(k.stop_answered(&human(1), "node", full(), Ok(()), Ok(()))));
    assert!(is_full(k.stop_answered(&human(1), "node", Ok(()), full(), Ok(()))));
    assert!(!k.stopped("node"));
    // Kept and not on the record: it is in force all the same.
    assert!(is_full(k.stop_answered(&human(2), "node", Ok(()), Ok(()), full())));
    assert!(k.stopped("node"));
    let id = k.stop_answered(&human(3), "crm", Ok(()), Ok(()), Ok(())).unwrap();
    assert_eq!(id, "stop-n1-4");
    let before = k.store.ledger.len();
    assert!(is_full(k.resume_answered(&human(4), &id, Ok(()), full(), Ok(()))));
    assert_eq!(k.store.ledger.len(), before);
    assert!(is_full(k.resume_answered(&human(5), &id, Ok(()), Ok(()), full())));
    assert_eq!(kinds_since(&k, before), ["resume"]);
    assert!(k.stopped("crm"));
    k.resume_answered(&human(6), &id, Ok(()), Ok(()), Ok(())).unwrap();
    assert!(!k.stopped("crm"));
}

fn test_approval() -> Approval {
    Approval {
        subject_hash: "sha256:s".to_string(),
        kind: ApprovalKind::Test,
        approver: Principal::Human { device_id: "phone-1".to_string() },
        challenge: None,
        signature_hex: None,
    }
}

#[test]
fn an_approval_is_on_the_record_before_it_counts() {
    let mut k = fresh();
    let before = k.store.ledger.len();
    assert!(is_full(k.approve_answered(&machine(1), test_approval(), full(), Ok(()))));
    assert_eq!(k.store.ledger.len(), before);
    assert!(is_full(k.approve_answered(&machine(1), test_approval(), Ok(()), full())));
    assert_eq!(kinds_since(&k, before), ["approval.recorded"]);
    assert_eq!(k.approvals_for("sha256:s").len(), 0);
    k.approve_answered(&machine(1), test_approval(), Ok(()), Ok(())).unwrap();
    assert_eq!(k.approvals_for("sha256:s").len(), 1);
}

#[test]
fn a_verified_approval_that_could_not_be_kept_spends_its_challenge() {
    let mut k = fresh();
    let steps = vec![StepKind::Approve];
    let t = k.create_task(&machine(1), "g", "note", Label::bottom(), steps).unwrap();
    k.attach_artefact(&machine(1), &t.register, "note", b"x").unwrap();
    k.run_task_step(&machine(2), &t.id).unwrap();
    let approval = |ch: &Challenge| Approval {
        subject_hash: ch.action_digest.clone(),
        kind: ApprovalKind::Human,
        approver: Principal::Human { device_id: "passkey:abc".to_string() },
        challenge: Some(ch.dup()),
        signature_hex: Some("3045".to_string()),
    };
    let before = k.store.ledger.len();
    let first = k.mint_approval_challenge(&machine(3), &t.id).unwrap();
    let subject = first.action_digest.clone();
    let r = k.record_verified_human_approval_answered(
        4,
        approval(&first),
        "webauthn",
        full(),
        Ok(()),
    );
    assert!(is_full(r));
    assert_eq!(k.store.ledger.len(), before);
    assert_eq!(k.pending_approvals(4).len(), 0, "spent");
    let second = k.mint_approval_challenge(&machine(5), &t.id).unwrap();
    let r = k.record_verified_human_approval_answered(
        6,
        approval(&second),
        "webauthn",
        Ok(()),
        full(),
    );
    assert!(is_full(r));
    assert!(!k.has_human_approval(&subject));
    assert_eq!(kinds_since(&k, before), ["approval.recorded"]);
    let third = k.mint_approval_challenge(&machine(7), &t.id).unwrap();
    k.record_verified_human_approval_answered(8, approval(&third), "webauthn", Ok(()), Ok(()))
        .unwrap();
    assert!(k.has_human_approval(&subject));
}

#[test]
fn a_promotion_and_an_export_are_on_the_record_first() {
    let mut k = fresh();
    let module = ModuleManifest {
        name: "m".to_string(),
        version: "1".to_string(),
        content_hash: "sha256:m".to_string(),
        auto_approve_allowed: Some(true),
    };
    let verdict = |gate: GateKind| GateVerdict {
        gate,
        subject_hash: "sha256:m".to_string(),
        pass: true,
        evidence_hash: "sha256:e".to_string(),
        signer: "founder".to_string(),
    };
    let passed = vec![verdict(GateKind::AnnexIii), verdict(GateKind::Declassification)];
    let before = k.store.ledger.len();
    let ctx = machine(1);
    assert!(is_full(k.promote_answered(&ctx, &module, Ok(()), &passed, full(), Ok(()))));
    assert_eq!(k.store.ledger.len(), before);
    assert!(is_full(k.promote_answered(&ctx, &module, Ok(()), &passed, Ok(()), full())));
    assert_eq!(kinds_since(&k, before), ["module.promoted"]);
    assert_eq!(k.hot_modules().len(), 0);
    k.promote_answered(&ctx, &module, Ok(()), &passed, Ok(()), Ok(())).unwrap();
    assert_eq!(k.hot_modules().len(), 1);

    let before = k.store.ledger.len();
    assert!(is_full(k.export_answered(&ctx, "sha256:m", Scope::Public, &passed, full())));
    assert_eq!(k.store.ledger.len(), before);
    assert!(matches!(
        k.export_answered(&ctx, "sha256:m", Scope::Public, &vec![], full()),
        Err(KernelError::Gate(_))
    ));
    k.export_answered(&ctx, "sha256:m", Scope::Public, &passed, Ok(())).unwrap();
    assert_eq!(kinds_since(&k, before), ["module.exported"]);
}

#[test]
fn arches_follow_what_the_store_kept_of_them() {
    let mut k = fresh();
    let mock = || MockAdapter { manifest: mock_manifest("m", 4096), budget: 100 };
    let spec = || MountSpec::mock(&mock_manifest("m", 4096), 100);
    let refused = k.mount_answered(mock(), Ok(()), spec(), Remount::Keep, 1, full(), Ok(()));
    assert!(refused.err().unwrap().contains("disk full"));
    assert_eq!(k.arches().len(), 0);
    assert!(k.mount_answered(mock(), Ok(()), spec(), Remount::Keep, 2, Ok(()), Ok(())).is_ok());
    let arch = k.arches()[0].0.clone();
    assert!(k.unmount_answered(&arch, 3, full(), Ok(())).is_err());
    assert_eq!(k.arches().len(), 1);
    assert!(k.unmount_answered(&arch, 4, Ok(()), Ok(())).is_ok());
    assert_eq!(k.arches().len(), 0);
}

#[test]
fn a_step_whose_start_is_not_kept_is_not_run() {
    let mut k = fresh();
    let arch = k.register_arch(mock_manifest("m", 4096));
    let steps = vec![StepKind::Plan { arch_id: arch.clone() }, StepKind::Approve];
    let t = k.create_task(&machine(1), "g", "note", Label::bottom(), steps).unwrap();
    let before = k.store.ledger.len();
    assert!(is_full(k.run_task_step_answered(&machine(2), &t.id, full())));
    assert_eq!(k.store.ledger.len(), before);
    assert!(matches!(k.task(&machine(2), &t.id).unwrap().status, TaskStatus::Queued));
    k.run_task_step_answered(&machine(3), &t.id, Ok(())).unwrap();
    assert!(k.store.ledger.len() > before);
    // A task that is not there is not found, whatever the store would have said.
    assert!(matches!(
        k.run_task_step_answered(&machine(4), "task-none", full()),
        Err(KernelError::NotFound(_))
    ));
    // Waiting for a person is not a start.
    k.attach_artefact(&machine(4), &t.register, "note", b"x").unwrap();
    k.run_task_step_answered(&machine(5), &t.id, Ok(())).unwrap();
    assert!(k.run_task_step_answered(&machine(6), &t.id, full()).is_ok());
    // A stop that the row cannot keep is told as what the store said.
    k.stop(&human(7), "node").unwrap();
    assert!(is_full(k.run_task_step_answered(&machine(8), &t.id, full())));
    assert!(matches!(k.task(&machine(8), &t.id).unwrap().status, TaskStatus::WaitingHuman));
}

#[test]
fn an_unkept_task_uses_up_its_id() {
    let kept = || SubmitAnswers { first: Ok(()), second: Ok(()), row: Ok(()), logged: Ok(()) };
    let mut k = fresh();
    let ctx = machine(1);
    let submit = |k: &mut Mocked, w: SubmitAnswers| {
        k.submit_task_answered(&machine(1), "g", Label::bottom(), w)
    };
    let mut w = kept();
    w.first = full();
    assert!(is_full(submit(&mut k, w)));
    assert_eq!((k.store.counter, k.store.registers.len()), (1, 0));
    let mut w = kept();
    w.second = full();
    assert!(is_full(submit(&mut k, w)));
    assert_eq!((k.store.counter, k.store.registers.len()), (3, 0));
    let mut w = kept();
    w.row = full();
    assert!(is_full(submit(&mut k, w)));
    assert_eq!((k.store.counter, k.store.registers.len()), (5, 0));
    let before = k.store.ledger.len();
    let mut w = kept();
    w.logged = full();
    assert!(is_full(submit(&mut k, w)));
    assert_eq!((k.store.counter, k.store.registers.len()), (7, 1));
    assert_eq!(k.store.ledger.len(), before);
    assert_eq!(submit(&mut k, kept()).unwrap(), "reg-n1-8");

    let made = k.create_task_answered(&ctx, "g", "note", Label::bottom(), vec![], kept(), full());
    assert!(is_full(made));
    assert_eq!((k.store.tasks.len(), k.store.registers.len()), (0, 3));
    let made = k.create_task_answered(&ctx, "g", "../x", Label::bottom(), vec![], kept(), full());
    assert!(matches!(made, Err(KernelError::Gate(_))));
    k.create_task_answered(&ctx, "g", "note", Label::bottom(), vec![], kept(), Ok(())).unwrap();
    assert_eq!(k.store.tasks.len(), 1);
}

#[test]
fn a_register_a_device_and_an_automation_are_as_the_store_kept_them() {
    let mut k = fresh();
    let reg = k.submit_task(&machine(1), "g", Label::bottom()).unwrap();
    let with_goal = |k: &Mocked, goal: &str| {
        let mut r = k.read_register(&machine(1), &reg).unwrap();
        r.goal = goal.to_string();
        r
    };
    let goal = |k: &Mocked| k.read_register(&machine(1), &reg).unwrap().goal;
    let r = with_goal(&k, "a");
    assert!(is_full(k.write_register_answered(&machine(2), r, full(), Ok(()))));
    assert_eq!(goal(&k), "g");
    let before = k.store.ledger.len();
    let r = with_goal(&k, "b");
    assert!(is_full(k.write_register_answered(&machine(2), r, Ok(()), full())));
    assert_eq!((goal(&k), k.store.ledger.len()), ("b".to_string(), before));
    let r = with_goal(&k, "c");
    k.write_register_answered(&machine(2), r, Ok(()), Ok(())).unwrap();
    assert_eq!(kinds_since(&k, before), ["register.written"]);

    let before = k.store.ledger.len();
    assert!(is_full(k.enroll_device_answered("d", [7; 32], 3, full(), Ok(()))));
    assert!(!k.store.devices.has("d"));
    assert!(is_full(k.enroll_device_answered("d", [7; 32], 3, Ok(()), full())));
    assert!(k.store.devices.has("d"));
    assert_eq!(k.store.ledger.len(), before);
    k.enroll_device_answered("d", [7; 32], 3, Ok(()), Ok(())).unwrap();
    assert_eq!(kinds_since(&k, before), ["device.enrolled"]);

    let id = "passkey:abc";
    assert!(is_full(k.enroll_passkey_answered(id, Json::Null, 4, full(), Ok(()))));
    assert_eq!(k.passkeys().len(), 0);
    assert!(is_full(k.enroll_passkey_answered(id, Json::Null, 4, Ok(()), full())));
    assert_eq!(k.passkeys().len(), 1);
    assert!(matches!(
        k.enroll_passkey_answered(id, Json::Null, 4, full(), full()),
        Err(KernelError::I1(_))
    ));
    assert!(is_full(k.update_passkey_answered(id, Json::Bool(true), full())));
    assert_eq!(k.passkeys()[0].credential.render(), "null");
    k.update_passkey_answered(id, Json::Bool(true), Ok(())).unwrap();
    assert_eq!(k.passkeys()[0].credential.render(), "true");

    assert!(is_full(k.renew_liveness_answered("acme", "d", 100, full())));
    assert!(matches!(
        k.run_automation_answered(&machine(5), "acme", "m", full()),
        Err(KernelError::I4(_))
    ));
    k.renew_liveness_answered("acme", "d", 100, Ok(())).unwrap();
    let before = k.store.ledger.len();
    assert!(is_full(k.run_automation_answered(&machine(5), "acme", "m", full())));
    assert_eq!(k.store.ledger.len(), before);
    assert!(k.run_automation_answered(&human(5), "acme", "m", full()).is_ok());
    k.run_automation_answered(&machine(5), "acme", "m", Ok(())).unwrap();
    assert_eq!(kinds_since(&k, before), ["automation.ran"]);
}

#[test]
fn a_release_that_is_not_on_the_record_hands_out_nothing() {
    let mut k = fresh();
    let steps = vec![StepKind::Release { to_dir: "acme".to_string() }];
    let t = k.create_task(&machine(1), "g", "note", Label::bottom(), steps).unwrap();
    k.attach_artefact(&machine(1), &t.register, "note", b"x").unwrap();
    let before = k.store.ledger.len();
    assert!(is_full(k.plan_release_answered(&machine(2), &t, 0, "acme", full())));
    assert_eq!(k.store.ledger.len(), before);
    assert!(!is_full(k.plan_release_answered(&machine(2), &t, 0, "../acme", full())));
    assert!(k.plan_release_answered(&machine(2), &t, 0, "acme", Ok(())).is_ok());
    assert_eq!(kinds_since(&k, before), ["artefact.released"]);
}

#[test]
fn a_boot_that_is_not_on_the_record_touches_nothing() {
    let mut k = fresh();
    let t = harness_task(&mut k);
    let launch = launched(&mut k, &t.id);
    let before = k.store.ledger.len();
    assert!(is_full(k.boot_answered(5, 6, full(), Ok(()))));
    assert!(k.policies_version().is_none());
    assert!(is_full(k.boot_answered(5, 6, Ok(()), full())));
    assert_eq!(k.policies_version().as_deref(), Some("0"));
    assert_eq!(k.store.ledger.len(), before);
    assert!(k.harness_session(&launch.token, 7).is_ok());
    let report = k.boot_answered(8, 9, full(), Ok(())).unwrap();
    assert_eq!(report.ledger_len, before);
    assert_eq!(kinds_since(&k, before), ["boot", "task.step"]);
    assert!(k.harness_session(&launch.token, 10).is_err());

    assert!(is_full(k.record_forced_boot_answered(&report, 11, full())));
    assert!(!k.forced_boot());
    k.record_forced_boot_answered(&report, 12, Ok(())).unwrap();
    assert!(k.forced_boot());
    assert_eq!(k.store.ledger.last().unwrap().kind, "boot.forced");
}

#[test]
fn a_row_never_runs_ahead_of_the_record() {
    let mut k = fresh();
    let steps = vec![StepKind::Approve];
    let t = k.create_task(&machine(1), "g", "note", Label::bottom(), steps).unwrap();
    let before = k.store.ledger.len();
    let settle = |k: &mut Mocked, logged: Result<(), String>, saved: Result<(), String>| {
        let row = k.task(&machine(2), &t.id).unwrap();
        k.settle_step_answered(&machine(2), row, 0, false, Ok((StepStatus::Done, 3)), logged, saved)
    };
    assert!(is_full(settle(&mut k, full(), Ok(()))));
    assert_eq!(k.store.ledger.len(), before);
    assert!(is_full(settle(&mut k, Ok(()), full())));
    assert_eq!(kinds_since(&k, before), ["task.step"]);
    assert!(matches!(k.task(&machine(3), &t.id).unwrap().status, TaskStatus::Queued));
    let done = settle(&mut k, Ok(()), Ok(())).unwrap();
    assert!(matches!(done.status, TaskStatus::Done));
    assert_eq!(done.steps[0].tokens, 3);
    assert!(matches!(k.task(&machine(4), &t.id).unwrap().status, TaskStatus::Done));
}

#[test]
fn two_runs_of_a_task_are_never_one_holder() {
    let mut k = fresh();
    let lease = k.harness_lease(&machine(1), "task-1", 100).unwrap();
    assert_eq!((lease.id.as_str(), lease.expires_at_ms), ("lease-harness:task-1-1", 101));
    assert!(matches!(k.harness_lease(&machine(2), "task-1", 100), Err(KernelError::Lock(_))));
    assert_eq!(k.harness_lease(&machine(101), "task-1", 100).unwrap().fence, 2);
}

#[test]
fn a_run_whose_lease_is_not_kept_is_given_no_token() {
    let kept = || LeaseAnswers {
        row: Ok(()),
        cleared: Ok(()),
        left: vec![],
        fence: Ok(()),
        logged: Ok(()),
    };
    let mut k = fresh();
    let t = harness_task(&mut k);
    let launch = |k: &mut Mocked, name: &str, stopped: Result<(), String>, w: LeaseAnswers| {
        k.harness_launch_answered(&machine(2), &t.id, name, 100, "run-1", "secret", stopped, w)
    };
    let mut w = kept();
    w.logged = full();
    assert!(is_full(launch(&mut k, HARNESS, Ok(()), w)));
    assert!(k.harness_session("secret", 3).is_err());
    assert!(!k.harness_running(&t.id));
    // Another harness than the step names is refused before any lease is asked for.
    let mut w = kept();
    w.row = full();
    assert!(matches!(launch(&mut k, "other", Ok(()), w), Err(KernelError::Gate(_))));
    // The same run holds the lease already, and takes it again.
    assert!(launch(&mut k, HARNESS, full(), kept()).is_ok());
    assert!(k.harness_session("secret", 3).is_ok());

    let mut k = fresh();
    let t = harness_task(&mut k);
    k.stop(&human(2), "node").unwrap();
    let halted = |k: &mut Mocked, stopped: Result<(), String>| {
        k.harness_launch_answered(&machine(3), &t.id, HARNESS, 100, "r", "s", stopped, kept())
    };
    assert!(is_full(halted(&mut k, full())));
    assert!(matches!(k.task(&machine(4), &t.id).unwrap().status, TaskStatus::Queued));
    assert!(matches!(halted(&mut k, Ok(())), Err(KernelError::Stopped(_))));
    assert!(matches!(k.task(&machine(4), &t.id).unwrap().status, TaskStatus::Stopped));
}
