use vk_kernel::adapter::MockAdapter;
use vk_kernel::error::KernelError;
use vk_kernel::hash::hash_bytes;
use vk_kernel::json::Items;
use vk_kernel::kernel::{RealKernel, RecordState};
use vk_kernel::labels::{Clearance, DataClass, Label, Origins, Scope};
use vk_kernel::manifest::{
    ArchIdentity, ArchManifest, Capabilities, Determinism, Locality,
};
use vk_kernel::ns::{resolve, Entry};
use vk_kernel::outside::now_ms;
use vk_kernel::principal::{Ctx, Principal};
use vk_kernel::register::ArtefactRef;
use vk_kernel::scheduler::{Releasing, StepRun, INTERRUPTED};
use vk_kernel::screens::{decisions_to_json, top_to_json};
use vk_kernel::store::Store;
use vk_kernel::table::Table;
use vk_kernel::task::{StepKind, StepStatus, Task, TaskStatus};

type Mocked = RealKernel<MockAdapter>;

const SOUND: RecordState = RecordState {
    chain_ok: true,
    head_ok: true,
    recovered_partial_line: false,
};

fn fresh() -> Mocked {
    RealKernel::<MockAdapter>::open(Store::new("/state"), "n1", SOUND, now_ms(), &Table::new())
}

fn reopened(k: Mocked) -> Mocked {
    RealKernel::<MockAdapter>::open(k.into_store(), "n1", SOUND, now_ms(), &Table::new())
}

fn local_named(name: &str, clearance: Clearance) -> ArchManifest {
    ArchManifest {
        name: name.to_string(),
        capabilities: Capabilities { generate: true, plan: true, judge: false },
        locality: Locality::Local,
        jurisdiction: "FR".to_string(),
        retention_days: None,
        cost_per_1k_tokens_eur: Some("0.0".to_string()),
        latency_ms_p50: 1,
        context_ceiling: 100,
        determinism: Determinism::SeededDeterministic,
        identity: ArchIdentity {
            weights_sha256: format!("sha256:mock-{name}"),
            engine: "mock".to_string(),
            engine_version: "1".to_string(),
            backend: "cpu".to_string(),
            quant: "-".to_string(),
            kv_cache: "-".to_string(),
            threads: 1,
            batch: 1,
            sampling: vec![],
            seed: Some(1),
        },
        clearance,
        governed: true,
    }
}

fn local(clearance: Clearance) -> ArchManifest {
    local_named("mock", clearance)
}

fn personal() -> Clearance {
    Clearance { max_scope: Scope::Personal, third_party_allowed: true }
}

fn machine(now: u64) -> Ctx {
    Ctx {
        principal: Principal::Machine { node_id: "n1".to_string(), lease_id: "cli".to_string() },
        clearance: personal(),
        partition: "p1".to_string(),
        now_ms: now,
    }
}

fn human(now: u64) -> Ctx {
    Ctx {
        principal: Principal::Human { device_id: "phone-1".to_string() },
        ..machine(now)
    }
}

fn low(now: u64) -> Ctx {
    Ctx {
        clearance: Clearance { max_scope: Scope::Public, third_party_allowed: true },
        ..machine(now)
    }
}

fn business() -> Label {
    Label {
        scope: Scope::Business,
        data_class: DataClass::Own,
        origins: Origins { owner_authored: false, web: false },
    }
}

fn released(k: &Mocked) -> usize {
    k.store.ledger.iter().filter(|e| e.kind == "artefact.released").count()
}

fn settled(run: Result<StepRun, KernelError>) -> Task {
    match run.unwrap() {
        StepRun::Settled(t) => t,
        StepRun::Releasing(_) => panic!("a step that releases nothing"),
    }
}

fn releasing(run: Result<StepRun, KernelError>) -> Releasing {
    match run.unwrap() {
        StepRun::Releasing(r) => r,
        StepRun::Settled(_) => panic!("a step that releases"),
    }
}

fn plan(arch: &str) -> StepKind {
    StepKind::Plan { arch_id: arch.to_string() }
}

fn draft(arch: &str) -> StepKind {
    StepKind::Draft { arch_id: arch.to_string() }
}

fn release(dir: &str) -> StepKind {
    StepKind::Release { to_dir: dir.to_string() }
}

#[test]
fn plan_then_draft_then_approve_waits_for_a_human() {
    let mut k = fresh();
    let arch = k.register_arch(local(personal()));
    let t = k
        .create_task(
            &machine(1),
            "Draft a proposal for Acme",
            "proposal",
            Label::bottom(),
            vec![plan(&arch), draft(&arch), StepKind::Approve, release("out")],
        )
        .unwrap();
    let t = settled(k.run_task_step(&machine(2), &t.id));
    assert!(matches!(t.steps[0].status, StepStatus::Done));
    let t = settled(k.run_task_step(&machine(3), &t.id));
    assert!(matches!(t.steps[1].status, StepStatus::Done));
    let t = settled(k.run_task_step(&machine(4), &t.id));
    assert!(matches!(t.status, TaskStatus::WaitingHuman));
    let reg = k.read_register(&machine(5), &t.register).unwrap();
    assert!(reg.decisions.iter().any(|d| d.starts_with("plan:")));
    assert!(reg.decisions.iter().any(|d| d.starts_with("draft:")));
    assert_eq!(k.top(&machine(0)).arches.get(&arch).unwrap().stats.calls, 2);
    assert_eq!(t.id, reg.task_id, "one task, one id");

    // Polling a step that is still waiting is not a transition.
    let before = k.store.ledger.len();
    let again = settled(k.run_task_step(&machine(6), &t.id));
    assert!(matches!(again.status, TaskStatus::WaitingHuman));
    assert_eq!(format!("{again:?}"), format!("{t:?}"));
    assert_eq!(
        k.store.ledger.len(),
        before,
        "re-polling a waiting step must not grow the ledger"
    );
}

#[test]
fn the_draft_step_attaches_its_output_as_the_tasks_artefact() {
    let mut k = fresh();
    let arch = k.register_arch(local(personal()));
    let t = k
        .create_task(
            &machine(1),
            "Draft a proposal for Acme",
            "proposal",
            Label::bottom(),
            vec![draft(&arch), release("out")],
        )
        .unwrap();
    let t = settled(k.run_task_step(&machine(2), &t.id));
    assert!(matches!(t.steps[0].status, StepStatus::Done));

    let reg = k.read_register(&machine(3), &t.register).unwrap();
    assert_eq!(reg.artefacts.len(), 1, "the draft is the task's artefact");
    assert_eq!(reg.artefacts[0].kind, "proposal");
    let bytes = k.read_artefact(&machine(3), &reg.artefacts[0].hash).unwrap();
    assert_eq!(String::from_utf8(bytes).unwrap(), *reg.decisions.last().unwrap());

    // It is what a release writes out.
    let out = releasing(k.run_task_step(&machine(5), &t.id));
    let name = format!(
        "{}.proposal",
        &reg.artefacts[0].hash.trim_start_matches("sha256:")[..12]
    );
    assert_eq!(out.dest, format!("{}/out", k.export_root()));
    assert_eq!(out.files.len(), 1);
    assert_eq!(out.files[0].name, name);
    assert_eq!(out.files[0].hash, reg.artefacts[0].hash);
    assert_eq!(
        String::from_utf8(out.bytes[0].clone()).unwrap(),
        *reg.decisions.last().unwrap()
    );
    let t = k.settle_release(&machine(5), out, Ok(())).unwrap();
    assert!(matches!(t.status, TaskStatus::Done));
}

#[test]
fn task_decisions_reports_a_count_a_length_and_a_hash_per_step_and_never_the_text() {
    let mut k = fresh();
    let arch = k.register_arch(local(personal()));
    let t = k
        .create_task(
            &machine(1),
            "Draft a proposal for Acme",
            "proposal",
            Label::bottom(),
            vec![plan(&arch), draft(&arch), StepKind::Judge { arch_id: arch.clone() }],
        )
        .unwrap();

    assert!(k.task_decisions(&machine(2), &t).unwrap().is_empty());

    let t = settled(k.run_task_step(&machine(3), &t.id));
    let after_plan = k.task_decisions(&machine(4), &t).unwrap();
    assert_eq!(after_plan.len(), 1, "{after_plan:?}");
    assert_eq!(after_plan[0].after_step, 0);
    assert_eq!(after_plan[0].count, 1);
    assert!(after_plan[0].last_len_bytes > 0, "{after_plan:?}");
    assert!(after_plan[0].last_hash.starts_with("sha256:"), "{after_plan:?}");

    // The judge's verdict is an open question and adds no entry.
    let t = settled(k.run_task_step(&machine(5), &t.id));
    let t = settled(k.run_task_step(&machine(6), &t.id));
    assert!(matches!(t.steps[2].status, StepStatus::Done));
    let all = k.task_decisions(&machine(7), &t).unwrap();
    assert_eq!(
        all.iter().map(|d| d.after_step).collect::<Vec<_>>(),
        vec![0, 1],
        "the judge raises an open question, not a decision: {all:?}"
    );
    assert_eq!(all[1].count, 2, "{all:?}");
    assert_ne!(all[0].last_hash, all[1].last_hash, "{all:?}");

    let reg = k.read_register(&machine(8), &t.register).unwrap();
    assert_eq!(reg.decisions.len(), 2);
    assert_eq!(all[0].last_len_bytes, reg.decisions[0].len());
    assert_eq!(all[1].last_len_bytes, reg.decisions[1].len());
    assert_eq!(all[1].last_hash, hash_bytes(reg.decisions[1].as_bytes()));
    let mut rows = Items::new();
    rows.add(decisions_to_json(&all));
    let json = rows.array().render();
    for decision in &reg.decisions {
        assert!(
            !json.contains(decision.trim()),
            "a decision's text reached the summary: {json}"
        );
    }
}

#[test]
fn task_decisions_refuses_a_register_above_the_callers_clearance() {
    let mut k = fresh();
    let arch = k.register_arch(local(personal()));
    let t = k
        .create_task(
            &machine(1),
            "the confidential goal",
            "note",
            business(),
            vec![plan(&arch)],
        )
        .unwrap();
    let t = settled(k.run_task_step(&machine(2), &t.id));
    assert_eq!(k.task_decisions(&machine(3), &t).unwrap().len(), 1);
    assert!(matches!(k.task_decisions(&low(4), &t), Err(KernelError::I2(_))));
}

#[test]
fn the_approval_subject_is_answered_only_while_the_task_waits_at_its_approve_step() {
    let mut k = fresh();
    let arch = k.register_arch(local(personal()));
    let t = k
        .create_task(
            &machine(1),
            "Draft a proposal for Acme",
            "proposal",
            Label::bottom(),
            vec![draft(&arch), StepKind::Approve],
        )
        .unwrap();

    // Queued: the draft has not run, so there is nothing to approve yet.
    let err = k.approval_subject(&machine(2), &t.id).unwrap_err();
    assert!(matches!(err, KernelError::Gate(_)), "{err:?}");
    assert!(
        err.text().contains("not waiting for an approval") && err.text().contains("queued"),
        "the refusal must name the status a person just saw: {}",
        err.text()
    );

    // At the Approve step: the drafted artefact, and the step agrees.
    let t = settled(k.run_task_step(&machine(3), &t.id));
    let subject = k.approval_subject(&machine(4), &t.id).unwrap();
    let reg = k.read_register(&machine(4), &t.register).unwrap();
    assert_eq!(subject, reg.artefacts[0].hash);
    let t = settled(k.run_task_step(&machine(5), &t.id));
    assert!(matches!(t.status, TaskStatus::WaitingHuman));
    assert_eq!(k.approval_subject(&machine(6), &t.id).unwrap(), subject);
}

#[test]
fn stopped_scope_halts_the_scheduler() {
    let mut k = fresh();
    let arch = k.register_arch(local(personal()));
    let t = k
        .create_task(&machine(1), "x", "note", Label::bottom(), vec![plan(&arch)])
        .unwrap();
    k.stop(&human(2), "node").unwrap();
    assert!(matches!(
        k.run_task_step(&machine(3), &t.id),
        Err(KernelError::Stopped(_))
    ));
}

#[test]
fn terminal_tasks_are_not_restarted() {
    let mut k = fresh();
    let arch = k.register_arch(local(personal()));
    let done = k
        .create_task(
            &machine(1),
            "draft a proposal",
            "note",
            Label::bottom(),
            vec![plan(&arch)],
        )
        .unwrap();
    let done = settled(k.run_task_step(&machine(2), &done.id));
    assert!(matches!(done.status, TaskStatus::Done));

    let failed = k
        .create_task(&machine(3), "x", "note", Label::bottom(), vec![plan("arch-nope")])
        .unwrap();
    assert!(k.run_task_step(&machine(4), &failed.id).is_err());
    let again = settled(k.run_task_step(&machine(5), &failed.id));
    assert!(matches!(again.status, TaskStatus::Failed));
    assert!(matches!(again.steps[0].status, StepStatus::Failed(_)));

    // A STOP halts what is running, it does not rewrite history.
    k.stop(&human(6), "node").unwrap();
    let after = settled(k.run_task_step(&machine(7), &done.id));
    assert!(matches!(after.status, TaskStatus::Done));
    assert!(matches!(
        k.task(&machine(0), &done.id).unwrap().status,
        TaskStatus::Done
    ));
}

#[test]
fn release_writes_artefacts_under_the_export_root() {
    let mut k = fresh();
    let t = k
        .create_task(&machine(1), "x", "proposal", Label::bottom(), vec![release("out")])
        .unwrap();
    let env = k
        .attach_artefact(&machine(2), &t.register, "proposal.md", b"# Proposal")
        .unwrap();
    let out = releasing(k.run_task_step(&machine(3), &t.id));
    let name = format!("{}.proposal.md", &env.hash.trim_start_matches("sha256:")[..12]);
    assert_eq!(out.root, k.export_root());
    assert_eq!(out.dest, format!("{}/out", k.export_root()));
    assert_eq!(out.files.len(), 1);
    assert_eq!(out.files[0].name, name);
    assert_eq!(out.bytes, vec![b"# Proposal".to_vec()]);
    assert!(out.fault.is_none());
    let t = k.settle_release(&machine(3), out, Ok(())).unwrap();
    assert!(matches!(t.status, TaskStatus::Done));
    assert_eq!(released(&k), 1, "the release must be on the ledger");

    // A destination that is not a relative subpath of the export root is refused
    // before anything is written.
    for bad in ["../escape", "/state/abs"] {
        let t = k
            .create_task(&machine(4), "x", "proposal", Label::bottom(), vec![release(bad)])
            .unwrap();
        k.attach_artefact(&machine(5), &t.register, "proposal.md", b"# Proposal")
            .unwrap();
        assert!(
            matches!(k.run_task_step(&machine(6), &t.id), Err(KernelError::Gate(_))),
            "{bad} must be refused"
        );
        let row = k.task(&machine(0), &t.id).unwrap();
        assert!(matches!(row.status, TaskStatus::Failed));
        assert!(matches!(row.steps[0].status, StepStatus::Failed(_)));
    }
    assert_eq!(released(&k), 1, "a refused release must not be logged");
}

#[test]
fn what_is_above_the_clearance_of_who_releases_it_stays_in_the_kernel() {
    let mut k = fresh();
    let secret = Label { scope: Scope::Holdout, ..Label::bottom() };
    let all = Ctx {
        clearance: Clearance { max_scope: Scope::Holdout, third_party_allowed: true },
        ..machine(1)
    };
    let shut = k.submit_task(&all, "secret", secret).unwrap();
    let held = k.attach_artefact(&all, &shut, "secret", b"not to be seen").unwrap();
    let t = k
        .create_task(&machine(1), "x", "proposal", Label::bottom(), vec![release("out")])
        .unwrap();
    k.attach_artefact(&machine(2), &t.register, "proposal.md", b"# Proposal").unwrap();
    let mut reg = k.read_register(&machine(2), &t.register).unwrap();
    reg.artefacts.push(ArtefactRef { hash: held.hash.clone(), kind: "secret".to_string() });
    k.write_register(&machine(2), reg).unwrap();

    let out = releasing(k.run_task_step(&machine(3), &t.id));
    assert_eq!(out.files.len(), 2);
    assert_eq!(out.bytes, vec![b"# Proposal".to_vec()], "only what may be seen is handed out");
    assert!(matches!(out.fault, Some(KernelError::I2(_))));
    assert!(matches!(k.settle_release(&machine(4), out, Ok(())), Err(KernelError::I2(_))));
    assert!(matches!(k.task(&machine(5), &t.id).unwrap().status, TaskStatus::Failed));
}

#[test]
fn a_release_that_could_not_be_written_fails_the_step_and_stays_on_the_record() {
    let mut k = fresh();
    let t = k
        .create_task(&machine(1), "x", "proposal", Label::bottom(), vec![release("out")])
        .unwrap();
    k.attach_artefact(&machine(2), &t.register, "proposal.md", b"# Proposal").unwrap();
    let out = releasing(k.run_task_step(&machine(3), &t.id));
    let err = k
        .settle_release(&machine(4), out, Err(KernelError::Store("disk full".to_string())))
        .unwrap_err();
    assert_eq!(err.text(), KernelError::Store("disk full".to_string()).text());
    let row = k.task(&machine(5), &t.id).unwrap();
    assert!(matches!(row.status, TaskStatus::Failed));
    assert_eq!(released(&k), 1, "the record comes before the bytes");
}

#[test]
fn a_traversing_artefact_kind_cannot_escape_the_export_root() {
    let mut k = fresh();
    let t = k
        .create_task(&machine(1), "x", "proposal", Label::bottom(), vec![release("out")])
        .unwrap();
    k.attach_artefact(&machine(2), &t.register, "proposal.md", b"# Proposal").unwrap();
    let mut reg = k.read_register(&machine(3), &t.register).unwrap();
    reg.artefacts[0].kind = "../../../../vk-escape-marker.md".to_string();
    k.write_register(&machine(3), reg).unwrap();

    assert!(matches!(
        k.run_task_step(&machine(4), &t.id),
        Err(KernelError::Gate(_))
    ));
    let row = k.task(&machine(0), &t.id).unwrap();
    assert!(matches!(row.status, TaskStatus::Failed));
    assert!(matches!(row.steps[0].status, StepStatus::Failed(_)));
    assert_eq!(released(&k), 0, "a refused release must not be logged");
}

#[test]
fn stopped_and_failed_rows_are_persisted() {
    let mut k = fresh();
    let failed = k
        .create_task(&machine(1), "x", "note", Label::bottom(), vec![plan("arch-nope")])
        .unwrap();
    assert!(matches!(
        k.run_task_step(&machine(2), &failed.id),
        Err(KernelError::NotFound(_))
    ));
    let row = k.task(&machine(0), &failed.id).unwrap();
    assert!(matches!(row.status, TaskStatus::Failed));
    match &row.steps[0].status {
        StepStatus::Failed(reason) => assert!(reason.contains("arch-nope"), "{reason}"),
        other => panic!("expected a failed step, got {other:?}"),
    }

    let arch = k.register_arch(local(personal()));
    let stopped = k
        .create_task(&machine(3), "x", "note", Label::bottom(), vec![plan(&arch)])
        .unwrap();
    k.stop(&human(4), "node").unwrap();
    assert!(matches!(
        k.run_task_step(&machine(5), &stopped.id),
        Err(KernelError::Stopped(_))
    ));
    assert!(matches!(
        k.task(&machine(0), &stopped.id).unwrap().status,
        TaskStatus::Stopped
    ));

    // A caller that never comes back must not be the only record of either.
    let k = reopened(k);
    assert!(matches!(
        k.task(&machine(0), &failed.id).unwrap().status,
        TaskStatus::Failed
    ));
    assert!(matches!(
        k.task(&machine(0), &stopped.id).unwrap().status,
        TaskStatus::Stopped
    ));
    assert_eq!(k.top(&machine(0)).stopped_scopes, vec!["node".to_string()]);
}

#[test]
fn top_names_every_stopped_scope_not_only_the_ones_it_knows_to_ask_about() {
    let mut k = fresh();
    let s = k.stop(&human(1), "business:acme").unwrap();
    assert_eq!(
        k.top(&machine(0)).stopped_scopes,
        vec!["business:acme".to_string()]
    );
    k.resume(&human(2), &s).unwrap();
    assert!(k.top(&machine(0)).stopped_scopes.is_empty());
}

#[test]
fn top_survives_reopen() {
    let mut k = fresh();
    let arch = k.register_arch(local(personal()));
    let t = k
        .create_task(
            &machine(1),
            "draft a proposal",
            "note",
            Label::bottom(),
            vec![plan(&arch)],
        )
        .unwrap();
    let t = settled(k.run_task_step(&machine(2), &t.id));
    assert!(matches!(t.status, TaskStatus::Done));
    assert_eq!(k.top(&machine(0)).arches.get(&arch).unwrap().stats.calls, 1);

    let k = reopened(k);
    let v = k.top(&machine(0));
    assert_eq!(
        v.arches.get(&arch).unwrap().stats.calls,
        1,
        "per-arch counters come from what is kept, not from this process's memory"
    );
    assert!(matches!(v.tasks.get(&t.id).unwrap().status, TaskStatus::Done));
    assert!(v.stopped_scopes.is_empty());
}

#[test]
fn top_says_where_each_arch_is_and_under_whose_law() {
    let mut k = fresh();
    let mut cloud = local_named("cloud", personal());
    cloud.locality = Locality::Cloud;
    cloud.jurisdiction = "US".to_string();
    cloud.governed = false;
    let cloud_id = k.register_arch(cloud);
    let local_id = k.register_arch(local_named("here", personal()));

    let v = k.top(&machine(0));
    let there = v.arches.get(&cloud_id).unwrap();
    let here = v.arches.get(&local_id).unwrap();
    let m = there.mounted.as_ref().unwrap();
    assert_eq!(m.locality, "cloud");
    assert_eq!(m.jurisdiction, "US");
    assert!(!m.governed, "a cloud arch is not governed");
    let m = here.mounted.as_ref().unwrap();
    assert_eq!(m.locality, "local");
    assert_eq!(m.jurisdiction, "FR");
    // Never called, and still on the screen with a row of zeros.
    assert_eq!(there.stats.calls, 0);
    assert_eq!(here.stats.calls, 0);
    // Nothing has been called, so there is nothing per-call to show.
    assert!(top_to_json(&v, &Table::new()).get("calls").is_none());
}

#[test]
fn namespace_lists_and_resolves() {
    let mut k = fresh();
    let arch = k.register_arch(local(personal()));
    k.enroll_device_persisted("phone-1", [7u8; 32]).unwrap();
    assert!(matches!(resolve(&k, &machine(0), "/").unwrap(), Entry::Dir(_)));
    assert!(matches!(
        resolve(&k, &machine(0), &format!("/arches/{arch}")).unwrap(),
        Entry::Arch { .. }
    ));
    match resolve(&k, &machine(0), "/devices/phone-1").unwrap() {
        Entry::Device(id) => assert_eq!(id, "phone-1"),
        other => panic!("expected a device, got {other:?}"),
    }
    assert!(resolve(&k, &machine(0), "/devices/ghost").is_err());
    assert!(resolve(&k, &machine(0), "/nope").is_err());
}

fn listed(k: &Mocked, ctx: &Ctx) -> Vec<String> {
    match resolve(k, ctx, "/tasks").unwrap() {
        Entry::Dir(entries) => entries,
        other => panic!("expected a listing, got {other:?}"),
    }
}

#[test]
fn a_task_above_the_callers_clearance_is_absent_from_every_task_view() {
    let mut k = fresh();
    let arch = k.register_arch(local(personal()));
    let cleared = machine(1);
    let secret = k
        .create_task(
            &cleared,
            "the confidential goal",
            "note",
            business(),
            vec![plan(&arch)],
        )
        .unwrap();
    let plain = k
        .create_task(&cleared, "a public goal", "note", Label::bottom(), vec![plan(&arch)])
        .unwrap();
    let low = low(2);

    // Not there, for the caller who is not cleared for it.
    assert!(k.task(&low, &secret.id).is_none());
    assert_eq!(
        k.tasks(&low).iter().map(|t| t.id.clone()).collect::<Vec<_>>(),
        vec![plain.id.clone()]
    );
    assert_eq!(k.top(&low).tasks.key_list(), vec![plain.id.clone()]);
    assert_eq!(listed(&k, &low), vec![plain.id.clone()]);
    assert!(matches!(
        resolve(&k, &low, &format!("/tasks/{}", secret.id)),
        Err(KernelError::NotFound(_))
    ));
    assert!(matches!(
        k.run_task_step(&low, &secret.id),
        Err(KernelError::NotFound(_))
    ));
    assert!(matches!(
        k.approval_subject(&low, &secret.id),
        Err(KernelError::NotFound(_))
    ));

    // There, unchanged, for the caller who is.
    let seen = k.task(&cleared, &secret.id).expect("visible to a cleared caller");
    assert_eq!(
        format!("{seen:?}"),
        format!("{secret:?}"),
        "the refused step must not have touched the row"
    );
    assert_eq!(k.tasks(&cleared).len(), 2);
    assert!(k.top(&cleared).tasks.has(&secret.id));
    assert_eq!(listed(&k, &cleared).len(), 2);
    assert!(matches!(
        resolve(&k, &cleared, &format!("/tasks/{}", secret.id)),
        Ok(Entry::Task(_))
    ));
}

fn calls(k: &Mocked, arch: &str) -> u64 {
    k.top(&machine(9)).arches.get(arch).map_or(0, |s| s.stats.calls)
}

#[test]
fn a_step_left_running_by_a_crash_is_failed_at_boot_and_never_re_run() {
    let mut k = fresh();
    let arch = k.register_arch(local(personal()));
    let t = k
        .create_task(
            &machine(1),
            "Draft a proposal for Acme",
            "proposal",
            Label::bottom(),
            vec![plan(&arch), draft(&arch)],
        )
        .unwrap();
    let id = t.id.clone();
    // What a crash mid-step leaves behind.
    let mut crashed = t;
    crashed.steps[0].status = StepStatus::Running;
    crashed.steps[0].started_ms = Some(1);
    crashed.status = TaskStatus::Running;
    let mut store = k.into_store();
    store.tasks.insert(&id, crashed);

    let mut k = RealKernel::<MockAdapter>::open(store, "n1", SOUND, now_ms(), &Table::new());
    let before = k.store.ledger.len();
    k.boot();
    let t = k.task(&machine(2), &id).expect("the task is still there");
    match &t.steps[0].status {
        StepStatus::Failed(why) => assert_eq!(why, INTERRUPTED),
        other => panic!("the interrupted step says what happened to it: {other:?}"),
    }
    assert!(matches!(t.status, TaskStatus::Failed));
    assert!(
        matches!(t.steps[1].status, StepStatus::Pending),
        "only the step that was running is touched"
    );
    let kinds: Vec<&str> = k.store.ledger[before..].iter().map(|e| e.kind.as_str()).collect();
    assert!(
        kinds.contains(&"task.step"),
        "the recovery belongs in the record: {kinds:?}"
    );

    // Never re-run: the arch is not called again, and the row does not move.
    let spent = calls(&k, &arch);
    let again = settled(k.run_task_step(&machine(3), &id));
    assert_eq!(
        format!("{:?}", again.steps[0].status),
        format!("{:?}", t.steps[0].status)
    );
    assert!(matches!(again.status, TaskStatus::Failed));
    assert_eq!(calls(&k, &arch), spent, "a failed step is not retried by asking");

    // And booting again changes nothing.
    let before = k.store.ledger.len();
    k.boot();
    let kinds: Vec<&str> = k.store.ledger[before..].iter().map(|e| e.kind.as_str()).collect();
    assert_eq!(kinds, ["boot"], "a clean boot recovers nothing: {kinds:?}");
}
