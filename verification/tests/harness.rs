use vk_kernel::adapter::MockAdapter;
use vk_kernel::confine::{Attempt, JobGovernor, NoopGovernor, RefusalFacts};
use vk_kernel::error::KernelError;
use vk_kernel::harness::{
    FileRead, HarnessConnectionsRecord, HarnessLaunch, HarnessStart, OutFile, Unwritten,
};
use vk_kernel::json::{Fields, Items, Json};
use vk_kernel::kernel::{RealKernel, RecordState};
use vk_kernel::labels::{Clearance, DataClass, Label, Origins, Scope};
use vk_kernel::launch::{
    launch_line, mcp_config_path, mcp_json, next_move, read_outcome, settings_json, settings_path,
    ExitReason, HarnessConfig, HarnessRun, Move, Watch,
};
use vk_kernel::outside::now_ms;
use vk_kernel::principal::{Ctx, Principal};
use vk_kernel::register::ArtefactRef;
use vk_kernel::store::Store;
use vk_kernel::table::Table;
use vk_kernel::task::{StepKind, StepStatus, Task, TaskStatus};
use vk_kernel::workspace::{harness_clearance, Workspace};

type Mocked = RealKernel<MockAdapter>;

const HARNESS: &str = "coder-code";

const SOUND: RecordState = RecordState {
    chain_ok: true,
    head_ok: true,
    recovered_partial_line: false,
};

fn fresh() -> Mocked {
    RealKernel::<MockAdapter>::open(Store::new("/state"), "n1", SOUND, now_ms(), &Table::new())
}

fn machine(now: u64) -> Ctx {
    Ctx {
        principal: Principal::Machine { node_id: "n1".to_string(), lease_id: "cli".to_string() },
        clearance: Clearance { max_scope: Scope::Personal, third_party_allowed: true },
        partition: "local".to_string(),
        now_ms: now,
    }
}

fn connections_events(k: &Mocked) -> usize {
    k.store.ledger.iter().filter(|e| e.kind == "harness.connections").count()
}

/// A task with one harness step (and, if asked, an approval after it).
fn harness_task(k: &mut Mocked, with_approve: bool) -> Task {
    let mut steps = vec![StepKind::Harness { name: HARNESS.to_string() }];
    if with_approve {
        steps.push(StepKind::Approve);
    }
    k.create_task(
        &machine(1),
        "Draft a proposal for Acme",
        "proposal",
        Label::bottom(),
        steps,
    )
    .unwrap()
}

/// What a settle is handed of a run that ended so.
fn run_ending(reason: ExitReason) -> HarnessRun {
    HarnessRun {
        exit_code: match &reason {
            ExitReason::Exited(c) => Some(*c),
            _ => None,
        },
        exit_reason: reason,
        stdout_json: String::new(),
        outcome: None,
        connections: vec![],
        samples: 0,
        duration_ms: 1,
        governed: false,
    }
}

fn start(k: &mut Mocked, now: u64, task_id: &str) -> HarnessStart {
    match k.harness_launch(&machine(now), task_id, HARNESS, 30_000) {
        Ok(s) => s,
        Err(e) => panic!("{}", e.text()),
    }
}

fn materialised(k: &mut Mocked, now: u64, start: HarnessStart) -> HarnessLaunch {
    match k.harness_materialised(&machine(now), start, Ok(())) {
        Ok(l) => l,
        Err(e) => panic!("{}", e.text()),
    }
}

fn launched(k: &mut Mocked, now: u64, task_id: &str) -> HarnessLaunch {
    let s = start(k, now, task_id);
    materialised(k, now, s)
}

fn file(bytes: &[u8]) -> FileRead {
    FileRead { len: Ok(bytes.len() as u64), bytes: Ok(bytes.to_vec()) }
}

fn out(name: &str, bytes: &[u8]) -> OutFile {
    OutFile { name: name.to_string(), file: file(bytes) }
}

fn config_for(launch: &HarnessLaunch) -> HarnessConfig {
    HarnessConfig {
        binary: "/state/stand-in".to_string(),
        workspace: launch.workspace.clone(),
        config_dir: launch.config_dir.clone(),
        lease_token: launch.token.clone(),
        endpoint: "unused-in-this-test".to_string(),
        mcp_server: "vk-mcp".to_string(),
        prompt: launch.prompt.clone(),
        model: None,
        system_suffix: None,
        timeout_ms: 30_000,
        windows: false,
    }
}

#[test]
fn a_harness_step_leases_materialises_launches_collects_and_settles() {
    let mut k = fresh();
    let t = harness_task(&mut k, false);

    // The generic scheduler refuses a harness step and changes nothing.
    let refused = k.run_task_step(&machine(2), &t.id).err().unwrap();
    assert!(
        refused.text().contains("harness run"),
        "a harness step points the operator at `vk harness run`: {}",
        refused.text()
    );
    assert!(matches!(
        k.task(&machine(0), &t.id).unwrap().status,
        TaskStatus::Queued
    ));

    // Phase one: lease, token, workspace.
    let start = start(&mut k, 3, &t.id);
    assert!(start.plan.task_md.contains("Draft a proposal for Acme"));
    assert!(start.plan.fault.is_none());
    let launch = materialised(&mut k, 3, start);
    assert!(
        launch.config_dir.starts_with("/state/harness/"),
        "the config dir is beside the workspace, not in it: {}",
        launch.config_dir
    );
    assert!(!launch.config_dir.starts_with(&format!("{}/", launch.workspace)));
    assert_ne!(launch.config_dir, launch.workspace);
    // The token is a secret of its own: random, base64url, never the lease id.
    assert_ne!(launch.token, launch.lease_id);
    assert_eq!(launch.token.len(), 43, "32 bytes base64url without padding");
    assert!(launch.lease_id.starts_with("lease-"));
    assert!(launch
        .token
        .chars()
        .all(|c| c.is_ascii_alphanumeric() || c == '-' || c == '_'));
    let session = k.harness_session(&launch.token, 4).unwrap();
    match &session.ctx.principal {
        Principal::Machine { node_id, lease_id } => {
            assert_eq!(node_id, "n1");
            assert_eq!(lease_id, &launch.lease_id);
        }
        other => panic!("{other:?}"),
    }
    assert_eq!(session.ctx.clearance.max_scope, Scope::Business);
    assert!(!session.ctx.clearance.third_party_allowed);
    assert!(
        k.harness_session(&launch.lease_id, 4).is_err(),
        "the lease id is not a token"
    );
    assert!(k.harness_running(&t.id));

    // Phase two: what the launch writes, and how the run is watched.
    let cfg = config_for(&launch);
    assert_eq!(mcp_config_path(&cfg), format!("{}/mcp.json", launch.config_dir));
    assert_eq!(settings_path(&cfg), format!("{}/settings.json", launch.config_dir));
    assert!(mcp_json(&cfg, &cfg.lease_token).contains(&launch.token));
    let fence = settings_json(&cfg);
    assert!(
        fence.contains("Read(./**)") && fence.contains("\"Bash\""),
        "{fence}"
    );
    assert!(!launch_line(&cfg).iter().any(|a| a.contains(&launch.token)));
    let mut watch = Watch::new();
    assert!(matches!(next_move(None, false, 0, cfg.timeout_ms), Move::Sample));
    watch.sampled(&vec!["10.0.0.2:443".to_string(), "10.0.0.1:443".to_string()]);
    watch.sampled(&vec!["10.0.0.2:443".to_string()]);
    let mut printed = Fields::new();
    printed.put_text("type", "result");
    printed.put("is_error", Json::Bool(false));
    printed.put("num_turns", Json::Unsigned(2));
    printed.put("total_cost_usd", Json::Real("0.01".to_string()));
    printed.put_text("result", "wrote OUT/proposal.md");
    printed.put("permission_denials", Items::new().array());
    let printed = printed.object();
    let reason = match next_move(Some(Some(0)), false, 700, cfg.timeout_ms) {
        Move::Ended(r) => r,
        other => panic!("{other:?}"),
    };
    let run = watch.finish(reason, printed.render(), read_outcome(&printed), 700, false);
    assert!(run.exit_reason.is_success(), "{:?}", run.exit_reason);
    let outcome = run.outcome.as_ref().expect("a result object was printed");
    assert_eq!(outcome.num_turns, 2);
    assert_eq!(outcome.total_cost_usd.as_deref(), Some("0.01"));
    assert!(outcome.permission_denials.is_empty());
    let mut sorted = run.connections.clone();
    sorted.sort();
    sorted.dedup();
    assert_eq!(run.connections, sorted, "deduped and sorted");
    assert_eq!(run.samples, 2);

    // Phase three: settle.
    let before = connections_events(&k);
    let left = vec![out("proposal.md", b"# Proposal from the harness\n")];
    let settled = k.harness_settle(&machine(5), &t.id, &launch, &run, &left).unwrap();
    assert!(matches!(settled.status, TaskStatus::Done), "{settled:?}");
    assert_eq!(connections_events(&k) - before, 1, "one event per run");

    let reg = k.read_register(&machine(6), &settled.register).unwrap();
    assert_eq!(reg.artefacts.len(), 1);
    assert_eq!(reg.artefacts[0].kind, "proposal");
    let bytes = k.read_artefact(&machine(6), &reg.artefacts[0].hash).unwrap();
    assert_eq!(
        String::from_utf8_lossy(&bytes).trim(),
        "# Proposal from the harness"
    );

    // Everything the run held is gone: the token and the lease.
    assert!(k.harness_session(&launch.token, 7).is_err(), "the token is spent");
    assert!(!k.harness_running(&t.id));
    assert!(!k.store.leases.has(&launch.lease_id), "the lease row is deleted");
    // Nothing on the ledger names the token.
    for e in &k.store.ledger {
        assert!(!e.payload.render().contains(&launch.token));
    }
    assert!(k.ledger_holds());
}

#[test]
fn a_run_with_no_samples_still_logs_an_empty_connections_event() {
    let mut k = fresh();
    let before = connections_events(&k);
    k.record_harness_connection(
        1,
        &HarnessConnectionsRecord {
            task_id: "task-x".to_string(),
            step_index: 0,
            lease_id: "lease-x".to_string(),
            harness: HARNESS.to_string(),
            connections: vec![],
            samples: 0,
            sample_every_ms: 500,
            governed: true,
            exit: "code 0".to_string(),
            duration_ms: 3,
        },
    );
    assert_eq!(connections_events(&k) - before, 1);
    assert!(k.ledger_holds());
}

#[test]
fn a_second_launch_is_refused_while_a_run_is_live_and_a_failed_run_still_revokes() {
    let mut k = fresh();
    let t = harness_task(&mut k, false);
    let launch = launched(&mut k, 2, &t.id);

    let again = k.harness_launch(&machine(3), &t.id, HARNESS, 30_000).err().unwrap();
    assert!(matches!(again, KernelError::Gate(_)), "{again:?}");
    assert!(again.text().contains("harness already running"), "{}", again.text());
    // The refusal touched nothing: the first run's token stands.
    assert!(k.harness_session(&launch.token, 3).is_ok());

    let before = connections_events(&k);
    let settled = k
        .harness_settle(
            &machine(4),
            &t.id,
            &launch,
            &run_ending(ExitReason::Timeout),
            &vec![],
        )
        .unwrap();
    assert!(matches!(settled.status, TaskStatus::Failed));
    match &settled.steps[0].status {
        StepStatus::Failed(why) => assert!(why.contains("timeout"), "{why}"),
        other => panic!("{other:?}"),
    }
    assert_eq!(
        connections_events(&k) - before,
        1,
        "egress is recorded for a killed run too"
    );
    assert!(k.harness_session(&launch.token, 5).is_err(), "token revoked");
    assert!(!k.store.leases.has(&launch.lease_id));
    assert!(!k.harness_running(&t.id));
}

#[test]
fn an_artefact_the_harness_attached_over_mcp_is_not_attached_twice() {
    let mut k = fresh();
    let t = harness_task(&mut k, true);
    let launch = launched(&mut k, 2, &t.id);

    // The harness writes its proposal and attaches it itself, mid-run.
    let proposal = b"# The one proposal";
    let env = k
        .harness_attach_file(&launch.token, 3, "proposal", "OUT/proposal.md", file(proposal))
        .unwrap();
    // A traversal through the same path is still refused.
    assert!(k
        .harness_attach_file(&launch.token, 3, "proposal", "../m.key", file(b"key"))
        .is_err());

    // The run exits cleanly; the same file is still in OUT/.
    let settled = k
        .harness_settle(
            &machine(4),
            &t.id,
            &launch,
            &run_ending(ExitReason::Exited(0)),
            &vec![out("proposal.md", proposal)],
        )
        .unwrap();
    assert!(matches!(settled.steps[0].status, StepStatus::Done));
    assert!(
        matches!(settled.status, TaskStatus::Running),
        "the approve step is next"
    );
    let reg = k.read_register(&machine(5), &settled.register).unwrap();
    assert_eq!(reg.artefacts.len(), 1, "attached once: {:?}", reg.artefacts);
    assert_eq!(reg.artefacts[0].hash, env.hash);
    let subject = k.approval_subject(&machine(6), &t.id).unwrap();
    assert_eq!(subject, env.hash);
}

#[test]
fn only_the_declared_output_is_collected_and_a_run_without_one_fails() {
    let mut k = fresh();

    // Scratch beside the proposal: one artefact, the proposal.
    let t = harness_task(&mut k, false);
    let launch = launched(&mut k, 2, &t.id);
    let settled = k
        .harness_settle(
            &machine(3),
            &t.id,
            &launch,
            &run_ending(ExitReason::Exited(0)),
            &vec![out("proposal.md", b"# Proposal"), out("zz-scratch.txt", b"scratch")],
        )
        .unwrap();
    assert!(matches!(settled.status, TaskStatus::Done));
    let reg = k.read_register(&machine(4), &settled.register).unwrap();
    assert_eq!(reg.artefacts.len(), 1);
    assert_eq!(
        k.read_artefact(&machine(4), &reg.artefacts[0].hash).unwrap(),
        b"# Proposal"
    );

    // Nothing declared: a clean exit is still a failed step.
    let t2 = harness_task(&mut k, false);
    let launch2 = launched(&mut k, 5, &t2.id);
    let settled2 = k
        .harness_settle(
            &machine(6),
            &t2.id,
            &launch2,
            &run_ending(ExitReason::Exited(0)),
            &vec![out("notes.md", b"not it")],
        )
        .unwrap();
    assert!(matches!(settled2.status, TaskStatus::Failed));
    match &settled2.steps[0].status {
        StepStatus::Failed(why) => assert!(why.contains("no artefact"), "{why}"),
        other => panic!("{other:?}"),
    }
    assert!(k.harness_session(&launch2.token, 7).is_err());
}

#[test]
fn an_oversize_file_fails_the_step_naming_it() {
    let mut k = fresh();
    let big = vec![b'x'; 2 * 1024 * 1024 + 1];

    // Mid-run: refused at the attach, remembered, and the step fails on it.
    let t = harness_task(&mut k, false);
    let launch = launched(&mut k, 2, &t.id);
    let err = k
        .harness_attach_file(&launch.token, 3, "proposal", "OUT/proposal.md", file(&big))
        .unwrap_err();
    assert!(err.text().contains("OUT/proposal.md"), "{}", err.text());
    let settled = k
        .harness_settle(
            &machine(4),
            &t.id,
            &launch,
            &run_ending(ExitReason::Exited(0)),
            &vec![out("proposal.md", &big)],
        )
        .unwrap();
    match &settled.steps[0].status {
        StepStatus::Failed(why) => assert!(why.contains("OUT/proposal.md"), "{why}"),
        other => panic!("{other:?}"),
    }

    // As the declared output: not collected, step failed, file named.
    let t2 = harness_task(&mut k, false);
    let launch2 = launched(&mut k, 5, &t2.id);
    let settled2 = k
        .harness_settle(
            &machine(6),
            &t2.id,
            &launch2,
            &run_ending(ExitReason::Exited(0)),
            &vec![out("proposal.md", &big)],
        )
        .unwrap();
    match &settled2.steps[0].status {
        StepStatus::Failed(why) => assert!(why.contains("proposal.md"), "{why}"),
        other => panic!("{other:?}"),
    }
    let reg = k.read_register(&machine(7), &settled2.register).unwrap();
    assert!(reg.artefacts.is_empty());
}

#[test]
fn a_task_with_a_bad_artefact_type_is_refused_at_creation() {
    let mut k = fresh();
    let err = k
        .create_task(
            &machine(1),
            "x",
            "bad kind!",
            Label::bottom(),
            vec![StepKind::Harness { name: HARNESS.to_string() }],
        )
        .unwrap_err();
    assert!(matches!(err, KernelError::Gate(_)), "{err:?}");
    assert!(k.tasks(&machine(2)).is_empty(), "nothing was created");
}

#[test]
fn a_launch_naming_another_harness_is_refused() {
    let mut k = fresh();
    let t = harness_task(&mut k, false);
    let err = k
        .harness_launch(&machine(2), &t.id, "other-harness", 30_000)
        .err()
        .unwrap();
    assert!(err.text().contains(HARNESS), "{}", err.text());
    assert!(!k.harness_running(&t.id));
}

#[test]
fn boot_sweeps_harness_leases_and_workspaces_left_by_a_previous_run() {
    let mut k = fresh();
    let t = harness_task(&mut k, false);
    let launch = launched(&mut k, 2, &t.id);
    assert!(k.store.leases.has(&launch.lease_id));

    // The daemon dies here.
    let mut k = RealKernel::<MockAdapter>::open(k.into_store(), "n1", SOUND, now_ms(), &Table::new());
    k.boot();
    assert!(!k.store.leases.has(&launch.lease_id), "the harness lease is swept");
    assert!(k.harness_session(&launch.token, 3).is_err());
    assert!(k.ledger_holds());
}

#[test]
fn a_workspace_that_could_not_be_written_fails_the_step_and_holds_nothing() {
    let mut k = fresh();
    let t = harness_task(&mut k, false);
    let s = start(&mut k, 2, &t.id);
    let token = s.launch.token.clone();
    let lease = s.launch.lease_id.clone();
    let err = k
        .harness_materialised(
            &machine(3),
            s,
            Err(Unwritten { brief: 0, why: "disk full".to_string() }),
        )
        .err()
        .unwrap();
    assert!(err.text().contains("disk full"), "{}", err.text());
    assert!(k.harness_session(&token, 4).is_err());
    assert!(!k.store.leases.has(&lease));
    assert!(!k.harness_running(&t.id));
}

fn label(scope: Scope) -> Label {
    Label {
        scope,
        data_class: DataClass::Own,
        origins: Origins { owner_authored: true, web: false },
    }
}

#[test]
fn materialises_only_the_evidence_that_flows_to_the_harness_clearance() {
    // One artefact that a Business clearance may see, one Personal that it may not.
    let mut k = fresh();
    let open = k.submit_task(&machine(1), "figures", label(Scope::Business)).unwrap();
    let business = k
        .attach_artefact(&machine(1), &open, "figures", b"Q3 revenue: 1.2M")
        .unwrap();
    let shut = k.submit_task(&machine(1), "medical", label(Scope::Personal)).unwrap();
    let private = k
        .attach_artefact(&machine(1), &shut, "medical", b"a private note")
        .unwrap();

    let id = k
        .submit_task(&machine(1), "Draft a quote for Acme", Label::bottom())
        .unwrap();
    let mut reg = k.read_register(&machine(1), &id).unwrap();
    reg.constraints = vec!["be brief".to_string()];
    reg.decisions = vec!["plan: gather the figures, then draft".to_string()];
    reg.artefacts = vec![
        ArtefactRef { hash: business.hash.clone(), kind: "figures".to_string() },
        ArtefactRef { hash: private.hash.clone(), kind: "medical".to_string() },
    ];
    k.write_register(&machine(1), reg).unwrap();

    let ctx = Ctx {
        principal: Principal::Machine {
            node_id: "n1".to_string(),
            lease_id: "lease-1".to_string(),
        },
        clearance: harness_clearance(),
        partition: "local".to_string(),
        now_ms: 1,
    };
    let plan = Workspace::materialise(&k, &ctx, &id).unwrap();
    assert!(plan.fault.is_none());
    assert!(plan.task_md.contains("Draft a quote for Acme"), "{}", plan.task_md);
    assert!(plan.plan_md.contains("gather the figures"), "{}", plan.plan_md);

    // The brief holds exactly the Business artefact.
    assert_eq!(plan.brief.len(), 1, "only the artefact that flows is materialised");
    assert_eq!(
        plan.brief[0].bytes, b"Q3 revenue: 1.2M",
        "the Business artefact, verbatim"
    );
    for text in [&plan.task_md, &plan.plan_md] {
        assert!(!text.contains("a private note"));
    }

    // And exactly one projection is logged: the one that was admitted.
    assert_eq!(plan.brief[0].record.artefact_hash, business.hash);
    assert_eq!(plan.brief[0].record.scope, "business");
    let before = k.store.ledger.len();
    k.log_projection(7, &plan.brief[0].record);
    assert_eq!(k.store.ledger.len(), before + 1);
    let logged = k.store.ledger.last().unwrap().payload.render();
    assert!(logged.contains(&business.hash), "{logged}");
    assert!(!logged.contains(&private.hash), "{logged}");
}

#[test]
fn what_a_run_is_handed_is_on_the_record_before_it_starts() {
    let mut k = fresh();
    let t = harness_task(&mut k, false);
    let first = k.attach_artefact(&machine(1), &t.register, "figures", b"1.2M").unwrap();
    let second = k.attach_artefact(&machine(1), &t.register, "letter", b"Dear").unwrap();

    // One file was written before the disk was full: that one is on the record, and
    // the run has no authority.
    let s = start(&mut k, 2, &t.id);
    let token = s.launch.token.clone();
    let before = k.store.ledger.len();
    let refused = Unwritten { brief: 1, why: "disk full".to_string() };
    assert!(k.harness_materialised(&machine(3), s, Err(refused)).is_err());
    assert_eq!(k.store.ledger.len(), before + 1);
    let event = k.store.ledger.last().unwrap();
    assert_eq!(event.kind, "infer.projected");
    assert!(event.payload.render().contains(&first.hash));
    assert!(k.harness_session(&token, 4).is_err());

    // All of it was written: both are there, in order.
    let s = start(&mut k, 5, &t.id);
    let before = k.store.ledger.len();
    materialised(&mut k, 6, s);
    assert_eq!(k.store.ledger.len(), before + 2);
    assert!(k.store.ledger[before].payload.render().contains(&first.hash));
    assert!(k.store.ledger[before + 1].payload.render().contains(&second.hash));
    assert_eq!(k.store.ledger[before + 1].wall_ms, 6);
}

#[test]
fn the_noop_governor_contains_nothing_and_says_so() {
    let governor = NoopGovernor::new();
    assert!(
        !governor.governed(),
        "a governor that enforces nothing must not claim to govern"
    );
}

fn attempt(before: bool, after: bool) -> Attempt {
    Attempt { before: Ok(before), assigned: Ok(()), after: Ok(after) }
}

#[test]
fn containing_a_child_twice_is_one_containment() {
    let mut governor = JobGovernor::new(512 << 20, None).expect("a job object");
    governor.contain(7, &attempt(false, true)).expect("the first call contains");
    governor
        .contain(7, &attempt(true, true))
        .expect("the second call finds the child contained and refuses nothing");
    assert!(governor.governed());
    assert!(!governor.refused);
}

#[test]
fn a_child_that_is_not_read_back_is_refused_for_good() {
    let mut governor = JobGovernor::new(512 << 20, None).unwrap();
    governor.contain(7, &attempt(false, true)).unwrap();
    assert_eq!(
        governor.contain(8, &attempt(false, false)).unwrap_err(),
        "process 8 was assigned to the job object but is not in it"
    );
    assert!(!governor.governed());
    governor.contain(9, &attempt(false, true)).unwrap();
    assert!(!governor.governed(), "a refusal is never taken back");

    let gone = Attempt {
        before: Ok(false),
        assigned: Err((
            "Access is denied".to_string(),
            RefusalFacts {
                exited: Ok(Some(3)),
                in_job: Ok(false),
                own_job: Ok(false),
                breakaway: Ok(false),
            },
        )),
        after: Ok(false),
    };
    assert_eq!(
        governor.contain(9, &gone).unwrap_err(),
        "process 9 could not be contained in the job object: the process had already exited with code 3: Access is denied"
    );
    let unknown = Attempt { before: Err("denied".to_string()), ..attempt(false, true) };
    assert_eq!(
        governor.contain(9, &unknown).unwrap_err(),
        "IsProcessInJob on process 9: denied"
    );
    let unread = Attempt { after: Err("denied".to_string()), ..attempt(false, true) };
    assert_eq!(
        governor.contain(9, &unread).unwrap_err(),
        "IsProcessInJob on process 9 after assignment: denied"
    );
}

#[test]
fn governed_is_true_only_after_a_verified_containment() {
    let mut governor = JobGovernor::new(512 << 20, None).unwrap();
    assert!(!governor.governed(), "a fresh governor has verified nothing");
    governor.contained(true);
    assert!(governor.governed(), "a containment the OS read back is governed");

    let mut refused = JobGovernor::new(512 << 20, None).unwrap();
    refused.contained(false);
    assert!(
        !refused.governed(),
        "a governor whose containment failed governs nothing"
    );

    governor.contained(false);
    assert!(
        !governor.governed(),
        "a governor refused one process cannot claim its tree is whole"
    );
}

#[test]
fn caps_outside_their_range_are_refused_before_any_job_exists() {
    assert!(JobGovernor::new(0, None).is_err(), "a cap of 0 bytes is not a cap");
    assert!(
        JobGovernor::new(64 << 20, Some(0)).is_err(),
        "0 % of the CPU is not a rate"
    );
    assert!(
        JobGovernor::new(64 << 20, Some(101)).is_err(),
        "101 % of the CPU is not a rate"
    );
    let governor = JobGovernor::new(64 << 20, Some(25)).unwrap();
    assert_eq!(governor.max_memory_bytes(), 64 << 20);
    assert_eq!(governor.cpu_rate_percent(), Some(25));
}
