use vk_kernel::adapter::{AdapterError, Completion, Engine, EngineAdapter, MockAdapter};
use vk_kernel::approvals::{APPROVAL_CHALLENGE_TTL_MS, MAX_APPROVAL_CHALLENGES};
use vk_kernel::arches::{ArchState, MountOutcome, Remount};
use vk_kernel::boot::{report_to_json, BootReport};
use vk_kernel::error::KernelError;
use vk_kernel::json::{hash_canonical, text, Fields, Items, Json};
use vk_kernel::kernel::{RealKernel, RecordState};
use vk_kernel::labels::{Clearance, DataClass, Label, Origin, Origins, Scope};
use vk_kernel::manifest::{
    ArchIdentity, ArchManifest, Capabilities, Capability, Determinism, Locality,
};
use vk_kernel::mock::mock_factory;
use vk_kernel::model::Duplicate;
use vk_kernel::mount::MountSpec;
use vk_kernel::outside::now_ms;
use vk_kernel::presence::{HumanKey, SoftwareHumanKey};
use vk_kernel::principal::{Approval, ApprovalKind, Challenge, Ctx, Principal};
use vk_kernel::register::Evidence;
use vk_kernel::scheduler::StepRun;
use vk_kernel::store::{GateKind, GateVerdict, ModuleManifest, Store};
use vk_kernel::table::Table;
use vk_kernel::task::{StepKind, StepStatus, Task, TaskStatus};
use vk_kernel::wire::approval_to_json;

type Mocked = RealKernel<MockAdapter>;

const SOUND: RecordState = RecordState {
    chain_ok: true,
    head_ok: true,
    recovered_partial_line: false,
};

fn fresh() -> Mocked {
    RealKernel::<MockAdapter>::open(Store::new("/state"), "n1", SOUND, now_ms(), &Table::new())
}

fn reopened(k: Mocked) -> Mocked {
    RealKernel::<MockAdapter>::open(k.into_store(), "n1", SOUND, now_ms(), &Table::new())
}

fn local_named(name: &str, clearance: Clearance) -> ArchManifest {
    ArchManifest {
        name: name.to_string(),
        capabilities: Capabilities { generate: true, plan: true, judge: false },
        locality: Locality::Local,
        jurisdiction: "FR".to_string(),
        retention_days: None,
        cost_per_1k_tokens_eur: Some("0.0".to_string()),
        latency_ms_p50: 1,
        context_ceiling: 100,
        determinism: Determinism::SeededDeterministic,
        identity: ArchIdentity {
            weights_sha256: format!("sha256:mock-{name}"),
            engine: "mock".to_string(),
            engine_version: "1".to_string(),
            backend: "cpu".to_string(),
            quant: "-".to_string(),
            kv_cache: "-".to_string(),
            threads: 1,
            batch: 1,
            sampling: vec![],
            seed: Some(1),
        },
        clearance,
        governed: true,
    }
}

fn local(clearance: Clearance) -> ArchManifest {
    local_named("mock", clearance)
}

fn personal() -> Clearance {
    Clearance { max_scope: Scope::Personal, third_party_allowed: true }
}

fn machine(now: u64) -> Ctx {
    Ctx {
        principal: Principal::Machine { node_id: "n1".to_string(), lease_id: "cli".to_string() },
        clearance: personal(),
        partition: "p1".to_string(),
        now_ms: now,
    }
}

fn human(now: u64) -> Ctx {
    Ctx {
        principal: Principal::Human { device_id: "phone-1".to_string() },
        ..machine(now)
    }
}

fn count<A>(k: &RealKernel<A>, kind: &str) -> usize {
    k.store.ledger.iter().filter(|e| e.kind == kind).count()
}

fn settled(run: Result<StepRun, KernelError>) -> Task {
    match run.unwrap() {
        StepRun::Settled(t) => t,
        StepRun::Releasing(_) => panic!("a step that releases nothing"),
    }
}

fn report_hash(r: &BootReport) -> String {
    hash_canonical(&report_to_json(r))
}

#[test]
fn boot_verifies_the_chain_and_records_that_the_node_started() {
    let mut k = fresh();
    let first = k.boot();
    assert!(first.ledger_ok, "a fresh chain verifies");
    assert_eq!(first.ledger_len + 1, k.store.ledger.len());
    assert_eq!(count(&k, "boot"), 1, "one boot event per boot");

    let second = k.boot();
    assert!(second.ledger_ok);
    assert_eq!(second.ledger_len, first.ledger_len + 1);
    assert_eq!(count(&k, "boot"), 2);

    // The event commits to the report.
    let logged = k.store.ledger.iter().rfind(|e| e.kind == "boot").unwrap();
    assert_eq!(hash_canonical(&logged.payload), report_hash(&second));
}

#[test]
fn boot_reports_what_this_node_came_up_with() {
    let mut k = fresh();
    let manifest = local(personal());
    let spec = MountSpec::mock(&manifest, 100);
    let arch = k
        .mount(MockAdapter { manifest, budget: 100 }, Ok(()), spec)
        .ok()
        .unwrap()
        .arch_id;
    k.enroll_device_persisted("phone-1", [7u8; 32]).unwrap();
    let stop = k.stop(&human(1), "business:acme").unwrap();

    let r = k.boot();
    assert!(r.ledger_ok);
    assert!(!r.recovered_partial_line, "nothing was recovered");
    assert_eq!(r.arches, vec![arch.clone()]);
    assert_eq!(r.devices, vec!["phone-1".to_string()]);
    assert_eq!(r.stopped_scopes, vec!["business:acme".to_string()]);
    assert_eq!(r.policies_version, "0", "the placeholder, written at boot");

    k.resume(&human(2), &stop).unwrap();
    let mut k = reopened(k);
    let r2 = k.boot();
    assert!(r2.stopped_scopes.is_empty(), "{r2:?}");
    assert_eq!(r2.arches, vec![arch]);
    assert_eq!(r2.devices, vec!["phone-1".to_string()]);
    assert_eq!(r2.policies_version, "0");
}

#[test]
fn boot_reports_a_tampered_chain_rather_than_trusting_it() {
    let mut k = fresh();
    k.boot();
    assert!(k.boot().ledger_ok);
    let tampered = RecordState { chain_ok: false, ..SOUND };
    let mut k = RealKernel::<MockAdapter>::open(k.into_store(), "n1", tampered, now_ms(), &Table::new());
    let r = k.boot();
    assert!(!r.ledger_ok, "a rewritten line must not pass as the record");
    assert!(!r.recovered_partial_line);
}

#[test]
fn boot_reports_a_cut_tail_rather_than_trusting_the_shorter_chain() {
    let mut k = fresh();
    k.boot();
    k.register_arch(local(personal()));
    k.stop(&human(1), "node").unwrap();
    let mut store = k.into_store();
    store.ledger.truncate(store.ledger.len() - 2);
    let cut = RecordState { head_ok: false, ..SOUND };
    let mut k = RealKernel::<MockAdapter>::open(store, "n1", cut, now_ms(), &Table::new());
    let r = k.boot();
    assert!(!r.ledger_ok, "a shortened record must not pass as the record");
    assert!(k.stopped("node"), "the STOP the record lost still holds in the state");
    let mut k = RealKernel::<MockAdapter>::open(k.into_store(), "n1", cut, now_ms(), &Table::new());
    assert!(!k.boot().ledger_ok, "the verdict must survive the boot event");
}

#[test]
fn boot_reports_a_recovered_partial_line() {
    let mut k = fresh();
    k.boot();
    let recovered = RecordState { recovered_partial_line: true, ..SOUND };
    let mut k = RealKernel::<MockAdapter>::open(k.into_store(), "n1", recovered, now_ms(), &Table::new());
    let r = k.boot();
    assert!(r.recovered_partial_line);
    assert!(r.ledger_ok, "what is left of the chain still verifies");
    let mut k = reopened(k);
    assert!(!k.boot().recovered_partial_line);
}

#[test]
fn boot_alone_never_marks_the_node_forced() {
    let mut k = fresh();
    assert!(!k.forced_boot());
    k.boot();
    assert!(!k.forced_boot(), "a healthy boot must not look forced");
}

#[test]
fn record_forced_boot_appends_the_event_boot_reported() {
    let mut k = fresh();
    k.boot();
    assert!(k.boot().ledger_ok);
    let tampered = RecordState { chain_ok: false, ..SOUND };
    let mut k = RealKernel::<MockAdapter>::open(k.into_store(), "n1", tampered, now_ms(), &Table::new());
    let report = k.boot();
    assert!(!report.ledger_ok, "the tampered chain must not verify");
    assert!(!k.forced_boot());

    k.record_forced_boot(&report);
    assert!(k.forced_boot());

    let last = k.store.ledger.last().unwrap();
    assert_eq!(last.kind, "boot.forced");
    let mut f = Fields::new();
    f.put("ledger_ok", Json::Bool(false));
    f.put("head_ok", Json::Bool(true));
    f.put("ledger_len", Json::Unsigned(report.ledger_len as u64));
    f.put_text("report_hash", &report_hash(&report));
    assert_eq!(
        hash_canonical(&last.payload),
        hash_canonical(&f.object()),
        "the payload must name the verdict `boot` found"
    );
}

/// An engine that answers however a test needs it to.
struct Script(Box<dyn Fn() -> Result<Completion, AdapterError>>);

impl Engine for Script {
    fn complete(&self, _prompt: &str, _max: u32) -> Result<Completion, AdapterError> {
        (self.0)()
    }
}

type Scripted = EngineAdapter<Script>;

fn empty<A>() -> RealKernel<A> {
    RealKernel::<A>::open_at(Store::new("/state"), "n1", SOUND, now_ms())
}

/// An engine that says which instance it is and counts its own drops.
struct Tagged {
    tag: u32,
    dropped: std::rc::Rc<std::cell::Cell<usize>>,
}

impl Drop for Tagged {
    fn drop(&mut self) {
        self.dropped.set(self.dropped.get() + 1);
    }
}

impl Engine for Tagged {
    fn complete(&self, _prompt: &str, _max: u32) -> Result<Completion, AdapterError> {
        Ok(Completion::text(&format!("adapter {}", self.tag)))
    }
}

type Counted = EngineAdapter<Tagged>;

#[test]
fn an_identical_re_mount_keeps_the_adapter_that_is_already_there() {
    let mut k: RealKernel<Counted> = empty();
    let dropped = std::rc::Rc::new(std::cell::Cell::new(0));
    let counted = |tag: u32| EngineAdapter {
        manifest: local_named("counted", personal()),
        budget: 100,
        engine: Tagged { tag, dropped: dropped.clone() },
    };
    let spec = || MountSpec::mock(&local_named("counted", personal()), 100);
    let first = k.mount(counted(1), Ok(()), spec()).ok().expect("the first mount");
    assert!(!first.already_mounted);
    assert!(first.replaced.is_none());
    let events = k.store.ledger.len();

    let again = k.mount(counted(2), Ok(()), spec()).ok().expect("the same arch again");
    assert_eq!(again.arch_id, first.arch_id, "the same arch is the same id");
    assert!(again.already_mounted);
    assert!(again.replaced.is_none(), "an idempotent re-mount replaces nothing");
    assert_eq!(k.store.ledger.len(), events, "and appends nothing to the record");
    assert_eq!(dropped.get(), 1, "the newcomer was dropped, not the incumbent");

    let reg = k.submit_task(&machine(1), "a goal", Label::bottom()).unwrap();
    k.infer(&machine(2), &again.arch_id, Capability::Plan, &reg).unwrap();
    let after = k.read_register(&machine(3), &reg).unwrap();
    assert!(
        after.decisions.iter().any(|d| d.contains("adapter 1")),
        "the first adapter is still the one mounted: {:?}",
        after.decisions
    );

    let swapped = k
        .mount_with(counted(3), Ok(()), spec(), Remount::Replace)
        .ok()
        .expect("a replacement");
    assert_eq!(swapped.arch_id, first.arch_id);
    assert!(swapped.already_mounted);
    let old = swapped.replaced.expect("the adapter it took the place of");
    assert_eq!(dropped.get(), 1, "the replaced adapter is still alive");
    drop(old);
    assert_eq!(dropped.get(), 2, "and dies when the caller drops it");
    k.infer(&machine(4), &first.arch_id, Capability::Plan, &reg).unwrap();
    let after = k.read_register(&machine(5), &reg).unwrap();
    assert!(
        after.decisions.iter().any(|d| d.contains("adapter 3")),
        "the replacement is the one mounted now: {:?}",
        after.decisions
    );
}

fn scripted(
    k: &mut RealKernel<Scripted>,
    name: &str,
    answer: impl Fn() -> Result<Completion, AdapterError> + 'static,
) -> String {
    let manifest = local_named(name, personal());
    let spec = MountSpec::mock(&manifest, manifest.context_ceiling);
    let budget = manifest.context_ceiling;
    k.mount(EngineAdapter { manifest, budget, engine: Script(Box::new(answer)) }, Ok(()), spec)
        .ok()
        .expect("mount")
        .arch_id
}

#[test]
fn a_measured_call_is_accounted_by_its_measurement_not_by_the_estimate() {
    let mut k: RealKernel<Scripted> = empty();
    let measured = scripted(&mut k, "measured", || {
        let mut f = Fields::new();
        f.put_text("session_id", "s-1");
        Ok(Completion {
            text: "ok".to_string(),
            tokens_in_measured: Some(14_435),
            cost_list_usd: Some("0.0148193".to_string()),
            details: Some(f.object()),
        })
    });
    let guessing = scripted(&mut k, "guessing", || Ok(Completion::text("ok")));

    let reg = k.submit_task(&machine(1), "a goal", Label::bottom()).unwrap();
    let out = k.infer(&machine(2), &measured, Capability::Plan, &reg).unwrap();
    assert_eq!(
        out.tokens_in, 14_435,
        "the arch counted the prompt; the estimate is not the number to keep"
    );
    let guessed = k.infer(&machine(3), &guessing, Capability::Plan, &reg).unwrap();
    assert!(
        guessed.tokens_in > 0 && guessed.tokens_in < 1_000,
        "an arch that measures nothing still gets the estimate: {}",
        guessed.tokens_in
    );

    let top = k.top(&machine(4));
    let m = &top.arches.get(&measured).unwrap().stats;
    assert_eq!(m.calls, 1);
    assert_eq!(m.tokens_in, 14_435);
    assert_eq!(m.tokens_in_measured, 14_435, "all of it was measured");
    assert_eq!(m.costs, vec!["0.0148193".to_string()]);
    let g = &top.arches.get(&guessing).unwrap().stats;
    assert_eq!(g.tokens_in, u64::from(guessed.tokens_in));
    assert_eq!(g.tokens_in_measured, 0, "nothing here was measured");
    assert!(g.costs.is_empty());

    let k = RealKernel::<Scripted>::open_at(k.into_store(), "n1", SOUND, now_ms());
    let after = k.top(&machine(5));
    let m = &after.arches.get(&measured).unwrap().stats;
    assert_eq!(m.tokens_in_measured, 14_435);
    assert_eq!(m.costs, vec!["0.0148193".to_string()]);
}

#[test]
fn an_adapters_i4_prime_stays_an_invariant_and_its_other_failures_do_not() {
    let mut k: RealKernel<Scripted> = empty();
    let too_big = scripted(&mut k, "too-big", || {
        Err(AdapterError::I4Prime { needed: 190_000, ceiling: 180_000 })
    });
    let broken = scripted(&mut k, "broken", || {
        Err(AdapterError::Other("engine exited 1: nothing on stderr".to_string()))
    });
    let reg = k.submit_task(&machine(1), "a goal", Label::bottom()).unwrap();

    let err = k.infer(&machine(2), &too_big, Capability::Plan, &reg).unwrap_err();
    assert!(
        matches!(&err, KernelError::I4Prime(m) if m.contains("190000") && m.contains("180000")),
        "{err:?}"
    );
    let err = k.infer(&machine(3), &broken, Capability::Plan, &reg).unwrap_err();
    assert!(
        matches!(&err, KernelError::Store(m) if m.contains("engine exited 1")),
        "{err:?}"
    );

    let top = k.top(&machine(4));
    assert_eq!(top.arches.len(), 2, "both mounted arches are listed");
    for i in 0..top.arches.len() {
        let s = &top.arches.value_at(i).stats;
        assert!(
            s.calls == 0 && s.tokens_in == 0,
            "a refusal must not bump the counters: {s:?}"
        );
    }
}

#[test]
fn log_refuses_a_kind_outside_the_allowed_list() {
    let mut k = fresh();
    k.boot();
    let before = k.store.ledger.len();
    let err = k.log("not.a.real.kind", now_ms(), text("payload")).unwrap_err();
    assert!(
        matches!(&err, KernelError::Store(msg) if msg.contains("not.a.real.kind")),
        "{err:?}"
    );
    assert_eq!(k.store.ledger.len(), before, "an unlisted kind must not be appended");
    assert!(k.ledger_holds(), "the existing chain must still verify");
}

#[test]
fn state_survives_reopen() {
    let mut k = fresh();
    let arch = k.register_arch(local(personal()));
    let reg = k.submit_task(&machine(1), "draft a proposal", Label::bottom()).unwrap();
    k.infer(&machine(2), &arch, Capability::Plan, &reg).unwrap();
    let stop_id = k.stop(&human(3), "business:acme").unwrap();
    let mut k = reopened(k);
    let r = k.read_register(&machine(4), &reg).unwrap();
    assert!(!r.decisions.is_empty(), "the plan raised into the IR must persist");
    assert!(k.stopped("business:acme"));
    assert!(k.ledger_holds());
    assert!(count(&k, "infer") > 0);
    k.resume(&human(5), &stop_id).unwrap();
    assert!(!k.stopped("business:acme"));
}

#[test]
fn i2_and_i4_prime_hold_on_the_real_kernel() {
    let mut k = fresh();
    let cloud = k.register_arch(ArchManifest {
        locality: Locality::Cloud,
        clearance: Clearance { max_scope: Scope::Business, third_party_allowed: false },
        ..local_named(
            "cloud",
            Clearance { max_scope: Scope::Public, third_party_allowed: false },
        )
    });
    let label = Label {
        scope: Scope::Personal,
        data_class: DataClass::Own,
        origins: Origins { owner_authored: false, web: false },
    };
    let r = k.submit_task(&machine(1), "x", label).unwrap();
    assert!(matches!(
        k.infer(&machine(1), &cloud, Capability::Generate, &r),
        Err(KernelError::I2(_))
    ));

    let small = k.register_arch(local_named("small", personal()));
    k.set_context_budget(&small, 40);
    let r2 = k.submit_task(&machine(1), "draft a proposal", Label::bottom()).unwrap();
    let mut reg = k.read_register(&machine(1), &r2).unwrap();
    reg.evidence.push(Evidence {
        content: "e".repeat(400),
        origin: Origin::Web,
        source_hash: "sha256:e".to_string(),
    });
    k.write_register(&machine(1), reg).unwrap();

    let out = k.infer(&machine(1), &small, Capability::Generate, &r2).unwrap();
    assert!(out.projected);
    assert!(
        out.tokens_in <= 40,
        "tokens_in must be what was sent, not a clamp: {}",
        out.tokens_in
    );
    assert!(count(&k, "infer.projected") > 0);
    let raised = k.read_register(&machine(1), &r2).unwrap().decisions[0].clone();
    assert!(raised.contains("GOAL: draft a proposal"), "{raised}");
    assert!(raised.contains("1 lines dropped"), "{raised}");
}

#[test]
fn a_context_too_small_for_the_goal_is_refused_not_truncated() {
    let mut k = fresh();
    let a = k.register_arch(local(personal()));
    k.set_context_budget(&a, 5);
    let r = k.submit_task(&machine(1), &"g".repeat(400), Label::bottom()).unwrap();
    assert!(matches!(
        k.infer(&machine(1), &a, Capability::Generate, &r),
        Err(KernelError::I4Prime(_))
    ));
    assert!(k.infer_log().is_empty());
    assert!(
        count(&k, "infer") == 0 && count(&k, "infer.projected") == 0,
        "a refused inference must not claim a projection it never made"
    );
}

#[test]
fn a_send_is_recorded_before_it_leaves_and_again_when_it_comes_back() {
    let mut k: RealKernel<Scripted> = empty();
    let answers = scripted(&mut k, "answers", || {
        Ok(Completion {
            text: "ok".to_string(),
            tokens_in_measured: Some(12),
            cost_list_usd: None,
            details: None,
        })
    });
    let dies = scripted(&mut k, "dies", || {
        Err(AdapterError::Other("the engine went away".to_string()))
    });
    let r = k.submit_task(&machine(1), "a goal", Label::bottom()).unwrap();

    k.infer(&machine(2), &answers, Capability::Plan, &r).unwrap();
    let infers: Vec<String> = k
        .store
        .ledger
        .iter()
        .filter(|e| e.kind == "infer")
        .map(|e| hash_canonical(&e.payload))
        .collect();
    assert_eq!(infers.len(), 2, "one record for the send, one for the answer");
    assert_ne!(
        infers[0], infers[1],
        "the two halves must not hash alike, or `phase` is not in the payload"
    );
    let kinds: Vec<&str> = k.store.ledger.iter().map(|e| e.kind.as_str()).collect();
    let requested = kinds.iter().position(|x| *x == "infer").unwrap();
    let written = kinds.iter().position(|x| *x == "register.written").unwrap();
    assert!(requested < written, "{kinds:?}");

    let before = k.store.ledger.len();
    assert!(k.infer(&machine(3), &dies, Capability::Plan, &r).is_err());
    let after: Vec<&str> = k.store.ledger[before..].iter().map(|e| e.kind.as_str()).collect();
    assert_eq!(
        after,
        ["infer"],
        "the attempt belongs in the record even though no answer came: {after:?}"
    );
}

#[test]
fn the_infer_event_is_recorded_before_the_register_it_updates() {
    let mut k = fresh();
    let a = k.register_arch(local(personal()));
    let r = k.submit_task(&machine(1), "draft a proposal", Label::bottom()).unwrap();
    k.infer(&machine(2), &a, Capability::Plan, &r).unwrap();
    let kinds: Vec<&str> = k.store.ledger.iter().map(|e| e.kind.as_str()).collect();
    let sent = kinds.iter().position(|x| *x == "infer").unwrap();
    let written = kinds.iter().position(|x| *x == "register.written").unwrap();
    assert!(sent < written, "the send must reach the ledger before its result: {kinds:?}");
}

fn lease_rows<A>(k: &RealKernel<A>, resource: &str) -> usize {
    (0..k.store.leases.len())
        .filter(|i| k.store.leases.value_at(*i).resource == resource)
        .count()
}

#[test]
fn a_refused_resume_leaves_no_row_and_cannot_lift_a_later_stop() {
    let mut k = fresh();
    // Ids are sequential, so this is the one the next STOP will take.
    let ghost = "stop-n1-1";
    assert!(matches!(k.resume(&human(1), ghost), Err(KernelError::Stop(_))));
    assert_eq!(k.store.resumes.len(), 0, "a refused resume must leave nothing durable");
    let s = k.stop(&human(2), "business:acme").unwrap();
    assert_eq!(s, ghost, "the STOP takes the id the refused resume cited");
    assert!(k.stopped("business:acme"));
    let k = reopened(k);
    assert!(
        k.stopped("business:acme"),
        "a resume refused before the STOP existed must not lift it after a reboot"
    );
}

fn other_node(now: u64) -> Ctx {
    Ctx {
        principal: Principal::Machine { node_id: "n2".to_string(), lease_id: "cli".to_string() },
        ..machine(now)
    }
}

#[test]
fn renewing_a_lease_leaves_one_live_row_and_still_excludes_others() {
    let t0 = now_ms();
    let mut k = fresh();
    let first = k.lease(&machine(t0), "doc:1", 60_000).unwrap();
    let renewed = k.lease(&machine(t0 + 1_000), "doc:1", 60_000).unwrap();
    assert_ne!(first.id, renewed.id);
    assert_eq!(
        lease_rows(&k, "doc:1"),
        1,
        "the superseded row must go with the lease it recorded"
    );
    // And if a crash had landed between that write and that delete:
    let mut store = k.into_store();
    let id = first.id.clone();
    store.leases.insert(&id, first);
    assert_eq!(store.leases.len(), 2);
    let mut k = RealKernel::<MockAdapter>::open(store, "n1", SOUND, t0 + 1_500, &Table::new());
    assert_eq!(
        lease_rows(&k, "doc:1"),
        1,
        "boot restores only the newest live row per resource"
    );
    assert!(
        matches!(k.lease(&other_node(t0 + 2_000), "doc:1", 1_000), Err(KernelError::Lock(_))),
        "the renewed lease still runs, so nobody else gets the resource"
    );
}

#[test]
fn leases_and_fences_survive_reopen() {
    let t0 = now_ms();
    let mut k = fresh();
    let fence_before = k.lease(&machine(t0), "doc:1", 60_000).unwrap().fence;
    let mut k = reopened(k);
    assert!(
        matches!(k.lease(&other_node(t0 + 1_000), "doc:1", 1_000), Err(KernelError::Lock(_))),
        "a restart must not release a lease that still has time to run"
    );
    let l2 = k.lease(&other_node(t0 + 61_000), "doc:1", 1_000).unwrap();
    assert!(
        l2.fence > fence_before,
        "fences must stay monotonic across a restart: {} vs {fence_before}",
        l2.fence
    );
}

#[test]
fn remounting_a_different_manifest_under_the_same_identity_is_refused() {
    let mut k = fresh();
    let mounted = local(personal());
    let id = k.register_arch(mounted.dup());
    let widened = ArchManifest {
        clearance: Clearance { max_scope: Scope::Holdout, third_party_allowed: true },
        ..mounted.dup()
    };
    let budget = widened.context_ceiling;
    let spec = MountSpec::mock(&widened, budget);
    let err = k.mount(MockAdapter { manifest: widened, budget }, Ok(()), spec).err().unwrap();
    assert!(err.contains("already mounted with a different"), "{err}");
    assert_eq!(k.arches()[0].1.clearance, personal());

    let before = count(&k, "arch.mounted");
    assert_eq!(k.register_arch(mounted), id);
    assert_eq!(count(&k, "arch.mounted"), before);
    assert_eq!(k.arches().len(), 1);
}

/// A task drafted through a mock arch and now waiting at its approve step, with the
/// subject a human approval of it must name.
fn waiting_task(k: &mut Mocked) -> (String, String) {
    let arch = k.register_arch(local(personal()));
    let task = k
        .create_task(
            &machine(1),
            "draft a proposal",
            "proposal",
            Label::bottom(),
            vec![StepKind::Draft { arch_id: arch }, StepKind::Approve],
        )
        .unwrap()
        .id;
    settled(k.run_task_step(&machine(1), &task));
    let t = settled(k.run_task_step(&machine(1), &task));
    assert_eq!(t.status, TaskStatus::WaitingHuman);
    let subject = k.approval_subject(&machine(1), &task).unwrap();
    (task, subject)
}

fn hexed(bytes: &[u8]) -> String {
    hex::encode(bytes)
}

/// `key`'s approval of exactly `ch`.
fn signed(key: &SoftwareHumanKey, ch: &Challenge) -> Approval {
    Approval {
        subject_hash: ch.action_digest.clone(),
        kind: ApprovalKind::Human,
        approver: Principal::Human { device_id: key.device_id() },
        challenge: Some(ch.dup()),
        signature_hex: Some(hexed(&key.sign(&ch.digest()))),
    }
}

fn enrolled(k: &mut Mocked) -> SoftwareHumanKey {
    let key = SoftwareHumanKey::generate("phone-1");
    k.enroll_device_persisted("phone-1", key.verifying_key_bytes()).unwrap();
    key
}

#[test]
fn an_approval_for_one_subject_never_approves_another() {
    let mut k = fresh();
    let key = enrolled(&mut k);
    let (task, subject) = waiting_task(&mut k);
    let ch = k.mint_approval_challenge(&machine(2), &task).unwrap();
    assert_eq!(ch.action_digest, subject);
    k.approve(&human(2), signed(&key, &ch)).unwrap();

    assert_eq!(k.approvals_for(&subject).len(), 1);
    // A key-prefix match would let a module whose content hash is the bare string
    // "sha256" inherit this approval.
    assert!(k.approvals_for("sha256").is_empty());
    assert!(k.approvals_for("sha256:c2").is_empty());

    let impostor = ModuleManifest {
        name: "impostor".to_string(),
        version: "0.1.0".to_string(),
        content_hash: "sha256".to_string(),
        auto_approve_allowed: None,
    };
    let verdict = GateVerdict {
        gate: GateKind::AnnexIii,
        subject_hash: "sha256".to_string(),
        pass: true,
        evidence_hash: "sha256:e".to_string(),
        signer: "founder".to_string(),
    };
    assert!(matches!(
        k.promote(&machine(3), &impostor, Ok(()), &vec![verdict]),
        Err(KernelError::I1(_))
    ));
    assert!(k.hot_modules().is_empty());
}

#[test]
fn mint_approval_challenge_binds_the_waiting_task_and_is_bounded() {
    let mut k = fresh();
    let arch = k.register_arch(local(personal()));
    let queued = k
        .create_task(
            &machine(1),
            "later",
            "note",
            Label::bottom(),
            vec![StepKind::Draft { arch_id: arch }, StepKind::Approve],
        )
        .unwrap()
        .id;
    let err = k.mint_approval_challenge(&machine(1), &queued).unwrap_err();
    assert!(
        matches!(&err, KernelError::Gate(m) if m.contains("not waiting")),
        "{err:?}"
    );
    assert!(k.pending_approvals(1).is_empty());

    let (task, subject) = waiting_task(&mut k);
    let a = k.mint_approval_challenge(&machine(10), &task).unwrap();
    let b = k.mint_approval_challenge(&machine(10), &task).unwrap();
    assert_eq!(a.resource, format!("task:{task}"));
    assert_eq!(a.action_digest, subject);
    assert_eq!(a.expires_at_ms, 10 + APPROVAL_CHALLENGE_TTL_MS);
    assert_ne!(a.nonce, b.nonce, "every mint is a fresh nonce");
    assert!(a.nonce.len() >= 40, "32 random bytes, base64url: {}", a.nonce);
    let mut open: Vec<(String, String)> = k
        .pending_approvals(10)
        .into_iter()
        .map(|p| (p.task_id, p.challenge.nonce))
        .collect();
    open.sort();
    let mut expected = vec![(task.clone(), a.nonce.clone()), (task.clone(), b.nonce.clone())];
    expected.sort();
    assert_eq!(open, expected);
    assert!(k.pending_approvals(a.expires_at_ms).is_empty());
    let c = k.mint_approval_challenge(&machine(a.expires_at_ms), &task).unwrap();
    assert_eq!(k.approval_challenges.len(), 1);
    assert_eq!(k.pending_approvals(a.expires_at_ms)[0].challenge.nonce, c.nonce);
    for _ in 0..(MAX_APPROVAL_CHALLENGES + 5) {
        k.mint_approval_challenge(&machine(a.expires_at_ms + 1), &task).unwrap();
    }
    assert_eq!(k.approval_challenges.len(), MAX_APPROVAL_CHALLENGES);
    assert!(
        !k.approval_challenges.has(&c.nonce),
        "the earliest expiry was the one dropped"
    );
}

fn approval_record(a: &Approval, proof: &str) -> String {
    let mut f = Fields::new();
    f.put("approval", approval_to_json(a));
    f.put_text("proof", proof);
    hash_canonical(&f.object())
}

#[test]
fn approve_spends_a_minted_challenge_once_and_refuses_every_other() {
    let mut k = fresh();
    let key = enrolled(&mut k);
    let (task, subject) = waiting_task(&mut k);

    // Unminted, well signed, right subject.
    let forged = Challenge {
        resource: format!("task:{task}"),
        action_digest: subject.clone(),
        nonce: "made-up".to_string(),
        expires_at_ms: 1_000_000,
    };
    let before = k.store.ledger.len();
    let err = k.approve(&human(5), signed(&key, &forged)).unwrap_err();
    assert!(matches!(&err, KernelError::I1(m) if m.contains("minted")), "{err:?}");
    assert_eq!(k.store.ledger.len(), before, "nothing appended");

    // Minted, then altered: refused, and the nonce is gone with it.
    let minted = k.mint_approval_challenge(&machine(5), &task).unwrap();
    let altered = Challenge { action_digest: "sha256:other".to_string(), ..minted.dup() };
    let mut wrong_subject = signed(&key, &altered);
    wrong_subject.subject_hash = "sha256:other".to_string();
    let err = k.approve(&human(6), wrong_subject).unwrap_err();
    assert!(matches!(&err, KernelError::I1(m) if m.contains("not the one")), "{err:?}");
    let err = k.approve(&human(6), signed(&key, &minted)).unwrap_err();
    assert!(matches!(&err, KernelError::I1(m) if m.contains("minted")), "{err:?}");

    // Minted and expired.
    let stale = k.mint_approval_challenge_with_ttl(&machine(7), &task, 3).unwrap();
    let err = k.approve(&human(10), signed(&key, &stale)).unwrap_err();
    assert!(matches!(&err, KernelError::I1(m) if m.contains("expired")), "{err:?}");

    // Minted, and signed by a key that is not the device's.
    let minted = k.mint_approval_challenge(&machine(8), &task).unwrap();
    let impostor = SoftwareHumanKey::generate("phone-1");
    let err = k.approve(&human(9), signed(&impostor, &minted)).unwrap_err();
    assert!(matches!(err, KernelError::Principal(_)), "{err:?}");
    let err = k.approve(&human(9), signed(&key, &minted)).unwrap_err();
    assert!(matches!(&err, KernelError::I1(m) if m.contains("minted")), "{err:?}");
    assert!(k.approvals_for(&subject).is_empty());
    assert_eq!(k.store.ledger.len(), before);

    // Minted, signed, presented once: recorded, with the ceremony named.
    let minted = k.mint_approval_challenge(&machine(11), &task).unwrap();
    k.approve(&human(12), signed(&key, &minted)).unwrap();
    assert_eq!(k.approvals_for(&subject).len(), 1);
    let last = k.store.ledger.last().unwrap();
    assert_eq!(last.kind, "approval.recorded");
    assert_eq!(
        hash_canonical(&last.payload),
        approval_record(&signed(&key, &minted), "device-key")
    );
    // Presented again: spent.
    let err = k.approve(&human(13), signed(&key, &minted)).unwrap_err();
    assert!(matches!(&err, KernelError::I1(m) if m.contains("minted")), "{err:?}");
    assert_eq!(k.approvals_for(&subject).len(), 1);
    assert!(k.pending_approvals(13).is_empty());
    let t = settled(k.run_task_step(&machine(14), &task));
    assert_eq!(t.status, TaskStatus::Done);
}

#[test]
fn record_verified_human_approval_takes_a_minted_challenge_once() {
    let mut k = fresh();
    let (task, subject) = waiting_task(&mut k);
    let approval = |ch: &Challenge| Approval {
        subject_hash: ch.action_digest.clone(),
        kind: ApprovalKind::Human,
        approver: Principal::Human { device_id: "passkey:abc".to_string() },
        challenge: Some(ch.dup()),
        signature_hex: Some("3045".to_string()),
    };
    let before = k.store.ledger.len();

    let unminted = Challenge {
        resource: format!("task:{task}"),
        action_digest: subject.clone(),
        nonce: "n".to_string(),
        expires_at_ms: 1_000_000,
    };
    let err = k
        .record_verified_human_approval(5, approval(&unminted), "webauthn")
        .unwrap_err();
    assert!(matches!(&err, KernelError::I1(m) if m.contains("minted")), "{err:?}");

    let minted = k.mint_approval_challenge(&machine(5), &task).unwrap();
    let mut machine_made = approval(&minted);
    machine_made.approver =
        Principal::Machine { node_id: "n1".to_string(), lease_id: "web".to_string() };
    assert!(matches!(
        k.record_verified_human_approval(6, machine_made, "webauthn"),
        Err(KernelError::I1(_))
    ));
    let mut unsigned = approval(&minted);
    unsigned.signature_hex = None;
    assert!(matches!(
        k.record_verified_human_approval(6, unsigned, "webauthn"),
        Err(KernelError::I1(_))
    ));
    let mut other = approval(&minted);
    other.subject_hash = "sha256:other".to_string();
    assert!(matches!(
        k.record_verified_human_approval(6, other, "webauthn"),
        Err(KernelError::I1(_))
    ));
    assert_eq!(k.pending_approvals(6).len(), 1, "still unspent");
    assert!(k.approvals_for(&subject).is_empty());
    assert_eq!(k.store.ledger.len(), before);

    k.record_verified_human_approval(7, approval(&minted), "webauthn").unwrap();
    let recorded = k.approvals_for(&subject);
    assert_eq!(recorded.len(), 1);
    assert_eq!(
        approval_record(&recorded[0], "webauthn"),
        approval_record(&approval(&minted), "webauthn")
    );
    let last = k.store.ledger.last().unwrap();
    assert_eq!(last.kind, "approval.recorded");
    assert_eq!(
        hash_canonical(&last.payload),
        approval_record(&approval(&minted), "webauthn")
    );
    assert!(k.pending_approvals(7).is_empty());
    let err = k
        .record_verified_human_approval(8, approval(&minted), "webauthn")
        .unwrap_err();
    assert!(matches!(&err, KernelError::I1(m) if m.contains("minted")), "{err:?}");
    assert_eq!(k.approvals_for(&subject).len(), 1);
    assert_eq!(
        settled(k.run_task_step(&machine(9), &task)).status,
        TaskStatus::Done
    );
}

fn credential(counter: u64) -> Json {
    let mut inner = Fields::new();
    inner.put_text("id", "abc");
    inner.put("counter", Json::Unsigned(counter));
    let mut f = Fields::new();
    f.put("cred", inner.object());
    f.object()
}

#[test]
fn a_passkey_is_enrolled_once_listed_counted_and_survives_reopen() {
    let mut k = fresh();
    let err = k.enroll_passkey("laptop", credential(0), 1).unwrap_err();
    assert!(matches!(err, KernelError::I1(_)), "{err:?}");
    let err = k.enroll_passkey("passkey:", credential(0), 1).unwrap_err();
    assert!(matches!(err, KernelError::I1(_)), "{err:?}");
    k.enroll_passkey("passkey:abc", credential(0), 1).unwrap();
    assert_eq!(count(&k, "device.enrolled"), 1);
    let err = k.enroll_passkey("passkey:abc", credential(0), 2).unwrap_err();
    assert!(matches!(&err, KernelError::I1(m) if m.contains("already")), "{err:?}");
    assert_eq!(count(&k, "device.enrolled"), 1);

    let rows = k.passkeys();
    assert_eq!(rows.len(), 1);
    assert_eq!(rows[0].device_id, "passkey:abc");
    assert_eq!(rows[0].credential.render(), credential(0).render());
    assert_eq!(rows[0].enrolled_ms, 1);
    assert_eq!(k.devices.len(), 0, "no key in the registry");
    k.enroll_device_persisted("phone-1", [7u8; 32]).unwrap();
    assert_eq!(
        k.device_ids(),
        vec!["passkey:abc".to_string(), "phone-1".to_string()]
    );
    assert_eq!(k.boot().devices, k.device_ids());

    k.update_passkey("passkey:abc", credential(3)).unwrap();
    assert_eq!(k.passkeys()[0].credential.render(), credential(3).render());
    assert_eq!(count(&k, "device.enrolled"), 2, "phone-1's, and nothing for the update");
    assert!(matches!(
        k.update_passkey("phone-1", credential(3)),
        Err(KernelError::NotFound(_))
    ));
    assert!(matches!(
        k.update_passkey("passkey:nope", credential(3)),
        Err(KernelError::NotFound(_))
    ));
    let k = reopened(k);
    let rows = k.passkeys();
    assert_eq!(rows.len(), 1);
    assert_eq!(rows[0].device_id, "passkey:abc");
    assert_eq!(
        rows[0].credential.get("cred").unwrap().number_at("counter"),
        Some(3)
    );
    assert_eq!(rows[0].enrolled_ms, 1);
    assert_eq!(k.devices.key_list(), vec!["phone-1".to_string()]);
}

#[test]
fn artefacts_are_stored_as_encrypted_blobs_under_the_task_subject() {
    let mut k = fresh();
    let r = k.submit_task(&machine(1), "x", Label::bottom()).unwrap();
    let env = k
        .attach_artefact(&machine(2), &r, "proposal.md", b"# Proposal")
        .unwrap();
    assert_eq!(
        k.read_artefact(&machine(3), &env.hash).unwrap(),
        b"# Proposal".to_vec()
    );
    let reg = k.read_register(&machine(4), &r).unwrap();
    assert_eq!(reg.artefacts[0].hash, env.hash);
}

#[test]
fn a_swapped_artefact_is_refused_as_a_store_failure_not_served_under_the_wrong_hash() {
    let mut k = fresh();
    let r = k.submit_task(&machine(1), "x", Label::bottom()).unwrap();
    let a = k
        .attach_artefact(&machine(2), &r, "proposal.md", b"# Draft one")
        .unwrap();
    let b = k
        .attach_artefact(&machine(2), &r, "proposal.md", b"# Draft two")
        .unwrap();
    let one = k.store.blobs.remove(&a.hash).unwrap();
    let two = k.store.blobs.remove(&b.hash).unwrap();
    k.store.blobs.insert(&a.hash, two);
    k.store.blobs.insert(&b.hash, one);
    for hash in [&a.hash, &b.hash] {
        match k.read_artefact(&machine(3), hash) {
            Err(KernelError::Store(msg)) => assert!(msg.contains("integrity"), "{msg}"),
            other => panic!("a swapped blob must be a store failure, got {other:?}"),
        }
    }
}

#[test]
fn an_artefact_kind_that_is_not_a_plain_token_is_refused() {
    let mut k = fresh();
    let r = k.submit_task(&machine(1), "x", Label::bottom()).unwrap();
    let too_long = "k".repeat(33);
    for bad in ["", "../x", "a/b", "a\\b", ".hidden", "a:b", too_long.as_str()] {
        assert!(
            matches!(
                k.attach_artefact(&machine(2), &r, bad, b"payload"),
                Err(KernelError::Gate(_))
            ),
            "{bad:?} must be refused"
        );
    }
    assert!(
        k.read_register(&machine(3), &r).unwrap().artefacts.is_empty(),
        "a refused kind must not reach the register"
    );
    assert_eq!(k.store.blobs.len(), 0, "a refused kind must store no blob");
}

/// A stand-in for a real engine: not a mock, and it says so in every completion.
struct Double;

impl Engine for Double {
    fn complete(&self, _prompt: &str, _max: u32) -> Result<Completion, AdapterError> {
        Ok(Completion::text("the stand-in answered"))
    }
}

type StandIn = EngineAdapter<Double>;

fn standin_spec(name: &str) -> MountSpec {
    let mut f = Fields::new();
    f.put_text("name", name);
    MountSpec::new("standin", f.object()).unwrap()
}

fn standin(name: &str) -> StandIn {
    let manifest = local_named(name, personal());
    let budget = manifest.context_ceiling;
    EngineAdapter { manifest, budget, engine: Double }
}

fn mount_standin_outcome(k: &mut RealKernel<StandIn>, name: &str) -> MountOutcome<StandIn> {
    k.mount_with(standin(name), Ok(()), standin_spec(name), Remount::Keep)
        .ok()
        .expect("mount")
}

/// What makes the stand-in that a spec names; `weights` renames the weights it claims.
fn standin_factory(weights: Option<&'static str>) -> impl Fn(&MountSpec) -> Result<StandIn, String> {
    move |spec: &MountSpec| {
        if spec.kind != "standin" {
            return Err(format!("no arch kind {}", spec.kind));
        }
        let name = spec.config.text_at("name").map_or("standin", |s| s.as_str());
        let mut s = standin(name);
        if let Some(w) = weights {
            s.manifest.identity.weights_sha256 = w.to_string();
        }
        Ok(s)
    }
}

fn broken_factory(spec: &MountSpec) -> Result<StandIn, String> {
    Err(format!("no engine for {} here", spec.kind))
}

fn start(k: &mut RealKernel<StandIn>, factory: &dyn Fn(&MountSpec) -> Result<StandIn, String>) {
    for (id, spec) in k.pending_mounts() {
        drop(k.install_arch(&id, factory(&spec)));
    }
}

fn open_starting(store: Store) -> RealKernel<StandIn> {
    RealKernel::<StandIn>::open_at(store, "n1", SOUND, now_ms())
}

fn open_with(
    store: Store,
    factory: &dyn Fn(&MountSpec) -> Result<StandIn, String>,
) -> RealKernel<StandIn> {
    let mut k = open_starting(store);
    start(&mut k, factory);
    k
}

/// A store in which the stand-in is mounted, and its id.
fn with_standin() -> (Store, String) {
    let mut k = open_with(Store::new("/state"), &standin_factory(None));
    let id = mount_standin_outcome(&mut k, "standin").arch_id;
    (k.into_store(), id)
}

#[test]
fn a_persisted_arch_is_re_created_at_boot_and_never_replaced_by_a_mock() {
    let (store, id) = with_standin();
    let mut k = open_with(store, &standin_factory(None));
    assert!(matches!(k.arch_state(&id), Some(ArchState::Ready)), "re-created at boot");
    let reg = k.submit_task(&machine(1), "say something", Label::bottom()).unwrap();
    k.infer(&machine(2), &id, Capability::Plan, &reg).unwrap();
    let decisions = k.read_register(&machine(3), &reg).unwrap().decisions;
    assert!(
        decisions.iter().any(|d| d.contains("the stand-in answered")),
        "the arch that answered after the restart must be the real one: {decisions:?}"
    );

    // A node of mocks makes nothing of it.
    let k = RealKernel::<MockAdapter>::open(k.into_store(), "n1", SOUND, now_ms(), &Table::new());
    match k.arch_state(&id) {
        Some(ArchState::Unavailable(why)) => {
            assert!(why.contains("without a factory for arch kind standin"), "{why}")
        }
        other => panic!("no mock takes its place, got {other:?}"),
    }
}

#[test]
fn an_arch_the_factory_cannot_re_create_is_unavailable_and_the_scheduler_refuses_it() {
    let (store, id) = with_standin();
    let mut k = open_with(store, &broken_factory);
    match k.arch_state(&id) {
        Some(ArchState::Unavailable(why)) => assert!(why.contains("no engine"), "{why}"),
        other => panic!("an arch that could not be re-created is unavailable, got {other:?}"),
    }
    assert!(
        k.arches().iter().any(|(i, _)| *i == id),
        "an unavailable arch is still listed: it is what an operator has to go and fix"
    );

    let before = count(&k, "infer");
    let t = k
        .create_task(
            &machine(1),
            "say something",
            "note",
            Label::bottom(),
            vec![StepKind::Plan { arch_id: id.clone() }],
        )
        .unwrap();
    let err = k.run_task_step(&machine(2), &t.id).err().unwrap();
    assert!(
        err.text().starts_with("arch unavailable: "),
        "the scheduler names the state, not a mock's answer: {err:?}"
    );
    let row = k.task(&machine(3), &t.id).unwrap();
    assert!(matches!(row.status, TaskStatus::Failed));
    match &row.steps[0].status {
        StepStatus::Failed(why) => assert!(why.starts_with("arch unavailable: "), "{why}"),
        other => panic!("the step must be Failed, got {other:?}"),
    }
    assert_eq!(
        count(&k, "infer"),
        before,
        "nothing was inferred, so nothing may be recorded as having been"
    );
}

#[test]
fn an_arch_whose_re_created_manifest_changed_is_unavailable_and_nothing_takes_its_place() {
    let (store, id) = with_standin();
    let k = open_with(store, &standin_factory(Some("sha256:new-weights")));
    match k.arch_state(&id) {
        Some(ArchState::Unavailable(why)) => {
            assert!(why.starts_with("manifest changed: "), "{why}");
            assert!(why.contains(&id), "the id that was stored: {why}");
        }
        other => panic!("a changed manifest is unavailable, got {other:?}"),
    }
    assert_eq!(
        k.arches().len(),
        1,
        "the arch the factory made is not mounted behind the operator's back"
    );
}

#[test]
fn mounting_an_unavailable_arch_again_re_attaches_it() {
    let (store, id) = with_standin();
    let mut k = open_with(store, &broken_factory);
    assert!(matches!(k.arch_state(&id), Some(ArchState::Unavailable(_))));

    let outcome = mount_standin_outcome(&mut k, "standin");
    assert_eq!(outcome.arch_id, id);
    assert!(
        !outcome.already_mounted,
        "what was there was a placeholder, not an arch: this mount mounted one"
    );
    assert!(outcome.replaced.is_none(), "a placeholder holds no adapter to drop");
    assert!(matches!(k.arch_state(&id), Some(ArchState::Ready)));
    assert_eq!(k.arches().len(), 1);
}

fn one(name: &str, value: Json) -> Json {
    let mut f = Fields::new();
    f.put(name, value);
    f.object()
}

fn listed(value: Json) -> Json {
    let mut items = Items::new();
    items.add(value);
    items.array()
}

#[test]
fn a_mount_spec_refuses_to_carry_anything_shaped_like_a_secret() {
    for named in ["api_key", "token", "secret", "AuthToken", "password"] {
        let err = MountSpec::new("x", one(named, text("sk-live-1")))
            .expect_err("a spec carrying a credential must be refused");
        assert!(err.contains(named), "{err}");
    }
    assert!(MountSpec::new("x", one("auth", one("key", text("sk-1")))).is_err());
    assert!(
        MountSpec::new("x", one("api_keys", listed(text("sk-live-1")))).is_err(),
        "a list under a credential-shaped name is a list of credentials"
    );
    let mut inner = Fields::new();
    inner.put_text("user", "eric");
    inner.put_text("value", "sk-1");
    assert!(MountSpec::new("x", one("credentials", inner.object())).is_err());
    assert!(MountSpec::new("x", one("outer", listed(one("token", text("sk-1"))))).is_err());
    let mut plain = Fields::new();
    plain.put_text("model", "gemma3:1b");
    plain.put("max_tokens", Json::Unsigned(2048));
    plain.put("num_ctx", Json::Unsigned(8192));
    MountSpec::new("ollama", plain.object())
        .expect("a spec of plain configuration is not a secret");
}

#[test]
fn a_step_that_names_an_arch_still_starting_is_retryable_and_then_runs() {
    let (store, id) = with_standin();
    let mut k = open_starting(store);
    assert!(matches!(k.arch_state(&id), Some(ArchState::Starting)));
    assert_eq!(k.arches_starting(), 1);
    assert!(
        k.arches().iter().any(|(i, _)| *i == id),
        "an arch coming up is listed while it does"
    );

    let before = count(&k, "infer");
    let t = k
        .create_task(
            &machine(1),
            "say something",
            "note",
            Label::bottom(),
            vec![StepKind::Plan { arch_id: id.clone() }],
        )
        .unwrap();
    let err = k.run_task_step(&machine(2), &t.id).err().unwrap();
    assert!(
        matches!(err, KernelError::ArchStarting(ref named) if *named == id),
        "{err:?}"
    );
    assert_eq!(err.text(), format!("arch {id} is starting; retry"));
    let row = k.task(&machine(3), &t.id).unwrap();
    assert!(
        matches!(row.status, TaskStatus::Queued),
        "a task waiting on an arch that is coming up is queued, not failed: {:?}",
        row.status
    );
    assert!(
        matches!(row.steps[0].status, StepStatus::Pending),
        "the step is still to run: {:?}",
        row.steps[0].status
    );
    assert_eq!(row.steps[0].started_ms, None);
    assert_eq!(count(&k, "infer"), before, "nothing was inferred, so nothing is recorded");

    start(&mut k, &standin_factory(None));
    assert!(matches!(k.arch_state(&id), Some(ArchState::Ready)));
    assert_eq!(k.arches_starting(), 0);
    let done = settled(k.run_task_step(&machine(4), &t.id));
    assert!(matches!(done.status, TaskStatus::Done), "{:?}", done.status);
    let decisions = k.read_register(&machine(5), &t.register).unwrap().decisions;
    assert!(
        decisions.iter().any(|x| x.contains("the stand-in answered")),
        "{decisions:?}"
    );
}

#[test]
fn opening_a_store_builds_no_adapter() {
    let (store, id) = with_standin();
    let calls = std::cell::Cell::new(0);
    let inner = standin_factory(None);
    let counted = |spec: &MountSpec| {
        calls.set(calls.get() + 1);
        inner(spec)
    };
    let mut k = open_starting(store);
    assert_eq!(calls.get(), 0, "open must not have built anything");
    assert_eq!(k.pending_mounts().len(), 1);
    start(&mut k, &counted);
    assert_eq!(calls.get(), 1);
    assert!(matches!(k.arch_state(&id), Some(ArchState::Ready)));
}

#[test]
fn an_arch_re_created_with_the_same_identity_but_a_different_manifest_is_unavailable() {
    let (store, id) = with_standin();
    let widening = |spec: &MountSpec| {
        let name = spec.config.text_at("name").map_or("standin", |s| s.as_str());
        let manifest = local_named(
            name,
            Clearance { max_scope: Scope::Holdout, third_party_allowed: true },
        );
        let budget = manifest.context_ceiling;
        Ok(EngineAdapter { manifest, budget, engine: Double })
    };
    let mut k = open_with(store, &widening);

    match k.arch_state(&id) {
        Some(ArchState::Unavailable(why)) => {
            assert!(why.starts_with("manifest changed: "), "{why}");
            assert!(why.contains("clearance"), "it names what differs: {why}");
            assert!(
                why.contains(&format!("vk umount {id}")),
                "and how to retire it: {why}"
            );
        }
        other => panic!("a widened clearance must not be adopted, got {other:?}"),
    }
    assert_eq!(
        k.arch_states()[0].manifest.clearance,
        personal(),
        "the stored manifest is the one this node still answers with"
    );
    let reg = k.submit_task(&machine(1), "say something", Label::bottom()).unwrap();
    assert!(matches!(
        k.infer(&machine(2), &id, Capability::Plan, &reg),
        Err(KernelError::ArchUnavailable(_))
    ));
}

#[test]
fn an_arch_mounted_while_it_was_starting_keeps_the_adapter_the_operator_mounted() {
    let (store, id) = with_standin();
    let mut k = open_starting(store);
    assert!(matches!(k.arch_state(&id), Some(ArchState::Starting)));

    let pending = k.pending_mounts();
    assert_eq!(pending.len(), 1);
    let outcome = mount_standin_outcome(&mut k, "standin");
    assert!(!outcome.already_mounted, "a placeholder is not an arch");
    assert!(matches!(k.arch_state(&id), Some(ArchState::Ready)));
    assert_eq!(k.arches_starting(), 0);

    let factory = standin_factory(None);
    let stale = k.install_arch(&pending[0].0, factory(&pending[0].1));
    assert!(
        stale.is_some(),
        "the adapter nobody wanted comes back to be dropped outside the lock"
    );
    assert!(matches!(k.arch_state(&id), Some(ArchState::Ready)));
    assert_eq!(k.arches().len(), 1);
}

#[test]
fn an_arch_unmounted_while_it_was_starting_does_not_come_back() {
    let (store, id) = with_standin();
    let mut k = open_starting(store);
    let pending = k.pending_mounts();
    assert!(k.unmount(&id).is_none(), "a placeholder holds no adapter");
    assert!(k.arch_state(&id).is_none());

    let factory = standin_factory(None);
    drop(k.install_arch(&pending[0].0, factory(&pending[0].1)));
    assert!(k.arch_state(&id).is_none(), "an unmounted arch stays unmounted");
    assert!(k.arches().is_empty());
    assert_eq!(k.store.mounts.len(), 0);
}

#[test]
fn a_mock_arch_comes_back_after_a_restart() {
    let mut k = fresh();
    let manifest = ArchManifest { context_ceiling: 4096, ..local(personal()) };
    let id = k.register_arch(manifest);
    assert_eq!(k.store.mounts.get(&id).unwrap().kind, "mock");
    let k = reopened(k);
    assert!(matches!(k.arch_state(&id), Some(ArchState::Ready)));
    assert_eq!(k.budgets.get(&id), Some(&4096));
    assert_eq!(k.arches()[0].1.context_ceiling, 4096);
}

#[test]
fn a_mock_spec_without_its_manifest_makes_nothing() {
    let bare = MountSpec { kind: "mock".to_string(), config: Json::Null };
    let words = "invalid type: null, expected struct ArchManifest";
    let err = mock_factory(&bare, words).err().unwrap();
    assert_eq!(
        err,
        format!("a mock mount spec carries the manifest it was mounted with: {words}")
    );
    let err = mock_factory(&standin_spec("x"), "").err().unwrap();
    assert!(err.contains("arch kind standin"), "{err}");
    let spec = MountSpec::mock(&local(personal()), 7);
    let made = mock_factory(&spec, "").ok().unwrap();
    assert_eq!(made.budget, 7);
    assert_eq!(made.manifest.name, "mock");
}
