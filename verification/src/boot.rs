//! Booting a node: what it finds, what it records of that, and what it ends.
use crate::adapter::ArchAdapter;
use crate::arches::{entry_ids, state_of};
use crate::devices::passkey_of;
use crate::harness::swept;
use crate::json::{canonical_hash, hash_canonical, texts_json, texts_to_json, Fields, Json, JsonView};
use crate::kernel::{with_event, KernelView, RealKernel};
use crate::listing::{arches_are_listed_one_way, in_order, one_order};
use crate::model::{all, Duplicate};
use crate::outside::now_ms;
use crate::recovery::{all_task_ids, recovered};
use crate::stops::is_stopped;
use crate::store::StoreView;
use vstd::prelude::*;

verus! {

/// What a node found when it booted.
#[derive(Debug)]
pub struct BootReport {
    /// Whether the record holds, as it was found.
    pub ledger_ok: bool,
    /// How many events it had.
    pub ledger_len: usize,
    /// Whether its last line had to be dropped.
    pub recovered_partial_line: bool,
    pub arches: Vec<String>,
    pub unavailable_arches: Vec<String>,
    pub starting_arches: Vec<String>,
    pub devices: Vec<String>,
    pub stopped_scopes: Vec<String>,
    pub policies_version: String,
}

/// What a [`BootReport`] says.
#[verifier::ext_equal]
pub struct BootReportView {
    pub ledger_ok: bool,
    pub ledger_len: nat,
    pub recovered_partial_line: bool,
    pub arches: Seq<Seq<char>>,
    pub unavailable_arches: Seq<Seq<char>>,
    pub starting_arches: Seq<Seq<char>>,
    pub devices: Seq<Seq<char>>,
    pub stopped_scopes: Seq<Seq<char>>,
    pub policies_version: Seq<char>,
}

impl View for BootReport {
    type V = BootReportView;

    open spec fn view(&self) -> BootReportView {
        BootReportView {
            ledger_ok: self.ledger_ok,
            ledger_len: self.ledger_len as nat,
            recovered_partial_line: self.recovered_partial_line,
            arches: all(self.arches@),
            unavailable_arches: all(self.unavailable_arches@),
            starting_arches: all(self.starting_arches@),
            devices: all(self.devices@),
            stopped_scopes: all(self.stopped_scopes@),
            policies_version: self.policies_version@,
        }
    }
}

/// A report, as the record has it.
pub open spec fn report_json(r: BootReportView) -> JsonView {
    JsonView::Object(
        seq![
            ("ledger_ok"@, JsonView::Bool(r.ledger_ok)),
            ("ledger_len"@, JsonView::Unsigned(r.ledger_len)),
            ("recovered_partial_line"@, JsonView::Bool(r.recovered_partial_line)),
            ("arches"@, texts_json(r.arches)),
            ("unavailable_arches"@, texts_json(r.unavailable_arches)),
            ("starting_arches"@, texts_json(r.starting_arches)),
            ("devices"@, texts_json(r.devices)),
            ("stopped_scopes"@, texts_json(r.stopped_scopes)),
            ("policies_version"@, JsonView::Text(r.policies_version)),
        ],
    )
}

/// A report, as the record has it.
pub fn report_to_json(r: &BootReport) -> (j: Json)
    ensures
        j@ == report_json(r@),
{
    let mut f = Fields::new();
    f.put("ledger_ok", Json::Bool(r.ledger_ok));
    f.put("ledger_len", Json::Unsigned(r.ledger_len as u64));
    f.put("recovered_partial_line", Json::Bool(r.recovered_partial_line));
    f.put("arches", texts_to_json(&r.arches));
    f.put("unavailable_arches", texts_to_json(&r.unavailable_arches));
    f.put("starting_arches", texts_to_json(&r.starting_arches));
    f.put("devices", texts_to_json(&r.devices));
    f.put("stopped_scopes", texts_to_json(&r.stopped_scopes));
    f.put_text("policies_version", r.policies_version.as_str());
    assert(f@ =~= report_json(r@)->Object_0);
    f.object()
}

/// Whether the record holds: its chain verifies, and it reaches the head that was
/// last recorded.
pub open spec fn record_holds<A>(k: KernelView<A>) -> bool {
    k.record.chain_ok && k.record.head_ok
}

/// The ids of the mounted arches.
pub open spec fn arch_ids<A>(k: KernelView<A>) -> Seq<Seq<char>> {
    in_order(|id: Seq<char>| state_of(k, id) is Some)
}

/// The ids of the enrolled devices.
pub open spec fn enrolled_ids<A>(k: KernelView<A>) -> Seq<Seq<char>> {
    in_order(
        |id: Seq<char>| k.devices.contains_key(id) || passkey_of(k.store, id) is Some,
    )
}

/// The scopes that are stopped.
pub open spec fn scopes_stopped<A>(k: KernelView<A>) -> Seq<Seq<char>> {
    in_order(|s: Seq<char>| is_stopped(k, s))
}

/// The version of the policies a node runs under; a node that never booted gets the
/// first.
pub open spec fn version_loaded(s: StoreView) -> Seq<char> {
    match s.policies_version {
        Some(v) => v,
        None => "0"@,
    }
}

/// What a node finds when it boots.
pub open spec fn report_of<A>(k: KernelView<A>) -> BootReportView {
    BootReportView {
        ledger_ok: record_holds(k),
        ledger_len: k.store.ledger.len(),
        recovered_partial_line: k.record.recovered_partial_line,
        arches: arch_ids(k),
        unavailable_arches: in_order(|id: Seq<char>| k.unavailable.contains_key(id)),
        starting_arches: in_order(|id: Seq<char>| k.starting.contains_key(id)),
        devices: enrolled_ids(k),
        stopped_scopes: scopes_stopped(k),
        policies_version: version_loaded(k.store),
    }
}

/// The ids of all tasks.
pub open spec fn every_task(s: StoreView) -> Seq<Seq<char>> {
    in_order(|id: Seq<char>| s.tasks.contains_key(id))
}

/// Booting: the report goes on the record whatever it says, then what was left
/// running is ended, and then what a harness held is swept away.
pub open spec fn booting<A>(k: KernelView<A>, now: u64, later: u64) -> (
    KernelView<A>,
    BootReportView,
) {
    let report = report_of(k);
    let versioned = KernelView {
        store: StoreView { policies_version: Some(version_loaded(k.store)), ..k.store },
        ..k
    };
    let logged = with_event(versioned, "boot"@, now, report_json(report));
    (swept(recovered(logged, every_task(k.store), later)), report)
}

/// What the record says of serving although it does not hold.
pub open spec fn forced_json<A>(k: KernelView<A>, r: BootReportView) -> JsonView {
    JsonView::Object(
        seq![
            ("ledger_ok"@, JsonView::Bool(r.ledger_ok)),
            ("head_ok"@, JsonView::Bool(k.record.head_ok)),
            ("ledger_len"@, JsonView::Unsigned(r.ledger_len)),
            ("report_hash"@, JsonView::Text(canonical_hash(report_json(r)))),
        ],
    )
}

/// The kernel that serves although its record does not hold.
pub open spec fn forced<A>(k: KernelView<A>, r: BootReportView, now: u64) -> KernelView<A> {
    KernelView {
        forced_boot: true,
        ..with_event(k, "boot.forced"@, now, forced_json(k, r))
    }
}

impl<A> RealKernel<A> {
    /// Whether the record holds.
    pub fn ledger_holds(&self) -> (r: bool)
        ensures
            r == record_holds(self@),
    {
        self.record.chain_ok && self.record.head_ok
    }

    /// Whether the last line of the record had to be dropped when it was opened.
    pub fn recovered_partial_line(&self) -> (r: bool)
        ensures
            r == self@.record.recovered_partial_line,
    {
        self.record.recovered_partial_line
    }

    /// Whether this run serves although its record does not hold.
    pub fn forced_boot(&self) -> (r: bool)
        ensures
            r == self@.forced_boot,
    {
        self.forced_boot
    }

    /// The version of the policies this node runs under; nothing before it booted.
    pub fn policies_version(&self) -> (r: Option<String>)
        ensures
            crate::model::opt(r) == self@.store.policies_version,
    {
        crate::model::dup_opt(&self.store.policies_version)
    }

    pub(crate) fn load_policies_version(&mut self) -> (r: String)
        requires
            old(self).wf(),
        ensures
            final(self).wf(),
            r@ == version_loaded(old(self)@.store),
            final(self)@ == (KernelView {
                store: StoreView {
                    policies_version: Some(version_loaded(old(self)@.store)),
                    ..old(self)@.store
                },
                ..old(self)@
            }),
    {
        let v = match &self.store.policies_version {
            Some(v) => v.dup(),
            None => "0".to_owned(),
        };
        self.store.policies_version = Some(v.dup());
        v
    }

    /// Record that this node serves although its record does not hold. The report is
    /// the one that booting gave.
    pub fn record_forced_boot_at(&mut self, report: &BootReport, now: u64)
        requires
            old(self).wf(),
        ensures
            final(self).wf(),
            final(self)@ == forced(old(self)@, report@, now),
    {
        let hash = hash_canonical(&report_to_json(report));
        let mut f = Fields::new();
        f.put("ledger_ok", Json::Bool(report.ledger_ok));
        f.put("head_ok", Json::Bool(self.record.head_ok));
        f.put("ledger_len", Json::Unsigned(report.ledger_len as u64));
        f.put_text("report_hash", hash.as_str());
        assert(f@ =~= forced_json(old(self)@, report@)->Object_0);
        self.record_event("boot.forced", now, f.object());
        let ghost logged = self@;
        self.forced_boot = true;
        proof {
            crate::kernel::sound_without_the_rest(logged, self@);
        }
    }

    /// Record, now, that this node serves although its record does not hold.
    pub fn record_forced_boot(&mut self, report: &BootReport)
        requires
            old(self).wf(),
        ensures
            final(self).wf(),
            exists|now: u64| final(self)@ == #[trigger] forced(old(self)@, report@, now),
    {
        let now: u64 = now_ms();
        self.record_forced_boot_at(report, now)
    }
}

impl<A: ArchAdapter> RealKernel<A> {
    fn arch_id_list(&self) -> (r: Vec<String>)
        requires
            self.wf(),
        ensures
            all(r@) == arch_ids(self@),
    {
        let states = self.arch_states();
        let mut r: Vec<String> = Vec::new();
        let mut i: usize = 0;
        while i < states.len()
            invariant
                i <= states@.len(),
                r@.len() == i,
                forall|j: int| 0 <= j < i ==> (#[trigger] r@[j])@ == states@[j]@.arch_id,
            decreases states@.len() - i,
        {
            r.push(states[i].arch_id.dup());
            i += 1;
        }
        proof {
            arches_are_listed_one_way(self@, all(states@));
            assert(all(r@) =~= entry_ids(all(states@)));
        }
        r
    }

    fn report(&self, policies_version: String) -> (r: BootReport)
        requires
            self.wf(),
        ensures
            r@ == (BootReportView { policies_version: policies_version@, ..report_of(self@) }),
    {
        let arches = self.arch_id_list();
        let unavailable_arches = self.unavailable.key_list();
        let starting_arches = self.starting.key_list();
        let devices = self.device_ids();
        let stopped_scopes = self.stopped_scopes();
        proof {
            let k = self@;
            self.unavailable.keys_are_domain();
            self.starting.keys_are_domain();
            one_order(
                all(unavailable_arches@),
                |id: Seq<char>| k.unavailable.contains_key(id),
            );
            one_order(all(starting_arches@), |id: Seq<char>| k.starting.contains_key(id));
            one_order(
                all(devices@),
                |id: Seq<char>| k.devices.contains_key(id) || passkey_of(k.store, id) is Some,
            );
            one_order(all(stopped_scopes@), |s: Seq<char>| is_stopped(k, s));
            assert(all(self.store.ledger@).len() == self.store.ledger@.len());
        }
        BootReport {
            ledger_ok: self.ledger_holds(),
            ledger_len: self.store.ledger.len(),
            recovered_partial_line: self.recovered_partial_line(),
            arches,
            unavailable_arches,
            starting_arches,
            devices,
            stopped_scopes,
            policies_version,
        }
    }

    /// Boot at this time, and end what was left running at that.
    pub fn boot_at(&mut self, now: u64, later: u64) -> (r: BootReport)
        requires
            old(self).wf(),
        ensures
            final(self).wf(),
            (final(self)@, r@) == booting(old(self)@, now, later),
    {
        let policies = match &self.store.policies_version {
            Some(v) => v.dup(),
            None => "0".to_owned(),
        };
        let report = self.report(policies);
        let _ = self.load_policies_version();
        self.record_event("boot", now, report_to_json(&report));
        let ghost logged = self@;
        let _ = self.recover_interrupted_steps(later);
        proof {
            let ids = choose|ids: Seq<Seq<char>>| #[trigger]
                all_task_ids(logged.store, ids) && self@ == recovered(logged, ids, later);
            let s = old(self)@.store;
            one_order(ids, |id: Seq<char>| s.tasks.contains_key(id));
            assert(logged.store.tasks == s.tasks);
        }
        self.sweep_harness_state();
        report
    }

    /// Boot now.
    pub fn boot(&mut self) -> (r: BootReport)
        requires
            old(self).wf(),
        ensures
            final(self).wf(),
            exists|now: u64, later: u64|
                (final(self)@, r@) == #[trigger] booting(old(self)@, now, later),
    {
        let now: u64 = now_ms();
        let later: u64 = now_ms();
        self.boot_at(now, later)
    }
}

/// What booting puts on the record commits to the very report that it gives, whatever
/// the report says.
pub proof fn boot_is_always_recorded<A>(k: KernelView<A>, now: u64, later: u64)
    requires
        crate::kernel::filed(k.store),
    ensures
        ({
            let (after, report) = booting(k, now, later);
            let n = k.store.ledger.len() as int;
            &&& after.store.ledger.len() > n
            &&& after.store.ledger[n].kind == "boot"@
            &&& after.store.ledger[n].payload == report_json(report)
        }),
{
    let versioned = KernelView {
        store: StoreView { policies_version: Some(version_loaded(k.store)), ..k.store },
        ..k
    };
    let logged = with_event(versioned, "boot"@, now, report_json(report_of(k)));
    crate::recovery::recovery_only_adds_events(logged, every_task(k.store), later);
}

/// A forced boot names the hash of the report that it overrode.
pub proof fn forced_boot_names_the_report<A>(k: KernelView<A>, r: BootReportView, now: u64)
    ensures
        forced(k, r, now).forced_boot,
        forced(k, r, now).store.ledger.last().kind == "boot.forced"@,
        forced(k, r, now).store.ledger.last().payload == forced_json(k, r),
{
}

} // verus!
