//! Arches: mounting, re-making and unmounting what runs prompts. An arch is ready,
//! starting or unavailable, and never two of these.
use crate::adapter::ArchAdapter;
use crate::ir::{join, separated};
use crate::json::{text, JsonView};
use crate::kernel::{
    sound, sound_with_fewer_arches, sound_without_the_rest, with_event, KernelView, RealKernel,
    Slot, UnavailableArch, UnavailableArchView,
};
use crate::manifest::{arch_id_of, ArchManifest, ArchManifestView};
use crate::model::{all, opt, verdict_view, Duplicate, Same};
use crate::mount::{carried_secret, secret_refusal, MountSpec, MountSpecView};
use crate::outside::now_ms;
use crate::store::StoreView;
use crate::table::{ascending, Table};
use crate::text::{before, cat3, cat4, cat5};
use vstd::prelude::*;

verus! {

/// Whether an arch can be called, and if not, why not.
#[derive(Debug)]
pub enum ArchState {
    /// Its adapter is there.
    Ready,
    /// Its adapter is being made.
    Starting,
    /// It has none, and this is what stopped it.
    Unavailable(String),
}

/// What an [`ArchState`] says.
pub enum ArchStateView {
    Ready,
    Starting,
    Unavailable(Seq<char>),
}

impl View for ArchState {
    type V = ArchStateView;

    open spec fn view(&self) -> ArchStateView {
        match self {
            ArchState::Ready => ArchStateView::Ready,
            ArchState::Starting => ArchStateView::Starting,
            ArchState::Unavailable(why) => ArchStateView::Unavailable(why@),
        }
    }
}

impl Duplicate for ArchState {
    fn dup(&self) -> (r: Self) {
        match self {
            ArchState::Ready => ArchState::Ready,
            ArchState::Starting => ArchState::Starting,
            ArchState::Unavailable(why) => ArchState::Unavailable(why.dup()),
        }
    }
}

/// The word for a state.
pub open spec fn state_name(s: ArchStateView) -> Seq<char> {
    match s {
        ArchStateView::Ready => "ready"@,
        ArchStateView::Starting => "starting"@,
        ArchStateView::Unavailable(_) => "unavailable"@,
    }
}

/// Why an arch cannot be called; nothing for one that can be, or soon will.
pub open spec fn state_reason(s: ArchStateView) -> Option<Seq<char>> {
    match s {
        ArchStateView::Unavailable(why) => Some(why),
        _ => None,
    }
}

impl ArchState {
    /// The word for the state.
    pub fn name(&self) -> (r: &'static str)
        ensures
            r@ == state_name(self@),
    {
        match self {
            ArchState::Ready => "ready",
            ArchState::Starting => "starting",
            ArchState::Unavailable(_) => "unavailable",
        }
    }

    /// Why the arch cannot be called; nothing for one that can be, or soon will.
    pub fn reason(&self) -> (r: Option<&str>)
        ensures
            r is Some <==> state_reason(self@) is Some,
            r is Some ==> Some(r->0@) == state_reason(self@),
    {
        match self {
            ArchState::Unavailable(why) => Some(why.as_str()),
            _ => None,
        }
    }
}

/// What to do about an arch that is already mounted.
#[derive(Clone, Copy, Debug, PartialEq, Eq, Structural)]
pub enum Remount {
    /// Keep the one that is there.
    Keep,
    /// Put the new one in its place: what is behind the arch was made anew.
    Replace,
}

/// What a mount did. An adapter that was replaced is handed out, so that whoever
/// called can let go of it in their own time.
pub struct MountOutcome<A> {
    pub arch_id: String,
    pub replaced: Option<A>,
    pub already_mounted: bool,
}

/// What a [`MountOutcome`] says.
pub struct MountOutcomeView<A> {
    pub arch_id: Seq<char>,
    pub replaced: Option<A>,
    pub already_mounted: bool,
}

impl<A> View for MountOutcome<A> {
    type V = MountOutcomeView<A>;

    open spec fn view(&self) -> MountOutcomeView<A> {
        MountOutcomeView {
            arch_id: self.arch_id@,
            replaced: self.replaced,
            already_mounted: self.already_mounted,
        }
    }
}

/// A name, where it is to be given.
pub open spec fn named(differs: bool, name: Seq<char>) -> Seq<Seq<char>> {
    if differs {
        seq![name]
    } else {
        Seq::empty()
    }
}

/// The names of the fields in which two manifests differ, in order.
pub open spec fn differing_fields(a: ArchManifestView, b: ArchManifestView) -> Seq<Seq<char>> {
    named(a.capabilities != b.capabilities, "capabilities"@) + named(
        a.clearance != b.clearance,
        "clearance"@,
    ) + named(a.context_ceiling != b.context_ceiling, "context_ceiling"@) + named(
        a.cost_per_1k_tokens_eur != b.cost_per_1k_tokens_eur,
        "cost_per_1k_tokens_eur"@,
    ) + named(a.determinism != b.determinism, "determinism"@) + named(
        a.governed != b.governed,
        "governed"@,
    ) + named(a.identity != b.identity, "identity"@) + named(
        a.jurisdiction != b.jurisdiction,
        "jurisdiction"@,
    ) + named(a.latency_ms_p50 != b.latency_ms_p50, "latency_ms_p50"@) + named(
        a.locality != b.locality,
        "locality"@,
    ) + named(a.name != b.name, "name"@) + named(
        a.retention_days != b.retention_days,
        "retention_days"@,
    )
}

/// What differs between the manifest an arch was mounted with and the one that was
/// made; nothing when they are the same.
pub open spec fn difference(stored: ArchManifestView, made: ArchManifestView) -> Option<Seq<char>> {
    let stored_id = arch_id_of(stored.identity);
    let made_id = arch_id_of(made.identity);
    if stored == made {
        None
    } else if stored_id != made_id {
        Some("identity "@ + stored_id + " → "@ + made_id)
    } else {
        Some(separated(differing_fields(stored, made), ", "@))
    }
}

fn note(names: &mut Vec<String>, differs: bool, name: &str)
    ensures
        all(final(names)@) == all(old(names)@) + named(differs, name@),
{
    let ghost before = all(names@);
    if differs {
        names.push(name.to_owned());
        assert(all(names@) =~= before + seq![name@]);
    } else {
        assert(before =~= before + Seq::<Seq<char>>::empty());
    }
}

/// What differs between the manifest an arch was mounted with and the one that was
/// made; nothing when they are the same.
pub fn manifest_difference(stored: &ArchManifest, made: &ArchManifest) -> (r: Option<String>)
    ensures
        opt(r) == difference(stored@, made@),
{
    if stored.same_as(made) {
        return None;
    }
    let stored_id = stored.arch_id();
    let made_id = made.arch_id();
    if !stored_id.same_as(&made_id) {
        return Some(cat4("identity ", stored_id.as_str(), " → ", made_id.as_str()));
    }
    let mut names: Vec<String> = Vec::new();
    assert(all(names@) =~= Seq::<Seq<char>>::empty());
    note(&mut names, stored.capabilities != made.capabilities, "capabilities");
    assert(all(names@) =~= named(stored@.capabilities != made@.capabilities, "capabilities"@));
    note(&mut names, stored.clearance != made.clearance, "clearance");
    note(&mut names, stored.context_ceiling != made.context_ceiling, "context_ceiling");
    let same_cost = crate::model::same_opt(
        &stored.cost_per_1k_tokens_eur,
        &made.cost_per_1k_tokens_eur,
    );
    note(&mut names, !same_cost, "cost_per_1k_tokens_eur");
    note(&mut names, stored.determinism != made.determinism, "determinism");
    note(&mut names, stored.governed != made.governed, "governed");
    note(&mut names, !stored.identity.same_as(&made.identity), "identity");
    note(&mut names, !stored.jurisdiction.same_as(&made.jurisdiction), "jurisdiction");
    note(&mut names, stored.latency_ms_p50 != made.latency_ms_p50, "latency_ms_p50");
    note(&mut names, stored.locality != made.locality, "locality");
    note(&mut names, !stored.name.same_as(&made.name), "name");
    let same_days = match (stored.retention_days, made.retention_days) {
        (Some(a), Some(b)) => a == b,
        (None, None) => true,
        _ => false,
    };
    note(&mut names, !same_days, "retention_days");
    Some(join(&names, ", "))
}

/// Two manifests that differ have a difference to name.
pub proof fn difference_is_always_named(a: ArchManifestView, b: ArchManifestView)
    requires
        a != b,
        a.identity == b.identity,
    ensures
        difference(a, b) is Some,
        differing_fields(a, b).len() > 0,
{
    let n = |differs: bool, name: Seq<char>| named(differs, name).len();
    assert(differing_fields(a, b).len() == n(a.capabilities != b.capabilities, "capabilities"@) + n(
        a.clearance != b.clearance,
        "clearance"@,
    ) + n(a.context_ceiling != b.context_ceiling, "context_ceiling"@) + n(
        a.cost_per_1k_tokens_eur != b.cost_per_1k_tokens_eur,
        "cost_per_1k_tokens_eur"@,
    ) + n(a.determinism != b.determinism, "determinism"@) + n(a.governed != b.governed, "governed"@)
        + n(a.identity != b.identity, "identity"@) + n(
        a.jurisdiction != b.jurisdiction,
        "jurisdiction"@,
    ) + n(a.latency_ms_p50 != b.latency_ms_p50, "latency_ms_p50"@) + n(
        a.locality != b.locality,
        "locality"@,
    ) + n(a.name != b.name, "name"@) + n(a.retention_days != b.retention_days, "retention_days"@));
    assert(a == b || a.capabilities != b.capabilities || a.clearance != b.clearance
        || a.context_ceiling != b.context_ceiling || a.cost_per_1k_tokens_eur
        != b.cost_per_1k_tokens_eur || a.determinism != b.determinism || a.governed != b.governed
        || a.jurisdiction != b.jurisdiction || a.latency_ms_p50 != b.latency_ms_p50 || a.locality
        != b.locality || a.name != b.name || a.retention_days != b.retention_days);
}

/// The kernel with an arch marked unavailable.
pub open spec fn marked<A>(
    k: KernelView<A>,
    id: Seq<char>,
    manifest: ArchManifestView,
    reason: Seq<char>,
) -> KernelView<A> {
    KernelView {
        unavailable: k.unavailable.insert(id, UnavailableArchView { manifest, reason }),
        ..k
    }
}

/// Installing what was made for an arch that is starting. What is not installed is
/// handed back.
pub open spec fn installing<A: ArchAdapter>(
    k: KernelView<A>,
    id: Seq<char>,
    made: Result<A, Seq<char>>,
) -> (KernelView<A>, Option<A>) {
    if !k.starting.contains_key(id) {
        (
            k,
            match made {
                Ok(a) => Some(a),
                Err(_) => None,
            },
        )
    } else {
        let manifest = k.starting[id].manifest;
        let taken = KernelView { starting: k.starting.remove(id), ..k };
        match made {
            Err(why) => (marked(taken, id, manifest, why), None),
            Ok(a) => match difference(manifest, a.declared()) {
                Some(what) => (
                    marked(
                        taken,
                        id,
                        manifest,
                        "manifest changed: "@ + what + " — run `vk umount "@ + id
                            + "` to retire it"@,
                    ),
                    Some(a),
                ),
                None => (
                    KernelView {
                        budgets: taken.budgets.insert(id, a.budget() as u32),
                        adapters: taken.adapters.insert(id, a),
                        ..taken
                    },
                    None,
                ),
            },
        }
    }
}

/// What is said when an id is mounted with another manifest.
pub open spec fn conflict(id: Seq<char>) -> Seq<char> {
    "arch "@ + id + " is already mounted with a different manifest; unmount first"@
}

/// The store with the manifest and the spec of an arch, both or neither.
pub open spec fn mount_kept(
    s: StoreView,
    id: Seq<char>,
    m: ArchManifestView,
    spec: MountSpecView,
) -> StoreView {
    StoreView { arches: s.arches.insert(id, m), mounts: s.mounts.insert(id, spec), ..s }
}

/// Whether this manifest is not the one the id is known by.
pub open spec fn conflicts<A: ArchAdapter>(
    k: KernelView<A>,
    id: Seq<char>,
    m: ArchManifestView,
) -> bool {
    ||| k.unavailable.contains_key(id) && k.unavailable[id].manifest != m
    ||| k.starting.contains_key(id) && k.starting[id].manifest != m
    ||| k.adapters.contains_key(id) && k.adapters[id].declared() != m
}

/// Mounting an adapter. `checked` is what its manifest was found to be on its own: one
/// that is not valid is refused before anything else is looked at.
pub open spec fn mounting<A: ArchAdapter>(
    k: KernelView<A>,
    adapter: A,
    checked: Result<(), Seq<char>>,
    spec: MountSpecView,
    remount: Remount,
    now: u64,
) -> (KernelView<A>, Result<MountOutcomeView<A>, Seq<char>>) {
    let m = adapter.declared();
    let id = arch_id_of(m.identity);
    if checked is Err {
        (k, Err(checked->Err_0))
    } else if carried_secret(spec) is Some {
        (k, Err(secret_refusal(carried_secret(spec)->0)))
    } else if conflicts(k, id, m) {
        (k, Err(conflict(id)))
    } else if k.adapters.contains_key(id) {
        if remount == Remount::Keep {
            (k, Ok(MountOutcomeView { arch_id: id, replaced: None, already_mounted: true }))
        } else {
            (
                KernelView {
                    store: mount_kept(k.store, id, m, spec),
                    budgets: k.budgets.insert(id, adapter.budget() as u32),
                    adapters: k.adapters.insert(id, adapter),
                    ..k
                },
                Ok(
                    MountOutcomeView {
                        arch_id: id,
                        replaced: Some(k.adapters[id]),
                        already_mounted: true,
                    },
                ),
            )
        }
    } else {
        let mounted = KernelView {
            store: mount_kept(k.store, id, m, spec),
            unavailable: k.unavailable.remove(id),
            starting: k.starting.remove(id),
            budgets: k.budgets.insert(id, adapter.budget() as u32),
            adapters: k.adapters.insert(id, adapter),
            ..k
        };
        (
            with_event(mounted, "arch.mounted"@, now, JsonView::Text(id)),
            Ok(MountOutcomeView { arch_id: id, replaced: None, already_mounted: false }),
        )
    }
}

/// Unmounting an arch, in whatever state it is. The adapter it had is handed out.
pub open spec fn unmounting<A>(k: KernelView<A>, id: Seq<char>, now: u64) -> (
    KernelView<A>,
    Option<A>,
) {
    let unmounted = KernelView {
        store: StoreView {
            arches: k.store.arches.remove(id),
            mounts: k.store.mounts.remove(id),
            ..k.store
        },
        adapters: k.adapters.remove(id),
        unavailable: k.unavailable.remove(id),
        starting: k.starting.remove(id),
        budgets: k.budgets.remove(id),
        ..k
    };
    (
        with_event(unmounted, "arch.unmounted"@, now, JsonView::Text(id)),
        if k.adapters.contains_key(id) {
            Some(k.adapters[id])
        } else {
            None
        },
    )
}

/// The state of an arch; nothing for an id that is not mounted.
pub open spec fn state_of<A>(k: KernelView<A>, id: Seq<char>) -> Option<ArchStateView> {
    if k.adapters.contains_key(id) {
        Some(ArchStateView::Ready)
    } else if k.starting.contains_key(id) {
        Some(ArchStateView::Starting)
    } else if k.unavailable.contains_key(id) {
        Some(ArchStateView::Unavailable(k.unavailable[id].reason))
    } else {
        None
    }
}

/// The manifest that a mounted arch is known by.
pub open spec fn manifest_of<A: ArchAdapter>(k: KernelView<A>, id: Seq<char>) -> ArchManifestView {
    if k.adapters.contains_key(id) {
        k.adapters[id].declared()
    } else if k.starting.contains_key(id) {
        k.starting[id].manifest
    } else {
        k.unavailable[id].manifest
    }
}

/// A mounted arch, as it is listed.
#[derive(Debug)]
pub struct ArchEntry {
    pub arch_id: String,
    pub manifest: ArchManifest,
    pub state: ArchState,
}

/// What an [`ArchEntry`] says.
pub struct ArchEntryView {
    pub arch_id: Seq<char>,
    pub manifest: ArchManifestView,
    pub state: ArchStateView,
}

impl View for ArchEntry {
    type V = ArchEntryView;

    open spec fn view(&self) -> ArchEntryView {
        ArchEntryView { arch_id: self.arch_id@, manifest: self.manifest@, state: self.state@ }
    }
}

impl Duplicate for ArchEntry {
    fn dup(&self) -> (r: Self) {
        ArchEntry {
            arch_id: self.arch_id.dup(),
            manifest: self.manifest.dup(),
            state: self.state.dup(),
        }
    }
}

/// The entry of a mounted arch.
pub open spec fn entry_of<A: ArchAdapter>(k: KernelView<A>, id: Seq<char>) -> ArchEntryView {
    ArchEntryView { arch_id: id, manifest: manifest_of(k, id), state: state_of(k, id)->0 }
}

/// The ids of listed arches.
pub open spec fn entry_ids(es: Seq<ArchEntryView>) -> Seq<Seq<char>> {
    es.map_values(|e: ArchEntryView| e.arch_id)
}

/// Whether `es` is every mounted arch, whatever its state, in the order of ids.
pub open spec fn lists_arches<A: ArchAdapter>(k: KernelView<A>, es: Seq<ArchEntryView>) -> bool {
    &&& ascending(entry_ids(es))
    &&& forall|i: int|
        0 <= i < es.len() ==> state_of(k, (#[trigger] es[i]).arch_id) is Some && es[i] == entry_of(
            k,
            es[i].arch_id,
        )
    &&& forall|id: Seq<char>|
        #![trigger entry_ids(es).contains(id)]
        #![trigger state_of(k, id)]
        state_of(k, id) is Some ==> entry_ids(es).contains(id)
}

impl<A: ArchAdapter> RealKernel<A> {
    /// The arches whose adapter is still to be made, with what to make each from,
    /// in the order of their ids.
    pub fn pending_mounts(&self) -> (r: Vec<(String, MountSpec)>)
        requires
            self.wf(),
        ensures
            r@.len() == self.starting.keys().len(),
            ascending(Seq::new(r@.len(), |i: int| r@[i].0@)),
            forall|i: int|
                0 <= i < r@.len() ==> self@.starting.contains_key((#[trigger] r@[i]).0@)
                    && r@[i].1@ == self@.starting[r@[i].0@].spec,
            forall|id: Seq<char>| #[trigger]
                self@.starting.contains_key(id) ==> exists|i: int|
                    0 <= i < r@.len() && (#[trigger] r@[i]).0@ == id,
    {
        let mut r: Vec<(String, MountSpec)> = Vec::new();
        let mut i: usize = 0;
        while i < self.starting.len()
            invariant
                self.wf(),
                i <= self.starting.keys().len(),
                r@.len() == i,
                forall|j: int|
                    0 <= j < i ==> (#[trigger] r@[j]).0@ == self.starting.keys()[j]
                        && self@.starting.contains_key(r@[j].0@) && r@[j].1@
                        == self@.starting[r@[j].0@].spec,
            decreases self.starting.keys().len() - i,
        {
            let p = self.starting.value_at(i);
            let id = self.starting.key_at(i);
            r.push((id.dup(), p.spec.dup()));
            i += 1;
        }
        proof {
            self.starting.keys_are_domain();
            assert(Seq::new(r@.len(), |i: int| r@[i].0@) =~= self.starting.keys());
            assert forall|id: Seq<char>| #[trigger] self@.starting.contains_key(id) implies exists|
                i: int,
            | 0 <= i < r@.len() && (#[trigger] r@[i]).0@ == id by {
                let j = self.starting.keys().index_of(id);
                assert(self.starting.keys()[j] == id);
                assert(r@[j].0@ == id);
            }
        }
        r
    }

    /// How many arches are still starting.
    pub fn arches_starting(&self) -> (n: usize)
        requires
            self.wf(),
        ensures
            n == self@.starting.dom().len(),
    {
        proof {
            self.starting.size();
        }
        self.starting.len()
    }

    fn mark_unavailable(&mut self, id: &str, manifest: ArchManifest, reason: String)
        requires
            old(self).wf(),
            !old(self)@.adapters.contains_key(id@),
            !old(self)@.starting.contains_key(id@),
        ensures
            final(self).wf(),
            final(self)@ == marked(old(self)@, id@, manifest@, reason@),
    {
        self.unavailable.insert(id, UnavailableArch { manifest, reason });
    }

    /// Install what was made for an arch that is starting, or record why nothing
    /// was. An arch that stopped waiting meanwhile gets nothing, and what is not
    /// the arch that was mounted is never installed in its place.
    pub fn install_arch(&mut self, arch_id: &str, made: Result<A, String>) -> (r: Option<A>)
        requires
            old(self).wf(),
        ensures
            final(self).wf(),
            (final(self)@, r) == installing(
                old(self)@,
                arch_id@,
                match made {
                    Ok(a) => Ok(a),
                    Err(why) => Err(why@),
                },
            ),
    {
        match self.starting.remove(arch_id) {
            None => {
                assert(self@ =~= old(self)@);
                match made {
                    Ok(a) => Some(a),
                    Err(_) => None,
                }
            },
            Some(pending) => {
                assert(self@ =~= KernelView {
                    starting: old(self)@.starting.remove(arch_id@),
                    ..old(self)@
                });
                match made {
                    Err(why) => {
                        self.mark_unavailable(arch_id, pending.manifest, why);
                        None
                    },
                    Ok(adapter) => {
                        match manifest_difference(&pending.manifest, adapter.manifest()) {
                            Some(what) => {
                                let why = cat5(
                                    "manifest changed: ",
                                    what.as_str(),
                                    " — run `vk umount ",
                                    arch_id,
                                    "` to retire it",
                                );
                                self.mark_unavailable(arch_id, pending.manifest, why);
                                Some(adapter)
                            },
                            None => {
                                self.budgets.insert(arch_id, adapter.context_budget());
                                self.adapters.insert(arch_id, Slot { adapter });
                                None
                            },
                        }
                    },
                }
            },
        }
    }

    pub(crate) fn keep_mount(&mut self, id: &str, manifest: ArchManifest, spec: MountSpec)
        requires
            old(self).wf(),
        ensures
            final(self).wf(),
            final(self)@ == (KernelView {
                store: mount_kept(old(self)@.store, id@, manifest@, spec@),
                ..old(self)@
            }),
    {
        self.store.arches.insert(id, manifest);
        self.store.mounts.insert(id, spec);
    }

    pub(crate) fn conflicting(&self, id: &str, m: &ArchManifest) -> (r: bool)
        requires
            self.wf(),
        ensures
            r == conflicts(self@, id@, m@),
    {
        if let Some(u) = self.unavailable.get(id) {
            if !u.manifest.same_as(m) {
                return true;
            }
        }
        if let Some(p) = self.starting.get(id) {
            if !p.manifest.same_as(m) {
                return true;
            }
        }
        if let Some(slot) = self.adapters.get(id) {
            if !slot.adapter.manifest().same_as(m) {
                return true;
            }
        }
        false
    }

    /// Mount an adapter at this time. An arch that is there and ready stays,
    /// unless it is to be replaced; one that is not ready gives way; and a
    /// manifest that is not the one the id is known by is refused.
    pub fn mount_with_at(
        &mut self,
        adapter: A,
        checked: Result<(), String>,
        spec: MountSpec,
        remount: Remount,
        now: u64,
    ) -> (r: Result<MountOutcome<A>, String>)
        requires
            old(self).wf(),
        ensures
            final(self).wf(),
            final(self)@ == mounting(old(self)@, adapter, verdict_view(checked), spec@, remount, now).0,
            match mounting(old(self)@, adapter, verdict_view(checked), spec@, remount, now).1 {
                Ok(o) => r is Ok && r->Ok_0@ == o,
                Err(why) => r is Err && r->Err_0@ == why,
            },
    {
        if let Err(why) = checked {
            return Err(why);
        }
        let m = adapter.manifest().dup();
        if let Err(why) = spec.validate() {
            return Err(why);
        }
        let id = m.arch_id();
        if self.conflicting(id.as_str(), &m) {
            return Err(
                cat3(
                    "arch ",
                    id.as_str(),
                    " is already mounted with a different manifest; unmount first",
                ),
            );
        }
        let budget: u32 = adapter.context_budget();
        if self.adapters.has(id.as_str()) {
            if remount == Remount::Keep {
                return Ok(MountOutcome { arch_id: id, replaced: None, already_mounted: true });
            }
            self.keep_mount(id.as_str(), m, spec);
            self.budgets.insert(id.as_str(), budget);
            let replaced = match self.adapters.remove(id.as_str()) {
                Some(slot) => Some(slot.adapter),
                None => None,
            };
            self.adapters.insert(id.as_str(), Slot { adapter });
            assert(self@ =~= mounting(old(self)@, adapter, verdict_view(checked), spec@, remount, now).0);
            return Ok(MountOutcome { arch_id: id, replaced, already_mounted: true });
        }
        self.keep_mount(id.as_str(), m, spec);
        let _ = self.unavailable.remove(id.as_str());
        let _ = self.starting.remove(id.as_str());
        self.budgets.insert(id.as_str(), budget);
        self.adapters.insert(id.as_str(), Slot { adapter });
        self.record_event("arch.mounted", now, text(id.as_str()));
        Ok(MountOutcome { arch_id: id, replaced: None, already_mounted: false })
    }

    /// Mount an adapter now.
    pub fn mount_with(
        &mut self,
        adapter: A,
        checked: Result<(), String>,
        spec: MountSpec,
        remount: Remount,
    ) -> (r: Result<MountOutcome<A>, String>)
        requires
            old(self).wf(),
        ensures
            final(self).wf(),
            exists|now: u64|
                {
                    &&& final(self)@ == #[trigger] mounting(
                        old(self)@,
                        adapter,
                        verdict_view(checked),
                        spec@,
                        remount,
                        now,
                    ).0
                    &&& match mounting(old(self)@, adapter, verdict_view(checked), spec@, remount, now).1 {
                        Ok(o) => r is Ok && r->Ok_0@ == o,
                        Err(why) => r is Err && r->Err_0@ == why,
                    }
                },
    {
        let now: u64 = now_ms();
        self.mount_with_at(adapter, checked, spec, remount, now)
    }

    /// Mount an adapter now, keeping one that is there already.
    pub fn mount(&mut self, adapter: A, checked: Result<(), String>, spec: MountSpec) -> (r: Result<
        MountOutcome<A>,
        String,
    >)
        requires
            old(self).wf(),
        ensures
            final(self).wf(),
            exists|now: u64|
                {
                    &&& final(self)@ == #[trigger] mounting(
                        old(self)@,
                        adapter,
                        verdict_view(checked),
                        spec@,
                        Remount::Keep,
                        now,
                    ).0
                    &&& match mounting(old(self)@, adapter, verdict_view(checked), spec@, Remount::Keep, now).1 {
                        Ok(o) => r is Ok && r->Ok_0@ == o,
                        Err(why) => r is Err && r->Err_0@ == why,
                    }
                },
    {
        self.mount_with(adapter, checked, spec, Remount::Keep)
    }

    /// Unmount an arch at this time, and hand out the adapter it had.
    pub fn unmount_at(&mut self, arch_id: &str, now: u64) -> (r: Option<A>)
        requires
            old(self).wf(),
        ensures
            final(self).wf(),
            (final(self)@, r) == unmounting(old(self)@, arch_id@, now),
    {
        let _ = self.store.arches.remove(arch_id);
        let _ = self.store.mounts.remove(arch_id);
        let removed = match self.adapters.remove(arch_id) {
            Some(slot) => Some(slot.adapter),
            None => None,
        };
        let _ = self.unavailable.remove(arch_id);
        let _ = self.starting.remove(arch_id);
        let _ = self.budgets.remove(arch_id);
        proof {
            sound_with_fewer_arches(old(self)@, self@);
        }
        self.record_event("arch.unmounted", now, text(arch_id));
        removed
    }

    /// Unmount an arch now, and hand out the adapter it had.
    pub fn unmount(&mut self, arch_id: &str) -> (r: Option<A>)
        requires
            old(self).wf(),
        ensures
            final(self).wf(),
            exists|now: u64|
                (final(self)@, r) == #[trigger] unmounting(old(self)@, arch_id@, now),
    {
        let now: u64 = now_ms();
        self.unmount_at(arch_id, now)
    }

    /// The state of an arch; nothing for an id that is not mounted.
    pub fn arch_state(&self, arch_id: &str) -> (r: Option<ArchState>)
        requires
            self.wf(),
        ensures
            opt(r) == state_of(self@, arch_id@),
    {
        if self.adapters.has(arch_id) {
            return Some(ArchState::Ready);
        }
        if self.starting.has(arch_id) {
            return Some(ArchState::Starting);
        }
        match self.unavailable.get(arch_id) {
            Some(u) => Some(ArchState::Unavailable(u.reason.dup())),
            None => None,
        }
    }

    fn listed_ready(&self) -> (t: Table<ArchEntry>)
        requires
            self.wf(),
        ensures
            t.wf(),
            forall|id: Seq<char>| #[trigger]
                t@.contains_key(id) <==> self@.adapters.contains_key(id),
            forall|id: Seq<char>| #[trigger] t@.contains_key(id) ==> t@[id] == entry_of(self@, id),
    {
        let mut t: Table<ArchEntry> = Table::new();
        let mut i: usize = 0;
        while i < self.adapters.len()
            invariant
                self.wf(),
                t.wf(),
                i <= self.adapters.keys().len(),
                forall|id: Seq<char>| #[trigger]
                    t@.contains_key(id) <==> exists|j: int|
                        0 <= j < i && #[trigger] self.adapters.keys()[j] == id,
                forall|id: Seq<char>| #[trigger]
                    t@.contains_key(id) ==> t@[id] == entry_of(self@, id),
            decreases self.adapters.keys().len() - i,
        {
            let id = self.adapters.key_at(i);
            let manifest = self.adapters.value_at(i).adapter.manifest().dup();
            t.insert(id.as_str(), ArchEntry { arch_id: id.dup(), manifest, state: ArchState::Ready });
            i += 1;
        }
        proof {
            self.adapters.keys_are_domain();
            assert forall|id: Seq<char>| #[trigger]
                t@.contains_key(id) <==> self@.adapters.contains_key(id) by {
                if self@.adapters.contains_key(id) {
                    let j = self.adapters.keys().index_of(id);
                    assert(self.adapters.keys()[j] == id);
                }
            }
        }
        t
    }

    fn list_starting(&self, t: &mut Table<ArchEntry>)
        requires
            self.wf(),
            old(t).wf(),
            forall|id: Seq<char>| #[trigger]
                old(t)@.contains_key(id) ==> !self@.starting.contains_key(id),
        ensures
            final(t).wf(),
            forall|id: Seq<char>| #[trigger]
                final(t)@.contains_key(id) <==> old(t)@.contains_key(id)
                    || self@.starting.contains_key(id),
            forall|id: Seq<char>| #[trigger]
                final(t)@.contains_key(id) ==> final(t)@[id] == (if old(t)@.contains_key(id) {
                    old(t)@[id]
                } else {
                    entry_of(self@, id)
                }),
    {
        let ghost before = t@;
        let mut i: usize = 0;
        while i < self.starting.len()
            invariant
                self.wf(),
                t.wf(),
                i <= self.starting.keys().len(),
                forall|id: Seq<char>| #[trigger]
                    before.contains_key(id) ==> !self@.starting.contains_key(id),
                forall|id: Seq<char>| #[trigger]
                    t@.contains_key(id) <==> before.contains_key(id) || exists|j: int|
                        0 <= j < i && #[trigger] self.starting.keys()[j] == id,
                forall|id: Seq<char>| #[trigger]
                    t@.contains_key(id) ==> t@[id] == (if before.contains_key(id) {
                        before[id]
                    } else {
                        entry_of(self@, id)
                    }),
            decreases self.starting.keys().len() - i,
        {
            let id = self.starting.key_at(i);
            let manifest = self.starting.value_at(i).manifest.dup();
            assert(self@.starting.contains_key(id@));
            assert(!before.contains_key(id@));
            assert(!self@.adapters.contains_key(id@));
            t.insert(
                id.as_str(),
                ArchEntry { arch_id: id.dup(), manifest, state: ArchState::Starting },
            );
            i += 1;
        }
        proof {
            self.starting.keys_are_domain();
            assert forall|id: Seq<char>| #[trigger]
                t@.contains_key(id) <==> before.contains_key(id) || self@.starting.contains_key(
                    id,
                ) by {
                if self@.starting.contains_key(id) {
                    let j = self.starting.keys().index_of(id);
                    assert(self.starting.keys()[j] == id);
                }
            }
        }
    }

    fn list_unavailable(&self, t: &mut Table<ArchEntry>)
        requires
            self.wf(),
            old(t).wf(),
            forall|id: Seq<char>| #[trigger]
                old(t)@.contains_key(id) ==> !self@.unavailable.contains_key(id),
        ensures
            final(t).wf(),
            forall|id: Seq<char>| #[trigger]
                final(t)@.contains_key(id) <==> old(t)@.contains_key(id)
                    || self@.unavailable.contains_key(id),
            forall|id: Seq<char>| #[trigger]
                final(t)@.contains_key(id) ==> final(t)@[id] == (if old(t)@.contains_key(id) {
                    old(t)@[id]
                } else {
                    entry_of(self@, id)
                }),
    {
        let ghost before = t@;
        let mut i: usize = 0;
        while i < self.unavailable.len()
            invariant
                self.wf(),
                t.wf(),
                i <= self.unavailable.keys().len(),
                forall|id: Seq<char>| #[trigger]
                    before.contains_key(id) ==> !self@.unavailable.contains_key(id),
                forall|id: Seq<char>| #[trigger]
                    t@.contains_key(id) <==> before.contains_key(id) || exists|j: int|
                        0 <= j < i && #[trigger] self.unavailable.keys()[j] == id,
                forall|id: Seq<char>| #[trigger]
                    t@.contains_key(id) ==> t@[id] == (if before.contains_key(id) {
                        before[id]
                    } else {
                        entry_of(self@, id)
                    }),
            decreases self.unavailable.keys().len() - i,
        {
            let id = self.unavailable.key_at(i);
            let u = self.unavailable.value_at(i);
            assert(self@.unavailable.contains_key(id@));
            assert(!before.contains_key(id@));
            assert(!self@.adapters.contains_key(id@));
            assert(!self@.starting.contains_key(id@));
            t.insert(
                id.as_str(),
                ArchEntry {
                    arch_id: id.dup(),
                    manifest: u.manifest.dup(),
                    state: ArchState::Unavailable(u.reason.dup()),
                },
            );
            i += 1;
        }
        proof {
            self.unavailable.keys_are_domain();
            assert forall|id: Seq<char>| #[trigger]
                t@.contains_key(id) <==> before.contains_key(id) || self@.unavailable.contains_key(
                    id,
                ) by {
                if self@.unavailable.contains_key(id) {
                    let j = self.unavailable.keys().index_of(id);
                    assert(self.unavailable.keys()[j] == id);
                }
            }
        }
    }

    /// Every mounted arch, whatever its state, in the order of ids.
    pub fn arch_states(&self) -> (r: Vec<ArchEntry>)
        requires
            self.wf(),
        ensures
            lists_arches(self@, all(r@)),
    {
        let mut t = self.listed_ready();
        self.list_starting(&mut t);
        self.list_unavailable(&mut t);
        let mut r: Vec<ArchEntry> = Vec::new();
        let mut i: usize = 0;
        while i < t.len()
            invariant
                t.wf(),
                i <= t.keys().len(),
                r@.len() == i,
                forall|id: Seq<char>| #[trigger]
                    t@.contains_key(id) ==> t@[id] == entry_of(self@, id),
                forall|j: int|
                    0 <= j < i ==> (#[trigger] r@[j])@ == entry_of(self@, t.keys()[j])
                        && t@.contains_key(t.keys()[j]),
            decreases t.keys().len() - i,
        {
            r.push(t.value_at(i).dup());
            i += 1;
        }
        proof {
            t.keys_are_domain();
            assert(entry_ids(all(r@)) =~= t.keys());
            assert forall|id: Seq<char>| state_of(self@, id) is Some implies entry_ids(
                all(r@),
            ).contains(id) by {
                assert(t@.contains_key(id));
                assert(t.keys().contains(id));
            }
        }
        r
    }

    /// Every mounted arch, whatever its state, in the order of ids.
    pub fn arches(&self) -> (r: Vec<(String, ArchManifest)>)
        requires
            self.wf(),
        ensures
            exists|es: Seq<ArchEntryView>| #[trigger]
                lists_arches(self@, es) && r@.len() == es.len() && forall|i: int|
                    0 <= i < es.len() ==> (#[trigger] r@[i]).0@ == es[i].arch_id && r@[i].1@
                        == es[i].manifest,
    {
        let states = self.arch_states();
        let mut r: Vec<(String, ArchManifest)> = Vec::new();
        let mut i: usize = 0;
        while i < states.len()
            invariant
                i <= states@.len(),
                r@.len() == i,
                forall|j: int|
                    0 <= j < i ==> (#[trigger] r@[j]).0@ == states@[j]@.arch_id && r@[j].1@
                        == states@[j]@.manifest,
            decreases states@.len() - i,
        {
            r.push((states[i].arch_id.dup(), states[i].manifest.dup()));
            i += 1;
        }
        proof {
            let es = all(states@);
            assert(lists_arches(self@, es));
        }
        r
    }

    /// Set how much context an arch gets from now on.
    pub fn set_context_budget(&mut self, arch_id: &str, budget: u32)
        requires
            old(self).wf(),
        ensures
            final(self).wf(),
            final(self)@ == (KernelView {
                budgets: old(self)@.budgets.insert(arch_id@, budget),
                ..old(self)@
            }),
    {
        self.budgets.insert(arch_id, budget);
        proof {
            sound_without_the_rest(old(self)@, self@);
        }
    }
}

/// A mounted arch is in one state: what can be called is neither starting nor
/// unavailable, and what is starting is not unavailable.
pub proof fn arch_is_in_one_state<A>(k: KernelView<A>, id: Seq<char>)
    requires
        sound(k),
    ensures
        k.adapters.contains_key(id) ==> state_of(k, id) == Some(ArchStateView::Ready)
            && !k.starting.contains_key(id) && !k.unavailable.contains_key(id),
        k.starting.contains_key(id) ==> state_of(k, id) == Some(ArchStateView::Starting)
            && !k.unavailable.contains_key(id),
{
}

/// Mounting an arch that is mounted and ready again, to keep it, changes nothing and
/// records nothing.
pub proof fn mounting_again_changes_nothing<A: ArchAdapter>(
    k: KernelView<A>,
    a: A,
    again: A,
    checked: Result<(), Seq<char>>,
    spec: MountSpecView,
    now: u64,
    later: u64,
)
    requires
        mounting(k, a, checked, spec, Remount::Keep, now).1 is Ok,
        again.declared() == a.declared(),
    ensures
        ({
            let after = mounting(k, a, checked, spec, Remount::Keep, now).0;
            &&& mounting(after, again, checked, spec, Remount::Keep, later).0 == after
            &&& mounting(after, again, checked, spec, Remount::Keep, later).1 == Ok::<
                MountOutcomeView<A>,
                Seq<char>,
            >(
                MountOutcomeView {
                    arch_id: arch_id_of(a.declared().identity),
                    replaced: None,
                    already_mounted: true,
                },
            )
        }),
{
}

/// A refused mount changes nothing.
pub proof fn refused_mount_changes_nothing<A: ArchAdapter>(
    k: KernelView<A>,
    a: A,
    checked: Result<(), Seq<char>>,
    spec: MountSpecView,
    remount: Remount,
    now: u64,
)
    requires
        mounting(k, a, checked, spec, remount, now).1 is Err,
    ensures
        mounting(k, a, checked, spec, remount, now).0 == k,
{
}

/// An arch that was mounted can be called, and comes back with the manifest it was
/// mounted with: that manifest and what it is made from are kept together.
pub proof fn mounted_arch_is_ready_and_kept<A: ArchAdapter>(
    k: KernelView<A>,
    a: A,
    checked: Result<(), Seq<char>>,
    spec: MountSpecView,
    remount: Remount,
    now: u64,
)
    requires
        mounting(k, a, checked, spec, remount, now).1 is Ok,
    ensures
        ({
            let after = mounting(k, a, checked, spec, remount, now).0;
            let id = arch_id_of(a.declared().identity);
            &&& state_of(after, id) == Some(ArchStateView::Ready)
            &&& manifest_of(after, id) == a.declared()
            &&& (after != k ==> after.store.arches[id] == a.declared() && after.store.mounts[id]
                == spec)
        }),
{
    let after = mounting(k, a, checked, spec, remount, now).0;
    assert(after == k || after.store.arches.contains_key(arch_id_of(a.declared().identity)));
}

/// What comes back as another arch is never put in the place of the one that was
/// mounted.
pub proof fn only_the_mounted_arch_comes_back<A: ArchAdapter>(
    k: KernelView<A>,
    id: Seq<char>,
    a: A,
)
    requires
        sound(k),
        k.starting.contains_key(id),
    ensures
        ({
            let after = installing(k, id, Ok(a)).0;
            &&& after.adapters.contains_key(id) <==> a.declared() == k.starting[id].manifest
            &&& !after.starting.contains_key(id)
            &&& after.store == k.store
        }),
{
}

/// An unmounted arch is in no state and leaves nothing to come back from.
pub proof fn unmounted_arch_is_gone<A: ArchAdapter>(k: KernelView<A>, id: Seq<char>, now: u64)
    ensures
        ({
            let after = unmounting(k, id, now).0;
            &&& state_of(after, id) is None
            &&& !after.store.arches.contains_key(id)
            &&& !after.store.mounts.contains_key(id)
            &&& !after.budgets.contains_key(id)
        }),
{
}

} // verus!
