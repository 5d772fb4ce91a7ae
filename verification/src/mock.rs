//! The mock arch: what makes one again, and a node that has no other.
use crate::adapter::{ArchAdapter, MockAdapter};
use crate::arches::{difference, installing, mounting, Remount};
use crate::json::{field, Fields, Json, JsonView};
use crate::kernel::{kept, KernelView, RealKernel, RecordState};
use crate::labels::{Clearance, Scope};
use crate::listing::{in_order, one_order};
use crate::manifest::{
    arch_id_of, ArchIdentity, ArchIdentityView, ArchManifest, ArchManifestView, Capabilities,
    Determinism, Locality,
};
use crate::model::Duplicate;
use crate::mount::{MountSpec, MountSpecView};
use crate::opening::opens_as;
use crate::reading::{manifest_in, read_manifest, small_at, small_field};
use crate::reading_laws::{manifest_reads_back, member_is_found};
use crate::store::Store;
use crate::table::Table;
use crate::text::{cat, cat3, same};
use crate::wire::{manifest_json, manifest_to_json};
use vstd::prelude::*;

verus! {

/// The mock arch of this name, with this context.
pub open spec fn mock_manifest_of(name: Seq<char>, ceiling: u32) -> ArchManifestView {
    ArchManifestView {
        name,
        capabilities: Capabilities { generate: true, plan: true, judge: true },
        locality: Locality::Local,
        jurisdiction: "FR"@,
        retention_days: None,
        cost_per_1k_tokens_eur: Some("0.0"@),
        latency_ms_p50: 1,
        context_ceiling: ceiling,
        determinism: Determinism::SeededDeterministic,
        identity: ArchIdentityView {
            weights_sha256: "sha256:mock-"@ + name,
            engine: "mock"@,
            engine_version: "1"@,
            backend: "cpu"@,
            quant: "-"@,
            kv_cache: "-"@,
            threads: 1,
            batch: 1,
            sampling: Seq::empty(),
            seed: Some(1),
        },
        clearance: Clearance { max_scope: Scope::Holdout, third_party_allowed: true },
        governed: true,
    }
}

/// The manifest of the mock arch of this name, with this context.
pub fn mock_manifest(name: &str, ceiling: u32) -> (r: ArchManifest)
    ensures
        r@ == mock_manifest_of(name@, ceiling),
{
    let m = ArchManifest {
        name: name.to_owned(),
        capabilities: Capabilities { generate: true, plan: true, judge: true },
        locality: Locality::Local,
        jurisdiction: "FR".to_owned(),
        retention_days: None,
        cost_per_1k_tokens_eur: Some("0.0".to_owned()),
        latency_ms_p50: 1,
        context_ceiling: ceiling,
        determinism: Determinism::SeededDeterministic,
        identity: ArchIdentity {
            weights_sha256: cat("sha256:mock-", name),
            engine: "mock".to_owned(),
            engine_version: "1".to_owned(),
            backend: "cpu".to_owned(),
            quant: "-".to_owned(),
            kv_cache: "-".to_owned(),
            threads: 1,
            batch: 1,
            sampling: Vec::new(),
            seed: Some(1),
        },
        clearance: Clearance { max_scope: Scope::Holdout, third_party_allowed: true },
        governed: true,
    };
    assert(m.identity@.sampling =~= Seq::empty());
    assert(m@ =~= mock_manifest_of(name@, ceiling));
    m
}

/// What makes a mock arch again: all of its manifest, since its id is a hash of that,
/// and its budget.
pub open spec fn mock_spec(m: ArchManifestView, budget: u32) -> MountSpecView {
    MountSpecView {
        kind: "mock"@,
        config: JsonView::Object(
            seq![
                ("manifest"@, manifest_json(m)),
                ("budget"@, JsonView::Unsigned(budget as nat)),
            ],
        ),
    }
}

impl MountSpec {
    /// What makes a mock arch again.
    pub fn mock(manifest: &ArchManifest, budget: u32) -> (r: MountSpec)
        ensures
            r@ == mock_spec(manifest@, budget),
    {
        let mut f = Fields::new();
        f.put("manifest", manifest_to_json(manifest));
        f.put("budget", Json::Unsigned(budget as u64));
        assert(f@ =~= mock_spec(manifest@, budget).config->Object_0);
        MountSpec { kind: "mock".to_owned(), config: f.object() }
    }
}

/// The mock that a spec makes, as its manifest and budget, or why it makes none: `words`
/// is what the reader of its manifest has against it.
pub open spec fn mock_of(spec: MountSpecView, words: Seq<char>) -> Result<
    (ArchManifestView, u32),
    Seq<char>,
> {
    if spec.kind != "mock"@ {
        Err(
            "this kernel was opened without a factory for arch kind "@ + spec.kind
                + "; open it with `open_with_factory` to mount one"@,
        )
    } else {
        let m = match field(spec.config, "manifest"@) {
            Some(v) => manifest_in(v),
            None => None,
        };
        match m {
            None => Err("a mock mount spec carries the manifest it was mounted with: "@ + words),
            Some(m) => Ok(
                (
                    m,
                    match small_field(spec.config, "budget"@) {
                        Some(b) => b,
                        None => m.context_ceiling,
                    },
                ),
            ),
        }
    }
}

/// Whether this is what a factory of mocks makes of a spec.
pub open spec fn is_mock_of(
    made: Result<MockAdapter, Seq<char>>,
    spec: MountSpecView,
    words: Seq<char>,
) -> bool {
    match (made, mock_of(spec, words)) {
        (Ok(a), Ok(m)) => (a.manifest@, a.budget) == m,
        (Err(why), Err(e)) => why == e,
        _ => false,
    }
}

/// The outcome of making an adapter, with what is said in place of the text.
pub open spec fn made_view<A>(made: Result<A, String>) -> Result<A, Seq<char>> {
    match made {
        Ok(a) => Ok(a),
        Err(why) => Err(why@),
    }
}

/// Make the mock of a spec: the factory of a node that mounts nothing else.
pub fn mock_factory(spec: &MountSpec, words: &str) -> (r: Result<MockAdapter, String>)
    ensures
        is_mock_of(made_view(r), spec@, words@),
{
    if !same(spec.kind.as_str(), "mock") {
        return Err(
            cat3(
                "this kernel was opened without a factory for arch kind ",
                spec.kind.as_str(),
                "; open it with `open_with_factory` to mount one",
            ),
        );
    }
    let m = match spec.config.get("manifest") {
        Some(v) => read_manifest(v),
        None => None,
    };
    match m {
        None => Err(cat("a mock mount spec carries the manifest it was mounted with: ", words)),
        Some(manifest) => {
            let budget = match small_at(&spec.config, "budget") {
                Some(b) => b,
                None => manifest.context_ceiling,
            };
            Ok(MockAdapter { manifest, budget })
        },
    }
}

/// The kernel after each of these adapters was installed, in turn.
pub open spec fn installed_each<A: ArchAdapter>(
    k: KernelView<A>,
    ids: Seq<Seq<char>>,
    made: Seq<Result<A, Seq<char>>>,
) -> KernelView<A>
    decreases ids.len(),
{
    if ids.len() == 0 {
        k
    } else {
        installing(
            installed_each(k, ids.drop_last(), made.drop_last()),
            ids.last(),
            made.last(),
        ).0
    }
}

/// The ids of the arches that are starting, in order.
pub open spec fn starting_ids<A>(k: KernelView<A>) -> Seq<Seq<char>> {
    in_order(|id: Seq<char>| k.starting.contains_key(id))
}

/// What was said of an arch, of all that was said.
pub open spec fn words_for(words: Map<Seq<char>, Seq<char>>, id: Seq<char>) -> Seq<char> {
    if words.contains_key(id) {
        words[id]
    } else {
        Seq::empty()
    }
}

/// Whether these are the mocks of the arches that are starting.
pub open spec fn are_mocks_of(
    k: KernelView<MockAdapter>,
    ids: Seq<Seq<char>>,
    made: Seq<Result<MockAdapter, Seq<char>>>,
    words: Map<Seq<char>, Seq<char>>,
) -> bool {
    &&& made.len() == ids.len()
    &&& forall|i: int|
        0 <= i < ids.len() ==> is_mock_of(
            #[trigger] made[i],
            k.starting[ids[i]].spec,
            words_for(words, ids[i]),
        )
}

/// Whether a kernel comes of another when every starting arch is made a mock: `words` is
/// what the reader of each manifest has against it.
pub open spec fn starts_as(
    k: KernelView<MockAdapter>,
    words: Map<Seq<char>, Seq<char>>,
    after: KernelView<MockAdapter>,
) -> bool {
    exists|made: Seq<Result<MockAdapter, Seq<char>>>|
        are_mocks_of(k, starting_ids(k), made, words) && after == #[trigger] installed_each(
            k,
            starting_ids(k),
            made,
        )
}

/// Whether opening a store as a node of mocks gives this kernel.
pub open spec fn opens_started(
    s: crate::store::StoreView,
    node: Seq<char>,
    record: RecordState,
    now: u64,
    words: Map<Seq<char>, Seq<char>>,
    k: KernelView<MockAdapter>,
) -> bool {
    exists|opened: KernelView<MockAdapter>| #[trigger]
        opens_as(s, node, record, now, opened) && starts_as(opened, words, k)
}

impl RealKernel<MockAdapter> {
    /// Make and install every starting arch now; `words` is what the reader of each
    /// manifest has against it.
    pub fn start_arches_now(&mut self, words: &Table<String>)
        requires
            old(self).wf(),
            words.wf(),
        ensures
            final(self).wf(),
            starts_as(old(self)@, words@, final(self)@),
    {
        let ghost before = self@;
        let pending = self.pending_mounts();
        let ghost ids = Seq::new(pending@.len(), |i: int| pending@[i].0@);
        proof {
            let p = |id: Seq<char>| before.starting.contains_key(id);
            assert forall|x: Seq<char>| #[trigger] ids.contains(x) <==> p(x) by {
                if ids.contains(x) {
                    let i = ids.index_of(x);
                    assert(before.starting.contains_key(pending@[i].0@));
                }
                if p(x) {
                    let i = choose|i: int| 0 <= i < pending@.len() && (#[trigger] pending@[i]).0@ == x;
                    assert(ids[i] == x);
                }
            }
            one_order(ids, p);
        }
        let ghost mut made = Seq::<Result<MockAdapter, Seq<char>>>::empty();
        let mut i: usize = 0;
        assert(ids.take(0) =~= Seq::<Seq<char>>::empty());
        while i < pending.len()
            invariant
                self.wf(),
                words.wf(),
                i <= pending@.len(),
                ids.len() == pending@.len(),
                forall|j: int| 0 <= j < ids.len() ==> #[trigger] ids[j] == pending@[j].0@,
                forall|j: int|
                    0 <= j < pending@.len() ==> (#[trigger] pending@[j]).1@
                        == before.starting[pending@[j].0@].spec,
                made.len() == i,
                forall|j: int|
                    0 <= j < i ==> is_mock_of(
                        #[trigger] made[j],
                        before.starting[ids[j]].spec,
                        words_for(words@, ids[j]),
                    ),
                self@ == installed_each(before, ids.take(i as int), made),
            decreases pending@.len() - i,
        {
            let said = match words.get(pending[i].0.as_str()) {
                Some(w) => w.dup(),
                None => String::new(),
            };
            assert(said@ =~= words_for(words@, ids[i as int]));
            let adapter = mock_factory(&pending[i].1, said.as_str());
            let ghost a = made_view(adapter);
            let _ = self.install_arch(pending[i].0.as_str(), adapter);
            proof {
                let grown = made.push(a);
                assert(grown.drop_last() =~= made);
                assert(ids.take(i + 1).drop_last() =~= ids.take(i as int));
                assert(ids[i as int] == pending@[i as int].0@);
                made = grown;
            }
            i += 1;
        }
        assert(ids.take(i as int) =~= ids);
        assert(are_mocks_of(before, starting_ids(before), made, words@));
    }

    /// Open what a node keeps as a node of mocks, with every arch made that can be;
    /// `words` is what the reader of each manifest has against it.
    pub fn open(
        store: Store,
        node_id: &str,
        record: RecordState,
        now: u64,
        words: &Table<String>,
    ) -> (r: RealKernel<MockAdapter>)
        requires
            store.wf(),
            words.wf(),
            kept(store@, node_id@),
        ensures
            r.wf(),
            opens_started(store@, node_id@, record, now, words@, r@),
    {
        let mut k = RealKernel::open_at(store, node_id, record, now);
        k.start_arches_now(words);
        k
    }

    /// Mount a mock with this manifest, which is a valid one, and say its id.
    pub fn register_arch(&mut self, m: ArchManifest) -> (id: String)
        requires
            old(self).wf(),
            mounting(
                old(self)@,
                MockAdapter { manifest: m, budget: m.context_ceiling },
                Ok(()),
                mock_spec(m@, m.context_ceiling),
                Remount::Keep,
                0,
            ).1 is Ok,
        ensures
            final(self).wf(),
            id@ == arch_id_of(m@.identity),
            exists|now: u64|
                final(self)@ == #[trigger] mounting(
                    old(self)@,
                    MockAdapter { manifest: m, budget: m.context_ceiling },
                    Ok(()),
                    mock_spec(m@, m.context_ceiling),
                    Remount::Keep,
                    now,
                ).0,
    {
        let budget = m.context_ceiling;
        let spec = MountSpec::mock(&m, budget);
        let id = m.arch_id();
        let _ = self.mount(MockAdapter { manifest: m, budget }, Ok(()), spec);
        id
    }
}

/// What a mock was mounted with makes the same mock again.
pub proof fn mock_is_made_again(m: ArchManifestView, budget: u32, words: Seq<char>)
    ensures
        mock_of(mock_spec(m, budget), words) == Ok::<(ArchManifestView, u32), Seq<char>>((m, budget)),
{
    reveal_strlit("manifest");
    reveal_strlit("budget");
    assert("manifest"@.len() != "budget"@.len());
    let ms = mock_spec(m, budget).config->Object_0;
    member_is_found(ms, 0);
    member_is_found(ms, 1);
    manifest_reads_back(m);
}

/// A mock arch that is starting is ready once it is made, under its id and with the
/// budget and the manifest it was mounted with.
pub proof fn mock_arch_comes_back(
    k: KernelView<MockAdapter>,
    id: Seq<char>,
    budget: u32,
    words: Seq<char>,
    made: Result<MockAdapter, Seq<char>>,
)
    requires
        k.starting.contains_key(id),
        k.starting[id].spec == mock_spec(k.starting[id].manifest, budget),
        is_mock_of(made, k.starting[id].spec, words),
    ensures
        ({
            let after = installing(k, id, made).0;
            &&& after.adapters.contains_key(id)
            &&& after.adapters[id].declared() == k.starting[id].manifest
            &&& after.budgets[id] == budget
            &&& !after.starting.contains_key(id)
        }),
{
    mock_is_made_again(k.starting[id].manifest, budget, words);
    assert(difference(k.starting[id].manifest, made->Ok_0.declared()) is None);
}

/// A spec of another kind makes no mock: an arch is never quietly replaced by one.
pub proof fn other_arch_is_never_a_mock(
    k: KernelView<MockAdapter>,
    id: Seq<char>,
    words: Seq<char>,
    made: Result<MockAdapter, Seq<char>>,
)
    requires
        k.starting.contains_key(id),
        k.starting[id].spec.kind != "mock"@,
        is_mock_of(made, k.starting[id].spec, words),
    ensures
        made is Err,
        installing(k, id, made).0.unavailable.contains_key(id),
        installing(k, id, made).0.adapters == k.adapters,
{
}

} // verus!
