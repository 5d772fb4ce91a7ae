//! What a release hands out, and under which names.
use crate::adapter::without_prefixes;
use crate::artefacts::artefact_read;
use crate::error::KernelErrorView;
use crate::json::{field, member, text_field, texts_json, JsonView};
use crate::kernel::{register_read, KernelView};
use crate::path::{is_one_name, joined};
use crate::principal::CtxView;
use crate::reading_laws::member_is_found;
use crate::register::ArtefactRefView;
use crate::scheduler::{
    hashes_of, release_bytes, release_files, release_json, release_name, released, releasing,
    short_hash, start_of_bytes, ReleaseFileView,
};
use crate::store::StoreView;
use crate::task::{StepStatusView, TaskView};
use vstd::prelude::*;
use vstd::utf8::encode_utf8;

verus! {

/// Every artefact of a register is one file of its release, in the order of the register and
/// under a name of its own hash and kind.
pub proof fn every_artefact_is_released(artefacts: Seq<ArtefactRefView>, windows: bool, i: int)
    requires
        release_files(artefacts, windows) is Ok,
        0 <= i < artefacts.len(),
    ensures
        ({
            let files = release_files(artefacts, windows)->Ok_0;
            &&& files.len() == artefacts.len()
            &&& files[i].hash == artefacts[i].hash
            &&& files[i].name == release_name(artefacts[i].hash, artefacts[i].kind)
            &&& is_one_name(files[i].name, windows)
        }),
    decreases artefacts.len(),
{
    let before = artefacts.drop_last();
    if i < before.len() {
        every_artefact_is_released(before, windows, i);
        assert(before[i] == artefacts[i]);
    } else if before.len() > 0 {
        every_artefact_is_released(before, windows, 0);
    }
}

/// A release is refused exactly when some artefact makes no plain file name.
pub proof fn release_needs_plain_names(artefacts: Seq<ArtefactRefView>, windows: bool)
    ensures
        release_files(artefacts, windows) is Ok <==> forall|i: int|
            0 <= i < artefacts.len() ==> is_one_name(
                release_name((#[trigger] artefacts[i]).hash, artefacts[i].kind),
                windows,
            ),
        release_files(artefacts, windows) matches Err(e) ==> e is Gate,
    decreases artefacts.len(),
{
    if artefacts.len() > 0 {
        let before = artefacts.drop_last();
        release_needs_plain_names(before, windows);
        if release_files(artefacts, windows) is Ok {
            assert forall|i: int| 0 <= i < artefacts.len() implies is_one_name(
                release_name((#[trigger] artefacts[i]).hash, artefacts[i].kind),
                windows,
            ) by {
                if i < before.len() {
                    assert(before[i] == artefacts[i]);
                }
            }
        } else if release_files(before, windows) is Err {
            let i = choose|i: int|
                0 <= i < before.len() && !is_one_name(
                    release_name((#[trigger] before[i]).hash, before[i].kind),
                    windows,
                );
            assert(artefacts[i] == before[i]);
        } else {
            let i = artefacts.len() - 1;
            assert(artefacts[i] == artefacts.last());
        }
    }
}

proof fn start_is_that_long(s: Seq<char>, n: nat, bytes: nat)
    ensures
        start_of_bytes(s, n, bytes) matches Some(start) ==> start.len() <= s.len() && start == s.take(
            start.len() as int,
        ) && encode_utf8(start).len() == bytes,
        start_of_bytes(s, n, bytes) is None ==> forall|m: int|
            n <= m <= s.len() ==> encode_utf8(#[trigger] s.take(m)).len() != bytes,
    decreases s.len() + 1 - n,
{
    if n <= s.len() && encode_utf8(s.take(n as int)).len() != bytes {
        start_is_that_long(s, n + 1, bytes);
    }
}

/// A released file is named after the first twelve bytes of its artefact's hash, without what
/// says which hash it is, and after its kind; where there are no such bytes it is named as an
/// artefact.
pub proof fn file_is_named_after_its_hash(hash: Seq<char>, kind: Seq<char>)
    ensures
        ({
            let name = release_name(hash, kind);
            let bare = without_prefixes(hash, "sha256:"@);
            let short = short_hash(hash);
            &&& name == short + "."@ + kind
            &&& (short == "artefact"@ && forall|m: int|
                0 <= m <= bare.len() ==> encode_utf8(#[trigger] bare.take(m)).len() != 12) || (
            short.len() <= bare.len() && short == bare.take(short.len() as int) && encode_utf8(
                short,
            ).len() == 12)
        }),
{
    start_is_that_long(without_prefixes(hash, "sha256:"@), 0, 12);
}

/// The bytes of a release are those of its files, in order, as far as they can be read under
/// the clearance of who releases them; the first that cannot ends it, and says why.
pub proof fn bytes_are_read_in_order(s: StoreView, ctx: CtxView, files: Seq<ReleaseFileView>, n: nat)
    requires
        n <= files.len(),
    ensures
        ({
            let (bytes, fault) = release_bytes(s, ctx, files, n);
            &&& bytes.len() <= n
            &&& forall|i: int|
                0 <= i < bytes.len() ==> artefact_read(s, ctx, files[i].hash) == Ok::<
                    Seq<u8>,
                    KernelErrorView,
                >(#[trigger] bytes[i])
            &&& fault is None <==> bytes.len() == n
            &&& fault matches Some(e) ==> artefact_read(s, ctx, files[bytes.len() as int].hash)
                == Err::<Seq<u8>, KernelErrorView>(e)
        }),
    decreases n,
{
    if n > 0 {
        bytes_are_read_in_order(s, ctx, files, (n - 1) as nat);
    }
}

/// What the record says of a release can be read off it: the task, every hash in order, and
/// where it goes.
pub proof fn release_is_told_in_full(task_id: Seq<char>, hashes: Seq<Seq<char>>, to: Seq<char>)
    ensures
        text_field(release_json(task_id, hashes, to), "task_id"@) == Some(task_id),
        field(release_json(task_id, hashes, to), "hashes"@) == Some(texts_json(hashes)),
        texts_json(hashes) is Array,
        texts_json(hashes)->Array_0.len() == hashes.len(),
        forall|i: int|
            0 <= i < hashes.len() ==> (#[trigger] texts_json(hashes)->Array_0[i]) == JsonView::Text(
                hashes[i],
            ),
        text_field(release_json(task_id, hashes, to), "destination"@) == Some(to),
{
    let ms = release_json(task_id, hashes, to)->Object_0;
    reveal_strlit("task_id");
    reveal_strlit("hashes");
    reveal_strlit("destination");
    assert(member(ms, "task_id"@) == Some(ms[0].1)) by {
        member_is_found(ms, 0);
    }
    assert(member(ms, "hashes"@) == Some(ms[1].1)) by {
        assert("task_id"@.len() != "hashes"@.len());
        member_is_found(ms, 1);
    }
    assert(member(ms, "destination"@) == Some(ms[2].1)) by {
        assert("task_id"@.len() != "destination"@.len());
        assert("hashes"@.len() != "destination"@.len());
        member_is_found(ms, 2);
    }
}

/// A release of a task is of its own register: every artefact is a file of it, in order, with
/// the bytes it was kept with. It goes below the exports of this node's state, and the record
/// has the task, every hash and the directory before a byte leaves; nothing else changes.
pub proof fn release_is_of_the_tasks_register<A>(
    k: KernelView<A>,
    ctx: CtxView,
    t: TaskView,
    n: nat,
    to_dir: Seq<char>,
)
    requires
        releasing(k, ctx, t, n, to_dir).1 is Ok,
    ensures
        ({
            let (after, r) = releasing(k, ctx, t, n, to_dir);
            let p = r->Ok_0;
            let artefacts = k.store.registers[t.register].artefacts;
            let said = after.store.ledger.last();
            &&& register_read(k.store, ctx, t.register) is Ok
            &&& p.task == t
            &&& p.step == n
            &&& p.root == joined(k.store.state_dir, "exports"@, k.store.windows)
            &&& p.dest == joined(p.root, to_dir, k.store.windows)
            &&& p.files.len() == artefacts.len()
            &&& forall|i: int|
                0 <= i < artefacts.len() ==> (#[trigger] p.files[i]).hash == artefacts[i].hash
                    && p.files[i].name == release_name(artefacts[i].hash, artefacts[i].kind)
            &&& p.bytes.len() <= p.files.len()
            &&& forall|i: int|
                0 <= i < p.bytes.len() ==> artefact_read(k.store, ctx, artefacts[i].hash) == Ok::<
                    Seq<u8>,
                    KernelErrorView,
                >(#[trigger] p.bytes[i])
            &&& p.fault is None <==> p.bytes.len() == artefacts.len()
            &&& said.kind == "artefact.released"@
            &&& said.wall_ms == ctx.now_ms
            &&& text_field(said.payload, "task_id"@) == Some(t.id)
            &&& text_field(said.payload, "destination"@) == Some(p.dest)
            &&& exists|hashes: Seq<Seq<char>>|
                hashes.len() == artefacts.len() && field(said.payload, "hashes"@) == Some(
                    #[trigger] texts_json(hashes),
                ) && forall|i: int|
                    0 <= i < hashes.len() ==> #[trigger] hashes[i] == artefacts[i].hash
            &&& after == (KernelView {
                store: StoreView { ledger: k.store.ledger.push(said), ..k.store },
                ..k
            })
        }),
{
    let p = releasing(k, ctx, t, n, to_dir).1->Ok_0;
    let artefacts = k.store.registers[t.register].artefacts;
    let hashes = hashes_of(artefacts);
    assert forall|i: int| 0 <= i < artefacts.len() implies (#[trigger] p.files[i]).hash
        == artefacts[i].hash && p.files[i].name == release_name(
        artefacts[i].hash,
        artefacts[i].kind,
    ) by {
        every_artefact_is_released(artefacts, k.store.windows, i);
    }
    if artefacts.len() > 0 {
        every_artefact_is_released(artefacts, k.store.windows, 0);
    }
    bytes_are_read_in_order(k.store, ctx, p.files, p.files.len());
    assert forall|i: int| 0 <= i < p.bytes.len() implies artefact_read(
        k.store,
        ctx,
        artefacts[i].hash,
    ) == Ok::<Seq<u8>, KernelErrorView>(#[trigger] p.bytes[i]) by {
        assert(p.files[i].hash == artefacts[i].hash);
    }
    release_is_told_in_full(t.id, hashes, p.dest);
    assert(field(
        releasing(k, ctx, t, n, to_dir).0.store.ledger.last().payload,
        "hashes"@,
    ) == Some(texts_json(hashes)));
}

/// A release is done when all of it was written and all of it could be read, and only then; it
/// takes no tokens.
pub proof fn release_is_done_when_all_is_written(
    p: crate::scheduler::ReleasingView,
    written: Result<(), KernelErrorView>,
)
    ensures
        written is Ok && p.fault is None ==> released(p, written) == Ok::<
            (StepStatusView, u32),
            KernelErrorView,
        >((StepStatusView::Done, 0u32)),
        written matches Err(e) ==> released(p, written) == Err::<(StepStatusView, u32), KernelErrorView>(
            e,
        ),
        written is Ok && p.fault is Some ==> released(p, written) == Err::<
            (StepStatusView, u32),
            KernelErrorView,
        >(p.fault->0),
{
}

/// What leaves a node leaves into its own export directory, which lies where its state does.
pub proof fn exports_lie_in_the_state(s: crate::store::StoreView)
    requires
        !s.windows,
        s.state_dir.len() > 0,
        s.state_dir.last() != '/',
    ensures
        crate::scheduler::export_root_of(s) == s.state_dir + "/exports"@,
{
    reveal_strlit("/");
    reveal_strlit("exports");
    reveal_strlit("/exports");
    assert("/"@ + "exports"@ =~= "/exports"@);
    assert(s.state_dir + "/"@ + "exports"@ =~= s.state_dir + "/exports"@);
}

} // verus!
