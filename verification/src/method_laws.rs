//! What the methods of the endpoint come to: what each does with what it was sent, to whom, and
//! what it answers.
use crate::adapter::ArchAdapter;
use crate::arches::{mounting, unmounting, Remount};
use crate::challenges::{issuing, presence_spending, MAX_CHALLENGES};
use crate::devices::node_key_enrolling;
use crate::error::{error_text, KernelErrorView};
use crate::harness::{attaching_file, session_of, FileReadView};
use crate::json::{bool_field, field, member, number_field, text_field, JsonView};
use crate::kernel::{register_read, KernelView};
use crate::labels::{flows, Clearance, Origins, Scope};
use crate::methods::{
    approve_asked, challenging, enroll_asked, harness_asking, harness_attaching, harness_deciding,
    harness_logging, harness_reading, ledger_verdict, link_asked, link_json, mock_asked,
    mount_asked, mounted_json, ns_listed, ok_json, release_answered, resume_asked, stop_asked,
    subject_told, tail_asked, task_creating, task_shown, unmount_asked, MadeView,
};
use crate::mock::mock_manifest_of;
use crate::ns::entry_at;
use crate::outside::{ed25519_accepts, is_hex, unhex};
use crate::presence::presence_message;
use crate::principal::{CtxView, PrincipalView};
use crate::reading::{approval_in, steps_in};
use crate::reading_laws::{member_is_found, nothing_is_found};
use crate::register::RegisterView;
use crate::rpc::{ctx_of, told, PresentedView, RpcErrorView};
use crate::runs::run_params_of;
use crate::scheduler::{released, settling, ReleasingView};
use crate::screens::entry_json;
use crate::settings::spec_recorded;
use crate::store::{LedgerEventView, StoreView};
use crate::stops::{resuming, stopping};
use crate::tasks::{creating, seen, subject_of};
use crate::wire::{register_json, task_json};
use vstd::prelude::*;

verus! {

/// A harness that is not who it says is refused, and nothing is done for it.
pub proof fn harness_without_a_session_does_nothing<A>(
    k: KernelView<A>,
    p: JsonView,
    now: u64,
    file: FileReadView,
)
    requires
        text_field(p, "token"@) is None || session_of(k, text_field(p, "token"@)->0, now) is Err,
    ensures
        harness_reading(k, p, now) is Err,
        harness_logging(k, p, now) is Err,
        harness_deciding(k, p, now).1 is Err,
        harness_deciding(k, p, now).0 == k,
        harness_asking(k, p, now).1 is Err,
        harness_asking(k, p, now).0 == k,
        harness_attaching(k, p, now, file).1 is Err,
        harness_attaching(k, p, now, file).0 == k,
{
}

/// A harness reads the register of its own task, all of it, where it is cleared for it.
pub proof fn harness_reads_its_own_register<A>(k: KernelView<A>, p: JsonView, now: u64, token: Seq<char>)
    requires
        text_field(p, "token"@) == Some(token),
        session_of(k, token, now) is Ok,
    ensures
        ({
            let s = session_of(k, token, now)->Ok_0;
            let reg = k.store.registers[k.store.tasks[s.task_id].register];
            let r = harness_reading(k, p, now);
            &&& r is Ok <==> register_read(k.store, s.ctx, s.register) is Ok
            &&& r is Ok ==> r->Ok_0 == register_json(reg) && flows(reg.label, s.ctx.clearance)
        }),
{
}

/// What a harness decides is the newest decision of its own task's register, under its name and
/// behind every other; it is on the record, and nothing else changes.
pub proof fn harness_decision_is_the_newest<A>(
    k: KernelView<A>,
    p: JsonView,
    now: u64,
    token: Seq<char>,
    text: Seq<char>,
)
    requires
        text_field(p, "token"@) == Some(token),
        text_field(p, "text"@) == Some(text),
        session_of(k, token, now) is Ok,
        register_read(
            k.store,
            session_of(k, token, now)->Ok_0.ctx,
            session_of(k, token, now)->Ok_0.register,
        ) is Ok,
    ensures
        ({
            let s = session_of(k, token, now)->Ok_0;
            let (after, r) = harness_deciding(k, p, now);
            let was = k.store.registers[s.register];
            let is = after.store.registers[was.id];
            &&& r is Ok
            &&& bool_field(r->Ok_0, "ok"@) == Some(true)
            &&& is.decisions.len() == was.decisions.len() + 1
            &&& is.decisions.drop_last() == was.decisions
            &&& is.decisions.last() == "harness: "@ + text
            &&& is == (RegisterView { decisions: is.decisions, ..was })
            &&& one_register_changes(k, after, was.id, now)
        }),
{
    let s = session_of(k, token, now)->Ok_0;
    let was = k.store.registers[s.register];
    assert(was.decisions.push("harness: "@ + text).drop_last() =~= was.decisions);
    reveal_strlit("ok");
    member_is_found(ok_json()->Object_0, 0);
}

/// Whether a kernel differs from another in one register alone, which is on the record.
pub open spec fn one_register_changes<A>(
    k: KernelView<A>,
    after: KernelView<A>,
    id: Seq<char>,
    now: u64,
) -> bool {
    after == (KernelView {
        store: StoreView {
            registers: k.store.registers.insert(id, after.store.registers[id]),
            ledger: k.store.ledger.push(
                LedgerEventView {
                    kind: "register.written"@,
                    wall_ms: now,
                    payload: JsonView::Text(id),
                },
            ),
            ..k.store
        },
        ..k
    })
}

/// A harness that asks for an approval gets none: it leaves the newest open question in its own
/// task's register, which is on the record, and nothing else changes.
pub proof fn harness_request_is_a_question<A>(
    k: KernelView<A>,
    p: JsonView,
    now: u64,
    token: Seq<char>,
)
    requires
        text_field(p, "token"@) == Some(token),
        session_of(k, token, now) is Ok,
        register_read(
            k.store,
            session_of(k, token, now)->Ok_0.ctx,
            session_of(k, token, now)->Ok_0.register,
        ) is Ok,
    ensures
        ({
            let s = session_of(k, token, now)->Ok_0;
            let (after, r) = harness_asking(k, p, now);
            let was = k.store.registers[s.register];
            let is = after.store.registers[was.id];
            &&& r is Ok
            &&& bool_field(r->Ok_0, "ok"@) == Some(true)
            &&& bool_field(r->Ok_0, "requested"@) == Some(true)
            &&& is.open_questions.len() == was.open_questions.len() + 1
            &&& is.open_questions.drop_last() == was.open_questions
            &&& is.open_questions.last() == "approval requested by the harness"@
            &&& is == (RegisterView { open_questions: is.open_questions, ..was })
            &&& after.store.approvals == k.store.approvals
            &&& one_register_changes(k, after, was.id, now)
        }),
{
    let s = session_of(k, token, now)->Ok_0;
    let was = k.store.registers[s.register];
    assert(was.open_questions.push("approval requested by the harness"@).drop_last()
        =~= was.open_questions);
    let ms = harness_asking(k, p, now).1->Ok_0->Object_0;
    reveal_strlit("ok");
    reveal_strlit("requested");
    assert(member(ms, "ok"@) == Some(ms[0].1)) by {
        member_is_found(ms, 0);
    }
    assert(member(ms, "requested"@) == Some(ms[1].1)) by {
        assert("ok"@.len() != "requested"@.len());
        member_is_found(ms, 1);
    }
}

/// A harness that logs is answered, and one that attaches is answered the address of what it
/// attached: the file that it named, of the kind that it named.
pub proof fn harness_is_answered_what_it_did<A>(
    k: KernelView<A>,
    p: JsonView,
    now: u64,
    file: FileReadView,
    token: Seq<char>,
    kind: Seq<char>,
    path: Seq<char>,
)
    requires
        text_field(p, "token"@) == Some(token),
        text_field(p, "kind"@) == Some(kind),
        text_field(p, "path"@) == Some(path),
        session_of(k, token, now) is Ok,
    ensures
        ({
            let (after, r) = harness_attaching(k, p, now, file);
            let done = attaching_file(k, token, now, kind, path, file);
            &&& after == done.0
            &&& r is Ok <==> done.1 is Ok
            &&& r is Ok ==> text_field(r->Ok_0, "hash"@) == Some(done.1->Ok_0.hash)
            &&& r is Err ==> r->Err_0 == told(done.1->Err_0)
        }),
        harness_logging(k, p, now) is Ok,
        bool_field(harness_logging(k, p, now)->Ok_0, "ok"@) == Some(true),
{
    reveal_strlit("hash");
    reveal_strlit("ok");
    member_is_found(ok_json()->Object_0, 0);
    let (after, r) = harness_attaching(k, p, now, file);
    if r is Ok {
        member_is_found(r->Ok_0->Object_0, 0);
    }
}

/// A task is created with the goal and the steps that were sent, the artefact type that was sent
/// or else a note, and a label that anyone may read; the answer is that task.
pub proof fn task_is_created_as_sent<A>(
    k: KernelView<A>,
    ctx: CtxView,
    p: JsonView,
    words: Seq<char>,
    goal: Seq<char>,
)
    requires
        text_field(p, "goal"@) == Some(goal),
        field(p, "steps"@) is Some,
        task_creating(k, ctx, p, words).1 is Ok,
    ensures
        ({
            let (after, r) = task_creating(k, ctx, p, words);
            let kinds = steps_in(field(p, "steps"@)->0)->0;
            let id = text_field(r->Ok_0, "id"@)->0;
            let t = after.store.tasks[id];
            &&& text_field(r->Ok_0, "id"@) is Some
            &&& after.store.tasks == k.store.tasks.insert(id, t)
            &&& r->Ok_0 == task_json(t)
            &&& t.goal == goal
            &&& text_field(p, "artefact_type"@) is Some ==> t.artefact_type == text_field(
                p,
                "artefact_type"@,
            )->0
            &&& text_field(p, "artefact_type"@) is None ==> t.artefact_type == "note"@
            &&& t.steps.len() == kinds.len()
            &&& forall|i: int|
                0 <= i < kinds.len() ==> (#[trigger] t.steps[i]).kind == kinds[i]
                    && t.steps[i].status is Pending
            &&& after.store.registers[t.register].label.scope is Public
            &&& after.store.registers[t.register].label.data_class is Own
            &&& after.store.registers[t.register].label.origins == (Origins {
                owner_authored: false,
                web: false,
            })
        }),
{
    let kinds = steps_in(field(p, "steps"@)->0)->0;
    let artefact_type = match text_field(p, "artefact_type"@) {
        Some(s) => s,
        None => "note"@,
    };
    let done = creating(k, ctx, goal, artefact_type, crate::labels::bottom_label(), kinds);
    crate::task_laws::created_task_is_as_asked(
        k,
        ctx,
        goal,
        artefact_type,
        crate::labels::bottom_label(),
        kinds,
    );
    crate::wire_laws::task_is_told_in_full(done.1->Ok_0);
}

/// What an approval of a task must name, and the challenge that it must answer, are of the task
/// that was asked about; a challenge lasts two minutes.
pub proof fn subject_is_of_the_task_asked_about<A>(
    k: KernelView<A>,
    ctx: CtxView,
    p: JsonView,
    nonce: Seq<char>,
    id: Seq<char>,
)
    requires
        text_field(p, "task_id"@) == Some(id),
        subject_of(k.store, ctx, id) is Ok,
        ctx.now_ms + 120_000 <= u64::MAX,
    ensures
        ({
            let subject = subject_of(k.store, ctx, id)->Ok_0;
            let r = challenging(k, ctx, p, nonce).1;
            &&& subject_told(k, ctx, p) is Ok
            &&& text_field(subject_told(k, ctx, p)->Ok_0, "subject_hash"@) == Some(subject)
            &&& r is Ok
            &&& text_field(r->Ok_0, "resource"@) == Some("task:"@ + id)
            &&& text_field(r->Ok_0, "action_digest"@) == Some(subject)
            &&& text_field(r->Ok_0, "nonce"@) == Some(nonce)
            &&& number_field(r->Ok_0, "expires_at_ms"@) == Some((ctx.now_ms + 120_000) as nat)
        }),
{
    reveal_strlit("subject_hash");
    member_is_found(subject_told(k, ctx, p)->Ok_0->Object_0, 0);
    crate::authority_laws::minted_challenge_names_what_waits(k, ctx, id, 120_000, nonce);
    let c = crate::approvals::minting(k, ctx, id, 120_000, nonce).1->Ok_0;
    crate::wire_laws::challenge_is_told_in_full(c);
}

/// A task that is asked for is shown as it is, with what each of its steps left; one that the
/// caller may not see is not found.
pub proof fn shown_task_is_the_one_asked_for<A>(
    k: KernelView<A>,
    ctx: CtxView,
    p: JsonView,
    id: Seq<char>,
    name: Seq<char>,
)
    requires
        text_field(p, "task_id"@) == Some(id),
        name != "decisions"@,
    ensures
        ({
            let r = task_shown(k, ctx, p);
            let t = k.store.tasks[id];
            &&& seen(k.store, ctx, id) is None ==> r == Err::<JsonView, RpcErrorView>(
                crate::rpc::nothing_found(id),
            )
            &&& r is Ok ==> {
                &&& seen(k.store, ctx, id) is Some
                &&& field(r->Ok_0, name) == field(task_json(t), name)
                &&& field(r->Ok_0, "decisions"@) == Some(
                    crate::screens::decisions_list(
                        crate::tasks::decisions_from(
                            t.steps,
                            k.store.registers[t.register].decisions,
                            0,
                            0,
                        ),
                    ),
                )
            }
        }),
{
    let r = task_shown(k, ctx, p);
    if r is Ok {
        let t = k.store.tasks[id];
        let ms = task_json(t)->Object_0;
        let all = r->Ok_0->Object_0;
        crate::screen_laws::member_of_two(ms, seq![all.last()], name);
        crate::screen_laws::member_of_two(ms, seq![all.last()], "decisions"@);
        assert(all =~= ms + seq![all.last()]);
        task_words_are_apart();
        assert forall|i: int| 0 <= i < ms.len() implies (#[trigger] ms[i]).0 != "decisions"@ by {}
        nothing_is_found(ms, "decisions"@);
        member_is_found(seq![all.last()], 0);
        nothing_or_last(seq![all.last()], name);
    }
}

proof fn nothing_or_last(ms: Seq<(Seq<char>, JsonView)>, name: Seq<char>)
    requires
        ms.len() == 1,
        ms[0].0 != name,
    ensures
        member(ms, name) is None,
{
    nothing_is_found(ms, name);
}

proof fn task_words_are_apart()
    ensures
        "id"@ != "decisions"@,
        "register"@ != "decisions"@,
        "goal"@ != "decisions"@,
        "artefact_type"@ != "decisions"@,
        "steps"@ != "decisions"@,
        "status"@ != "decisions"@,
        "created_ms"@ != "decisions"@,
{
    reveal_strlit("id");
    reveal_strlit("register");
    reveal_strlit("goal");
    reveal_strlit("artefact_type");
    reveal_strlit("steps");
    reveal_strlit("status");
    reveal_strlit("created_ms");
    reveal_strlit("decisions");
    assert("id"@.len() != "decisions"@.len());
    assert("register"@.len() != "decisions"@.len());
    assert("goal"@.len() != "decisions"@.len());
    assert("artefact_type"@.len() != "decisions"@.len());
    assert("steps"@.len() != "decisions"@.len());
    assert("status"@.len() != "decisions"@.len());
    assert("created_ms"@.len() != "decisions"@.len());
}

/// A stop is of the scope that was sent, or else of the node; a resume is of the stop that was
/// sent. The answer of a stop is its own id.
pub proof fn stop_is_of_the_scope_sent<A>(k: KernelView<A>, ctx: CtxView, p: JsonView, scope: Seq<char>, id: Seq<char>)
    requires
        text_field(p, "scope"@) == Some(scope) || text_field(p, "scope"@) is None && scope
            == "node"@,
        text_field(p, "stop_id"@) == Some(id),
    ensures
        ({
            let done = stopping(k, ctx, scope);
            let (after, r) = stop_asked(k, ctx, p);
            &&& after == done.0
            &&& r is Ok <==> done.1 is Ok
            &&& r is Ok ==> text_field(r->Ok_0, "stop_id"@) == Some(done.1->Ok_0)
            &&& r is Err ==> r->Err_0 == told(done.1->Err_0)
        }),
        ({
            let done = resuming(k, ctx, id);
            let (after, r) = resume_asked(k, ctx, p);
            &&& after == done.0
            &&& r is Ok <==> done.1 is Ok
            &&& r is Err ==> r->Err_0 == told(done.1->Err_0)
        }),
{
    reveal_strlit("stop_id");
    let (after, r) = stop_asked(k, ctx, p);
    if r is Ok {
        member_is_found(r->Ok_0->Object_0, 0);
    }
}

/// An approval is the one that was sent, and a person's.
pub proof fn approval_is_the_one_sent<A>(k: KernelView<A>, ctx: CtxView, p: JsonView, words: Seq<char>)
    ensures
        ({
            let (after, r) = approve_asked(k, ctx, p, words);
            let sent = field(p, "approval"@);
            let a = approval_in(sent->0)->0;
            let done = crate::approvals::approving(k, ctx, a);
            &&& sent is Some && approval_in(sent->0) is Some && a.kind is Human ==> {
                &&& after == done.0
                &&& r is Ok <==> done.1 is Ok
                &&& r is Err ==> r->Err_0 == told(done.1->Err_0)
            }
            &&& sent is Some && approval_in(sent->0) is None ==> after == k && r is Err
                && r->Err_0.code == -32602
            &&& sent is Some && approval_in(sent->0) is Some && a.kind !is Human ==> after == k
                && r is Err && r->Err_0.code == -32602
        }),
{
}

/// A node's own device is enrolled with the key that was sent, where that is one.
pub proof fn key_is_enrolled_as_sent<A>(
    k: KernelView<A>,
    p: JsonView,
    now: u64,
    id: Seq<char>,
    digits: Seq<char>,
)
    requires
        text_field(p, "device_id"@) == Some(id),
        text_field(p, "vk_hex"@) == Some(digits),
    ensures
        ({
            let (after, r) = enroll_asked(k, p, now);
            let good = is_hex(digits) && unhex(digits).len() == 32 && id
                == crate::presence::node_device_id(k.node_id);
            let done = node_key_enrolling(k, unhex(digits), now);
            &&& !good ==> after == k && r is Err
            &&& good ==> after == done.0 && (r is Ok <==> done.1 is Ok)
            &&& r is Ok ==> text_field(r->Ok_0, "device_id"@) == Some(id)
            &&& is_hex(digits) && unhex(digits).len() == 32 && !good ==> r->Err_0.code == -32001
            &&& !(is_hex(digits) && unhex(digits).len() == 32) ==> r->Err_0.code == -32602
        }),
{
    let (after, r) = enroll_asked(k, p, now);
    if r is Ok {
        let ms = r->Ok_0->Object_0;
        reveal_strlit("ok");
        reveal_strlit("device_id");
        assert(member(ms, "ok"@) == Some(ms[0].1)) by {
            member_is_found(ms, 0);
        }
        assert(member(ms, "device_id"@) == Some(ms[1].1)) by {
            assert("ok"@.len() != "device_id"@.len());
            member_is_found(ms, 1);
        }
    }
}

/// As many events are shown as were asked for, or else fifty; whether the record holds is told
/// beside how long it is.
pub proof fn record_is_told_as_asked<A>(k: KernelView<A>, p: JsonView)
    ensures
        number_field(p, "n"@) is Some ==> tail_asked(p) == number_field(p, "n"@)->0,
        number_field(p, "n"@) is None ==> tail_asked(p) == 50,
        bool_field(ledger_verdict(k), "ok"@) == Some(k.record.chain_ok && k.record.head_ok),
        number_field(ledger_verdict(k), "len"@) == Some(k.store.ledger.len()),
{
    let ms = ledger_verdict(k)->Object_0;
    reveal_strlit("ok");
    reveal_strlit("len");
    assert(member(ms, "ok"@) == Some(ms[0].1)) by {
        member_is_found(ms, 0);
    }
    assert(member(ms, "len"@) == Some(ms[1].1)) by {
        assert("ok"@.len() != "len"@.len());
        member_is_found(ms, 1);
    }
}

/// A link to enrol a passkey is a person's, and one to approve a task names that task and what it
/// waits with; without a page there is no link.
pub proof fn link_is_to_what_was_asked_for<A>(
    k: KernelView<A>,
    ctx: CtxView,
    p: JsonView,
    web: Seq<char>,
    id: Seq<char>,
    url: Seq<char>,
)
    requires
        text_field(p, "task_id"@) == Some(id),
    ensures
        ({
            let r = link_asked(k, Ok(ctx), p, Some(web));
            let page = text_field(p, "page"@);
            &&& page == Some("enroll"@) ==> (r is Ok <==> ctx.principal is Human)
            &&& page == Some("enroll"@) && r is Ok ==> r->Ok_0 is Enroll
            &&& page == Some("approve"@) ==> (r is Ok <==> subject_of(k.store, ctx, id) is Ok)
            &&& page == Some("approve"@) && r is Ok ==> {
                &&& r->Ok_0 is Approve
                &&& r->Ok_0->task_id == id
                &&& r->Ok_0->subject == subject_of(k.store, ctx, id)->Ok_0
                &&& text_field(link_json(r->Ok_0, url), "subject_hash"@) == Some(
                    subject_of(k.store, ctx, id)->Ok_0,
                )
            }
            &&& page != Some("enroll"@) && page != Some("approve"@) ==> r is Err
            &&& r is Ok ==> text_field(link_json(r->Ok_0, url), "url"@) == Some(url)
            &&& link_asked(k, Ok(ctx), p, None) is Err
        }),
{
    reveal_strlit("enroll");
    reveal_strlit("approve");
    assert("enroll"@.len() != "approve"@.len());
    let r = link_asked(k, Ok(ctx), p, Some(web));
    if r is Ok {
        let ms = link_json(r->Ok_0, url)->Object_0;
        reveal_strlit("url");
        reveal_strlit("subject_hash");
        assert("url"@.len() != "subject_hash"@.len());
        member_is_found(ms, 0);
        if r->Ok_0 is Approve {
            member_is_found(ms, 1);
        }
    }
}

/// A mount is answered the id of the arch, its name, whether it is governed, and whether it was
/// there before.
pub proof fn mount_is_answered_in_full(arch_id: Seq<char>, m: crate::manifest::ArchManifestView, already: bool)
    ensures
        ({
            let told = mounted_json(arch_id, m, already);
            &&& text_field(told, "arch_id"@) == Some(arch_id)
            &&& text_field(told, "name"@) == Some(m.name)
            &&& bool_field(told, "governed"@) == Some(m.governed)
            &&& bool_field(told, "already_mounted"@) == Some(already)
        }),
{
    let ms = mounted_json(arch_id, m, already)->Object_0;
    reveal_strlit("arch_id");
    reveal_strlit("name");
    reveal_strlit("governed");
    reveal_strlit("already_mounted");
    assert(member(ms, "arch_id"@) == Some(ms[0].1)) by {
        member_is_found(ms, 0);
    }
    assert(member(ms, "name"@) == Some(ms[1].1)) by {
        assert("arch_id"@.len() != "name"@.len());
        member_is_found(ms, 1);
    }
    assert(member(ms, "governed"@) == Some(ms[2].1)) by {
        assert("arch_id"@.len() != "governed"@.len());
        assert("name"@.len() != "governed"@.len());
        member_is_found(ms, 2);
    }
    assert(member(ms, "already_mounted"@) == Some(ms[3].1)) by {
        assert("arch_id"@.len() != "already_mounted"@.len());
        assert("name"@.len() != "already_mounted"@.len());
        assert("governed"@.len() != "already_mounted"@.len());
        member_is_found(ms, 3);
    }
}

/// A nonce lasts a minute; the answer says which nonce it is and until when.
pub proof fn nonce_lasts_a_minute(open: Map<Seq<char>, u64>, nonce: Seq<char>, now: u64, later: u64)
    requires
        now + 60_000 <= u64::MAX,
    ensures
        presence_spending(issuing(open, now, nonce), nonce, later).1 is Ok <==> later < now + 60_000,
        text_field(crate::dispatch::nonce_json(nonce, now), "nonce"@) == Some(nonce),
        number_field(crate::dispatch::nonce_json(nonce, now), "expires_at_ms"@) == Some(
            (now + 60_000) as nat,
        ),
        forall|n: Seq<char>|
            n != nonce && #[trigger] issuing(open, now, nonce).contains_key(n) ==> open.contains_key(n)
                && issuing(open, now, nonce)[n] == open[n] && open[n] > now,
        forall|n: Seq<char>|
            n != nonce ==> presence_spending(open, nonce, now).0.contains_key(n)
                == open.contains_key(n) && #[trigger] presence_spending(open, nonce, now).0[n]
                == open[n],
{
    let ms = crate::dispatch::nonce_json(nonce, now)->Object_0;
    reveal_strlit("nonce");
    reveal_strlit("expires_at_ms");
    assert(member(ms, "nonce"@) == Some(ms[0].1)) by {
        member_is_found(ms, 0);
    }
    assert(member(ms, "expires_at_ms"@) == Some(ms[1].1)) by {
        assert("nonce"@.len() != "expires_at_ms"@.len());
        member_is_found(ms, 1);
    }
}

/// While there is room, a nonce that has not run out stays open when another is issued.
pub proof fn open_nonces_stay_while_there_is_room(
    open: Map<Seq<char>, u64>,
    now: u64,
    nonce: Seq<char>,
    other: Seq<char>,
)
    requires
        open.dom().finite(),
        open.dom().len() < MAX_CHALLENGES,
        open.contains_key(other),
        open[other] > now,
        other != nonce,
    ensures
        issuing(open, now, nonce).contains_key(other),
        issuing(open, now, nonce)[other] == open[other],
{
    let left = crate::expiring::live::<u64>(open, now);
    assert(left.dom().subset_of(open.dom()));
    vstd::set_lib::lemma_len_subset(left.dom(), open.dom());
}

/// A caller is told of a refusal by its text, and by a code: what is not there, what could not
/// be read or written, what may be tried again, and every other refusal.
pub proof fn refusal_is_told_by_its_code(e: KernelErrorView)
    ensures
        told(e).message == error_text(e),
        told(e).code == -32004 <==> e is NotFound,
        told(e).code == -32005 <==> e is Store || e is ArchUnavailable,
        told(e).code == -32006 <==> e is ArchStarting,
        told(e).code == -32001 <==> e !is NotFound && e !is Store && e !is ArchUnavailable
            && e !is ArchStarting,
{
}

/// Who calls is this node's own machine where no proof is shown, and otherwise the person whose
/// enrolled device signed the nonce, where that nonce was still good; no other proof makes a
/// caller. A caller sees everything, on this node's own partition, at the time it calls.
pub proof fn caller_is_who_proved_it<A>(k: KernelView<A>, presence: Option<PresentedView>, now: u64)
    ensures
        ({
            let r = ctx_of(k, presence, now);
            let p = presence->0.proof;
            let signed = presence->0.nonce is Ok && is_hex(p.signature_hex) && unhex(
                p.signature_hex,
            ).len() == 64 && k.devices.contains_key(p.device_id) && ed25519_accepts(
                k.devices[p.device_id],
                presence_message(p.nonce),
                unhex(p.signature_hex),
            );
            &&& r is Ok <==> presence is None || signed
            &&& r is Ok && presence is None ==> r->Ok_0.principal == PrincipalView::Machine {
                node_id: k.node_id,
                lease_id: "cli"@,
            }
            &&& r is Ok && presence is Some ==> r->Ok_0.principal == PrincipalView::Human {
                device_id: p.device_id,
            }
            &&& r is Ok ==> {
                &&& r->Ok_0.clearance == (Clearance {
                    max_scope: Scope::Personal,
                    third_party_allowed: true,
                })
                &&& r->Ok_0.partition == "local"@
                &&& r->Ok_0.now_ms == now
            }
            &&& presence is Some && presence->0.nonce is Err ==> r == Err::<CtxView, RpcErrorView>(
                presence->0.nonce->Err_0,
            )
            &&& r is Err && presence is Some && presence->0.nonce is Ok ==> r->Err_0.code == -32001
        }),
{
}

/// An arch is mounted out of what was made for it, under the kind and the configuration that were
/// sent; what is not made outside, what could not be made and what has a credential in its
/// configuration is refused, and nothing is mounted.
pub proof fn mount_is_of_what_was_asked<A: ArchAdapter>(
    k: KernelView<A>,
    engine: Seq<char>,
    p: JsonView,
    made: Option<MadeView<A>>,
    checked: Result<(), Seq<char>>,
    now: u64,
    kind: Seq<char>,
    config: JsonView,
)
    requires
        text_field(p, "kind"@) == Some(kind),
        field(p, "config"@) == Some(config),
    ensures
        ({
            let (after, stale, r) = mount_asked(k, engine, p, made, checked, now);
            let outside = kind == engine + "-code"@ || kind == "ollama"@;
            let recorded = spec_recorded(kind, config);
            let ready = outside && recorded is Ok && made is Some && made->0.early is None
                && made->0.adapter is Ok;
            let a = made->0.adapter->Ok_0;
            let anew = if kind == "ollama"@ && bool_field(config, "recreate"@) == Some(true) {
                Remount::Replace
            } else {
                Remount::Keep
            };
            let done = mounting(k, a, checked, recorded->Ok_0, anew, now);
            &&& !ready ==> after == k && stale is None && r is Err
            &&& recorded is Ok ==> recorded->Ok_0.kind == kind
            &&& ready ==> after == done.0 && (r is Ok <==> done.1 is Ok)
            &&& ready && r is Ok ==> {
                &&& stale == done.1->Ok_0.replaced
                &&& text_field(r->Ok_0, "arch_id"@) == Some(done.1->Ok_0.arch_id)
                &&& text_field(r->Ok_0, "name"@) == Some(a.declared().name)
                &&& bool_field(r->Ok_0, "governed"@) == Some(a.declared().governed)
                &&& bool_field(r->Ok_0, "already_mounted"@) == Some(done.1->Ok_0.already_mounted)
            }
        }),
{
    let r = mount_asked(k, engine, p, made, checked, now).2;
    if made is Some && made->0.adapter is Ok && r is Ok {
        let a = made->0.adapter->Ok_0;
        let anew = if kind == "ollama"@ && bool_field(config, "recreate"@) == Some(true) {
            Remount::Replace
        } else {
            Remount::Keep
        };
        let done = mounting(k, a, checked, spec_recorded(kind, config)->Ok_0, anew, now);
        mount_is_answered_in_full(done.1->Ok_0.arch_id, a.declared(), done.1->Ok_0.already_mounted);
    }
}

/// A mock is mounted under the name that was sent, or else as the mock, with the context that was
/// sent, or else four thousand and ninety-six tokens; what is unmounted is the arch that was
/// named.
pub proof fn mock_is_the_one_asked_for<A: ArchAdapter>(k: KernelView<A>, p: JsonView, now: u64, id: Seq<char>)
    requires
        text_field(p, "arch_id"@) == Some(id),
    ensures
        ({
            let r = mock_asked(p);
            let n = number_field(p, "context_ceiling"@);
            &&& r is Ok <==> n is None || n->0 <= u32::MAX
            &&& r is Ok && text_field(p, "name"@) is Some ==> r->Ok_0.0 == text_field(p, "name"@)->0
            &&& r is Ok && text_field(p, "name"@) is None ==> r->Ok_0.0 == "mock"@
            &&& r is Ok && n is Some ==> r->Ok_0.1 == n->0
            &&& r is Ok && n is None ==> r->Ok_0.1 == 4096
        }),
        ({
            let (after, removed, r) = unmount_asked(k, p, now);
            &&& after == unmounting(k, id, now).0
            &&& removed == unmounting(k, id, now).1
            &&& r is Ok
        }),
{
}

/// The manifest of a mock has its name and its context, is governed, can do everything, and may
/// see everything; two mocks of different names are different arches.
pub proof fn mock_is_named(name: Seq<char>, other: Seq<char>, ceiling: u32)
    ensures
        ({
            let m = mock_manifest_of(name, ceiling);
            &&& m.name == name
            &&& m.context_ceiling == ceiling
            &&& m.governed
            &&& m.capabilities.generate && m.capabilities.plan && m.capabilities.judge
            &&& m.locality is Local
            &&& m.clearance == (Clearance { max_scope: Scope::Holdout, third_party_allowed: true })
            &&& m.identity.weights_sha256 == "sha256:mock-"@ + name
            &&& name != other ==> m.identity != mock_manifest_of(other, ceiling).identity
        }),
{
    if name != other {
        let (a, b) = ("sha256:mock-"@ + name, "sha256:mock-"@ + other);
        let n = "sha256:mock-"@.len() as int;
        assert(a.skip(n) =~= name);
        assert(b.skip(n) =~= other);
    }
}

/// A path that is asked for is looked up as it was sent, and the root where none was; a release
/// whose files were written or not is answered the task as it was settled.
pub proof fn path_is_the_one_asked_for<A: ArchAdapter>(
    k: KernelView<A>,
    ctx: CtxView,
    p: JsonView,
    chain: Seq<JsonView>,
    path: Seq<char>,
    release: ReleasingView,
    written: Result<(), KernelErrorView>,
)
    requires
        text_field(p, "path"@) == Some(path) || text_field(p, "path"@) is None && path == "/"@,
    ensures
        ({
            let r = ns_listed(k, ctx, p, chain);
            let found = entry_at(k, ctx, path);
            &&& found is Ok ==> r == Ok::<JsonView, RpcErrorView>(
                entry_json(found->Ok_0, chain, k.store.ledger.len()),
            )
            &&& found is Err ==> r == Err::<JsonView, RpcErrorView>(told(found->Err_0))
        }),
        ({
            let done = settling(
                k,
                ctx,
                release.task,
                release.step,
                false,
                released(release, written),
            );
            let (after, r) = release_answered(k, ctx, release, written);
            &&& after == done.0
            &&& done.1 is Ok ==> r == Ok::<JsonView, RpcErrorView>(task_json(done.1->Ok_0))
            &&& done.1 is Err ==> r == Err::<JsonView, RpcErrorView>(told(done.1->Err_0))
        }),
{
}

/// A run is asked for by its task, the harness that was named or else the engine's own, and
/// whether it is only shown and what it leaves is kept: neither where that is not said.
pub proof fn run_is_the_one_asked_for(
    p: JsonView,
    engine: Seq<char>,
    words: Seq<char>,
)
    requires
        p is Object,
        run_params_of(p, engine, words) is Ok,
    ensures
        ({
            let r = run_params_of(p, engine, words)->Ok_0;
            &&& text_field(p, "task_id"@) == Some(r.task_id)
            &&& text_field(p, "name"@) is Some ==> r.name == text_field(p, "name"@)->0
            &&& text_field(p, "name"@) is None ==> r.name == engine + "-code"@
            &&& bool_field(p, "dry_run"@) is Some ==> r.dry_run == bool_field(p, "dry_run"@)->0
            &&& field(p, "dry_run"@) is None ==> !r.dry_run
            &&& bool_field(p, "keep"@) is Some ==> r.keep == bool_field(p, "keep"@)->0
            &&& field(p, "keep"@) is None ==> !r.keep
        }),
{
}

/// A mock that is mounted is answered its id and whether it was there before; one that is there
/// stays as it is.
pub proof fn mounted_mock_is_answered_in_full<A: ArchAdapter>(
    k: KernelView<A>,
    a: A,
    checked: Result<(), Seq<char>>,
    m: crate::manifest::ArchManifestView,
    budget: u32,
    now: u64,
)
    ensures
        ({
            let (after, r) = crate::methods::mock_mounting(k, a, checked, m, budget, now);
            let done = mounting(
                k,
                a,
                checked,
                crate::mock::mock_spec(m, budget),
                Remount::Keep,
                now,
            );
            let spec = crate::mock::mock_spec(m, budget);
            &&& after == done.0
            &&& r is Ok <==> done.1 is Ok
            &&& r is Ok ==> text_field(r->Ok_0, "arch_id"@) == Some(done.1->Ok_0.arch_id)
            &&& r is Ok ==> bool_field(r->Ok_0, "already_mounted"@) == Some(
                done.1->Ok_0.already_mounted,
            )
            &&& spec.kind == "mock"@
            &&& field(spec.config, "manifest"@) == Some(crate::wire::manifest_json(m))
            &&& number_field(spec.config, "budget"@) == Some(budget as nat)
        }),
{
    reveal_strlit("arch_id");
    reveal_strlit("already_mounted");
    reveal_strlit("manifest");
    reveal_strlit("budget");
    assert("arch_id"@.len() != "already_mounted"@.len());
    assert("manifest"@.len() != "budget"@.len());
    let spec = crate::mock::mock_spec(m, budget).config->Object_0;
    member_is_found(spec, 0);
    member_is_found(spec, 1);
    let r = crate::methods::mock_mounting(k, a, checked, m, budget, now).1;
    if r is Ok {
        member_is_found(r->Ok_0->Object_0, 0);
        member_is_found(r->Ok_0->Object_0, 1);
    }
}

/// A run is started, written and settled for the task that was named, by this node's own machine;
/// what it is answered is of the task as it was settled and of its register as it is then.
pub proof fn run_is_settled_for_its_task<A>(
    k: KernelView<A>,
    now: u64,
    params: crate::runs::HarnessRunParamsView,
    timeout_ms: u64,
    run_id: Seq<char>,
    token: Seq<char>,
    start: crate::harness::HarnessStartView,
    written: Result<(), crate::harness::UnwrittenView>,
    launch: crate::harness::HarnessLaunchView,
    run: crate::launch::HarnessRun,
    out: Seq<crate::harness::OutFileView>,
    keep: bool,
    error: Option<Seq<char>>,
)
    ensures
        ({
            let c = ctx_of(k, None, now)->Ok_0;
            let begun = crate::harness::launching(
                k,
                c,
                params.task_id,
                params.name,
                timeout_ms,
                run_id,
                token,
            );
            let (after, r) = crate::runs::run_starting(k, now, params, timeout_ms, run_id, token);
            &&& after == begun.0
            &&& begun.1 is Ok ==> r is Ok && r->Ok_0 == begun.1->Ok_0
            &&& begun.1 is Err ==> r is Err && r->Err_0 == told(begun.1->Err_0)
        }),
        ({
            let c = ctx_of(k, None, now)->Ok_0;
            let made = crate::harness::materialising(k, c, start, written);
            let (after, r) = crate::runs::run_writing(k, now, start, written);
            &&& after == made.0
            &&& made.1 is Ok ==> r is Ok && r->Ok_0 == made.1->Ok_0
            &&& made.1 is Err ==> r is Err && r->Err_0 == told(made.1->Err_0)
        }),
        ({
            let c = ctx_of(k, None, now)->Ok_0;
            let done = crate::harness::harness_settling(k, c, params.task_id, launch, run, out);
            let (after, r) = crate::runs::run_settling(
                k,
                now,
                params.task_id,
                launch,
                run,
                out,
                keep,
                error,
            );
            let reg = register_read(after.store, c, done.1->Ok_0.register);
            &&& after == done.0
            &&& done.1 is Err ==> r is Err && r->Err_0 == told(done.1->Err_0)
            &&& done.1 is Ok && reg is Ok ==> r is Ok && r->Ok_0 == crate::runs::run_json(
                done.1->Ok_0,
                launch.step_index,
                Some(reg->Ok_0),
                run,
                keep,
                error,
            )
        }),
{
}

/// A run can be launched where there is a program and, unless it is only shown, a way for it to
/// call back.
pub proof fn run_needs_its_program(
    dry_run: bool,
    binary: Result<Seq<char>, Seq<char>>,
    mcp_server: Seq<char>,
    mcp_there: bool,
)
    ensures
        crate::runs::unready(dry_run, binary, mcp_server, mcp_there) is None <==> binary is Ok && (
        dry_run || mcp_there),
        binary is Err ==> crate::runs::unready(dry_run, binary, mcp_server, mcp_there) == Some(
            binary->Err_0,
        ),
{
}

} // verus!
