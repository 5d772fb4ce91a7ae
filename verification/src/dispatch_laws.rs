//! What holds of every request.
use crate::adapter::ArchAdapter;
use crate::challenges::{issuing, presence_spending};
use crate::dispatch::{
    dispatches, is_reading, method_in, method_text, nonce_json, presented_of, step_answer,
    AnswerView, ConfigView, GivenView, Method,
};
use crate::error::KernelErrorView;
use crate::harness::session_of;
use crate::json::{text_field, JsonView};
use crate::kernel::KernelView;
use crate::listing::task_listing;
use crate::methods::{
    approve_asked, challenging, enroll_asked, harness_asking, harness_attaching, harness_deciding,
    harness_logging, harness_reading, ledger_verdict, link_asked, mount_asked, ns_listed,
    resume_asked, stop_asked, subject_told, tail_asked, task_creating, task_shown, unmount_asked,
    WebLinkView,
};
use crate::presence::node_device_id;
use crate::principal::CtxView;
use crate::rpc::{
    bad_params, ctx_of, derives_principal, told, RequestView, RpcErrorView, E_METHOD,
};
use crate::scheduler::{steps_to, StepRunView};
use crate::screens::{arch_list_json, boot_info_json, passkey_list_json, tail_json, top_json};
use crate::top::top_of;
use crate::wire::{task_json, task_list};
use vstd::prelude::*;

verus! {

/// A request, what it met, and what came of it.
pub struct Exchange<A> {
    pub kernel: KernelView<A>,
    /// The nonces that were open.
    pub open: Map<Seq<char>, u64>,
    pub request: RequestView,
    pub config: ConfigView,
    pub given: GivenView<A>,
    pub after: KernelView<A>,
    /// The nonces that are still open.
    pub left: Map<Seq<char>, u64>,
    pub stale: Option<A>,
    pub answer: Result<AnswerView, RpcErrorView>,
}

impl<A: ArchAdapter> Exchange<A> {
    /// Whether it could have gone like this.
    pub open spec fn happens(self) -> bool {
        dispatches(
            self.kernel,
            self.open,
            self.request,
            self.config,
            self.given,
            self.after,
            self.left,
            self.stale,
            self.answer,
        )
    }

    /// Whether the request was for this, and carried no proof.
    pub open spec fn asks_as_a_machine(self, m: Method) -> bool {
        self.request.method == method_text(m) && self.request.presence is None
    }
}

/// A method is read back as it is spelled.
pub proof fn method_reads_back(m: Method)
    ensures
        method_in(method_text(m)) == Some(m),
{
    reveal_strlit("presence.challenge");
    reveal_strlit("boot.info");
    reveal_strlit("web.link");
    reveal_strlit("passkey.ls");
    reveal_strlit("ns.ls");
    reveal_strlit("arch.ls");
    reveal_strlit("arch.mount");
    reveal_strlit("arch.mount_mock");
    reveal_strlit("arch.unmount");
    reveal_strlit("harness.run");
    reveal_strlit("harness.read_register");
    reveal_strlit("harness.write_decision");
    reveal_strlit("harness.attach_artefact");
    reveal_strlit("harness.request_approval");
    reveal_strlit("harness.log");
    reveal_strlit("task.create");
    reveal_strlit("task.step");
    reveal_strlit("task.subject");
    reveal_strlit("approval.challenge");
    reveal_strlit("task.show");
    reveal_strlit("task.ls");
    reveal_strlit("top");
    reveal_strlit("stop");
    reveal_strlit("resume");
    reveal_strlit("approve");
    reveal_strlit("device.enroll_node");
    reveal_strlit("ledger.tail");
    reveal_strlit("ledger.verify");
    assert("presence.challenge"@.len() == 18);
    assert("boot.info"@.len() == 9);
    assert("web.link"@.len() == 8);
    assert("passkey.ls"@.len() == 10);
    assert("ns.ls"@.len() == 5);
    assert("arch.ls"@.len() == 7);
    assert("arch.mount"@.len() == 10);
    assert("arch.mount_mock"@.len() == 15);
    assert("arch.unmount"@.len() == 12);
    assert("harness.run"@.len() == 11);
    assert("harness.read_register"@.len() == 21);
    assert("harness.write_decision"@.len() == 22);
    assert("harness.attach_artefact"@.len() == 23);
    assert("harness.request_approval"@.len() == 24);
    assert("harness.log"@.len() == 11);
    assert("task.create"@.len() == 11);
    assert("task.step"@.len() == 9);
    assert("task.subject"@.len() == 12);
    assert("approval.challenge"@.len() == 18);
    assert("task.show"@.len() == 9);
    assert("task.ls"@.len() == 7);
    assert("top"@.len() == 3);
    assert("stop"@.len() == 4);
    assert("resume"@.len() == 6);
    assert("approve"@.len() == 7);
    assert("device.enroll_node"@.len() == 18);
    assert("ledger.tail"@.len() == 11);
    assert("ledger.verify"@.len() == 13);
    assert("arch.ls"@[0] == 'a');
    assert("task.ls"@[0] == 't');
    assert("approve"@[0] == 'a');
    assert("arch.ls"@[1] == 'r');
    assert("task.ls"@[1] == 'a');
    assert("approve"@[1] == 'p');
    assert("boot.info"@[0] == 'b');
    assert("task.step"@[0] == 't');
    assert("task.show"@[0] == 't');
    assert("boot.info"@[6] == 'n');
    assert("task.step"@[6] == 't');
    assert("task.show"@[6] == 'h');
    assert("passkey.ls"@[0] == 'p');
    assert("arch.mount"@[0] == 'a');
    assert("harness.run"@[0] == 'h');
    assert("harness.log"@[0] == 'h');
    assert("task.create"@[0] == 't');
    assert("ledger.tail"@[0] == 'l');
    assert("harness.run"@[8] == 'r');
    assert("harness.log"@[8] == 'l');
    assert("task.create"@[8] == 'a');
    assert("ledger.tail"@[8] == 'a');
    assert("arch.unmount"@[0] == 'a');
    assert("task.subject"@[0] == 't');
    assert("presence.challenge"@[0] == 'p');
    assert("approval.challenge"@[0] == 'a');
    assert("device.enroll_node"@[0] == 'd');
}

/// A nonce that is shown is spent, whatever the method is and whatever comes of the
/// request: it can never be shown again.
pub proof fn shown_nonce_is_spent<A: ArchAdapter>(x: Exchange<A>, later: u64)
    requires
        x.happens(),
        x.request.presence is Some,
    ensures
        !x.left.contains_key(x.request.presence->0.nonce),
        presence_spending(x.left, x.request.presence->0.nonce, later).1 is Err,
{
    if derives_principal(x.request.method) {
        method_reads_back(Method::TaskCreate);
        method_reads_back(Method::TaskStep);
        method_reads_back(Method::Stop);
        method_reads_back(Method::Resume);
        method_reads_back(Method::Approve);
        method_reads_back(Method::WebLink);
    }
}

/// A proof on a request whose method takes none is refused, and nothing is done.
pub proof fn proof_where_none_is_taken_is_refused<A: ArchAdapter>(x: Exchange<A>)
    requires
        x.happens(),
        x.request.presence is Some,
        !derives_principal(x.request.method),
    ensures
        x.after == x.kernel,
        x.answer == Err::<AnswerView, RpcErrorView>(
            bad_params("this method does not take a presence proof"@),
        ),
{
}

/// A request that only reads leaves the kernel as it was.
pub proof fn reading_changes_nothing<A: ArchAdapter>(x: Exchange<A>)
    requires
        x.happens(),
        method_in(x.request.method) is Some,
        is_reading(method_in(x.request.method)->0),
    ensures
        x.after == x.kernel,
        x.left == presented_of(x.open, x.request.presence, x.given.now).0,
        x.stale is None,
{
}

/// A request for what there is not changes nothing.
pub proof fn unknown_method_changes_nothing<A: ArchAdapter>(x: Exchange<A>)
    requires
        x.happens(),
        method_in(x.request.method) is None,
        x.request.presence is None,
    ensures
        x.after == x.kernel,
        x.left == x.open,
        x.answer == Err::<AnswerView, RpcErrorView>(
            RpcErrorView { code: E_METHOD, message: "unknown method "@ + x.request.method },
        ),
{
}

/// Without a proof nothing is stopped.
pub proof fn machine_cannot_stop<A: ArchAdapter>(x: Exchange<A>)
    requires
        x.happens(),
        x.asks_as_a_machine(Method::Stop),
    ensures
        x.answer is Err,
        x.after == x.kernel,
{
    method_reads_back(Method::Stop);
}

/// Without a proof no stop is lifted.
pub proof fn machine_cannot_resume<A: ArchAdapter>(x: Exchange<A>)
    requires
        x.happens(),
        x.asks_as_a_machine(Method::Resume),
    ensures
        x.answer is Err,
        x.after == x.kernel,
{
    method_reads_back(Method::Resume);
}

/// Without a proof nothing is approved.
pub proof fn machine_cannot_approve<A: ArchAdapter>(x: Exchange<A>)
    requires
        x.happens(),
        x.asks_as_a_machine(Method::Approve),
    ensures
        x.answer is Err,
        x.after.store.approvals == x.kernel.store.approvals,
        x.after.store.ledger == x.kernel.store.ledger,
{
    method_reads_back(Method::Approve);
}

/// Without a proof there is no link to enrol a passkey with.
pub proof fn machine_cannot_enrol_a_passkey<A: ArchAdapter>(x: Exchange<A>)
    requires
        x.happens(),
        x.asks_as_a_machine(Method::WebLink),
    ensures
        x.answer != Ok::<AnswerView, RpcErrorView>(AnswerView::Link(WebLinkView::Enroll)),
        x.after == x.kernel,
{
    method_reads_back(Method::WebLink);
}

/// A proof that does not hold does nothing: the request is refused, where it would have
/// been carried out without one too.
pub proof fn bad_proof_does_nothing<A: ArchAdapter>(x: Exchange<A>)
    requires
        x.happens(),
        derives_principal(x.request.method),
        ctx_of(
            x.kernel,
            presented_of(x.open, x.request.presence, x.given.now).1,
            x.given.now,
        ) is Err,
    ensures
        x.answer is Err,
        x.after == x.kernel,
{
    method_reads_back(Method::TaskCreate);
    method_reads_back(Method::TaskStep);
    method_reads_back(Method::Stop);
    method_reads_back(Method::Resume);
    method_reads_back(Method::Approve);
    method_reads_back(Method::WebLink);
}

/// A proof is good for one request: a second one that carries it is refused.
pub proof fn proof_is_good_once<A: ArchAdapter>(x: Exchange<A>, again: Exchange<A>)
    requires
        x.happens(),
        again.happens(),
        again.kernel == x.after,
        again.open == x.left,
        x.request.presence is Some,
        again.request.presence == x.request.presence,
    ensures
        again.answer is Err,
        again.after == again.kernel,
{
    shown_nonce_is_spent(x, again.given.now);
    if derives_principal(again.request.method) {
        bad_proof_does_nothing(again);
    }
}

/// What a harness's token stands for is never a person.
pub proof fn harness_is_never_a_person<A>(k: KernelView<A>, token: Seq<char>, now: u64)
    requires
        session_of(k, token, now) is Ok,
    ensures
        session_of(k, token, now)->Ok_0.ctx.principal is Machine,
{
}

/// Over the endpoint no device is enrolled but this node's own.
pub proof fn only_this_nodes_device_is_enrolled<A>(
    k: KernelView<A>,
    p: JsonView,
    now: u64,
    id: Seq<char>,
)
    requires
        id != node_device_id(k.node_id),
    ensures
        ({
            let after = enroll_asked(k, p, now).0;
            &&& after.devices.contains_key(id) == k.devices.contains_key(id)
            &&& k.devices.contains_key(id) ==> after.devices[id] == k.devices[id]
        }),
{
}

/// Nothing but a person's approval comes in over the endpoint.
pub proof fn other_approvals_are_refused<A>(
    k: KernelView<A>,
    ctx: CtxView,
    p: JsonView,
    words: Seq<char>,
)
    requires
        approve_asked(k, ctx, p, words).1 is Ok,
    ensures
        ctx.principal is Human,
{
}

/// Whether a request without a proof came to this: to this kernel, and to this plain answer.
pub open spec fn comes_plainly<A: ArchAdapter>(
    x: Exchange<A>,
    after: KernelView<A>,
    r: Result<JsonView, RpcErrorView>,
) -> bool {
    &&& x.after == after
    &&& x.stale is None
    &&& r is Ok ==> x.answer == Ok::<AnswerView, RpcErrorView>(AnswerView::Plain(r->Ok_0))
    &&& r is Err ==> x.answer == Err::<AnswerView, RpcErrorView>(r->Err_0)
}

/// Each method that reads answers what it is named for: what was asked about, as this node's own
/// machine may see it where it does not say who calls.
pub proof fn reading_is_of_what_was_asked<A: ArchAdapter>(x: Exchange<A>)
    requires
        x.happens(),
        x.request.presence is None,
    ensures
        ({
            let (k, p, m) = (x.kernel, x.request.params, x.request.method);
            let c = ctx_of(k, None, x.given.now)->Ok_0;
            let (web, words) = (x.config.web, x.given.beside.words);
            &&& m == "boot.info"@ ==> comes_plainly(x, k, Ok(boot_info_json(k, web)))
            &&& m == "passkey.ls"@ ==> comes_plainly(x, k, Ok(passkey_list_json(k.store)))
            &&& m == "arch.ls"@ ==> comes_plainly(x, k, Ok(arch_list_json(k)))
            &&& m == "ns.ls"@ ==> comes_plainly(x, k, ns_listed(k, c, p, x.given.beside.chain))
            &&& m == "task.subject"@ ==> comes_plainly(x, k, subject_told(k, c, p))
            &&& m == "task.show"@ ==> comes_plainly(x, k, task_shown(k, c, p))
            &&& m == "task.ls"@ ==> comes_plainly(
                x,
                k,
                Ok(task_list(task_listing(k.store, c))),
            )
            &&& m == "top"@ ==> comes_plainly(
                x,
                k,
                Ok(top_json(top_of(k, c), x.given.beside.totals)),
            )
            &&& m == "ledger.tail"@ ==> comes_plainly(
                x,
                k,
                Ok(tail_json(k.store.ledger, tail_asked(p), x.given.beside.chain)),
            )
            &&& m == "ledger.verify"@ ==> comes_plainly(x, k, Ok(ledger_verdict(k)))
            &&& m == "harness.read_register"@ ==> comes_plainly(
                x,
                k,
                harness_reading(k, p, x.given.now),
            )
            &&& m == "harness.log"@ ==> comes_plainly(x, k, harness_logging(k, p, x.given.now))
        }),
{
    method_reads_back(Method::BootInfo);
    method_reads_back(Method::PasskeyLs);
    method_reads_back(Method::ArchLs);
    method_reads_back(Method::NsLs);
    method_reads_back(Method::TaskSubject);
    method_reads_back(Method::TaskShow);
    method_reads_back(Method::TaskLs);
    method_reads_back(Method::Top);
    method_reads_back(Method::LedgerTail);
    method_reads_back(Method::LedgerVerify);
    method_reads_back(Method::HarnessReadRegister);
    method_reads_back(Method::HarnessLog);
}

/// Each method of a harness or of this node's machine does what it is named for, and answers
/// that.
pub proof fn acting_is_what_was_asked<A: ArchAdapter>(x: Exchange<A>)
    requires
        x.happens(),
        x.request.presence is None,
    ensures
        ({
            let (k, p, m) = (x.kernel, x.request.params, x.request.method);
            let (now, later) = (x.given.now, x.given.later);
            let c = ctx_of(k, None, now)->Ok_0;
            let decided = harness_deciding(k, p, now);
            let attached = harness_attaching(k, p, now, x.given.file);
            let asked = harness_asking(k, p, now);
            let challenged = challenging(k, c, p, x.given.approval_nonce);
            let created = task_creating(k, c, p, x.given.beside.words);
            let enrolled = enroll_asked(k, p, later);
            let mounted = mount_asked(
                k,
                x.config.engine,
                p,
                x.given.made,
                x.given.checked,
                later,
            );
            let unmounted = unmount_asked(k, p, later);
            &&& m == "harness.write_decision"@ ==> comes_plainly(x, decided.0, decided.1)
            &&& m == "harness.attach_artefact"@ ==> comes_plainly(x, attached.0, attached.1)
            &&& m == "harness.request_approval"@ ==> comes_plainly(x, asked.0, asked.1)
            &&& m == "approval.challenge"@ ==> comes_plainly(x, challenged.0, challenged.1)
            &&& m == "task.create"@ ==> comes_plainly(x, created.0, created.1)
            &&& m == "device.enroll_node"@ ==> comes_plainly(x, enrolled.0, enrolled.1)
            &&& m == "arch.mount"@ ==> x.after == mounted.0 && x.stale == mounted.1
            &&& m == "arch.mount"@ && mounted.2 is Ok ==> x.answer == Ok::<
                AnswerView,
                RpcErrorView,
            >(AnswerView::Plain(mounted.2->Ok_0))
            &&& m == "arch.mount"@ && mounted.2 is Err ==> x.answer == Err::<
                AnswerView,
                RpcErrorView,
            >(mounted.2->Err_0)
            &&& m == "arch.unmount"@ ==> x.after == unmounted.0 && x.stale == unmounted.1
            &&& m == "presence.challenge"@ ==> {
                &&& x.after == k
                &&& x.left == issuing(x.open, now, x.given.presence_nonce)
                &&& x.answer == Ok::<AnswerView, RpcErrorView>(
                    AnswerView::Plain(nonce_json(x.given.presence_nonce, now)),
                )
            }
        }),
{
    method_reads_back(Method::HarnessWriteDecision);
    method_reads_back(Method::HarnessAttachArtefact);
    method_reads_back(Method::HarnessRequestApproval);
    method_reads_back(Method::ApprovalChallenge);
    method_reads_back(Method::TaskCreate);
    method_reads_back(Method::DeviceEnrollNode);
    method_reads_back(Method::ArchMount);
    method_reads_back(Method::ArchUnmount);
    method_reads_back(Method::PresenceChallenge);
}

/// What a person asks for, with a proof that holds, is done for that person: a stop, a resume, an
/// approval, a task, or a link.
pub proof fn person_is_served<A: ArchAdapter>(x: Exchange<A>, c: CtxView)
    requires
        x.happens(),
        x.request.presence is Some,
        ctx_of(
            x.kernel,
            presented_of(x.open, x.request.presence, x.given.now).1,
            x.given.now,
        ) == Ok::<CtxView, RpcErrorView>(c),
    ensures
        ({
            let (k, p, m) = (x.kernel, x.request.params, x.request.method);
            let words = x.given.beside.words;
            let stopped = stop_asked(k, c, p);
            let resumed = resume_asked(k, c, p);
            let approved = approve_asked(k, c, p, words);
            let created = task_creating(k, c, p, words);
            let link = link_asked(k, Ok(c), p, x.config.web);
            &&& m == "stop"@ ==> comes_plainly(x, stopped.0, stopped.1)
            &&& m == "resume"@ ==> comes_plainly(x, resumed.0, resumed.1)
            &&& m == "approve"@ ==> comes_plainly(x, approved.0, approved.1)
            &&& m == "task.create"@ ==> comes_plainly(x, created.0, created.1)
            &&& m == "web.link"@ ==> x.after == k
            &&& m == "web.link"@ && link is Ok ==> x.answer == Ok::<AnswerView, RpcErrorView>(
                AnswerView::Link(link->Ok_0),
            )
            &&& m == "web.link"@ && link is Err ==> x.answer == Err::<AnswerView, RpcErrorView>(
                link->Err_0,
            )
        }),
{
    method_reads_back(Method::Stop);
    method_reads_back(Method::Resume);
    method_reads_back(Method::Approve);
    method_reads_back(Method::TaskCreate);
    method_reads_back(Method::WebLink);
    assert(derives_principal("stop"@) && derives_principal("resume"@));
}

/// A step that is asked for is one step of the task that was named, and is answered that task,
/// or the files that are to be written before it is settled.
pub proof fn step_is_of_the_task_named<A: ArchAdapter>(x: Exchange<A>, id: Seq<char>) -> (o: Result<
    StepRunView,
    KernelErrorView,
>)
    requires
        x.happens(),
        x.request.method == "task.step"@,
        text_field(x.request.params, "task_id"@) == Some(id),
        x.request.presence is None,
    ensures
        ({
            let c = ctx_of(x.kernel, None, x.given.now)->Ok_0;
            &&& steps_to(x.kernel, c, id, x.after, o)
            &&& o is Ok && o->Ok_0 is Settled ==> x.answer == Ok::<AnswerView, RpcErrorView>(
                AnswerView::Plain(task_json(o->Ok_0->Settled_0)),
            )
            &&& o is Ok && o->Ok_0 is Releasing ==> x.answer == Ok::<AnswerView, RpcErrorView>(
                AnswerView::Releasing { ctx: c, release: o->Ok_0->Releasing_0 },
            )
            &&& o is Err ==> x.answer == Err::<AnswerView, RpcErrorView>(told(o->Err_0))
        }),
{
    method_reads_back(Method::TaskStep);
    let c = ctx_of(x.kernel, None, x.given.now)->Ok_0;
    choose|o: Result<StepRunView, KernelErrorView>|
        x.answer == step_answer(c, o) && #[trigger] steps_to(x.kernel, c, id, x.after, o)
}

} // verus!
