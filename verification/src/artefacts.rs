//! Artefacts: bytes under an address, read only by who is cleared for them.
use crate::error::{KernelError, KernelErrorView};
use crate::hash::{hash_bytes, hash_of};
use crate::kernel::{outcome, register_read, register_written, KernelView, RealKernel};
use crate::labels::{flows, Label};
use crate::model::Duplicate;
use crate::principal::{Ctx, CtxView};
use crate::register::{ArtefactRef, ArtefactRefView, RegisterView};
use crate::store::{Blob, BlobEnvelope, BlobEnvelopeView, BlobView, StoreView};
use crate::tasks::{kind_refusal, plain_kind, validate_artefact_kind};
use crate::text::{cat, cat3, same};
use vstd::prelude::*;
use vstd::slice::slice_to_vec;
use vstd::string::*;
use vstd::utf8::encode_utf8;

verus! {

/// Where bytes that belong to a subject are kept: the hash of the subject, a zero
/// byte and the bytes, so that the same bytes of two subjects are two artefacts.
pub open spec fn address(subject: Seq<char>, bytes: Seq<u8>) -> Seq<char> {
    hash_of(encode_utf8(subject).push(0u8) + bytes)
}

/// Where bytes that belong to a subject are kept.
pub fn address_of(subject: &str, bytes: &[u8]) -> (r: String)
    ensures
        r@ == address(subject@, bytes@),
{
    let mut v = slice_to_vec(subject.as_bytes());
    v.push(0u8);
    let mut i: usize = 0;
    let ghost head = encode_utf8(subject@).push(0u8);
    assert(v@ =~= head + bytes@.take(0));
    while i < bytes.len()
        invariant
            i <= bytes@.len(),
            v@ == head + bytes@.take(i as int),
        decreases bytes@.len() - i,
    {
        v.push(bytes[i]);
        i += 1;
        assert(v@ =~= head + bytes@.take(i as int));
    }
    assert(bytes@.take(i as int) =~= bytes@);
    hash_bytes(v.as_slice())
}

/// The subject that the artefacts of a task belong to.
pub open spec fn task_subject(task_id: Seq<char>) -> Seq<char> {
    "task:"@ + task_id
}

/// An artefact without its bytes.
pub open spec fn envelope_of(hash: Seq<char>, b: BlobView) -> BlobEnvelopeView {
    BlobEnvelopeView { hash, subject: b.subject, label: b.label, len: b.bytes.len() as u64 }
}

/// Attaching bytes to a register: they are kept under the label of the register,
/// and the register refers to them.
pub open spec fn attaching<A>(
    k: KernelView<A>,
    ctx: CtxView,
    reg_id: Seq<char>,
    kind: Seq<char>,
    bytes: Seq<u8>,
) -> (KernelView<A>, Result<BlobEnvelopeView, KernelErrorView>) {
    if !plain_kind(kind) {
        (k, Err(kind_refusal()))
    } else {
        match register_read(k.store, ctx, reg_id) {
            Err(e) => (k, Err(e)),
            Ok(reg) => {
                let subject = task_subject(reg.task_id);
                let hash = address(subject, bytes);
                let blob = BlobView { subject, label: reg.label, bytes };
                let kept = KernelView {
                    store: StoreView { blobs: k.store.blobs.insert(hash, blob), ..k.store },
                    ..k
                };
                let referring = RegisterView {
                    artefacts: reg.artefacts.push(ArtefactRefView { hash, kind }),
                    ..reg
                };
                (register_written(kept, ctx, referring), Ok(envelope_of(hash, blob)))
            },
        }
    }
}

/// What a caller is told of an artefact: it is not there, it is above the
/// caller's clearance, its bytes are not those that its address names, or these
/// are they.
pub open spec fn artefact_read(s: StoreView, ctx: CtxView, hash: Seq<char>) -> Result<
    Seq<u8>,
    KernelErrorView,
> {
    if !s.blobs.contains_key(hash) {
        Err(KernelErrorView::NotFound(hash))
    } else if !flows(s.blobs[hash].label, ctx.clearance) {
        Err(KernelErrorView::I2("artefact "@ + hash + " exceeds caller clearance"@))
    } else if address(s.blobs[hash].subject, s.blobs[hash].bytes) != hash {
        Err(KernelErrorView::Store("integrity: artefact "@ + hash + " does not match its address"@))
    } else {
        Ok(s.blobs[hash].bytes)
    }
}

impl<A> RealKernel<A> {
    /// Attach bytes to a register as an artefact of this kind.
    pub fn attach_artefact(
        &mut self,
        ctx: &Ctx,
        reg_id: &str,
        kind: &str,
        bytes: &[u8],
    ) -> (r: Result<BlobEnvelope, KernelError>)
        requires
            old(self).wf(),
        ensures
            final(self).wf(),
            (final(self)@, outcome(r)) == attaching(old(self)@, ctx@, reg_id@, kind@, bytes@),
    {
        if let Err(e) = validate_artefact_kind(kind) {
            return Err(e);
        }
        let mut reg = match self.read_register(ctx, reg_id) {
            Err(e) => return Err(e),
            Ok(reg) => reg,
        };
        let subject = cat("task:", reg.task_id.as_str());
        let hash = address_of(subject.as_str(), bytes);
        let blob = Blob {
            subject: subject.dup(),
            label: reg.label,
            bytes: slice_to_vec(bytes),
        };
        self.store.blobs.insert(hash.as_str(), blob);
        let envelope = BlobEnvelope {
            hash: hash.dup(),
            subject,
            label: reg.label,
            len: bytes.len() as u64,
        };
        let ghost before = reg@.artefacts;
        reg.artefacts.push(ArtefactRef { hash, kind: kind.to_owned() });
        assert(reg@.artefacts =~= before.push(ArtefactRefView { hash: envelope@.hash, kind: kind@ }));
        let _ = self.write_register(ctx, reg);
        Ok(envelope)
    }

    /// The bytes of an artefact, as `ctx` may read them.
    pub fn read_artefact(&self, ctx: &Ctx, hash: &str) -> (r: Result<Vec<u8>, KernelError>)
        requires
            self.wf(),
        ensures
            match artefact_read(self@.store, ctx@, hash@) {
                Ok(bytes) => r is Ok && r->Ok_0@ == bytes,
                Err(e) => r is Err && r->Err_0@ == e,
            },
    {
        match self.store.blobs.get(hash) {
            None => Err(KernelError::NotFound(hash.to_owned())),
            Some(b) => {
                if !b.label.flows_to(&ctx.clearance) {
                    return Err(KernelError::I2(cat3("artefact ", hash, " exceeds caller clearance")));
                }
                let found = address_of(b.subject.as_str(), b.bytes.as_slice());
                if !same(found.as_str(), hash) {
                    return Err(
                        KernelError::Store(cat3("integrity: artefact ", hash, " does not match its address")),
                    );
                }
                Ok(slice_to_vec(b.bytes.as_slice()))
            },
        }
    }

    /// The label an artefact carries.
    pub fn artefact_label(&self, hash: &str) -> (r: Option<Label>)
        requires
            self.wf(),
        ensures
            r == if self@.store.blobs.contains_key(hash@) {
                Some(self@.store.blobs[hash@].label)
            } else {
                None
            },
    {
        match self.store.blobs.get(hash) {
            Some(b) => Some(b.label),
            None => None,
        }
    }

    /// An artefact without its bytes.
    pub fn envelope(&self, hash: &str) -> (r: Option<BlobEnvelope>)
        requires
            self.wf(),
        ensures
            r is Some <==> self@.store.blobs.contains_key(hash@),
            r is Some ==> r->0@ == envelope_of(hash@, self@.store.blobs[hash@]),
    {
        match self.store.blobs.get(hash) {
            Some(b) => Some(
                BlobEnvelope {
                    hash: hash.to_owned(),
                    subject: b.subject.dup(),
                    label: b.label,
                    len: b.bytes.len() as u64,
                },
            ),
            None => None,
        }
    }
}

/// What was attached is what is read back, by whoever attached it.
pub proof fn attached_bytes_read_back<A>(
    k: KernelView<A>,
    ctx: CtxView,
    reg_id: Seq<char>,
    kind: Seq<char>,
    bytes: Seq<u8>,
)
    requires
        attaching(k, ctx, reg_id, kind, bytes).1 is Ok,
    ensures
        artefact_read(
            attaching(k, ctx, reg_id, kind, bytes).0.store,
            ctx,
            attaching(k, ctx, reg_id, kind, bytes).1->Ok_0.hash,
        ) == Ok::<Seq<u8>, KernelErrorView>(bytes),
{
}

/// No bytes are handed to a caller that their label does not flow to.
pub proof fn artefact_never_leaks(s: StoreView, ctx: CtxView, hash: Seq<char>)
    requires
        artefact_read(s, ctx, hash) is Ok,
    ensures
        flows(s.blobs[hash].label, ctx.clearance),
{
}

/// The bytes that are handed out are those that the address names.
pub proof fn artefact_is_what_its_address_names(s: StoreView, ctx: CtxView, hash: Seq<char>)
    requires
        artefact_read(s, ctx, hash) is Ok,
    ensures
        address(s.blobs[hash].subject, artefact_read(s, ctx, hash)->Ok_0) == hash,
{
}

} // verus!
