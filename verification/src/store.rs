//! What a node keeps: the rows of its tables and its ledger.
use crate::json::{Json, JsonView};
use crate::labels::Label;
use crate::manifest::{ArchManifest, ArchManifestView};
use crate::model::{all, dup_all, dup_opt, opt, Duplicate};
use crate::mount::{MountSpec, MountSpecView};
use crate::principal::{Approval, ApprovalView, Principal, PrincipalView};
use crate::register::{Register, RegisterView};
use crate::table::Table;
use crate::task::{Task, TaskView};
use vstd::prelude::*;

verus! {

/// One event of the record: what happened, when, and what it commits to.
#[derive(Debug)]
pub struct LedgerEvent {
    pub kind: String,
    pub wall_ms: u64,
    pub payload: Json,
}

/// What a [`LedgerEvent`] says.
#[verifier::ext_equal]
pub struct LedgerEventView {
    pub kind: Seq<char>,
    pub wall_ms: u64,
    pub payload: JsonView,
}

impl View for LedgerEvent {
    type V = LedgerEventView;

    open spec fn view(&self) -> LedgerEventView {
        LedgerEventView {
            kind: self.kind@,
            wall_ms: self.wall_ms,
            payload: self.payload@,
        }
    }
}

impl Duplicate for LedgerEvent {
    fn dup(&self) -> (r: Self) {
        LedgerEvent {
            kind: self.kind.dup(),
            wall_ms: self.wall_ms,
            payload: self.payload.dup(),
        }
    }
}

/// A person stopped a scope.
#[derive(Debug)]
pub struct StopEvent {
    pub id: String,
    pub scope: String,
    pub issuer: Principal,
    pub hlc_ms: u64,
}

/// What a [`StopEvent`] says.
#[verifier::ext_equal]
pub struct StopEventView {
    pub id: Seq<char>,
    pub scope: Seq<char>,
    pub issuer: PrincipalView,
    pub hlc_ms: u64,
}

impl View for StopEvent {
    type V = StopEventView;

    open spec fn view(&self) -> StopEventView {
        StopEventView {
            id: self.id@,
            scope: self.scope@,
            issuer: self.issuer@,
            hlc_ms: self.hlc_ms,
        }
    }
}

impl Duplicate for StopEvent {
    fn dup(&self) -> (r: Self) {
        StopEvent {
            id: self.id.dup(),
            scope: self.scope.dup(),
            issuer: self.issuer.dup(),
            hlc_ms: self.hlc_ms,
        }
    }
}

/// A person lifted one stop.
#[derive(Debug)]
pub struct ResumeEvent {
    pub id: String,
    pub cites: String,
    pub issuer: Principal,
    pub hlc_ms: u64,
}

/// What a [`ResumeEvent`] says.
#[verifier::ext_equal]
pub struct ResumeEventView {
    pub id: Seq<char>,
    pub cites: Seq<char>,
    pub issuer: PrincipalView,
    pub hlc_ms: u64,
}

impl View for ResumeEvent {
    type V = ResumeEventView;

    open spec fn view(&self) -> ResumeEventView {
        ResumeEventView {
            id: self.id@,
            cites: self.cites@,
            issuer: self.issuer@,
            hlc_ms: self.hlc_ms,
        }
    }
}

impl Duplicate for ResumeEvent {
    fn dup(&self) -> (r: Self) {
        ResumeEvent {
            id: self.id.dup(),
            cites: self.cites.dup(),
            issuer: self.issuer.dup(),
            hlc_ms: self.hlc_ms,
        }
    }
}

/// An enrolled device: the key it signs with, or the passkey it is.
#[derive(Debug)]
pub struct DeviceRow {
    pub vk_hex: String,
    pub trust_class: String,
    /// The passkey of a row that holds one, as its enroller wrote it.
    pub passkey: Option<Json>,
    pub enrolled_ms: u64,
}

/// What a [`DeviceRow`] says.
#[verifier::ext_equal]
pub struct DeviceRowView {
    pub vk_hex: Seq<char>,
    pub trust_class: Seq<char>,
    pub passkey: Option<JsonView>,
    pub enrolled_ms: u64,
}

impl View for DeviceRow {
    type V = DeviceRowView;

    open spec fn view(&self) -> DeviceRowView {
        DeviceRowView {
            vk_hex: self.vk_hex@,
            trust_class: self.trust_class@,
            passkey: opt(self.passkey),
            enrolled_ms: self.enrolled_ms,
        }
    }
}

impl Duplicate for DeviceRow {
    fn dup(&self) -> (r: Self) {
        DeviceRow {
            vk_hex: self.vk_hex.dup(),
            trust_class: self.trust_class.dup(),
            passkey: dup_opt(&self.passkey),
            enrolled_ms: self.enrolled_ms,
        }
    }
}

/// The right to a resource, for a while.
#[derive(Debug)]
pub struct Lease {
    pub id: String,
    pub resource: String,
    pub holder: Principal,
    pub partition: String,
    /// Grows with every lease of the resource.
    pub fence: u64,
    pub granted_at_ms: u64,
    pub expires_at_ms: u64,
}

/// What a [`Lease`] says.
#[verifier::ext_equal]
pub struct LeaseView {
    pub id: Seq<char>,
    pub resource: Seq<char>,
    pub holder: PrincipalView,
    pub partition: Seq<char>,
    pub fence: u64,
    pub granted_at_ms: u64,
    pub expires_at_ms: u64,
}

impl View for Lease {
    type V = LeaseView;

    open spec fn view(&self) -> LeaseView {
        LeaseView {
            id: self.id@,
            resource: self.resource@,
            holder: self.holder@,
            partition: self.partition@,
            fence: self.fence,
            granted_at_ms: self.granted_at_ms,
            expires_at_ms: self.expires_at_ms,
        }
    }
}

impl Duplicate for Lease {
    fn dup(&self) -> (r: Self) {
        Lease {
            id: self.id.dup(),
            resource: self.resource.dup(),
            holder: self.holder.dup(),
            partition: self.partition.dup(),
            fence: self.fence,
            granted_at_ms: self.granted_at_ms,
            expires_at_ms: self.expires_at_ms,
        }
    }
}

/// Until when a business may act unattended, and who said so.
#[derive(Debug)]
pub struct LivenessLease {
    pub business: String,
    pub renewed_by_device: String,
    pub expires_at_ms: u64,
}

/// What a [`LivenessLease`] says.
#[verifier::ext_equal]
pub struct LivenessLeaseView {
    pub business: Seq<char>,
    pub renewed_by_device: Seq<char>,
    pub expires_at_ms: u64,
}

impl View for LivenessLease {
    type V = LivenessLeaseView;

    open spec fn view(&self) -> LivenessLeaseView {
        LivenessLeaseView {
            business: self.business@,
            renewed_by_device: self.renewed_by_device@,
            expires_at_ms: self.expires_at_ms,
        }
    }
}

impl Duplicate for LivenessLease {
    fn dup(&self) -> (r: Self) {
        LivenessLease {
            business: self.business.dup(),
            renewed_by_device: self.renewed_by_device.dup(),
            expires_at_ms: self.expires_at_ms,
        }
    }
}

/// Which gate passed a verdict.
#[derive(Clone, Copy, Debug, PartialEq, Eq, Structural)]
pub enum GateKind {
    AnnexIii,
    Declassification,
}

/// What a gate said of a subject.
#[derive(Debug)]
pub struct GateVerdict {
    pub gate: GateKind,
    pub subject_hash: String,
    pub pass: bool,
    pub evidence_hash: String,
    pub signer: String,
}

/// What a [`GateVerdict`] says.
#[verifier::ext_equal]
pub struct GateVerdictView {
    pub gate: GateKind,
    pub subject_hash: Seq<char>,
    pub pass: bool,
    pub evidence_hash: Seq<char>,
    pub signer: Seq<char>,
}

impl View for GateVerdict {
    type V = GateVerdictView;

    open spec fn view(&self) -> GateVerdictView {
        GateVerdictView {
            gate: self.gate,
            subject_hash: self.subject_hash@,
            pass: self.pass,
            evidence_hash: self.evidence_hash@,
            signer: self.signer@,
        }
    }
}

impl Duplicate for GateVerdict {
    fn dup(&self) -> (r: Self) {
        GateVerdict {
            gate: self.gate,
            subject_hash: self.subject_hash.dup(),
            pass: self.pass,
            evidence_hash: self.evidence_hash.dup(),
            signer: self.signer.dup(),
        }
    }
}

/// A module: its name, the hash of its content, and whether it may be approved
/// without a person. `None` when it declares no autonomy at all.
#[derive(Debug)]
pub struct ModuleManifest {
    pub name: String,
    pub version: String,
    pub content_hash: String,
    pub auto_approve_allowed: Option<bool>,
}

/// What a [`ModuleManifest`] says.
#[verifier::ext_equal]
pub struct ModuleManifestView {
    pub name: Seq<char>,
    pub version: Seq<char>,
    pub content_hash: Seq<char>,
    pub auto_approve_allowed: Option<bool>,
}

impl View for ModuleManifest {
    type V = ModuleManifestView;

    open spec fn view(&self) -> ModuleManifestView {
        ModuleManifestView {
            name: self.name@,
            version: self.version@,
            content_hash: self.content_hash@,
            auto_approve_allowed: self.auto_approve_allowed,
        }
    }
}

impl Duplicate for ModuleManifest {
    fn dup(&self) -> (r: Self) {
        ModuleManifest {
            name: self.name.dup(),
            version: self.version.dup(),
            content_hash: self.content_hash.dup(),
            auto_approve_allowed: self.auto_approve_allowed,
        }
    }
}

/// An artefact: its bytes, under the label they carry and the subject they belong to.
#[derive(Debug)]
pub struct Blob {
    pub subject: String,
    pub label: Label,
    pub bytes: Vec<u8>,
}

/// What a [`Blob`] says.
#[verifier::ext_equal]
pub struct BlobView {
    pub subject: Seq<char>,
    pub label: Label,
    pub bytes: Seq<u8>,
}

impl View for Blob {
    type V = BlobView;

    open spec fn view(&self) -> BlobView {
        BlobView { subject: self.subject@, label: self.label, bytes: self.bytes@ }
    }
}

/// An artefact without its bytes.
#[derive(Debug)]
pub struct BlobEnvelope {
    pub hash: String,
    pub subject: String,
    pub label: Label,
    pub len: u64,
}

/// What a [`BlobEnvelope`] says.
#[verifier::ext_equal]
pub struct BlobEnvelopeView {
    pub hash: Seq<char>,
    pub subject: Seq<char>,
    pub label: Label,
    pub len: u64,
}

impl View for BlobEnvelope {
    type V = BlobEnvelopeView;

    open spec fn view(&self) -> BlobEnvelopeView {
        BlobEnvelopeView {
            hash: self.hash@,
            subject: self.subject@,
            label: self.label,
            len: self.len,
        }
    }
}

impl Duplicate for BlobEnvelope {
    fn dup(&self) -> (r: Self) {
        BlobEnvelope {
            hash: self.hash.dup(),
            subject: self.subject.dup(),
            label: self.label,
            len: self.len,
        }
    }
}

/// What the calls on one arch came to. A counter that has reached its largest
/// value stays there.
#[derive(Debug)]
pub struct ArchStats {
    pub calls: u64,
    /// The measured count of each call where the arch gave one, else the estimate.
    pub tokens_in: u64,
    /// How much of `tokens_in` was measured.
    pub tokens_in_measured: u64,
    pub projected: u64,
    /// What the calls would have cost at list price, one number for each call
    /// that reported one, as it was written.
    pub costs: Vec<String>,
}

/// What a [`ArchStats`] says.
#[verifier::ext_equal]
pub struct ArchStatsView {
    pub calls: u64,
    pub tokens_in: u64,
    pub tokens_in_measured: u64,
    pub projected: u64,
    pub costs: Seq<Seq<char>>,
}

impl View for ArchStats {
    type V = ArchStatsView;

    open spec fn view(&self) -> ArchStatsView {
        ArchStatsView {
            calls: self.calls,
            tokens_in: self.tokens_in,
            tokens_in_measured: self.tokens_in_measured,
            projected: self.projected,
            costs: all(self.costs@),
        }
    }
}

impl Duplicate for ArchStats {
    fn dup(&self) -> (r: Self) {
        ArchStats {
            calls: self.calls,
            tokens_in: self.tokens_in,
            tokens_in_measured: self.tokens_in_measured,
            projected: self.projected,
            costs: dup_all(&self.costs),
        }
    }
}

/// Everything that outlives the process.
pub struct Store {
    pub registers: Table<Register>,
    pub tasks: Table<Task>,
    pub stops: Table<StopEvent>,
    pub resumes: Table<ResumeEvent>,
    pub devices: Table<DeviceRow>,
    pub arches: Table<ArchManifest>,
    pub mounts: Table<MountSpec>,
    pub fences: Table<u64>,
    pub leases: Table<Lease>,
    pub approvals: Table<Approval>,
    pub hot: Table<ModuleManifest>,
    pub liveness: Table<LivenessLease>,
    pub blobs: Table<Blob>,
    pub stats: Table<ArchStats>,
    pub counter: u64,
    pub policies_version: Option<String>,
    pub ledger: Vec<LedgerEvent>,
    pub state_dir: String,
    /// Whether paths are as on Windows.
    pub windows: bool,
}

/// What a [`Store`] holds.
#[verifier::ext_equal]
pub struct StoreView {
    pub registers: Map<Seq<char>, RegisterView>,
    pub tasks: Map<Seq<char>, TaskView>,
    pub stops: Map<Seq<char>, StopEventView>,
    pub resumes: Map<Seq<char>, ResumeEventView>,
    pub devices: Map<Seq<char>, DeviceRowView>,
    pub arches: Map<Seq<char>, ArchManifestView>,
    pub mounts: Map<Seq<char>, MountSpecView>,
    pub fences: Map<Seq<char>, u64>,
    pub leases: Map<Seq<char>, LeaseView>,
    pub approvals: Map<Seq<char>, ApprovalView>,
    pub hot: Map<Seq<char>, ModuleManifestView>,
    pub liveness: Map<Seq<char>, LivenessLeaseView>,
    pub blobs: Map<Seq<char>, BlobView>,
    pub stats: Map<Seq<char>, ArchStatsView>,
    pub counter: u64,
    pub policies_version: Option<Seq<char>>,
    pub ledger: Seq<LedgerEventView>,
    pub state_dir: Seq<char>,
    pub windows: bool,
}

impl View for Store {
    type V = StoreView;

    open spec fn view(&self) -> StoreView {
        StoreView {
            registers: self.registers@,
            tasks: self.tasks@,
            stops: self.stops@,
            resumes: self.resumes@,
            devices: self.devices@,
            arches: self.arches@,
            mounts: self.mounts@,
            fences: self.fences@,
            leases: self.leases@,
            approvals: self.approvals@,
            hot: self.hot@,
            liveness: self.liveness@,
            blobs: self.blobs@,
            stats: self.stats@,
            counter: self.counter,
            policies_version: opt(self.policies_version),
            ledger: all(self.ledger@),
            state_dir: self.state_dir@,
            windows: self.windows,
        }
    }
}

impl Store {
    /// Every table is in the order of its keys.
    pub open spec fn wf(&self) -> bool {
        &&& self.registers.wf()
        &&& self.tasks.wf()
        &&& self.stops.wf()
        &&& self.resumes.wf()
        &&& self.devices.wf()
        &&& self.arches.wf()
        &&& self.mounts.wf()
        &&& self.fences.wf()
        &&& self.leases.wf()
        &&& self.approvals.wf()
        &&& self.hot.wf()
        &&& self.liveness.wf()
        &&& self.blobs.wf()
        &&& self.stats.wf()
    }

    /// A store that holds nothing yet, where paths are as on Unix.
    pub fn new(state_dir: &str) -> (r: Store)
        ensures
            r.wf(),
            r@ == empty_store(state_dir@, false),
    {
        Store::new_on(state_dir, false)
    }

    /// A store that holds nothing yet, where paths are as this says.
    pub fn new_on(state_dir: &str, windows: bool) -> (r: Store)
        ensures
            r.wf(),
            r@ == empty_store(state_dir@, windows),
    {
        let r = Store {
            registers: Table::new(),
            tasks: Table::new(),
            stops: Table::new(),
            resumes: Table::new(),
            devices: Table::new(),
            arches: Table::new(),
            mounts: Table::new(),
            fences: Table::new(),
            leases: Table::new(),
            approvals: Table::new(),
            hot: Table::new(),
            liveness: Table::new(),
            blobs: Table::new(),
            stats: Table::new(),
            counter: 0,
            policies_version: None,
            ledger: Vec::new(),
            state_dir: state_dir.to_owned(),
            windows,
        };
        assert(all(r.ledger@) =~= Seq::<LedgerEventView>::empty());
        r
    }
}

/// The store that holds nothing yet.
pub open spec fn empty_store(state_dir: Seq<char>, windows: bool) -> StoreView {
    StoreView {
        registers: Map::empty(),
        tasks: Map::empty(),
        stops: Map::empty(),
        resumes: Map::empty(),
        devices: Map::empty(),
        arches: Map::empty(),
        mounts: Map::empty(),
        fences: Map::empty(),
        leases: Map::empty(),
        approvals: Map::empty(),
        hot: Map::empty(),
        liveness: Map::empty(),
        blobs: Map::empty(),
        stats: Map::empty(),
        counter: 0,
        policies_version: None,
        ledger: Seq::empty(),
        state_dir,
        windows,
    }
}

} // verus!
