//! What an arch declares of itself.
use crate::hash::text_hash;
use crate::json::{
    copy_members, hash_canonical, json_text, members, same_members, JsonView, Member,
};
use crate::labels::Clearance;
use crate::model::{dup_opt, opt, same_opt, Duplicate, Same};
use crate::wire::{identity_json, identity_to_json};
use vstd::prelude::*;

verus! {

/// What a register is handed to an arch for.
#[derive(Clone, Copy, Debug, PartialEq, Eq, Structural)]
pub enum Capability {
    Generate,
    Plan,
    Judge,
}

/// The capabilities an arch declares.
#[derive(Clone, Copy, Debug, PartialEq, Eq, Structural)]
pub struct Capabilities {
    pub generate: bool,
    pub plan: bool,
    pub judge: bool,
}

/// Where an arch runs.
#[derive(Clone, Copy, Debug, PartialEq, Eq, Structural)]
pub enum Locality {
    Local,
    OnPrem,
    Peer,
    Cloud,
}

/// A locality as the wire spells it.
pub open spec fn locality_text(l: Locality) -> Seq<char> {
    match l {
        Locality::Local => "local"@,
        Locality::OnPrem => "on_prem"@,
        Locality::Peer => "peer"@,
        Locality::Cloud => "cloud"@,
    }
}

/// A locality as the wire spells it.
pub fn locality_name(l: Locality) -> (r: &'static str)
    ensures
        r@ == locality_text(l),
{
    match l {
        Locality::Local => "local",
        Locality::OnPrem => "on_prem",
        Locality::Peer => "peer",
        Locality::Cloud => "cloud",
    }
}

/// Whether the same prompt gets the same answer.
#[derive(Clone, Copy, Debug, PartialEq, Eq, Structural)]
pub enum Determinism {
    SeededDeterministic,
    NonDeterministic,
}

/// What makes an arch the arch it is: the weights and the engine that runs them.
#[derive(Debug)]
pub struct ArchIdentity {
    pub weights_sha256: String,
    pub engine: String,
    pub engine_version: String,
    pub backend: String,
    pub quant: String,
    pub kv_cache: String,
    pub threads: u32,
    pub batch: u32,
    /// The settings it samples with, by name.
    pub sampling: Vec<Member>,
    pub seed: Option<u64>,
}

/// What a [`ArchIdentity`] says.
#[verifier::ext_equal]
pub struct ArchIdentityView {
    pub weights_sha256: Seq<char>,
    pub engine: Seq<char>,
    pub engine_version: Seq<char>,
    pub backend: Seq<char>,
    pub quant: Seq<char>,
    pub kv_cache: Seq<char>,
    pub threads: u32,
    pub batch: u32,
    pub sampling: Seq<(Seq<char>, JsonView)>,
    pub seed: Option<u64>,
}

impl View for ArchIdentity {
    type V = ArchIdentityView;

    open spec fn view(&self) -> ArchIdentityView {
        ArchIdentityView {
            weights_sha256: self.weights_sha256@,
            engine: self.engine@,
            engine_version: self.engine_version@,
            backend: self.backend@,
            quant: self.quant@,
            kv_cache: self.kv_cache@,
            threads: self.threads,
            batch: self.batch,
            sampling: members(self.sampling@),
            seed: self.seed,
        }
    }
}

impl Duplicate for ArchIdentity {
    fn dup(&self) -> (r: Self) {
        ArchIdentity {
            weights_sha256: self.weights_sha256.dup(),
            engine: self.engine.dup(),
            engine_version: self.engine_version.dup(),
            backend: self.backend.dup(),
            quant: self.quant.dup(),
            kv_cache: self.kv_cache.dup(),
            threads: self.threads,
            batch: self.batch,
            sampling: copy_members(&self.sampling),
            seed: self.seed,
        }
    }
}

impl Same for ArchIdentity {
    fn same_as(&self, other: &Self) -> (r: bool) {
        self.weights_sha256.same_as(&other.weights_sha256)
            && self.engine.same_as(&other.engine)
            && self.engine_version.same_as(&other.engine_version)
            && self.backend.same_as(&other.backend)
            && self.quant.same_as(&other.quant)
            && self.kv_cache.same_as(&other.kv_cache)
            && self.threads == other.threads
            && self.batch == other.batch
            && same_members(&self.sampling, &other.sampling)
            && same_number(self.seed, other.seed)
    }
}

/// The manifest of an arch. The price is kept as it was written: it is
/// compared and shown, never computed with.
#[derive(Debug)]
pub struct ArchManifest {
    pub name: String,
    pub capabilities: Capabilities,
    pub locality: Locality,
    pub jurisdiction: String,
    pub retention_days: Option<u32>,
    pub cost_per_1k_tokens_eur: Option<String>,
    pub latency_ms_p50: u32,
    pub context_ceiling: u32,
    pub determinism: Determinism,
    pub identity: ArchIdentity,
    pub clearance: Clearance,
    pub governed: bool,
}

/// What a [`ArchManifest`] says.
#[verifier::ext_equal]
pub struct ArchManifestView {
    pub name: Seq<char>,
    pub capabilities: Capabilities,
    pub locality: Locality,
    pub jurisdiction: Seq<char>,
    pub retention_days: Option<u32>,
    pub cost_per_1k_tokens_eur: Option<Seq<char>>,
    pub latency_ms_p50: u32,
    pub context_ceiling: u32,
    pub determinism: Determinism,
    pub identity: ArchIdentityView,
    pub clearance: Clearance,
    pub governed: bool,
}

impl View for ArchManifest {
    type V = ArchManifestView;

    open spec fn view(&self) -> ArchManifestView {
        ArchManifestView {
            name: self.name@,
            capabilities: self.capabilities,
            locality: self.locality,
            jurisdiction: self.jurisdiction@,
            retention_days: self.retention_days,
            cost_per_1k_tokens_eur: opt(self.cost_per_1k_tokens_eur),
            latency_ms_p50: self.latency_ms_p50,
            context_ceiling: self.context_ceiling,
            determinism: self.determinism,
            identity: self.identity@,
            clearance: self.clearance,
            governed: self.governed,
        }
    }
}

impl Duplicate for ArchManifest {
    fn dup(&self) -> (r: Self) {
        ArchManifest {
            name: self.name.dup(),
            capabilities: self.capabilities,
            locality: self.locality,
            jurisdiction: self.jurisdiction.dup(),
            retention_days: self.retention_days,
            cost_per_1k_tokens_eur: dup_opt(&self.cost_per_1k_tokens_eur),
            latency_ms_p50: self.latency_ms_p50,
            context_ceiling: self.context_ceiling,
            determinism: self.determinism,
            identity: self.identity.dup(),
            clearance: self.clearance,
            governed: self.governed,
        }
    }
}

impl Same for ArchManifest {
    fn same_as(&self, other: &Self) -> (r: bool) {
        self.name.same_as(&other.name)
            && self.capabilities == other.capabilities
            && self.locality == other.locality
            && self.jurisdiction.same_as(&other.jurisdiction)
            && same_small(self.retention_days, other.retention_days)
            && same_opt(&self.cost_per_1k_tokens_eur, &other.cost_per_1k_tokens_eur)
            && self.latency_ms_p50 == other.latency_ms_p50
            && self.context_ceiling == other.context_ceiling
            && self.determinism == other.determinism
            && self.identity.same_as(&other.identity)
            && self.clearance == other.clearance
            && self.governed == other.governed
    }
}

fn same_number(a: Option<u64>, b: Option<u64>) -> (r: bool)
    ensures
        r == (a == b),
{
    match (a, b) {
        (Some(x), Some(y)) => x == y,
        (None, None) => true,
        _ => false,
    }
}

fn same_small(a: Option<u32>, b: Option<u32>) -> (r: bool)
    ensures
        r == (a == b),
{
    match (a, b) {
        (Some(x), Some(y)) => x == y,
        (None, None) => true,
        _ => false,
    }
}

/// The text an arch's id is the hash of: its identity, as it is written.
pub open spec fn identity_text(i: ArchIdentityView) -> Seq<char> {
    json_text(identity_json(i))
}

/// The id of the arch with this identity.
pub open spec fn arch_id_of(i: ArchIdentityView) -> Seq<char> {
    text_hash(identity_text(i))
}

impl ArchManifest {
    /// The id of this arch: a hash of its identity, and of nothing else in the
    /// manifest.
    pub fn arch_id(&self) -> (r: String)
        ensures
            r@ == arch_id_of(self@.identity),
    {
        hash_canonical(&identity_to_json(&self.identity))
    }
}

} // verus!
