//! Labels and clearances: who may see what.
use vstd::prelude::*;

verus! {

/// How far data may travel, from the widest audience to the narrowest.
#[derive(Clone, Copy, Debug, PartialEq, Eq, Structural)]
pub enum Scope {
    Public,
    Vertical,
    Business,
    Personal,
    Holdout,
}

impl Scope {
    /// The place of a scope in the order: a narrower audience stands higher.
    pub open spec fn rank(self) -> nat {
        match self {
            Scope::Public => 0,
            Scope::Vertical => 1,
            Scope::Business => 2,
            Scope::Personal => 3,
            Scope::Holdout => 4,
        }
    }

    /// The place of a scope in the order.
    pub fn order(&self) -> (n: u8)
        ensures
            n == self.rank(),
    {
        match self {
            Scope::Public => 0,
            Scope::Vertical => 1,
            Scope::Business => 2,
            Scope::Personal => 3,
            Scope::Holdout => 4,
        }
    }
}

/// Whose data it is.
#[derive(Clone, Copy, Debug, PartialEq, Eq, Structural)]
pub enum DataClass {
    Own,
    ThirdPartyMandated,
    Unknown,
}

/// Where a piece of text came from.
#[derive(Clone, Copy, Debug, PartialEq, Eq, Structural)]
pub enum Origin {
    OwnerAuthored,
    Web,
}

/// The set of origins that went into something.
#[derive(Clone, Copy, Debug, PartialEq, Eq, Structural)]
pub struct Origins {
    pub owner_authored: bool,
    pub web: bool,
}

/// What a register or an artefact carries: its scope, its data class and its origins.
#[derive(Clone, Copy, Debug, PartialEq, Eq, Structural)]
pub struct Label {
    pub scope: Scope,
    pub data_class: DataClass,
    pub origins: Origins,
}

/// What a caller, an arch or a harness is allowed to see.
#[derive(Clone, Copy, Debug, PartialEq, Eq, Structural)]
pub struct Clearance {
    pub max_scope: Scope,
    pub third_party_allowed: bool,
}

/// Whether data under `label` may be shown to somebody cleared for `clearance`:
/// its scope is within reach, and it is the owner's own unless third-party data
/// is allowed. Data of an unknown class counts as somebody else's.
pub open spec fn flows(label: Label, clearance: Clearance) -> bool {
    &&& label.scope.rank() <= clearance.max_scope.rank()
    &&& label.data_class == DataClass::Own || clearance.third_party_allowed
}

impl Label {
    /// The label of public data of one's own, with no origin recorded.
    pub fn bottom() -> (r: Label)
        ensures
            r == bottom_label(),
    {
        Label {
            scope: Scope::Public,
            data_class: DataClass::Own,
            origins: Origins { owner_authored: false, web: false },
        }
    }

    /// Whether this label flows to `clearance`.
    pub fn flows_to(&self, clearance: &Clearance) -> (r: bool)
        ensures
            r == flows(*self, *clearance),
    {
        self.scope.order() <= clearance.max_scope.order() && (self.data_class == DataClass::Own
            || clearance.third_party_allowed)
    }
}

/// The label that flows to every clearance.
pub open spec fn bottom_label() -> Label {
    Label {
        scope: Scope::Public,
        data_class: DataClass::Own,
        origins: Origins { owner_authored: false, web: false },
    }
}

/// Whether everything that one clearance admits the other admits too.
pub open spec fn within(lower: Clearance, upper: Clearance) -> bool {
    &&& lower.max_scope.rank() <= upper.max_scope.rank()
    &&& lower.third_party_allowed ==> upper.third_party_allowed
}

/// A higher clearance sees at least as much.
pub proof fn clearance_is_monotone(label: Label, lower: Clearance, upper: Clearance)
    requires
        within(lower, upper),
        flows(label, lower),
    ensures
        flows(label, upper),
{
}

/// The bottom label flows everywhere.
pub proof fn bottom_flows_everywhere(clearance: Clearance)
    ensures
        flows(bottom_label(), clearance),
{
}

/// The scopes stand in one order, from the widest audience to the narrowest, and nothing flows
/// to who is not cleared so far.
pub proof fn scopes_stand_in_order(label: Label, c: Clearance)
    ensures
        Scope::Public.rank() < Scope::Vertical.rank(),
        Scope::Vertical.rank() < Scope::Business.rank(),
        Scope::Business.rank() < Scope::Personal.rank(),
        Scope::Personal.rank() < Scope::Holdout.rank(),
        flows(label, c) <==> label.scope.rank() <= c.max_scope.rank() && (
        label.data_class != DataClass::Own ==> c.third_party_allowed),
        label.scope == Scope::Holdout && c.max_scope != Scope::Holdout ==> !flows(
            label,
            c,
        ),
        label.scope == Scope::Personal && (c.max_scope == Scope::Business || c.max_scope
            == Scope::Public) ==> !flows(label, c),
{
}

} // verus!
