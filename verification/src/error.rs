//! Why a call was refused.
use crate::model::Duplicate;
use crate::text::{cat, cat3};
use vstd::prelude::*;

verus! {

/// Why the kernel refused a call.
#[derive(Debug)]
pub enum KernelError {
    /// A rule on who may act as a person was broken.
    I1(String),
    /// Something above the clearance of who asked.
    I2(String),
    /// A rule on merged writes was broken.
    I3(String),
    /// An automation without a live lease of attention.
    I4(String),
    /// A prompt that does not fit, and would have to be mutilated.
    I4Prime(String),
    /// The scope is stopped.
    Stopped(String),
    /// A resource is held by somebody else.
    Lock(String),
    /// A device or a signature was refused.
    Principal(String),
    /// A stop or a resume was refused.
    Stop(String),
    /// A module manifest was refused.
    Module(String),
    /// A gate refused the call.
    Gate(String),
    /// What was named is not there.
    NotFound(String),
    /// A read or a write failed, or the machinery behind an arch.
    Store(String),
    /// The arch is still being made; the call may be repeated.
    ArchStarting(String),
    /// The arch cannot be used, and this is why.
    ArchUnavailable(String),
}

/// What a [`KernelError`] says.
pub enum KernelErrorView {
    I1(Seq<char>),
    I2(Seq<char>),
    I3(Seq<char>),
    I4(Seq<char>),
    I4Prime(Seq<char>),
    Stopped(Seq<char>),
    Lock(Seq<char>),
    Principal(Seq<char>),
    Stop(Seq<char>),
    Module(Seq<char>),
    Gate(Seq<char>),
    NotFound(Seq<char>),
    Store(Seq<char>),
    ArchStarting(Seq<char>),
    ArchUnavailable(Seq<char>),
}

impl View for KernelError {
    type V = KernelErrorView;

    open spec fn view(&self) -> KernelErrorView {
        match self {
            KernelError::I1(s) => KernelErrorView::I1(s@),
            KernelError::I2(s) => KernelErrorView::I2(s@),
            KernelError::I3(s) => KernelErrorView::I3(s@),
            KernelError::I4(s) => KernelErrorView::I4(s@),
            KernelError::I4Prime(s) => KernelErrorView::I4Prime(s@),
            KernelError::Stopped(s) => KernelErrorView::Stopped(s@),
            KernelError::Lock(s) => KernelErrorView::Lock(s@),
            KernelError::Principal(s) => KernelErrorView::Principal(s@),
            KernelError::Stop(s) => KernelErrorView::Stop(s@),
            KernelError::Module(s) => KernelErrorView::Module(s@),
            KernelError::Gate(s) => KernelErrorView::Gate(s@),
            KernelError::NotFound(s) => KernelErrorView::NotFound(s@),
            KernelError::Store(s) => KernelErrorView::Store(s@),
            KernelError::ArchStarting(s) => KernelErrorView::ArchStarting(s@),
            KernelError::ArchUnavailable(s) => KernelErrorView::ArchUnavailable(s@),
        }
    }
}

impl Duplicate for KernelError {
    fn dup(&self) -> (r: Self) {
        match self {
            KernelError::I1(s) => KernelError::I1(s.dup()),
            KernelError::I2(s) => KernelError::I2(s.dup()),
            KernelError::I3(s) => KernelError::I3(s.dup()),
            KernelError::I4(s) => KernelError::I4(s.dup()),
            KernelError::I4Prime(s) => KernelError::I4Prime(s.dup()),
            KernelError::Stopped(s) => KernelError::Stopped(s.dup()),
            KernelError::Lock(s) => KernelError::Lock(s.dup()),
            KernelError::Principal(s) => KernelError::Principal(s.dup()),
            KernelError::Stop(s) => KernelError::Stop(s.dup()),
            KernelError::Module(s) => KernelError::Module(s.dup()),
            KernelError::Gate(s) => KernelError::Gate(s.dup()),
            KernelError::NotFound(s) => KernelError::NotFound(s.dup()),
            KernelError::Store(s) => KernelError::Store(s.dup()),
            KernelError::ArchStarting(s) => KernelError::ArchStarting(s.dup()),
            KernelError::ArchUnavailable(s) => KernelError::ArchUnavailable(s.dup()),
        }
    }
}

/// A refusal as a person reads it.
pub open spec fn error_text(e: KernelErrorView) -> Seq<char> {
    match e {
        KernelErrorView::I1(s) => "I1: "@ + s,
        KernelErrorView::I2(s) => "I2: "@ + s,
        KernelErrorView::I3(s) => "I3: "@ + s,
        KernelErrorView::I4(s) => "I4: "@ + s,
        KernelErrorView::I4Prime(s) => "I4': "@ + s,
        KernelErrorView::Stopped(s) => "scope is stopped: "@ + s,
        KernelErrorView::Lock(s) => "lock: "@ + s,
        KernelErrorView::Principal(s) => "principal: "@ + s,
        KernelErrorView::Stop(s) => "stop: "@ + s,
        KernelErrorView::Module(s) => "module: "@ + s,
        KernelErrorView::Gate(s) => "gate: "@ + s,
        KernelErrorView::NotFound(s) => "not found: "@ + s,
        KernelErrorView::Store(s) => "store: "@ + s,
        KernelErrorView::ArchStarting(s) => "arch "@ + s + " is starting; retry"@,
        KernelErrorView::ArchUnavailable(s) => "arch unavailable: "@ + s,
    }
}

impl KernelError {
    /// The refusal as a person reads it.
    pub fn text(&self) -> (r: String)
        ensures
            r@ == error_text(self@),
    {
        match self {
            KernelError::I1(s) => cat("I1: ", s.as_str()),
            KernelError::I2(s) => cat("I2: ", s.as_str()),
            KernelError::I3(s) => cat("I3: ", s.as_str()),
            KernelError::I4(s) => cat("I4: ", s.as_str()),
            KernelError::I4Prime(s) => cat("I4': ", s.as_str()),
            KernelError::Stopped(s) => cat("scope is stopped: ", s.as_str()),
            KernelError::Lock(s) => cat("lock: ", s.as_str()),
            KernelError::Principal(s) => cat("principal: ", s.as_str()),
            KernelError::Stop(s) => cat("stop: ", s.as_str()),
            KernelError::Module(s) => cat("module: ", s.as_str()),
            KernelError::Gate(s) => cat("gate: ", s.as_str()),
            KernelError::NotFound(s) => cat("not found: ", s.as_str()),
            KernelError::Store(s) => cat("store: ", s.as_str()),
            KernelError::ArchStarting(s) => cat3("arch ", s.as_str(), " is starting; retry"),
            KernelError::ArchUnavailable(s) => cat("arch unavailable: ", s.as_str()),
        }
    }
}

} // verus!
