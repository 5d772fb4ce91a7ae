//! The register: the working document of one task.
use crate::labels::{Label, Origin};
use crate::model::{all, dup_all, Duplicate};
use vstd::prelude::*;

verus! {

/// A piece of evidence on a register, with where it came from.
#[derive(Debug)]
pub struct Evidence {
    pub content: String,
    pub origin: Origin,
    pub source_hash: String,
}

/// What a [`Evidence`] says.
#[verifier::ext_equal]
pub struct EvidenceView {
    pub content: Seq<char>,
    pub origin: Origin,
    pub source_hash: Seq<char>,
}

impl View for Evidence {
    type V = EvidenceView;

    open spec fn view(&self) -> EvidenceView {
        EvidenceView {
            content: self.content@,
            origin: self.origin,
            source_hash: self.source_hash@,
        }
    }
}

impl Duplicate for Evidence {
    fn dup(&self) -> (r: Self) {
        Evidence {
            content: self.content.dup(),
            origin: self.origin,
            source_hash: self.source_hash.dup(),
        }
    }
}

/// An artefact attached to a register: the address of its bytes and what it is.
#[derive(Debug)]
pub struct ArtefactRef {
    pub hash: String,
    pub kind: String,
}

/// What a [`ArtefactRef`] says.
#[verifier::ext_equal]
pub struct ArtefactRefView {
    pub hash: Seq<char>,
    pub kind: Seq<char>,
}

impl View for ArtefactRef {
    type V = ArtefactRefView;

    open spec fn view(&self) -> ArtefactRefView {
        ArtefactRefView {
            hash: self.hash@,
            kind: self.kind@,
        }
    }
}

impl Duplicate for ArtefactRef {
    fn dup(&self) -> (r: Self) {
        ArtefactRef {
            hash: self.hash.dup(),
            kind: self.kind.dup(),
        }
    }
}

/// What is known and decided about one task, under one label.
#[derive(Debug)]
pub struct Register {
    pub id: String,
    pub task_id: String,
    pub label: Label,
    pub goal: String,
    pub constraints: Vec<String>,
    pub evidence: Vec<Evidence>,
    pub decisions: Vec<String>,
    pub open_questions: Vec<String>,
    pub artefacts: Vec<ArtefactRef>,
}

/// What a [`Register`] says.
#[verifier::ext_equal]
pub struct RegisterView {
    pub id: Seq<char>,
    pub task_id: Seq<char>,
    pub label: Label,
    pub goal: Seq<char>,
    pub constraints: Seq<Seq<char>>,
    pub evidence: Seq<EvidenceView>,
    pub decisions: Seq<Seq<char>>,
    pub open_questions: Seq<Seq<char>>,
    pub artefacts: Seq<ArtefactRefView>,
}

impl View for Register {
    type V = RegisterView;

    open spec fn view(&self) -> RegisterView {
        RegisterView {
            id: self.id@,
            task_id: self.task_id@,
            label: self.label,
            goal: self.goal@,
            constraints: all(self.constraints@),
            evidence: all(self.evidence@),
            decisions: all(self.decisions@),
            open_questions: all(self.open_questions@),
            artefacts: all(self.artefacts@),
        }
    }
}

impl Duplicate for Register {
    fn dup(&self) -> (r: Self) {
        Register {
            id: self.id.dup(),
            task_id: self.task_id.dup(),
            label: self.label,
            goal: self.goal.dup(),
            constraints: dup_all(&self.constraints),
            evidence: dup_all(&self.evidence),
            decisions: dup_all(&self.decisions),
            open_questions: dup_all(&self.open_questions),
            artefacts: dup_all(&self.artefacts),
        }
    }
}

} // verus!
