//! Arch adapters: what runs a prompt.
use crate::json::{Json, JsonView};
use crate::manifest::{ArchManifest, ArchManifestView};
use crate::model::opt;
use crate::projection::{first_line, first_line_of};
use crate::text::{begins, begins_with, cat3, chars_of, text_of};
use vstd::prelude::*;
use vstd::string::*;
use vstd::utf8::encode_utf8;

verus! {

/// What an arch hands back from one call: the text, and whatever it measured of
/// the call itself. A cost is kept as the provider wrote it.
#[derive(Debug)]
pub struct Completion {
    pub text: String,
    pub tokens_in_measured: Option<u32>,
    pub cost_list_usd: Option<String>,
    pub details: Option<Json>,
}

/// What a [`Completion`] says.
pub struct CompletionView {
    pub text: Seq<char>,
    pub tokens_in_measured: Option<u32>,
    pub cost_list_usd: Option<Seq<char>>,
    pub details: Option<JsonView>,
}

impl View for Completion {
    type V = CompletionView;

    open spec fn view(&self) -> CompletionView {
        CompletionView {
            text: self.text@,
            tokens_in_measured: self.tokens_in_measured,
            cost_list_usd: opt(self.cost_list_usd),
            details: opt(self.details),
        }
    }
}

impl Completion {
    /// A completion from an arch that measured nothing.
    pub fn text(text: &str) -> (r: Completion)
        ensures
            r@ == plain_completion(text@),
    {
        Completion {
            text: text.to_owned(),
            tokens_in_measured: None,
            cost_list_usd: None,
            details: None,
        }
    }
}

/// The completion that is its text alone.
pub open spec fn plain_completion(text: Seq<char>) -> CompletionView {
    CompletionView { text, tokens_in_measured: None, cost_list_usd: None, details: None }
}

/// Why an arch gave no answer: its own context was too small, or anything else.
#[derive(Debug)]
pub enum AdapterError {
    I4Prime { needed: u32, ceiling: u32 },
    Other(String),
}

/// What an [`AdapterError`] says.
pub enum AdapterErrorView {
    I4Prime { needed: u32, ceiling: u32 },
    Other(Seq<char>),
}

impl View for AdapterError {
    type V = AdapterErrorView;

    open spec fn view(&self) -> AdapterErrorView {
        match self {
            AdapterError::I4Prime { needed, ceiling } => AdapterErrorView::I4Prime {
                needed: *needed,
                ceiling: *ceiling,
            },
            AdapterError::Other(why) => AdapterErrorView::Other(why@),
        }
    }
}

/// What an arch's answer says.
pub open spec fn answer_view(r: Result<Completion, AdapterError>) -> Result<
    CompletionView,
    AdapterErrorView,
> {
    match r {
        Ok(c) => Ok(c@),
        Err(e) => Err(e@),
    }
}

/// An arch that this node can hand a prompt to. What it declares, its context
/// budget and its count of a text's tokens are properties of the adapter; its
/// answer to a prompt is whatever it may answer.
pub trait ArchAdapter: Sized {
    /// What the adapter declares.
    spec fn declared(&self) -> ArchManifestView;

    /// Its context budget, in tokens.
    spec fn budget(&self) -> nat;

    /// How many tokens it takes a text to be.
    spec fn tokens(&self, text: Seq<char>) -> nat;

    /// Whether `answer` may come back for `prompt`.
    spec fn may_answer(
        &self,
        prompt: Seq<char>,
        max_tokens: nat,
        answer: Result<CompletionView, AdapterErrorView>,
    ) -> bool;

    fn manifest(&self) -> (m: &ArchManifest)
        ensures
            m@ == self.declared(),
    ;

    fn context_budget(&self) -> (n: u32)
        ensures
            n == self.budget(),
    ;

    fn count_tokens(&self, text: &str) -> (n: u32)
        ensures
            n == self.tokens(text@),
    ;

    fn complete(&self, prompt: &str, max_tokens: u32) -> (r: Result<Completion, AdapterError>)
        ensures
            self.may_answer(prompt@, max_tokens as nat, answer_view(r)),
    ;
}

/// An arch that answers with the start of its prompt.
#[derive(Debug)]
pub struct MockAdapter {
    pub manifest: ArchManifest,
    pub budget: u32,
}

/// A text in upper case.
pub uninterp spec fn uppercase_of(s: Seq<char>) -> Seq<char>;

/// `str::to_uppercase` is a function of the text.
#[verifier::external_body]
fn uppercase(s: &str) -> (r: String)
    ensures
        r@ == uppercase_of(s@),
{
    s.to_uppercase()
}

/// `s` without any number of `p` at its front.
pub open spec fn without_prefixes(s: Seq<char>, p: Seq<char>) -> Seq<char>
    decreases s.len(),
{
    if p.len() > 0 && begins(s, p) {
        without_prefixes(s.skip(p.len() as int), p)
    } else {
        s
    }
}

/// `s` without any number of `p` at its front.
pub fn strip_prefixes(s: &str, p: &str) -> (r: String)
    ensures
        r@ == without_prefixes(s@, p@),
{
    let mut rest = s.to_owned();
    let n: usize = p.unicode_len();
    while n > 0 && begins_with(rest.as_str(), p)
        invariant
            n == p@.len(),
            without_prefixes(s@, p@) == without_prefixes(rest@, p@),
        decreases rest@.len(),
    {
        let v = chars_of(rest.as_str());
        assert(v@.subrange(n as int, v@.len() as int) =~= rest@.skip(n as int));
        rest = text_of(&v, n, v.len());
    }
    rest
}

/// What the mock answers to a prompt: the role its first line names, in upper
/// case, and the first two hundred characters of the prompt.
pub open spec fn mock_answer(prompt: Seq<char>) -> Seq<char> {
    let role = uppercase_of(without_prefixes(first_line(prompt), "ROLE: "@));
    let body = if prompt.len() <= 200 {
        prompt
    } else {
        prompt.take(200)
    };
    role + ": "@ + body
}

impl ArchAdapter for MockAdapter {
    open spec fn declared(&self) -> ArchManifestView {
        self.manifest@
    }

    open spec fn budget(&self) -> nat {
        self.budget as nat
    }

    open spec fn tokens(&self, text: Seq<char>) -> nat {
        mock_tokens(text)
    }

    open spec fn may_answer(
        &self,
        prompt: Seq<char>,
        max_tokens: nat,
        answer: Result<CompletionView, AdapterErrorView>,
    ) -> bool {
        answer == Ok::<CompletionView, AdapterErrorView>(plain_completion(mock_answer(prompt)))
    }

    fn manifest(&self) -> (m: &ArchManifest) {
        &self.manifest
    }

    fn context_budget(&self) -> (n: u32) {
        self.budget
    }

    fn count_tokens(&self, text: &str) -> (n: u32) {
        estimate(text)
    }

    fn complete(&self, prompt: &str, max_tokens: u32) -> (r: Result<Completion, AdapterError>) {
        let role = uppercase(strip_prefixes(first_line_of(prompt).as_str(), "ROLE: ").as_str());
        let v = chars_of(prompt);
        let n: usize = if v.len() <= 200 {
            v.len()
        } else {
            200
        };
        let body = text_of(&v, 0, n);
        assert(body@ =~= if prompt@.len() <= 200 {
            prompt@
        } else {
            prompt@.take(200)
        });
        let text = cat3(role.as_str(), ": ", body.as_str());
        Ok(Completion::text(text.as_str()))
    }
}

fn estimate(text: &str) -> (n: u32)
    ensures
        n == mock_tokens(text@),
{
    let quarter: usize = text.as_bytes().len() / 4;
    if quarter < 0xffff_ffff {
        quarter as u32 + 1
    } else {
        0xffff_ffff
    }
}

/// A token for every four bytes, and one more; no count goes past what fits.
pub open spec fn mock_tokens(text: Seq<char>) -> nat {
    let quarter = encode_utf8(text).len() / 4;
    if quarter < 0xffff_ffff {
        quarter + 1
    } else {
        0xffff_ffff
    }
}

/// What answers prompts outside. What it says is its own.
pub trait Engine {
    /// Whether `answer` may come back for `prompt`. An engine of which nothing is known
    /// may answer anything.
    open spec fn engine_may_answer(
        &self,
        prompt: Seq<char>,
        max_tokens: nat,
        answer: Result<CompletionView, AdapterErrorView>,
    ) -> bool {
        true
    }

    fn complete(&self, prompt: &str, max_tokens: u32) -> (r: Result<Completion, AdapterError>)
        ensures
            self.engine_may_answer(prompt@, max_tokens as nat, answer_view(r)),
    ;
}

/// An arch whose answers come from outside. A prompt is counted as a token for every
/// four bytes and one more; an engine that measures says so in its answer.
#[derive(Debug)]
pub struct EngineAdapter<E> {
    pub manifest: ArchManifest,
    pub budget: u32,
    pub engine: E,
}

impl<E: Engine> ArchAdapter for EngineAdapter<E> {
    open spec fn declared(&self) -> ArchManifestView {
        self.manifest@
    }

    open spec fn budget(&self) -> nat {
        self.budget as nat
    }

    open spec fn tokens(&self, text: Seq<char>) -> nat {
        mock_tokens(text)
    }

    open spec fn may_answer(
        &self,
        prompt: Seq<char>,
        max_tokens: nat,
        answer: Result<CompletionView, AdapterErrorView>,
    ) -> bool {
        self.engine.engine_may_answer(prompt, max_tokens, answer)
    }

    fn manifest(&self) -> (m: &ArchManifest) {
        &self.manifest
    }

    fn context_budget(&self) -> (n: u32) {
        self.budget
    }

    fn count_tokens(&self, text: &str) -> (n: u32) {
        estimate(text)
    }

    fn complete(&self, prompt: &str, max_tokens: u32) -> (r: Result<Completion, AdapterError>) {
        self.engine.complete(prompt, max_tokens)
    }
}

/// What a node mounts: a mock, or an arch whose answers come from outside.
#[derive(Debug)]
pub enum Arch<E> {
    Mock(MockAdapter),
    Engine(EngineAdapter<E>),
}

impl<E: Engine> ArchAdapter for Arch<E> {
    open spec fn declared(&self) -> ArchManifestView {
        match self {
            Arch::Mock(a) => a.declared(),
            Arch::Engine(a) => a.declared(),
        }
    }

    open spec fn budget(&self) -> nat {
        match self {
            Arch::Mock(a) => a.budget(),
            Arch::Engine(a) => a.budget(),
        }
    }

    open spec fn tokens(&self, text: Seq<char>) -> nat {
        mock_tokens(text)
    }

    open spec fn may_answer(
        &self,
        prompt: Seq<char>,
        max_tokens: nat,
        answer: Result<CompletionView, AdapterErrorView>,
    ) -> bool {
        match self {
            Arch::Mock(a) => a.may_answer(prompt, max_tokens, answer),
            Arch::Engine(a) => a.may_answer(prompt, max_tokens, answer),
        }
    }

    fn manifest(&self) -> (m: &ArchManifest) {
        match self {
            Arch::Mock(a) => a.manifest(),
            Arch::Engine(a) => a.manifest(),
        }
    }

    fn context_budget(&self) -> (n: u32) {
        match self {
            Arch::Mock(a) => a.context_budget(),
            Arch::Engine(a) => a.context_budget(),
        }
    }

    fn count_tokens(&self, text: &str) -> (n: u32) {
        estimate(text)
    }

    fn complete(&self, prompt: &str, max_tokens: u32) -> (r: Result<Completion, AdapterError>) {
        match self {
            Arch::Mock(a) => a.complete(prompt, max_tokens),
            Arch::Engine(a) => a.complete(prompt, max_tokens),
        }
    }
}

} // verus!
