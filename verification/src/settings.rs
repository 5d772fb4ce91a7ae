//! What a daemon is started with, and what a request may configure.
use crate::arches::Remount;
use crate::json::{bool_field, field, member, text_field, Fields, Json, JsonView};
use crate::model::{opt, Duplicate};
use crate::mount::{first_secret, secret_refusal, MountSpec, MountSpecView};
use crate::path::{join_path, joined};
use crate::rpc::{bad, bad_params, rpc_outcome, RpcError, RpcErrorView};
use crate::text::{cat, cat3, cat4, chars_of, same, text_of, trim_text, trimmed};
use crate::transport::{eq_ignoring_case, same_but_case};
use vstd::prelude::*;
use vstd::string::*;

verus! {

/// How a daemon launches a harness. None of it is a request's to say.
#[derive(Debug)]
pub struct HarnessSettings {
    pub binary: String,
    pub model: Option<String>,
    /// How long one run may take.
    pub timeout_ms: u64,
}

impl HarnessSettings {
    /// How the harness of this engine is launched, unless something else is said: the
    /// program of its name, its usual model, and five minutes.
    pub fn new(engine: &str) -> (r: HarnessSettings)
        ensures
            r.binary@ == engine@,
            opt(r.model) == Some(engine@ + "-sonnet-5"@),
            r.timeout_ms == 300_000,
    {
        HarnessSettings {
            binary: engine.to_owned(),
            model: Some(cat(engine, "-sonnet-5")),
            timeout_ms: 300_000,
        }
    }
}

/// The kind of arch that an engine's command line is, which is also what a harness of it
/// is called where nothing else is said.
pub open spec fn coder_kind(engine: Seq<char>) -> Seq<char> {
    engine + "-code"@
}

/// What a daemon was started with, beside the kernel.
#[derive(Debug)]
pub struct ServerConfig {
    /// Where it serves, and where a harness calls back.
    pub endpoint: String,
    /// The engine whose command line is its harness and one kind of its arches.
    pub engine: String,
    pub harness: HarnessSettings,
    /// Where its pages are, if it serves any.
    pub web: Option<String>,
}

impl ServerConfig {
    /// The defaults, and no pages.
    pub fn new(endpoint: String, engine: &str) -> (r: ServerConfig)
        ensures
            r.endpoint@ == endpoint@,
            r.engine@ == engine@,
            r.harness.binary@ == engine@,
            opt(r.harness.model) == Some(engine@ + "-sonnet-5"@),
            r.harness.timeout_ms == 300_000,
            r.web is None,
    {
        ServerConfig {
            endpoint,
            engine: engine.to_owned(),
            harness: HarnessSettings::new(engine),
            web: None,
        }
    }
}

/// What makes the links that a person opens. Only who can reach the endpoint gets one.
pub trait WebLinks {
    /// Where the pages are.
    fn origin(&self) -> String;

    /// A link to the page where a passkey is enrolled.
    fn enroll_link(&self, now_ms: u64) -> String;

    /// A link to the page where a task is approved.
    fn approve_link(&self, task_id: &str, now_ms: u64) -> String;
}

/// The prompt a harness is launched with: what the operator adds follows it, after an
/// empty line and without the blanks around it.
pub open spec fn prompt_with(base: Seq<char>, suffix: Option<Seq<char>>) -> Seq<char> {
    match suffix {
        Some(s) => if trimmed(s).len() == 0 {
            base
        } else {
            base + "\n\n"@ + trimmed(s)
        },
        None => base,
    }
}

/// The prompt a harness is launched with.
pub fn harness_prompt(base: &str, suffix: &Option<String>) -> (r: String)
    ensures
        r@ == prompt_with(base@, opt(*suffix)),
{
    match suffix {
        Some(s) => {
            let t = trim_text(s.as_str());
            if t.as_str().unicode_len() == 0 {
                base.to_owned()
            } else {
                cat3(base, "\n\n", t.as_str())
            }
        },
        None => base.to_owned(),
    }
}

/// What the operator adds to the system prompt: nothing, where it is blank.
pub open spec fn system_added(suffix: Option<Seq<char>>) -> Option<Seq<char>> {
    match suffix {
        Some(s) => if trimmed(s).len() == 0 {
            None
        } else {
            Some(s)
        },
        None => None,
    }
}

/// What the operator adds to the system prompt.
pub fn harness_system_suffix(suffix: &Option<String>) -> (r: Option<String>)
    ensures
        opt(r) == system_added(opt(*suffix)),
{
    match suffix {
        Some(s) => if trim_text(s.as_str()).as_str().unicode_len() == 0 {
            None
        } else {
            Some(s.clone())
        },
        None => None,
    }
}

/// What a path to a program is on this machine.
#[derive(Clone, Copy, Debug, PartialEq, Eq, Structural)]
pub struct Place {
    /// Whether it has more than one component.
    pub nested: bool,
    pub absolute: bool,
    /// Whether there is a file there.
    pub file: bool,
}

/// A path that was looked at, whether there is a file there, and the path made absolute
/// where that could be done.
#[derive(Debug)]
pub struct Tried {
    pub path: String,
    pub file: bool,
    pub absolute: Option<String>,
}

impl Tried {
    /// The path from wherever it is taken: absolute, where that is known.
    pub open spec fn from_anywhere(&self) -> Seq<char> {
        match self.absolute {
            Some(a) => a@,
            None => self.path@,
        }
    }
}

/// Whether a name ends in `.exe`, in whatever case.
pub open spec fn is_exe(name: Seq<char>) -> bool {
    name.len() >= 4 && same_but_case(name.skip(name.len() - 4), ".exe"@)
}

/// The name of a program as it is looked for: with `.exe` where programs have that, and
/// never as a script.
pub open spec fn program_name(name: Seq<char>, windows: bool) -> Seq<char> {
    if windows && !is_exe(name) {
        name + ".exe"@
    } else {
        name
    }
}

fn ends_in_exe(name: &str) -> (r: bool)
    ensures
        r == is_exe(name@),
{
    let v = chars_of(name);
    let n: usize = v.len();
    if n < 4 {
        return false;
    }
    let tail = text_of(&v, n - 4, n);
    assert(tail@ =~= name@.skip(name@.len() - 4));
    eq_ignoring_case(tail.as_str(), ".exe")
}

/// The paths where a program of this name may be, one for each directory of the search
/// path and in its order.
pub fn search_list(dirs: &Vec<String>, name: &str, windows: bool) -> (r: Vec<String>)
    ensures
        r@.len() == dirs@.len(),
        forall|i: int|
            0 <= i < dirs@.len() ==> (#[trigger] r@[i])@ == joined(
                dirs@[i]@,
                program_name(name@, windows),
                windows,
            ),
{
    let program = if windows && !ends_in_exe(name) {
        cat(name, ".exe")
    } else {
        name.to_owned()
    };
    let mut r: Vec<String> = Vec::new();
    let mut i: usize = 0;
    while i < dirs.len()
        invariant
            i <= dirs@.len(),
            r@.len() == i,
            program@ == program_name(name@, windows),
            forall|j: int|
                0 <= j < i ==> (#[trigger] r@[j])@ == joined(
                    dirs@[j]@,
                    program_name(name@, windows),
                    windows,
                ),
        decreases dirs@.len() - i,
    {
        r.push(join_path(dirs[i].as_str(), program.as_str(), windows));
        i += 1;
    }
    r
}

/// The first of these where there is a file.
pub open spec fn first_file(tried: Seq<Tried>) -> Option<Seq<char>>
    decreases tried.len(),
{
    if tried.len() == 0 {
        None
    } else if tried[0].file {
        Some(tried[0].path@)
    } else {
        first_file(tried.drop_first())
    }
}

/// The first of these where there is a file, from wherever it is taken.
pub open spec fn first_file_from_anywhere(tried: Seq<Tried>) -> Option<Seq<char>>
    decreases tried.len(),
{
    if tried.len() == 0 {
        None
    } else if tried[0].file {
        Some(tried[0].from_anywhere())
    } else {
        first_file_from_anywhere(tried.drop_first())
    }
}

/// The program that a harness runs as, or why there is none. A path must be absolute,
/// and a file; a bare name is what the search path has under it.
pub open spec fn program_of(
    binary: Seq<char>,
    place: Place,
    tried: Seq<Tried>,
    windows: bool,
) -> Result<Seq<char>, Seq<char>> {
    if place.nested || place.absolute {
        if !place.absolute {
            Err(
                "harness binary "@ + binary
                    + " is a relative path: vkd resolves --harness-bin at start, so give an absolute path or a bare name"@,
            )
        } else if !place.file {
            Err("harness binary "@ + binary + " does not exist (vkd --harness-bin)"@)
        } else {
            Ok(binary)
        }
    } else {
        match first_file(tried) {
            Some(p) => Ok(p),
            None => Err(
                "harness binary `"@ + binary + "` not found on the daemon's PATH"@ + (if windows {
                    " (as an .exe)"@
                } else {
                    Seq::empty()
                }) + "; start vkd with --harness-bin <path>"@,
            ),
        }
    }
}

/// What a result of texts says.
pub open spec fn said(r: Result<String, String>) -> Result<Seq<char>, Seq<char>> {
    match r {
        Ok(s) => Ok(s@),
        Err(e) => Err(e@),
    }
}

/// The program that a harness runs as.
pub fn resolve_harness_binary(binary: &str, place: Place, tried: &Vec<Tried>, windows: bool) -> (r:
    Result<String, String>)
    ensures
        said(r) == program_of(binary@, place, tried@, windows),
{
    if place.nested || place.absolute {
        if !place.absolute {
            return Err(
                cat3(
                    "harness binary ",
                    binary,
                    " is a relative path: vkd resolves --harness-bin at start, so give an absolute path or a bare name",
                ),
            );
        }
        if !place.file {
            return Err(cat3("harness binary ", binary, " does not exist (vkd --harness-bin)"));
        }
        return Ok(binary.to_owned());
    }
    let mut i: usize = 0;
    assert(tried@.skip(0) =~= tried@);
    while i < tried.len()
        invariant
            i <= tried@.len(),
            first_file(tried@) == first_file(tried@.skip(i as int)),
            !place.nested,
            !place.absolute,
        decreases tried@.len() - i,
    {
        let ghost rest = tried@.skip(i as int);
        assert(rest[0] == tried@[i as int]);
        assert(rest.drop_first() =~= tried@.skip(i + 1));
        if tried[i].file {
            return Ok(tried[i].path.dup());
        }
        i += 1;
    }
    let how = if windows {
        " (as an .exe)"
    } else {
        ""
    };
    proof {
        reveal_strlit("");
        assert(""@ =~= Seq::<char>::empty());
    }
    let head = cat4("harness binary `", binary, "` not found on the daemon's PATH", how);
    Err(cat(head.as_str(), "; start vkd with --harness-bin <path>"))
}

/// What a daemon goes on with, of the program that it was given at its start.
#[derive(Debug)]
pub enum AtStart {
    /// This program, wherever it is run from.
    Pinned(String),
    /// There is none yet: every run is refused until there is.
    Missing(String),
}

/// What an [`AtStart`] says.
pub enum AtStartView {
    Pinned(Seq<char>),
    Missing(Seq<char>),
}

impl View for AtStart {
    type V = AtStartView;

    open spec fn view(&self) -> AtStartView {
        match self {
            AtStart::Pinned(p) => AtStartView::Pinned(p@),
            AtStart::Missing(n) => AtStartView::Missing(n@),
        }
    }
}

/// What a daemon goes on with, of the program that it was given at its start. A path is
/// taken as it was made absolute, and is refused where there is no file; a bare name is
/// the first that the search path has under it, made absolute, and stays as it is where
/// there is none, since a node serves without its harness.
pub open spec fn start_of(
    binary: Seq<char>,
    place: Place,
    absolute: Result<Seq<char>, Seq<char>>,
    file: bool,
    tried: Seq<Tried>,
) -> Result<AtStartView, Seq<char>> {
    if place.nested || place.absolute {
        match absolute {
            Err(why) => Err("resolve --harness-bin "@ + binary + ": "@ + why),
            Ok(path) => if file {
                Ok(AtStartView::Pinned(path))
            } else {
                Err(
                    "--harness-bin "@ + path + " is not a file (resolved from "@ + binary + ")"@,
                )
            },
        }
    } else {
        match first_file_from_anywhere(tried) {
            Some(path) => Ok(AtStartView::Pinned(path)),
            None => Ok(AtStartView::Missing(binary)),
        }
    }
}

/// Settle which program a harness runs as when a daemon starts. `absolute` is the path
/// made absolute, or why it could not be, and `file` whether there is a file there.
/// Nothing that is pinned is looked for again in the directory that a run starts in.
pub fn harness_binary_at_start(
    binary: &str,
    place: Place,
    absolute: &Result<String, String>,
    file: bool,
    tried: &Vec<Tried>,
) -> (r: Result<AtStart, String>)
    ensures
        match start_of(binary@, place, said(*absolute), file, tried@) {
            Ok(a) => r is Ok && r->Ok_0@ == a,
            Err(why) => r is Err && r->Err_0@ == why,
        },
{
    if place.nested || place.absolute {
        return match absolute {
            Err(why) => Err(cat4("resolve --harness-bin ", binary, ": ", why.as_str())),
            Ok(path) => if file {
                Ok(AtStart::Pinned(path.dup()))
            } else {
                let head = cat4(
                    "--harness-bin ",
                    path.as_str(),
                    " is not a file (resolved from ",
                    binary,
                );
                Err(cat(head.as_str(), ")"))
            },
        };
    }
    let mut i: usize = 0;
    assert(tried@.skip(0) =~= tried@);
    while i < tried.len()
        invariant
            i <= tried@.len(),
            first_file_from_anywhere(tried@) == first_file_from_anywhere(tried@.skip(i as int)),
            !place.nested,
            !place.absolute,
        decreases tried@.len() - i,
    {
        let ghost rest = tried@.skip(i as int);
        assert(rest[0] == tried@[i as int]);
        assert(rest.drop_first() =~= tried@.skip(i + 1));
        if tried[i].file {
            let path = match &tried[i].absolute {
                Some(a) => a.dup(),
                None => tried[i].path.dup(),
            };
            return Ok(AtStart::Pinned(path));
        }
        i += 1;
    }
    Ok(AtStart::Missing(binary.to_owned()))
}

/// A bare name is never refused at the start. What it is pinned to is as absolute as
/// what was looked at could be made, whatever directory was searched.
pub proof fn bare_name_never_stops_a_daemon(
    binary: Seq<char>,
    place: Place,
    absolute: Result<Seq<char>, Seq<char>>,
    file: bool,
    tried: Seq<Tried>,
)
    requires
        !place.nested,
        !place.absolute,
    ensures
        match start_of(binary, place, absolute, file, tried) {
            Ok(AtStartView::Pinned(path)) => exists|i: int|
                {
                    &&& 0 <= i < tried.len()
                    &&& (#[trigger] tried[i]).file
                    &&& path == tried[i].from_anywhere()
                    &&& forall|j: int| 0 <= j < i ==> !(#[trigger] tried[j]).file
                },
            Ok(AtStartView::Missing(name)) => name == binary && forall|j: int|
                0 <= j < tried.len() ==> !(#[trigger] tried[j]).file,
            Err(_) => false,
        },
    decreases tried.len(),
{
    if tried.len() > 0 && !tried[0].file {
        let rest = tried.drop_first();
        bare_name_never_stops_a_daemon(binary, place, absolute, file, rest);
        match start_of(binary, place, absolute, file, rest) {
            Ok(AtStartView::Pinned(path)) => {
                let i = choose|i: int|
                    {
                        &&& 0 <= i < rest.len()
                        &&& (#[trigger] rest[i]).file
                        &&& path == rest[i].from_anywhere()
                        &&& forall|j: int| 0 <= j < i ==> !(#[trigger] rest[j]).file
                    };
                assert(tried[i + 1] == rest[i]);
                assert forall|j: int| 0 <= j < i + 1 implies !(#[trigger] tried[j]).file by {
                    if j > 0 {
                        assert(rest[j - 1] == tried[j]);
                    }
                }
            },
            Ok(AtStartView::Missing(_)) => {
                assert forall|j: int| 0 <= j < tried.len() implies !(#[trigger] tried[j]).file by {
                    if j > 0 {
                        assert(rest[j - 1] == tried[j]);
                    }
                }
            },
            Err(_) => {},
        }
    } else if tried.len() > 0 {
        assert(tried[0].file);
    }
}

/// Members without those of this name.
pub open spec fn without(ms: Seq<(Seq<char>, JsonView)>, name: Seq<char>) -> Seq<
    (Seq<char>, JsonView),
>
    decreases ms.len(),
{
    if ms.len() == 0 {
        ms
    } else if ms.last().0 == name {
        without(ms.drop_last(), name)
    } else {
        without(ms.drop_last(), name).push(ms.last())
    }
}

/// A configuration as it is kept: what rebuilds a container is asked for once, and is
/// no part of the arch.
pub open spec fn config_kept(config: JsonView) -> JsonView {
    match config {
        JsonView::Object(ms) => JsonView::Object(without(ms, "recreate"@)),
        v => v,
    }
}

fn keep_config(config: &Json) -> (r: Json)
    ensures
        r@ == config_kept(config@),
{
    match config {
        Json::Object(v) => {
            let ghost ms = config@->Object_0;
            let mut f = Fields::new();
            let mut i: usize = 0;
            assert(ms.take(0) =~= Seq::<(Seq<char>, JsonView)>::empty());
            while i < v.len()
                invariant
                    i <= v@.len(),
                    ms.len() == v@.len(),
                    forall|k: int|
                        0 <= k < v@.len() ==> #[trigger] ms[k] == (v@[k].name@, v@[k].value@),
                    f@ == without(ms.take(i as int), "recreate"@),
                decreases v@.len() - i,
            {
                assert(ms[i as int] == (v@[i as int].name@, v@[i as int].value@));
                assert(ms.take(i + 1).drop_last() =~= ms.take(i as int));
                if !same(v[i].name.as_str(), "recreate") {
                    f.put(v[i].name.as_str(), v[i].value.copy());
                }
                i += 1;
            }
            assert(ms.take(i as int) =~= ms);
            f.object()
        },
        _ => config.copy(),
    }
}

/// What is recorded of a mount, or why it is refused.
pub open spec fn spec_recorded(kind: Seq<char>, config: JsonView) -> Result<
    MountSpecView,
    RpcErrorView,
> {
    match first_secret(config_kept(config), None) {
        Some(name) => Err(bad_params(secret_refusal(name))),
        None => Ok(MountSpecView { kind, config: config_kept(config) }),
    }
}

/// What is recorded of a mount.
pub fn mount_spec_of(kind: &str, config: &Json) -> (r: Result<MountSpec, RpcError>)
    ensures
        rpc_outcome(r) == spec_recorded(kind@, config@),
{
    match MountSpec::new(kind, keep_config(config)) {
        Ok(spec) => Ok(spec),
        Err(why) => Err(bad(why.as_str())),
    }
}

/// Whether a configuration asks for what is behind the arch to be made anew.
pub open spec fn is_recreated(config: JsonView) -> bool {
    bool_field(config, "recreate"@) == Some(true)
}

/// What a mount does with an arch that is there: it stays, unless what is behind it was
/// just made anew.
pub open spec fn remount_of(kind: Seq<char>, config: JsonView) -> Remount {
    if kind == "ollama"@ && is_recreated(config) {
        Remount::Replace
    } else {
        Remount::Keep
    }
}

/// What a mount does with an arch that is there.
pub fn remount_for(kind: &str, config: &Json) -> (r: Remount)
    ensures
        r == remount_of(kind@, config@),
{
    if same(kind, "ollama") {
        if let Some(true) = config.bool_at("recreate") {
            return Remount::Replace;
        }
    }
    Remount::Keep
}

/// A number of 32 bits, or this one where none is given.
pub open spec fn small_or(config: JsonView, name: Seq<char>, fallback: u32) -> Option<u32> {
    match field(config, name) {
        None => Some(fallback),
        Some(JsonView::Null) => Some(fallback),
        Some(JsonView::Unsigned(n)) => if n <= u32::MAX {
            Some(n as u32)
        } else {
            None
        },
        Some(_) => None,
    }
}

fn read_small_or(config: &Json, name: &str, fallback: u32) -> (r: Option<u32>)
    ensures
        r == small_or(config@, name@, fallback),
{
    match config.get(name) {
        None => Some(fallback),
        Some(Json::Null) => Some(fallback),
        Some(Json::Unsigned(n)) => if *n <= u32::MAX as u64 {
            Some(*n as u32)
        } else {
            None
        },
        Some(_) => None,
    }
}

/// A text, or this one where none is given.
pub open spec fn text_or(config: JsonView, name: Seq<char>, fallback: Seq<char>) -> Seq<char> {
    match text_field(config, name) {
        Some(s) => s,
        None => fallback,
    }
}

fn read_text_or(config: &Json, name: &str, fallback: &str) -> (r: String)
    ensures
        r@ == text_or(config@, name@, fallback@),
{
    match config.text_at(name) {
        Some(s) => s.dup(),
        None => fallback.to_owned(),
    }
}

/// How an arch that is an engine's command line is configured.
#[derive(Debug)]
pub struct CoderConfig {
    pub binary: String,
    pub model: String,
    pub max_turns: u32,
    pub timeout_secs: u32,
    pub context_ceiling: u32,
    /// Where it runs: the node's to choose, never a request's.
    pub cwd: String,
}

/// What a [`CoderConfig`] says.
#[verifier::ext_equal]
pub struct CoderConfigView {
    pub binary: Seq<char>,
    pub model: Seq<char>,
    pub max_turns: u32,
    pub timeout_secs: u32,
    pub context_ceiling: u32,
    pub cwd: Seq<char>,
}

impl View for CoderConfig {
    type V = CoderConfigView;

    open spec fn view(&self) -> CoderConfigView {
        CoderConfigView {
            binary: self.binary@,
            model: self.model@,
            max_turns: self.max_turns,
            timeout_secs: self.timeout_secs,
            context_ceiling: self.context_ceiling,
            cwd: self.cwd@,
        }
    }
}

/// What a request's configuration makes of the defaults, or why it is refused.
pub open spec fn coder_config_of(
    engine: Seq<char>,
    state_dir: Seq<char>,
    windows: bool,
    config: JsonView,
    defaults: CoderConfigView,
) -> Result<CoderConfigView, Seq<char>> {
    match (
        small_or(config, "max_turns"@, defaults.max_turns),
        small_or(config, "timeout_secs"@, defaults.timeout_secs),
        small_or(config, "context_ceiling"@, defaults.context_ceiling),
    ) {
        (None, _, _) => Err("max_turns must be a whole number of tokens"@),
        (_, None, _) => Err("timeout_secs must be a whole number of tokens"@),
        (_, _, None) => Err("context_ceiling must be a whole number of tokens"@),
        (Some(max_turns), Some(timeout_secs), Some(context_ceiling)) => Ok(
            CoderConfigView {
                binary: text_or(config, "binary"@, defaults.binary),
                model: text_or(config, "model"@, defaults.model),
                max_turns,
                timeout_secs,
                context_ceiling,
                cwd: joined(state_dir, coder_kind(engine) + "-cwd"@, windows),
            },
        ),
    }
}

/// The program that a configuration names, or the default one.
pub fn coder_binary(config: &Json, default_binary: &str) -> (r: String)
    ensures
        r@ == text_or(config@, "binary"@, default_binary@),
{
    read_text_or(config, "binary", default_binary)
}

/// What a request's configuration makes of the defaults.
pub fn coder_config(
    engine: &str,
    state_dir: &str,
    windows: bool,
    config: &Json,
    defaults: &CoderConfig,
) -> (r: Result<CoderConfig, String>)
    ensures
        match r {
            Ok(c) => coder_config_of(engine@, state_dir@, windows, config@, defaults@) == Ok::<
                CoderConfigView,
                Seq<char>,
            >(c@),
            Err(why) => coder_config_of(engine@, state_dir@, windows, config@, defaults@) == Err::<
                CoderConfigView,
                Seq<char>,
            >(why@),
        },
{
    let max_turns = match read_small_or(config, "max_turns", defaults.max_turns) {
        Some(n) => n,
        None => return Err("max_turns must be a whole number of tokens".to_owned()),
    };
    let timeout_secs = match read_small_or(config, "timeout_secs", defaults.timeout_secs) {
        Some(n) => n,
        None => return Err("timeout_secs must be a whole number of tokens".to_owned()),
    };
    let context_ceiling = match read_small_or(
        config,
        "context_ceiling",
        defaults.context_ceiling,
    ) {
        Some(n) => n,
        None => return Err("context_ceiling must be a whole number of tokens".to_owned()),
    };
    let cwd = cat(engine, "-code-cwd");
    proof {
        reveal_strlit("-code");
        reveal_strlit("-cwd");
        reveal_strlit("-code-cwd");
    }
    assert(cwd@ =~= coder_kind(engine@) + "-cwd"@);
    Ok(
        CoderConfig {
            binary: coder_binary(config, defaults.binary.as_str()),
            model: read_text_or(config, "model", defaults.model.as_str()),
            max_turns,
            timeout_secs,
            context_ceiling,
            cwd: join_path(state_dir, cwd.as_str(), windows),
        },
    )
}

/// The container that an Ollama arch runs in.
#[derive(Debug)]
pub struct ContainerSpec {
    pub image: String,
    pub memory: String,
    pub cpus: String,
}

/// What a [`ContainerSpec`] says.
#[verifier::ext_equal]
pub struct ContainerSpecView {
    pub image: Seq<char>,
    pub memory: Seq<char>,
    pub cpus: Seq<char>,
}

impl View for ContainerSpec {
    type V = ContainerSpecView;

    open spec fn view(&self) -> ContainerSpecView {
        ContainerSpecView { image: self.image@, memory: self.memory@, cpus: self.cpus@ }
    }
}

/// How an Ollama arch is configured.
#[derive(Debug)]
pub struct OllamaConfig {
    pub base_url: String,
    pub model: String,
    pub num_ctx: u32,
    pub max_tokens: u32,
    pub seed: u64,
    /// The container this node runs it in; none where it names a server of its own.
    pub container: Option<ContainerSpec>,
    pub recreate: bool,
}

/// What an [`OllamaConfig`] says.
#[verifier::ext_equal]
pub struct OllamaConfigView {
    pub base_url: Seq<char>,
    pub model: Seq<char>,
    pub num_ctx: u32,
    pub max_tokens: u32,
    pub seed: u64,
    pub container: Option<ContainerSpecView>,
    pub recreate: bool,
}

impl View for OllamaConfig {
    type V = OllamaConfigView;

    open spec fn view(&self) -> OllamaConfigView {
        OllamaConfigView {
            base_url: self.base_url@,
            model: self.model@,
            num_ctx: self.num_ctx,
            max_tokens: self.max_tokens,
            seed: self.seed,
            container: opt(self.container),
            recreate: self.recreate,
        }
    }
}

/// A number, or this one where none is given.
pub open spec fn number_or(config: JsonView, name: Seq<char>, fallback: u64) -> Option<u64> {
    match field(config, name) {
        None => Some(fallback),
        Some(JsonView::Null) => Some(fallback),
        Some(JsonView::Unsigned(n)) => Some(n as u64),
        Some(_) => None,
    }
}

/// What a request's configuration makes of the defaults, or why it is refused. An arch
/// is contained unless the request names a server that is already there.
pub open spec fn ollama_config_of(
    config: JsonView,
    defaults: OllamaConfigView,
    contained: ContainerSpecView,
) -> Result<OllamaConfigView, Seq<char>> {
    match (
        small_or(config, "num_ctx"@, defaults.num_ctx),
        small_or(config, "max_tokens"@, defaults.max_tokens),
        number_or(config, "seed"@, defaults.seed),
    ) {
        (None, _, _) => Err("num_ctx must be a whole number"@),
        (_, None, _) => Err("max_tokens must be a whole number"@),
        (_, _, None) => Err("seed must be a whole number"@),
        (Some(num_ctx), Some(max_tokens), Some(seed)) => Ok(
            OllamaConfigView {
                base_url: text_or(config, "base_url"@, defaults.base_url),
                model: text_or(config, "model"@, defaults.model),
                num_ctx,
                max_tokens,
                seed,
                container: if text_field(config, "base_url"@) is Some {
                    None
                } else {
                    Some(
                        ContainerSpecView {
                            image: text_or(config, "image"@, contained.image),
                            memory: text_or(config, "memory"@, contained.memory),
                            cpus: text_or(config, "cpus"@, contained.cpus),
                        },
                    )
                },
                recreate: is_recreated(config),
            },
        ),
    }
}

/// What a request's configuration makes of the defaults.
pub fn ollama_config(config: &Json, defaults: &OllamaConfig, contained: &ContainerSpec) -> (r:
    Result<OllamaConfig, String>)
    ensures
        match r {
            Ok(c) => ollama_config_of(config@, defaults@, contained@) == Ok::<
                OllamaConfigView,
                Seq<char>,
            >(c@),
            Err(why) => ollama_config_of(config@, defaults@, contained@) == Err::<
                OllamaConfigView,
                Seq<char>,
            >(why@),
        },
{
    let num_ctx = match read_small_or(config, "num_ctx", defaults.num_ctx) {
        Some(n) => n,
        None => return Err("num_ctx must be a whole number".to_owned()),
    };
    let max_tokens = match read_small_or(config, "max_tokens", defaults.max_tokens) {
        Some(n) => n,
        None => return Err("max_tokens must be a whole number".to_owned()),
    };
    let seed = match config.get("seed") {
        None => defaults.seed,
        Some(Json::Null) => defaults.seed,
        Some(Json::Unsigned(n)) => *n,
        Some(_) => return Err("seed must be a whole number".to_owned()),
    };
    let container = match config.text_at("base_url") {
        Some(_) => None,
        None => Some(
            ContainerSpec {
                image: read_text_or(config, "image", contained.image.as_str()),
                memory: read_text_or(config, "memory", contained.memory.as_str()),
                cpus: read_text_or(config, "cpus", contained.cpus.as_str()),
            },
        ),
    };
    let recreate = match config.bool_at("recreate") {
        Some(b) => b,
        None => false,
    };
    Ok(
        OllamaConfig {
            base_url: read_text_or(config, "base_url", defaults.base_url.as_str()),
            model: read_text_or(config, "model", defaults.model.as_str()),
            num_ctx,
            max_tokens,
            seed,
            container,
            recreate,
        },
    )
}

/// Which adapter a spec is to be made into.
#[derive(Clone, Copy, Debug, PartialEq, Eq, Structural)]
pub enum AdapterKind {
    Mock,
    /// An engine's command line.
    Coder,
    Ollama,
}

/// Which adapter a node makes out of a spec: the same for a mount and for a restart.
pub fn adapter_factory(engine: &str, spec: &MountSpec) -> (r: Result<AdapterKind, String>)
    ensures
        match r {
            Ok(AdapterKind::Mock) => spec@.kind == "mock"@,
            Ok(AdapterKind::Coder) => spec@.kind == coder_kind(engine@),
            Ok(AdapterKind::Ollama) => spec@.kind == "ollama"@,
            Err(why) => spec@.kind != "mock"@ && spec@.kind != coder_kind(engine@) && spec@.kind
                != "ollama"@ && why@ == "no arch kind "@ + spec@.kind,
        },
{
    if same(spec.kind.as_str(), "mock") {
        Ok(AdapterKind::Mock)
    } else if same(spec.kind.as_str(), cat(engine, "-code").as_str()) {
        Ok(AdapterKind::Coder)
    } else if same(spec.kind.as_str(), "ollama") {
        Ok(AdapterKind::Ollama)
    } else {
        Err(cat("no arch kind ", spec.kind.as_str()))
    }
}

proof fn nothing_left_of(ms: Seq<(Seq<char>, JsonView)>, name: Seq<char>)
    ensures
        member(without(ms, name), name) is None,
    decreases ms.len(),
{
    if ms.len() > 0 {
        nothing_left_of(ms.drop_last(), name);
        let kept = without(ms.drop_last(), name);
        if ms.last().0 != name {
            still_absent(kept, ms.last(), name);
        }
    }
}

proof fn still_absent(ms: Seq<(Seq<char>, JsonView)>, m: (Seq<char>, JsonView), name: Seq<char>)
    requires
        member(ms, name) is None,
        m.0 != name,
    ensures
        member(ms.push(m), name) is None,
    decreases ms.len(),
{
    if ms.len() == 0 {
        reveal_with_fuel(member, 2);
        assert(ms.push(m)[0] == m);
        assert(ms.push(m).drop_first() =~= Seq::<(Seq<char>, JsonView)>::empty());
    } else {
        assert(ms.push(m)[0] == ms[0]);
        assert(ms.push(m).drop_first() =~= ms.drop_first().push(m));
        still_absent(ms.drop_first(), m, name);
    }
}

/// What is recorded of a mount never asks for what is behind the arch to be made anew:
/// no restart throws a container away.
pub proof fn restart_recreates_nothing(kind: Seq<char>, config: JsonView)
    requires
        spec_recorded(kind, config) is Ok,
    ensures
        !is_recreated(spec_recorded(kind, config)->Ok_0.config),
        first_secret(spec_recorded(kind, config)->Ok_0.config, None) is None,
{
    if let JsonView::Object(ms) = config {
        nothing_left_of(ms, "recreate"@);
    }
}

/// An arch whose request names no server runs contained.
pub proof fn unnamed_server_is_contained(
    config: JsonView,
    defaults: OllamaConfigView,
    contained: ContainerSpecView,
)
    requires
        ollama_config_of(config, defaults, contained) is Ok,
        text_field(config, "base_url"@) is None,
    ensures
        ollama_config_of(config, defaults, contained)->Ok_0.container is Some,
        ollama_config_of(config, defaults, contained)->Ok_0.base_url == defaults.base_url,
{
}

} // verus!
