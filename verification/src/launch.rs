//! The confined launch of a harness: its command line, how long it is let run, and
//! what the run was.
use crate::json::{field, json_text, number_field, text_field, views, Json, JsonView};
use crate::model::{all, opt};
use crate::outside::{json_quote, json_quoted};
use crate::path::{join_path, joined};
use crate::table::{ascending, Table};
use crate::text::{cat, cat3, chars_of, decimal, decimal_text, same, signed_decimal, signed_decimal_text, text_of};
use vstd::prelude::*;
use vstd::string::*;

verus! {

/// The tools the harness is allowed.
pub const ALLOWED_TOOLS: &'static str = "mcp__vk__*,Read,Write,Edit,Glob,Grep";

/// The name the kernel's tools are served under.
pub const MCP_SERVER_NAME: &'static str = "vk";

/// How often the connections of a run are sampled.
pub const SAMPLE_EVERY_MS: u64 = 500;

/// What stands for the token where a launch is only shown.
pub const REDACTED_TOKEN: &'static str = "<redacted>";

/// Everything a launch needs.
pub struct HarnessConfig {
    pub binary: String,
    /// The workspace, which is also where the process runs.
    pub workspace: String,
    /// Where its configuration is written: beside the workspace, never in it.
    pub config_dir: String,
    /// What authenticates every call the harness makes.
    pub lease_token: String,
    /// Where the harness's calls go.
    pub endpoint: String,
    /// The program that carries them.
    pub mcp_server: String,
    pub prompt: String,
    pub model: Option<String>,
    /// What the operator adds to the system prompt.
    pub system_suffix: Option<String>,
    pub timeout_ms: u64,
    /// Whether its paths are as on Windows.
    pub windows: bool,
}

/// Why a run ended.
#[derive(Debug)]
pub enum ExitReason {
    /// The process ended by itself with this code.
    Exited(i32),
    /// It was killed when its time was up.
    Timeout,
    /// A stop came while it ran.
    KilledByGovernor,
    /// It died on a signal.
    Signal,
    /// It could not be contained, and so was not let run.
    NotContained,
    /// It was never started.
    NotStarted,
}

/// The word for why a run ended, as the record has it.
pub open spec fn exit_label(r: ExitReason) -> Seq<char> {
    match r {
        ExitReason::Exited(c) => "code "@ + signed_decimal(c as int),
        ExitReason::Timeout => "timeout"@,
        ExitReason::KilledByGovernor => "killed by governor"@,
        ExitReason::Signal => "signal"@,
        ExitReason::NotContained => "not contained"@,
        ExitReason::NotStarted => "not started"@,
    }
}

impl ExitReason {
    /// The word for why the run ended.
    pub fn label(&self) -> (r: String)
        ensures
            r@ == exit_label(*self),
    {
        match self {
            ExitReason::Exited(c) => {
                let n = signed_decimal_text(*c as i64);
                cat("code ", n.as_str())
            },
            ExitReason::Timeout => "timeout".to_owned(),
            ExitReason::KilledByGovernor => "killed by governor".to_owned(),
            ExitReason::Signal => "signal".to_owned(),
            ExitReason::NotContained => "not contained".to_owned(),
            ExitReason::NotStarted => "not started".to_owned(),
        }
    }

    /// Whether the harness finished its work: it ended by itself, with code 0.
    pub fn is_success(&self) -> (r: bool)
        ensures
            r == (*self == ExitReason::Exited(0)),
    {
        match self {
            ExitReason::Exited(c) => *c == 0,
            _ => false,
        }
    }
}

/// Why a process ended, from the code it ended with.
pub fn reason_from(code: Option<i32>) -> (r: ExitReason)
    ensures
        r == (match code {
            Some(c) => ExitReason::Exited(c),
            None => ExitReason::Signal,
        }),
{
    match code {
        Some(c) => ExitReason::Exited(c),
        None => ExitReason::Signal,
    }
}

/// What the harness said of its own run.
#[derive(Debug)]
pub struct HarnessOutcome {
    pub num_turns: u64,
    pub total_cost_usd: Option<String>,
    pub permission_denials: Vec<String>,
}

/// What a [`HarnessOutcome`] says.
#[verifier::ext_equal]
pub struct HarnessOutcomeView {
    pub num_turns: nat,
    pub total_cost_usd: Option<Seq<char>>,
    pub permission_denials: Seq<Seq<char>>,
}

impl View for HarnessOutcome {
    type V = HarnessOutcomeView;

    open spec fn view(&self) -> HarnessOutcomeView {
        HarnessOutcomeView {
            num_turns: self.num_turns as nat,
            total_cost_usd: opt(self.total_cost_usd),
            permission_denials: all(self.permission_denials@),
        }
    }
}

/// A cost as it was written.
pub open spec fn cost_in(v: Option<JsonView>) -> Option<Seq<char>> {
    match v {
        Some(JsonView::Real(digits)) => Some(digits),
        Some(JsonView::Unsigned(n)) => Some(decimal(n)),
        _ => None,
    }
}

/// What was denied, each as it was written.
pub open spec fn denials_in(v: Option<JsonView>) -> Seq<Seq<char>> {
    match v {
        Some(JsonView::Array(items)) => items.map_values(|d: JsonView| json_text(d)),
        _ => Seq::empty(),
    }
}

/// What the harness said of its own run: the result it printed, if it printed one.
pub open spec fn outcome_in(v: JsonView) -> Option<HarnessOutcomeView> {
    match (text_field(v, "type"@), number_field(v, "num_turns"@)) {
        (Some(kind), Some(num_turns)) => if kind == "result"@ {
            Some(
                HarnessOutcomeView {
                    num_turns,
                    total_cost_usd: cost_in(field(v, "total_cost_usd"@)),
                    permission_denials: denials_in(field(v, "permission_denials"@)),
                },
            )
        } else {
            None
        },
        _ => None,
    }
}

fn read_denials(v: &Json) -> (r: Vec<String>)
    ensures
        all(r@) == denials_in(Some(v@)),
{
    let mut out: Vec<String> = Vec::new();
    match v {
        Json::Array(items) => {
            let ghost said = v@->Array_0;
            let mut i: usize = 0;
            while i < items.len()
                invariant
                    i <= items@.len(),
                    v@ == JsonView::Array(said),
                    said == views(items@),
                    all(out@) == said.take(i as int).map_values(|d: JsonView| json_text(d)),
                decreases items@.len() - i,
            {
                let ghost was = all(out@);
                out.push(items[i].render());
                assert(said[i as int] == items@[i as int]@);
                assert(all(out@) =~= was.push(json_text(said[i as int])));
                assert(all(out@) =~= said.take(i + 1).map_values(|d: JsonView| json_text(d)));
                i += 1;
            }
            assert(said.take(i as int) =~= said);
        },
        _ => {
            assert(all(out@) =~= Seq::<Seq<char>>::empty());
        },
    }
    out
}

/// What the harness said of its own run.
pub fn read_outcome(v: &Json) -> (r: Option<HarnessOutcome>)
    ensures
        opt(r) == outcome_in(v@),
{
    let num_turns = match (v.text_at("type"), v.number_at("num_turns")) {
        (Some(kind), Some(n)) => {
            if !same(kind.as_str(), "result") {
                return None;
            }
            n
        },
        _ => return None,
    };
    let total_cost_usd = match v.get("total_cost_usd") {
        Some(Json::Real(digits)) => Some(digits.clone()),
        Some(Json::Unsigned(n)) => Some(decimal_text(*n)),
        _ => None,
    };
    let permission_denials = match v.get("permission_denials") {
        Some(d) => read_denials(d),
        None => {
            let none: Vec<String> = Vec::new();
            assert(all(none@) =~= Seq::<Seq<char>>::empty());
            none
        },
    };
    Some(HarnessOutcome { num_turns, total_cost_usd, permission_denials })
}

/// What one run was.
#[derive(Debug)]
pub struct HarnessRun {
    pub exit_code: Option<i32>,
    pub exit_reason: ExitReason,
    /// What the harness printed.
    pub stdout_json: String,
    pub outcome: Option<HarnessOutcome>,
    /// What it was connected to, each once and in order.
    pub connections: Vec<String>,
    /// How often that was looked at.
    pub samples: usize,
    pub duration_ms: u64,
    /// Whether the process was contained.
    pub governed: bool,
}

/// The configuration that tells the harness where the kernel is.
pub open spec fn mcp_text(command: Seq<char>, endpoint: Seq<char>, token: Seq<char>) -> Seq<char> {
    "{\n  \"mcpServers\": {\n    \"vk\": {\n      \"command\": "@ + json_quoted(command)
        + ",\n      \"env\": {\n        \"VK_ENDPOINT\": "@ + json_quoted(endpoint)
        + ",\n        \"VK_LEASE_TOKEN\": "@ + json_quoted(token) + "\n      }\n    }\n  }\n}"@
}

/// The configuration that tells the harness where the kernel is, with this token.
pub fn mcp_json(cfg: &HarnessConfig, token: &str) -> (r: String)
    ensures
        r@ == mcp_text(cfg.mcp_server@, cfg.endpoint@, token@),
{
    let command = json_quote(cfg.mcp_server.as_str());
    let endpoint = json_quote(cfg.endpoint.as_str());
    let secret = json_quote(token);
    let mut s = cat3(
        "{\n  \"mcpServers\": {\n    \"vk\": {\n      \"command\": ",
        command.as_str(),
        ",\n      \"env\": {\n        \"VK_ENDPOINT\": ",
    );
    s.append(endpoint.as_str());
    s.append(",\n        \"VK_LEASE_TOKEN\": ");
    s.append(secret.as_str());
    s.append("\n      }\n    }\n  }\n}");
    s
}

/// Where a launch writes that configuration.
pub fn mcp_config_path(cfg: &HarnessConfig) -> (r: String)
    ensures
        r@ == joined(cfg.config_dir@, "mcp.json"@, cfg.windows),
{
    join_path(cfg.config_dir.as_str(), "mcp.json", cfg.windows)
}

/// The fence around a run: it reads and edits its workspace, runs no shell, and is
/// denied the directory that holds its own configuration by name.
pub open spec fn fence_text(config_dir: Seq<char>) -> Seq<char> {
    "{\n  \"permissions\": {\n    \"allow\": [\n      \"mcp__vk__*\",\n      \"Read(./**)\",\n      \"Edit(./**)\"\n    ],\n    \"deny\": [\n      \"Bash\",\n      "@
        + json_quoted("Read("@ + config_dir + "/**)"@) + ",\n      "@ + json_quoted(
        "Edit("@ + config_dir + "/**)"@,
    ) + "\n    ]\n  }\n}"@
}

/// The fence around a run.
pub fn settings_json(cfg: &HarnessConfig) -> (r: String)
    ensures
        r@ == fence_text(cfg.config_dir@),
{
    let read = cat3("Read(", cfg.config_dir.as_str(), "/**)");
    let edit = cat3("Edit(", cfg.config_dir.as_str(), "/**)");
    let read_quoted = json_quote(read.as_str());
    let edit_quoted = json_quote(edit.as_str());
    let mut s = cat3(
        "{\n  \"permissions\": {\n    \"allow\": [\n      \"mcp__vk__*\",\n      \"Read(./**)\",\n      \"Edit(./**)\"\n    ],\n    \"deny\": [\n      \"Bash\",\n      ",
        read_quoted.as_str(),
        ",\n      ",
    );
    s.append(edit_quoted.as_str());
    s.append("\n    ]\n  }\n}");
    s
}

/// Where a launch writes that fence.
pub fn settings_path(cfg: &HarnessConfig) -> (r: String)
    ensures
        r@ == joined(cfg.config_dir@, "settings.json"@, cfg.windows),
{
    join_path(cfg.config_dir.as_str(), "settings.json", cfg.windows)
}

/// The command line of a launch: the program, its prompt, the one server it may
/// load, the tools it is allowed, the model when one is pinned, and what the operator
/// adds to the system prompt.
pub open spec fn launch_args(
    binary: Seq<char>,
    prompt: Seq<char>,
    config_dir: Seq<char>,
    model: Option<Seq<char>>,
    system_suffix: Option<Seq<char>>,
    windows: bool,
) -> Seq<Seq<char>> {
    let line = seq![
        binary,
        "-p"@,
        prompt,
        "--mcp-config"@,
        joined(config_dir, "mcp.json"@, windows),
        "--allowedTools"@,
        ALLOWED_TOOLS@,
        "--permission-mode"@,
        "acceptEdits"@,
        "--output-format"@,
        "json"@,
        "--strict-mcp-config"@,
    ];
    let line = match model {
        Some(m) => line + seq!["--model"@, m],
        None => line,
    };
    match system_suffix {
        Some(s) => line + seq!["--append-system-prompt"@, s],
        None => line,
    }
}

/// The command line of a launch. The token is not on it.
pub fn launch_line(cfg: &HarnessConfig) -> (r: Vec<String>)
    ensures
        all(r@) == launch_args(
            cfg.binary@,
            cfg.prompt@,
            cfg.config_dir@,
            opt(cfg.model),
            opt(cfg.system_suffix),
            cfg.windows,
        ),
{
    let mut v: Vec<String> = Vec::new();
    v.push(cfg.binary.clone());
    v.push("-p".to_owned());
    v.push(cfg.prompt.clone());
    v.push("--mcp-config".to_owned());
    v.push(mcp_config_path(cfg));
    v.push("--allowedTools".to_owned());
    v.push(ALLOWED_TOOLS.to_owned());
    v.push("--permission-mode".to_owned());
    v.push("acceptEdits".to_owned());
    v.push("--output-format".to_owned());
    v.push("json".to_owned());
    v.push("--strict-mcp-config".to_owned());
    if let Some(m) = &cfg.model {
        v.push("--model".to_owned());
        v.push(m.clone());
    }
    if let Some(s) = &cfg.system_suffix {
        v.push("--append-system-prompt".to_owned());
        v.push(s.clone());
    }
    assert(all(v@) =~= launch_args(
        cfg.binary@,
        cfg.prompt@,
        cfg.config_dir@,
        opt(cfg.model),
        opt(cfg.system_suffix),
        cfg.windows,
    ));
    v
}

/// The command line does not depend on the token.
pub proof fn command_line_never_carries_the_token(a: HarnessConfig, b: HarnessConfig)
    requires
        a.binary@ == b.binary@,
        a.prompt@ == b.prompt@,
        a.config_dir@ == b.config_dir@,
        opt(a.model) == opt(b.model),
        opt(a.system_suffix) == opt(b.system_suffix),
        a.windows == b.windows,
    ensures
        launch_args(
            a.binary@,
            a.prompt@,
            a.config_dir@,
            opt(a.model),
            opt(a.system_suffix),
            a.windows,
        ) == launch_args(
            b.binary@,
            b.prompt@,
            b.config_dir@,
            opt(b.model),
            opt(b.system_suffix),
            b.windows,
        ),
{
}

/// What is done next with a process that was launched.
#[derive(Debug)]
pub enum Move {
    /// It has ended.
    Ended(ExitReason),
    /// It is killed, and this is why.
    Kill(ExitReason),
    /// It runs on: its connections are sampled, and it is looked at again.
    Sample,
}

/// What is done next: a process that has ended is left, a stop comes before the end
/// of its time, and otherwise it runs on.
pub open spec fn move_of(ended: Option<Option<i32>>, stop: bool, elapsed_ms: u64, timeout_ms: u64) -> Move {
    match ended {
        Some(Some(c)) => Move::Ended(ExitReason::Exited(c)),
        Some(None) => Move::Ended(ExitReason::Signal),
        None => if stop {
            Move::Kill(ExitReason::KilledByGovernor)
        } else if elapsed_ms >= timeout_ms {
            Move::Kill(ExitReason::Timeout)
        } else {
            Move::Sample
        },
    }
}

/// What is done next with a process: `ended` is how it ended, if it has.
pub fn next_move(ended: Option<Option<i32>>, stop: bool, elapsed_ms: u64, timeout_ms: u64) -> (r: Move)
    ensures
        r == move_of(ended, stop, elapsed_ms, timeout_ms),
{
    match ended {
        Some(code) => Move::Ended(reason_from(code)),
        None => if stop {
            Move::Kill(ExitReason::KilledByGovernor)
        } else if elapsed_ms >= timeout_ms {
            Move::Kill(ExitReason::Timeout)
        } else {
            Move::Sample
        },
    }
}

/// What was seen of a run while it lasted.
#[derive(Debug)]
pub struct Watch {
    pub seen: Table<bool>,
    pub samples: usize,
}

impl Watch {
    /// The table is in order.
    pub open spec fn wf(&self) -> bool {
        self.seen.wf()
    }

    /// What the run was seen to be connected to.
    pub open spec fn connections(&self) -> Set<Seq<char>> {
        self.seen@.dom()
    }

    /// Nothing was seen yet.
    pub fn new() -> (r: Watch)
        ensures
            r.wf(),
            r.connections() == Set::<Seq<char>>::empty(),
            r.samples == 0,
    {
        let r = Watch { seen: Table::new(), samples: 0 };
        assert(r.connections() =~= Set::<Seq<char>>::empty());
        r
    }

    /// Take in one sample.
    pub fn sampled(&mut self, found: &Vec<String>)
        requires
            old(self).wf(),
        ensures
            final(self).wf(),
            final(self).connections() == old(self).connections().union(all(found@).to_set()),
            final(self).samples == (if old(self).samples < usize::MAX {
                (old(self).samples + 1) as usize
            } else {
                old(self).samples
            }),
    {
        let ghost views = all(found@);
        let mut i: usize = 0;
        assert(self.connections() =~= old(self).connections().union(views.take(0).to_set()));
        while i < found.len()
            invariant
                i <= found@.len(),
                views == all(found@),
                self.wf(),
                self.samples == old(self).samples,
                self.connections() == old(self).connections().union(
                    views.take(i as int).to_set(),
                ),
            decreases found@.len() - i,
        {
            let ghost was = views.take(i as int);
            let ghost now = views.take(i + 1);
            self.seen.insert(found[i].as_str(), true);
            proof {
                assert(now =~= was.push(views[i as int]));
                assert forall|x: Seq<char>| now.contains(x) <==> was.contains(x) || x
                    == views[i as int] by {
                    if was.contains(x) {
                        let j = was.index_of(x);
                        assert(now[j] == x);
                    }
                    assert(now[i as int] == views[i as int]);
                    if now.contains(x) && x != views[i as int] {
                        let j = now.index_of(x);
                        assert(was[j] == x);
                    }
                }
                assert(self.connections() =~= old(self).connections().union(now.to_set()));
            }
            i += 1;
        }
        assert(views.take(i as int) =~= views);
        if self.samples < usize::MAX {
            self.samples += 1;
        }
    }

    /// The run as it was: why it ended, and everything that was seen of it, each
    /// connection once and in order.
    pub fn finish(
        self,
        exit_reason: ExitReason,
        stdout_json: String,
        outcome: Option<HarnessOutcome>,
        duration_ms: u64,
        governed: bool,
    ) -> (r: HarnessRun)
        requires
            self.wf(),
        ensures
            ascending(all(r.connections@)),
            forall|c: Seq<char>| #[trigger]
                all(r.connections@).contains(c) <==> self.connections().contains(c),
            r.samples == self.samples,
            r.exit_reason == exit_reason,
            r.exit_code == (match exit_reason {
                ExitReason::Exited(c) => Some(c),
                _ => None,
            }),
            r.stdout_json == stdout_json,
            r.outcome == outcome,
            r.duration_ms == duration_ms,
            r.governed == governed,
    {
        proof {
            self.seen.keys_are_domain();
        }
        let connections = self.seen.key_list();
        let exit_code = match exit_reason {
            ExitReason::Exited(c) => Some(c),
            _ => None,
        };
        HarnessRun {
            exit_code,
            exit_reason,
            stdout_json,
            outcome,
            connections,
            samples: self.samples,
            duration_ms,
            governed,
        }
    }
}

/// The last `n` characters, marked when there were more.
pub open spec fn tail_of(s: Seq<char>, n: nat) -> Seq<char> {
    if s.len() <= n {
        s
    } else {
        "…"@ + s.skip(s.len() - n)
    }
}

/// The last `n` characters, marked when there were more.
pub fn last_chars(s: &str, n: usize) -> (r: String)
    ensures
        r@ == tail_of(s@, n as nat),
{
    let v = chars_of(s);
    if v.len() <= n {
        return s.to_owned();
    }
    let rest = text_of(&v, v.len() - n, v.len());
    assert(rest@ =~= s@.skip(s@.len() - n));
    cat("…", rest.as_str())
}

} // verus!
