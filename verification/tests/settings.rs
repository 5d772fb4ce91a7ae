use vk_kernel::arches::Remount;
use vk_kernel::confine::{refusal_cause, JobGovernor, RefusalFacts};
use vk_kernel::json::{Fields, Items, Json};
use vk_kernel::launch::{
    last_chars, launch_line, mcp_json, next_move, read_outcome, reason_from, settings_json,
    ExitReason, HarnessConfig, Move, REDACTED_TOKEN,
};
use vk_kernel::mount::{secret_name, MountSpec};
use vk_kernel::netwatch::{sample, v4_peer, Connection, ESTABLISHED};
use vk_kernel::runs::{failed_run, read_run_params, run_config, run_ready, show_run};
use vk_kernel::settings::{
    adapter_factory, coder_config, harness_binary_at_start, harness_prompt,
    harness_system_suffix, mount_spec_of, ollama_config, remount_for, resolve_harness_binary,
    search_list, AdapterKind, AtStart, CoderConfig, ContainerSpec, HarnessSettings, OllamaConfig,
    Place, ServerConfig, Tried,
};

fn object(members: Vec<(&str, Json)>) -> Json {
    let mut f = Fields::new();
    for (name, value) in members {
        f.put(name, value);
    }
    f.object()
}

fn text(s: &str) -> Json {
    Json::Text(s.to_string())
}

const BARE: Place = Place { nested: false, absolute: false, file: false };

#[test]
fn a_daemon_starts_from_its_defaults() {
    let cfg = ServerConfig::new("/run/vk.sock".to_string(), "coder");
    assert_eq!(cfg.endpoint, "/run/vk.sock");
    assert_eq!(cfg.harness.binary, "coder");
    assert_eq!(cfg.harness.model.as_deref(), Some("coder-sonnet-5"));
    assert_eq!(cfg.harness.timeout_ms, 300_000);
    assert!(cfg.web.is_none());
}

#[test]
fn the_operator_adds_to_a_prompt_only_what_is_not_blank() {
    assert_eq!(harness_prompt("base", &None), "base");
    assert_eq!(harness_prompt("base", &Some("  \n".to_string())), "base");
    assert_eq!(
        harness_prompt("base", &Some(" more \n".to_string())),
        "base\n\nmore"
    );
    assert_eq!(harness_system_suffix(&None), None);
    assert_eq!(harness_system_suffix(&Some(" ".to_string())), None);
    assert_eq!(
        harness_system_suffix(&Some(" told ".to_string())),
        Some(" told ".to_string())
    );
}

#[test]
fn a_harness_binary_is_absolute_or_on_the_search_path() {
    let dirs = vec!["/usr/bin".to_string(), "/opt".to_string()];
    assert_eq!(
        search_list(&dirs, "coder", false),
        vec!["/usr/bin/coder".to_string(), "/opt/coder".to_string()]
    );
    let dirs = vec!["C:\\bin".to_string(), "C:\\opt\\".to_string()];
    assert_eq!(search_list(&dirs, "coder", true)[0], "C:\\bin\\coder.exe");
    assert_eq!(search_list(&dirs, "coder.EXE", true)[1], "C:\\opt\\coder.EXE");

    let tried = vec![
        Tried { path: "/usr/bin/coder".to_string(), file: false, absolute: None },
        Tried { path: "/opt/coder".to_string(), file: true, absolute: None },
    ];
    assert_eq!(
        resolve_harness_binary("coder", BARE, &tried, false),
        Ok("/opt/coder".to_string())
    );
    assert_eq!(
        resolve_harness_binary("coder", BARE, &vec![], true),
        Err("harness binary `coder` not found on the daemon's PATH (as an .exe); start vkd with --harness-bin <path>".to_string())
    );
    let relative = Place { nested: true, absolute: false, file: true };
    assert!(resolve_harness_binary("bin/coder", relative, &vec![], false)
        .unwrap_err()
        .contains("is a relative path"));
    let gone = Place { nested: true, absolute: true, file: false };
    assert_eq!(
        resolve_harness_binary("/bin/coder", gone, &vec![], false),
        Err("harness binary /bin/coder does not exist (vkd --harness-bin)".to_string())
    );
    let there = Place { nested: true, absolute: true, file: true };
    assert_eq!(
        resolve_harness_binary("/bin/coder", there, &vec![], false),
        Ok("/bin/coder".to_string())
    );
}

#[test]
fn a_daemon_serves_without_its_harness_but_not_with_a_wrong_path() {
    let no_path = Err("no working directory".to_string());
    match harness_binary_at_start("coder", BARE, &no_path, false, &vec![]) {
        Ok(AtStart::Missing(name)) => assert_eq!(name, "coder"),
        other => panic!("{other:?}"),
    }
    let nested = Place { nested: true, absolute: false, file: false };
    let path = Ok("/home/bin/coder".to_string());
    assert_eq!(
        harness_binary_at_start("bin/coder", nested, &path, false, &vec![]).unwrap_err(),
        "--harness-bin /home/bin/coder is not a file (resolved from bin/coder)"
    );
    match harness_binary_at_start("bin/coder", nested, &path, true, &vec![]) {
        Ok(AtStart::Pinned(p)) => assert_eq!(p, "/home/bin/coder"),
        other => panic!("{other:?}"),
    }
    assert_eq!(
        harness_binary_at_start("bin/coder", nested, &no_path, false, &vec![]).unwrap_err(),
        "resolve --harness-bin bin/coder: no working directory"
    );
}

#[test]
fn a_name_found_through_a_relative_search_path_is_pinned_as_an_absolute_path() {
    let tried = vec![
        Tried {
            path: "sbin/coder".to_string(),
            file: false,
            absolute: Some("/home/sbin/coder".to_string()),
        },
        Tried {
            path: "bin/coder".to_string(),
            file: true,
            absolute: Some("/home/bin/coder".to_string()),
        },
        Tried { path: "/usr/bin/coder".to_string(), file: true, absolute: None },
    ];
    let path = Ok("/home/coder".to_string());
    match harness_binary_at_start("coder", BARE, &path, true, &tried) {
        Ok(AtStart::Pinned(p)) => assert_eq!(p, "/home/bin/coder"),
        other => panic!("{other:?}"),
    }
    match harness_binary_at_start("coder", BARE, &path, false, &tried[2..].iter().map(|t| Tried {
        path: t.path.clone(),
        file: t.file,
        absolute: t.absolute.clone(),
    }).collect()) {
        Ok(AtStart::Pinned(p)) => assert_eq!(p, "/usr/bin/coder"),
        other => panic!("{other:?}"),
    }
}

#[test]
fn a_mount_spec_keeps_no_credential_and_no_recreate() {
    let asked = object(vec![("model", text("m")), ("recreate", Json::Bool(true))]);
    let spec = mount_spec_of("ollama", &asked).unwrap();
    assert_eq!(spec.kind, "ollama");
    assert_eq!(spec.config.render(), "{\"model\":\"m\"}");
    assert_eq!(remount_for("ollama", &asked), Remount::Replace);
    assert_eq!(remount_for("ollama", &spec.config), Remount::Keep);
    assert_eq!(remount_for("mock", &asked), Remount::Keep);

    let mut deep = Items::new();
    deep.add(object(vec![("Api_Key", text("sk"))]));
    let err = mount_spec_of("ollama", &object(vec![("auth", deep.array())])).unwrap_err();
    assert_eq!(err.message, "a mount spec carries no credential: `Api_Key`");
    assert!(MountSpec::new("mock", object(vec![("max_tokens", Json::Unsigned(9))])).is_ok());
    assert!(secret_name("accessTOKEN"));
    assert!(!secret_name("model"));
}

#[test]
fn an_arch_kind_decides_its_adapter() {
    let spec = |kind: &str| MountSpec { kind: kind.to_string(), config: Json::Null };
    assert_eq!(adapter_factory("coder", &spec("mock")), Ok(AdapterKind::Mock));
    assert_eq!(adapter_factory("coder", &spec("coder-code")), Ok(AdapterKind::Coder));
    assert_eq!(adapter_factory("coder", &spec("ollama")), Ok(AdapterKind::Ollama));
    assert_eq!(
        adapter_factory("coder", &spec("quantum")),
        Err("no arch kind quantum".to_string())
    );
}

#[test]
fn a_configuration_overrides_the_defaults_one_by_one() {
    let defaults = CoderConfig {
        binary: "coder".to_string(),
        model: "coder-sonnet-5".to_string(),
        max_turns: 1,
        timeout_secs: 180,
        context_ceiling: 180_000,
        cwd: String::new(),
    };
    let c = coder_config(
        "coder",
        "/state",
        false,
        &object(vec![("model", text("coder-opus-5")), ("max_turns", Json::Unsigned(3))]),
        &defaults,
    )
    .unwrap();
    assert_eq!((c.binary.as_str(), c.model.as_str()), ("coder", "coder-opus-5"));
    assert_eq!((c.max_turns, c.timeout_secs, c.context_ceiling), (3, 180, 180_000));
    assert_eq!(c.cwd, "/state/coder-code-cwd");
    assert!(coder_config(
        "coder",
        "/state",
        false,
        &object(vec![("timeout_secs", text("soon"))]),
        &defaults
    )
    .is_err());

    let defaults = OllamaConfig {
        base_url: "http://127.0.0.1:11434".to_string(),
        model: "qwen".to_string(),
        num_ctx: 8192,
        max_tokens: 1024,
        seed: 42,
        container: None,
        recreate: false,
    };
    let contained = ContainerSpec {
        image: "ollama/ollama".to_string(),
        memory: "8g".to_string(),
        cpus: "4".to_string(),
    };
    let c = ollama_config(&object(vec![("cpus", text("2"))]), &defaults, &contained).unwrap();
    let own = c.container.expect("an unnamed server is contained");
    assert_eq!((own.image.as_str(), own.cpus.as_str()), ("ollama/ollama", "2"));
    let c = ollama_config(
        &object(vec![("base_url", text("http://elsewhere:1")), ("seed", Json::Unsigned(7))]),
        &defaults,
        &contained,
    )
    .unwrap();
    assert!(c.container.is_none());
    assert_eq!((c.seed, c.num_ctx, c.max_tokens), (7, 8192, 1024));
    assert!(ollama_config(&object(vec![("seed", text("x"))]), &defaults, &contained).is_err());
}

fn config() -> HarnessConfig {
    run_config(
        &HarnessSettings::new("coder"),
        "/opt/coder",
        "/run/vk.sock",
        "/opt/vk-mcp",
        "/state/harness/task-1",
        "/state/harness/task-1.mcp",
        "the-secret",
        "do it",
        &None,
        &None,
        false,
    )
}

#[test]
fn a_shown_launch_has_everything_but_the_token() {
    let cfg = config();
    assert_eq!(
        launch_line(&cfg),
        vec![
            "/opt/coder",
            "-p",
            "do it",
            "--mcp-config",
            "/state/harness/task-1.mcp/mcp.json",
            "--allowedTools",
            "mcp__vk__*,Read,Write,Edit,Glob,Grep",
            "--permission-mode",
            "acceptEdits",
            "--output-format",
            "json",
            "--strict-mcp-config",
            "--model",
            "coder-sonnet-5",
        ]
    );
    let shown = show_run("task-1", &cfg);
    assert_eq!(shown.bool_at("dry_run"), Some(true));
    assert_eq!(shown.text_at("workspace").unwrap(), "/state/harness/task-1");
    assert!(shown.text_at("mcp_json").unwrap().contains(REDACTED_TOKEN));
    assert_eq!(shown.text_at("settings_json").unwrap(), &settings_json(&cfg));
    assert!(!shown.render().contains("the-secret"));
    assert!(settings_json(&cfg).contains("\"Read(/state/harness/task-1.mcp/**)\""));
    assert_eq!(
        mcp_json(&cfg, "a\"b"),
        "{\n  \"mcpServers\": {\n    \"vk\": {\n      \"command\": \"/opt/vk-mcp\",\n      \"env\": {\n        \"VK_ENDPOINT\": \"/run/vk.sock\",\n        \"VK_LEASE_TOKEN\": \"a\\\"b\"\n      }\n    }\n  }\n}"
    );
}

#[test]
fn what_a_person_adds_to_the_system_prompt_is_on_the_line() {
    let mut cfg = config();
    cfg.model = None;
    cfg.system_suffix = Some("be careful".to_string());
    let line = launch_line(&cfg);
    assert_eq!(line[line.len() - 2..], ["--append-system-prompt", "be careful"]);
    assert!(!line.iter().any(|a| a == "--model"));
}

#[test]
fn a_run_is_refused_before_anything_is_leased() {
    let err = run_ready(true, Err("none".to_string()), "/opt/vk-mcp", true).unwrap_err();
    assert_eq!(err.message, "none");
    let err = run_ready(false, Ok("/opt/coder".to_string()), "/opt/vk-mcp", false).unwrap_err();
    assert_eq!(
        err.message,
        "no vk-mcp next to this daemon at /opt/vk-mcp: the harness would run without its kernel channel"
    );
    assert_eq!(
        run_ready(true, Ok("/opt/coder".to_string()), "/opt/vk-mcp", false).unwrap(),
        "/opt/coder"
    );
    let p = read_run_params(&object(vec![("task_id", text("t"))]), "coder", "").unwrap();
    assert_eq!((p.name.as_str(), p.dry_run, p.keep), ("coder-code", false, false));
    let run = failed_run();
    assert_eq!(run.exit_reason.label(), "not started");
    assert!(!run.governed && !run.exit_reason.is_success());
}

#[test]
fn a_run_ends_by_itself_or_is_killed() {
    assert!(matches!(reason_from(Some(3)), ExitReason::Exited(3)));
    assert!(matches!(reason_from(None), ExitReason::Signal));
    assert_eq!(ExitReason::Exited(-1).label(), "code -1");
    assert_eq!(ExitReason::KilledByGovernor.label(), "killed by governor");
    assert_eq!(ExitReason::Signal.label(), "signal");
    assert!(matches!(
        next_move(Some(None), true, 9, 1),
        Move::Ended(ExitReason::Signal)
    ));
    assert!(matches!(
        next_move(None, true, 9, 1),
        Move::Kill(ExitReason::KilledByGovernor)
    ));
    assert!(matches!(next_move(None, false, 1, 1), Move::Kill(ExitReason::Timeout)));
    assert!(matches!(next_move(None, false, 0, 1), Move::Sample));
    assert_eq!(last_chars("abcdef", 3), "…def");
    assert_eq!(last_chars("abc", 3), "abc");
}

#[test]
fn a_result_that_was_printed_is_read() {
    let mut denied = Items::new();
    denied.add(object(vec![("tool_name", text("Bash"))]));
    let v = object(vec![
        ("type", text("result")),
        ("num_turns", Json::Unsigned(4)),
        ("total_cost_usd", Json::Unsigned(2)),
        ("permission_denials", denied.array()),
    ]);
    let o = read_outcome(&v).unwrap();
    assert_eq!((o.num_turns, o.total_cost_usd.as_deref()), (4, Some("2")));
    assert_eq!(o.permission_denials, vec!["{\"tool_name\":\"Bash\"}".to_string()]);
    assert!(read_outcome(&object(vec![("type", text("system"))])).is_none());
    assert!(read_outcome(&Json::Null).is_none());
}

#[test]
fn only_the_live_connections_of_the_process_are_its_egress() {
    let row = |pid: u32, state: u32, remote: &str| Connection {
        pid,
        state,
        remote: remote.to_string(),
    };
    let table = vec![
        row(7, ESTABLISHED, "10.0.0.9:443"),
        row(7, 2, "10.0.0.1:80"),
        row(8, ESTABLISHED, "10.0.0.2:80"),
        row(7, ESTABLISHED, "10.0.0.3:443"),
        row(7, ESTABLISHED, "10.0.0.9:443"),
    ];
    assert_eq!(
        sample(7, &table),
        vec!["10.0.0.3:443".to_string(), "10.0.0.9:443".to_string()]
    );
}

#[test]
fn a_peer_is_read_in_the_order_of_the_network() {
    // 10.0.0.1 and 443, as a table holds them.
    assert_eq!(v4_peer(0x0100_000A, 0xBB01), "10.0.0.1:443");
    assert_eq!(v4_peer(u32::MAX, u32::MAX), "255.255.255.255:65535");
}

#[test]
fn a_refused_containment_says_why() {
    let facts = |exited, in_job, own_job, breakaway| RefusalFacts {
        exited,
        in_job,
        own_job,
        breakaway,
    };
    assert_eq!(
        refusal_cause(&facts(Ok(Some(3)), Ok(false), Ok(false), Ok(false))),
        "the process had already exited with code 3"
    );
    assert!(refusal_cause(&facts(Ok(None), Ok(true), Ok(true), Ok(true)))
        .contains("own job is permitted"));
    assert!(refusal_cause(&facts(Ok(None), Ok(true), Ok(false), Ok(true))).contains("moot"));
    assert!(refusal_cause(&facts(Ok(None), Ok(false), Ok(true), Ok(true)))
        .contains("in no job object"));
    assert!(refusal_cause(&facts(
        Err("denied".to_string()),
        Ok(false),
        Ok(true),
        Ok(true)
    ))
    .contains("GetExitCodeProcess: denied"));
    let job = JobGovernor::new(1 << 20, Some(25)).unwrap();
    assert_eq!(job.cpu_rate(), Some(2500));
}
