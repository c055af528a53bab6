use vise::host::{
    already_running, follow_log, host_binary_candidates, immediate_exit, live_pid, load_env,
    no_log, parse_env, pid_file_contents, read_pid, resolve_api_token, resolve_host_binary,
    resolve_url, start, started, status, stop, tail_lines, EnvVars, Launch, Paths, StartOptions,
    StartPlan, StopState, DEFAULT_URL,
};

fn options(token: Option<&str>, url: Option<&str>, extra: &[&str]) -> StartOptions {
    StartOptions {
        binary: None,
        token: token.map(str::to_string),
        url: url.map(str::to_string),
        extra_args: extra.iter().map(|s| s.to_string()).collect(),
    }
}

fn spawn(plan: StartPlan) -> Launch {
    match plan {
        StartPlan::Spawn(launch) => launch,
        StartPlan::AlreadyRunning(pid) => panic!("already running as {pid}"),
    }
}

#[test]
fn parse_env_handles_comments_quotes_and_export() {
    let text = "\
# comment
VISE_URL=http://localhost:3000
export VISE_HOST_TOKEN='vhost_abc'

POSTGRES_PASSWORD=\"p=ss word\"
  SPACED  =  value
INVALID LINE
EMPTY=
VISE_URL=http://override:1
";
    let env = parse_env(text);
    assert_eq!(env.get("VISE_URL"), Some("http://override:1"));
    assert_eq!(env.get("VISE_HOST_TOKEN"), Some("vhost_abc"));
    assert_eq!(env.get("POSTGRES_PASSWORD"), Some("p=ss word"));
    assert_eq!(env.get("SPACED"), Some("value"));
    assert_eq!(env.get("EMPTY"), Some(""));
    assert!(!env.contains_key("INVALID LINE"));
    assert_eq!(env.len(), 5);
}

#[test]
fn resolve_url_precedence() {
    let mut env = EnvVars::new();
    assert_eq!(resolve_url(None, &env), DEFAULT_URL);
    env.insert("VISE_URL", "http://file:1");
    assert_eq!(resolve_url(None, &env), "http://file:1");
    assert_eq!(resolve_url(Some("http://flag:2"), &env), "http://flag:2");
    env.insert("VISE_URL", "");
    assert_eq!(resolve_url(None, &env), DEFAULT_URL);
}

#[test]
fn an_explicit_empty_url_means_the_default() {
    let mut env = EnvVars::new();
    env.insert("VISE_URL", "http://file:1");
    assert_eq!(resolve_url(Some(""), &env), DEFAULT_URL);
}

#[test]
fn resolve_api_token_precedence() {
    let mut env = EnvVars::new();
    assert_eq!(resolve_api_token(None, &env), None);
    env.insert("VISE_API_TOKEN", " file-token ");
    assert_eq!(resolve_api_token(None, &env).as_deref(), Some("file-token"));
    assert_eq!(
        resolve_api_token(Some("flag-token"), &env).as_deref(),
        Some("flag-token")
    );
    env.insert("VISE_API_TOKEN", "");
    assert_eq!(resolve_api_token(None, &env), None);
}

#[test]
fn tail_lines_keeps_last_n() {
    assert_eq!(tail_lines("a\nb\nc\n", 2), "b\nc\n");
    assert_eq!(tail_lines("a\nb\nc", 5), "a\nb\nc\n");
    assert_eq!(tail_lines("", 3), "");
    assert_eq!(tail_lines("a\nb\n", 0), "");
}

#[test]
fn load_env_missing_file_is_empty() {
    assert!(load_env(None).is_empty());
    assert!(!load_env(Some("A=1")).is_empty());
}

#[test]
fn carriage_returns_and_unmatched_quotes() {
    let env = parse_env("A=1\r\nB=\"x'\r\nC='\nD=''\n=nokey\nexport   E = 2 \n");
    assert_eq!(env.get("A"), Some("1"));
    assert_eq!(env.get("B"), Some("\"x'"));
    assert_eq!(env.get("C"), Some("'"));
    assert_eq!(env.get("D"), Some(""));
    assert_eq!(env.get("E"), Some("2"));
    assert_eq!(env.len(), 5);
}

#[test]
fn locations_lie_under_the_root() {
    let paths = Paths::from_env(Some("/srv/vise"), Some("/home/u")).unwrap();
    assert_eq!(paths.root(), "/srv/vise");
    let paths = Paths::from_env(None, Some("/home/u")).unwrap();
    assert_eq!(paths.root(), "/home/u/.vise");
    assert_eq!(paths.env_file(), "/home/u/.vise/.env");
    assert_eq!(paths.bin_dir(), "/home/u/.vise/bin");
    assert_eq!(paths.pid_file(), "/home/u/.vise/host.pid");
    assert_eq!(paths.log_file(), "/home/u/.vise/logs/host.log");
    assert!(Paths::from_env(None, None).unwrap_err().contains("HOME is not set"));
    assert_eq!(Paths::new("/").env_file(), "/.env");
    assert_eq!(Paths::new("").env_file(), ".env");
}

#[test]
fn resolve_host_binary_explicit_and_bin_dir() {
    let paths = Paths::new("/v");

    let explicit = host_binary_candidates(Some("/v/nope"), Some("/usr/bin"), &paths, &[]);
    assert_eq!(explicit, vec!["/v/nope"]);
    let error = resolve_host_binary(Some("/v/nope"), &paths, &explicit, &[false]).unwrap_err();
    assert!(error.contains("not found"), "{error}");

    let places = host_binary_candidates(
        None,
        Some("/target/debug"),
        &paths,
        &["/bin".to_string(), "/usr/bin/".to_string()],
    );
    assert_eq!(
        places,
        vec![
            "/target/debug/vise-host",
            "/v/bin/vise-host",
            "/bin/vise-host",
            "/usr/bin/vise-host"
        ]
    );
    // bin/ is searched before PATH.
    assert_eq!(
        resolve_host_binary(None, &paths, &places, &[false, true, true, false]).unwrap(),
        "/v/bin/vise-host"
    );
    let error = resolve_host_binary(None, &paths, &places, &[false; 4]).unwrap_err();
    assert_eq!(
        error,
        "vise-host binary not found (looked next to vise, in /v/bin and on PATH); \
         install it with scripts/install.sh or pass --bin"
    );
}

#[test]
fn start_status_stop_lifecycle() {
    let paths = Paths::new("/v");
    let env = parse_env("VISE_URL=http://example.test:1234\nVISE_HOST_TOKEN=vhost_fromfile\n");
    let (text, running) = status(&paths, None);
    assert_eq!((text.as_str(), running), ("vise-host: not running\n", false));

    let launch = spawn(
        start(
            &paths,
            &options(None, None, &["--keep-workspaces"]),
            None,
            Ok("/v/bin/vise-host".to_string()),
            &env,
        )
        .unwrap(),
    );
    assert_eq!(launch.binary, "/v/bin/vise-host");
    assert_eq!(
        launch.args,
        vec!["--url", "http://example.test:1234", "--keep-workspaces"]
    );
    assert_eq!(launch.token, "vhost_fromfile");
    assert_eq!(launch.log_file, "/v/logs/host.log");
    assert_eq!(
        started(7, &launch),
        "started vise-host (pid 7)\n  url: http://example.test:1234\n  log: /v/logs/host.log\n"
    );

    // Second start is a no-op against the same process.
    match start(&paths, &options(None, None, &[]), Some(7), Err("no binary".into()), &env) {
        Ok(StartPlan::AlreadyRunning(7)) => {}
        other => panic!("{other:?}"),
    }
    assert_eq!(already_running(7), "vise-host already running (pid 7)\n");
    let (text, running) = status(&paths, Some(7));
    assert_eq!(
        (text.as_str(), running),
        ("vise-host: running (pid 7)\n  log: /v/logs/host.log\n", true)
    );

    let state = stop(Some(7));
    assert_eq!(state, StopState::Terminate);
    assert_eq!(state.after_wait(true), StopState::Stopped);
    assert_eq!(StopState::Stopped.message(7), "stopped vise-host (pid 7)\n");

    // Stopping again is fine.
    assert_eq!(stop(None), StopState::NotRunning);
    assert_eq!(StopState::NotRunning.message(0), "vise-host is not running\n");
}

#[test]
fn a_stubborn_host_is_killed() {
    let killing = stop(Some(9)).after_wait(false);
    assert_eq!(killing, StopState::Kill);
    assert_eq!(
        killing.message(9),
        "vise-host (pid 9) did not exit after SIGTERM; sending SIGKILL\n"
    );
    assert_eq!(killing.after_wait(true), StopState::Stopped);
    let stuck = killing.after_wait(false);
    assert_eq!(stuck, StopState::Stuck);
    assert_eq!(stuck.message(9), "vise-host (pid 9) is still running after SIGKILL");
    assert_eq!(stuck.after_wait(true), StopState::Stuck);
}

#[test]
fn start_reports_immediate_exit() {
    let paths = Paths::new("/v");
    let launch = spawn(
        start(
            &paths,
            &options(Some("vhost_x"), None, &[]),
            None,
            Ok("/v/failing-host".to_string()),
            &EnvVars::new(),
        )
        .unwrap(),
    );
    assert_eq!(launch.url, DEFAULT_URL);
    let message = immediate_exit(
        "exit status: 3",
        &launch,
        Some("=== vise host start x ===\nboom: bad token\n"),
    );
    assert!(message.contains("exited immediately"), "{message}");
    assert!(message.contains("boom: bad token"), "{message}");
    assert_eq!(
        immediate_exit("exit status: 3", &launch, None),
        "vise-host exited immediately (exit status: 3); last log lines from /v/logs/host.log:\n"
    );
}

#[test]
fn start_without_token_fails_before_spawning() {
    let paths = Paths::new("/v");
    let error = start(
        &paths,
        &options(None, None, &[]),
        None,
        Ok("/v/host".to_string()),
        &EnvVars::new(),
    )
    .unwrap_err();
    assert!(error.contains("no host token"), "{error}");
    assert!(error.contains("/v/.env"), "{error}");

    let mut env = EnvVars::new();
    env.insert("VISE_HOST_TOKEN", "");
    assert!(start(&paths, &options(None, None, &[]), None, Ok("h".into()), &env).is_err());
    let error =
        start(&paths, &options(Some("t"), None, &[]), None, Err("missing".into()), &env).unwrap_err();
    assert_eq!(error, "missing");
}

#[test]
fn stale_pidfile_is_cleaned_up() {
    let paths = Paths::new("/v");
    let pid = read_pid(&paths, Some("4194303\n")).unwrap();
    assert_eq!(pid, Some(4194303));
    let stale = live_pid(pid, false);
    assert_eq!((stale.pid, stale.remove_pidfile), (None, true));
    let alive = live_pid(pid, true);
    assert_eq!((alive.pid, alive.remove_pidfile), (pid, false));
    let absent = live_pid(None, false);
    assert_eq!((absent.pid, absent.remove_pidfile), (None, false));
}

#[test]
fn pidfiles_round_trip_and_reject_garbage() {
    let paths = Paths::new("/v");
    assert_eq!(pid_file_contents(4194303), "4194303\n");
    assert_eq!(
        read_pid(&paths, Some(&pid_file_contents(u32::MAX))).unwrap(),
        Some(u32::MAX)
    );
    assert_eq!(read_pid(&paths, None).unwrap(), None);
    assert_eq!(read_pid(&paths, Some("  \n")).unwrap(), None);
    assert_eq!(
        read_pid(&paths, Some("12 \"ab\"\n")).unwrap_err(),
        "/v/host.pid does not contain a pid: \"12 \\\"ab\\\"\""
    );
    assert!(read_pid(&paths, Some("4294967296")).is_err());
    assert!(read_pid(&paths, Some("-1")).is_err());
}

#[test]
fn a_followed_log_survives_rotation() {
    let step = follow_log(10, 10);
    assert_eq!((step.offset, step.read), (10, false));
    let step = follow_log(10, 15);
    assert_eq!((step.offset, step.read), (10, true));
    let step = follow_log(10, 4);
    assert_eq!((step.offset, step.read), (0, true));
    let step = follow_log(10, 0);
    assert_eq!((step.offset, step.read), (0, false));
    assert_eq!(
        no_log(&Paths::new("/v")),
        "no host log at /v/logs/host.log (start the host with `vise host start`)"
    );
}
