//! `vise host`: manage the local `vise-host` process.
//!
//! The host runs natively because it spawns the locally installed agent
//! harness, so this is a small pidfile supervisor rather than a
//! launchd/systemd unit. All state lives under `~/.vise` (override with
//! `VISE_HOME`):
//!
//! - `.env`: `KEY=VALUE` config (`VISE_URL`, `VISE_API_TOKEN`, `VISE_HOST_TOKEN`, ...)
//! - `bin/`: installed `vise` and `vise-host` binaries
//! - `host.pid`: pid of the running `vise-host`
//! - `logs/host.log`: combined stdout/stderr of `vise-host`
//!
//! Here stand the rules: what the files mean, what is started with which
//! arguments, and what is said. Reading files, spawning and signalling are the
//! caller's.

use vstd::prelude::*;
use vstd::string::*;

use crate::decimal::{decimal, numeral_round_trip, parse_unsigned, to_decimal, unsigned_value};
use crate::table::Table;
use crate::text::{
    after_prefix, all_white, chars_of, cutting_at_the_first, is_white, lemma_split_pair,
    lemma_terminated_first, lemma_trimmed_is_part, lines_of, prefixes_come_off, push_chars,
    slice_views, split_lines, split_once, split_pair, starts, string_views, strip_prefix,
    terminated, text_of, trim, trimmed, trimming_finds_the_text,
};

verus! {

/// Server URL used when neither `--url`, `VISE_URL` nor `~/.vise/.env` set one.
pub const DEFAULT_URL: &'static str = "http://localhost:3000";

/// Name of the host's binary.
pub const HOST_BINARY: &'static str = "vise-host";

/// How long a stopping host may take before it is killed, in milliseconds.
pub const STOP_TIMEOUT_MS: u64 = 10_000;

/// How long a killed host may take to go, in milliseconds.
pub const KILL_TIMEOUT_MS: u64 = 2_000;

/// How long a started host is watched for an immediate exit, in milliseconds.
pub const START_GRACE_MS: u64 = 500;

/// How often a followed log is looked at, in milliseconds.
pub const FOLLOW_INTERVAL_MS: u64 = 500;

// --- paths -----------------------------------------------------------

/// `name` inside the directory `base`.
pub open spec fn path_joined(base: Seq<char>, name: Seq<char>) -> Seq<char> {
    if base.len() == 0 || base.last() == '/' {
        base + name
    } else {
        base + "/"@ + name
    }
}

/// The relative path `name` inside the directory `base`.
pub fn join_path(base: &str, name: &str) -> (r: String)
    ensures
        r@ == path_joined(base@, name@),
{
    let chars: Vec<char> = chars_of(base);
    let mut out = base.to_owned();
    if chars.len() > 0 && chars[chars.len() - 1] != '/' {
        out.append("/");
    }
    out.append(name);
    out
}

/// Locations of everything `vise host` touches, rooted at the vise home dir.
#[derive(Debug)]
pub struct Paths {
    root: String,
}

impl View for Paths {
    type V = Seq<char>;

    /// The root directory.
    closed spec fn view(&self) -> Seq<char> {
        self.root@
    }
}

impl Paths {
    /// `$VISE_HOME`, else `$HOME/.vise`, given the values of the two
    /// variables.
    pub fn from_env(vise_home: Option<&str>, home: Option<&str>) -> (r: Result<Paths, String>)
        ensures
            match (vise_home, home) {
                (Some(dir), _) => r matches Ok(p) && p@ == dir@,
                (None, Some(dir)) => r matches Ok(p) && p@ == path_joined(dir@, ".vise"@),
                (None, None) => r matches Err(e) && e@
                    == "HOME is not set; set VISE_HOME to the vise state directory"@,
            },
    {
        match vise_home {
            Some(dir) => Ok(Paths::new(dir)),
            None => match home {
                Some(dir) => Ok(Paths { root: join_path(dir, ".vise") }),
                None => Err(
                    "HOME is not set; set VISE_HOME to the vise state directory".to_owned(),
                ),
            },
        }
    }

    /// The locations under `root`.
    pub fn new(root: &str) -> (r: Paths)
        ensures
            r@ == root@,
    {
        Paths { root: root.to_owned() }
    }

    /// The root directory.
    pub fn root(&self) -> (r: &str)
        ensures
            r@ == self@,
    {
        self.root.as_str()
    }

    /// The configuration file.
    pub fn env_file(&self) -> (r: String)
        ensures
            r@ == path_joined(self@, ".env"@),
    {
        join_path(self.root(), ".env")
    }

    /// The directory of the installed binaries.
    pub fn bin_dir(&self) -> (r: String)
        ensures
            r@ == path_joined(self@, "bin"@),
    {
        join_path(self.root(), "bin")
    }

    /// The file with the running host's pid.
    pub fn pid_file(&self) -> (r: String)
        ensures
            r@ == path_joined(self@, "host.pid"@),
    {
        join_path(self.root(), "host.pid")
    }

    /// The host's log.
    pub fn log_file(&self) -> (r: String)
        ensures
            r@ == path_joined(path_joined(self@, "logs"@), "host.log"@),
    {
        join_path(join_path(self.root(), "logs").as_str(), "host.log")
    }
}

// --- the configuration file -----------------------------------------------------------

/// The variables of a configuration file.
#[derive(Debug)]
pub struct EnvVars {
    table: Table<String>,
}

impl View for EnvVars {
    type V = Map<Seq<char>, Seq<char>>;

    closed spec fn view(&self) -> Map<Seq<char>, Seq<char>> {
        self.table@.map_values(|v: String| v@)
    }
}

impl EnvVars {
    /// No variables.
    pub fn new() -> (r: EnvVars)
        ensures
            r@ == Map::<Seq<char>, Seq<char>>::empty(),
    {
        let r = EnvVars { table: Table::new() };
        assert(r@ =~= Map::empty());
        r
    }

    /// The value of `key`.
    pub fn get(&self, key: &str) -> (r: Option<&str>)
        ensures
            match r {
                Some(v) => self@.contains_key(key@) && self@[key@] == v@,
                None => !self@.contains_key(key@),
            },
    {
        match self.table.get(key) {
            Some(v) => Some(v.as_str()),
            None => None,
        }
    }

    /// True when `key` has a value.
    pub fn contains_key(&self, key: &str) -> (r: bool)
        ensures
            r == self@.contains_key(key@),
    {
        self.get(key).is_some()
    }

    /// Number of variables.
    pub fn len(&self) -> (r: usize)
        ensures
            self@.dom().finite(),
            r == self@.len(),
    {
        assert(self@.dom() =~= self.table@.dom());
        self.table.len()
    }

    /// True when there is no variable.
    pub fn is_empty(&self) -> (r: bool)
        ensures
            r <==> self@ == Map::<Seq<char>, Seq<char>>::empty(),
    {
        let n: usize = self.len();
        proof {
            if n == 0 {
                assert(self@ =~= Map::empty());
            }
        }
        n == 0
    }

    /// Sets the value of `key`.
    pub fn insert(&mut self, key: &str, value: &str)
        ensures
            final(self)@ == old(self)@.insert(key@, value@),
    {
        self.table.insert(key, value.to_owned());
        assert(self@ =~= old(self)@.insert(key@, value@));
    }
}

/// `v` without the matching single or double quotes around it.
pub open spec fn unquoted(v: Seq<char>) -> Seq<char> {
    if v.len() >= 2 && (v[0] == '"' || v[0] == '\'') && v.last() == v[0] {
        v.subrange(1, v.len() - 1)
    } else {
        v
    }
}

/// The key and the value that a line of the configuration file sets.
pub open spec fn assignment(line: Seq<char>) -> Option<(Seq<char>, Seq<char>)> {
    let t = trimmed(line);
    if t.len() == 0 || t[0] == '#' {
        None
    } else {
        let body = match after_prefix(t, "export "@) {
            Some(rest) => trimmed(rest),
            None => t,
        };
        match split_pair(body, '=') {
            Some((key, value)) => if trimmed(key).len() == 0 {
                None
            } else {
                Some((trimmed(key), unquoted(trimmed(value))))
            },
            None => None,
        }
    }
}

/// The variables that the lines of a configuration file set.
pub open spec fn env_of(lines: Seq<Seq<char>>) -> Map<Seq<char>, Seq<char>>
    decreases lines.len(),
{
    if lines.len() == 0 {
        Map::empty()
    } else {
        match assignment(lines.last()) {
            Some((key, value)) => env_of(lines.drop_last()).insert(key, value),
            None => env_of(lines.drop_last()),
        }
    }
}

fn unquote<'a>(v: &'a [char]) -> (r: &'a [char])
    ensures
        r@ == unquoted(v@),
{
    if v.len() >= 2 && (v[0] == '"' || v[0] == '\'') && v[v.len() - 1] == v[0] {
        &v[1..v.len() - 1]
    } else {
        v
    }
}

/// The key and the value that a line of the configuration file sets.
pub(crate) fn read_assignment<'a>(line: &'a [char]) -> (r: Option<(&'a [char], &'a [char])>)
    ensures
        match r {
            Some((k, v)) => assignment(line@) == Some((k@, v@)),
            None => assignment(line@) is None,
        },
{
    let line: &'a [char] = trim(line);
    if line.len() == 0 || line[0] == '#' {
        return None;
    }
    let export: Vec<char> = chars_of("export ");
    let body: &'a [char] = match strip_prefix(line, &export) {
        Some(rest) => trim(rest),
        None => line,
    };
    match split_once(body, '=') {
        Some((key, value)) => {
            let key: &'a [char] = trim(key);
            if key.len() == 0 {
                None
            } else {
                Some((key, unquote(trim(value))))
            }
        },
        None => None,
    }
}

/// Parse dotenv-style text: one `KEY=VALUE` per line, `#` comments and blank
/// lines ignored, optional `export ` prefix, optional matching single or
/// double quotes around the value. A key that appears twice keeps the last
/// value. No variable expansion.
pub fn parse_env(contents: &str) -> (vars: EnvVars)
    ensures
        vars@ == env_of(lines_of(contents@)),
{
    let chars: Vec<char> = chars_of(contents);
    let lines: Vec<&[char]> = split_lines(&chars);
    let ghost views = lines_of(contents@);
    let mut vars = EnvVars::new();
    for i in 0..lines.len()
        invariant
            slice_views(lines@) == views,
            vars@ == env_of(views.take(i as int)),
    {
        proof {
            assert(views.take(i + 1).drop_last() =~= views.take(i as int));
            assert(views.take(i + 1).last() == slice_views(lines@)[i as int]);
        }
        match read_assignment(lines[i]) {
            Some((key, value)) => {
                vars.insert(text_of(key).as_str(), text_of(value).as_str());
            },
            None => {},
        }
    }
    assert(views.take(views.len() as int) =~= views);
    vars
}

/// The configuration in `~/.vise/.env`, given the file's contents; a missing
/// file is an empty config, not an error.
pub fn load_env(contents: Option<&str>) -> (vars: EnvVars)
    ensures
        vars@ == match contents {
            Some(text) => env_of(lines_of(text@)),
            None => Map::empty(),
        },
{
    match contents {
        Some(text) => parse_env(text),
        None => EnvVars::new(),
    }
}

/// A key that appears twice keeps the last value: a line sets its variable
/// unless a later line sets it again.
pub proof fn last_assignment_wins(
    lines: Seq<Seq<char>>,
    i: int,
    key: Seq<char>,
    value: Seq<char>,
)
    requires
        0 <= i < lines.len(),
        assignment(lines[i]) == Some((key, value)),
        forall|j: int|
            i < j < lines.len() ==> (assignment(#[trigger] lines[j]) matches Some((k, _)) ==> k
                != key),
    ensures
        env_of(lines).contains_key(key),
        env_of(lines)[key] == value,
    decreases lines.len(),
{
    if i < lines.len() - 1 {
        let front = lines.drop_last();
        assert forall|j: int| i < j < front.len() implies (assignment(#[trigger] front[j]) matches Some(
            (k, _),
        ) ==> k != key) by {
            assert(front[j] == lines[j]);
        }
        last_assignment_wins(front, i, key, value);
        assert(lines[lines.len() - 1] == lines.last());
    }
}

/// A line without an assignment, such as a comment or a blank line, sets
/// nothing, wherever it stands.
pub proof fn other_lines_set_nothing(before: Seq<Seq<char>>, line: Seq<char>, after: Seq<Seq<char>>)
    requires
        assignment(line) is None,
    ensures
        env_of(before.push(line) + after) == env_of(before + after),
    decreases after.len(),
{
    if after.len() == 0 {
        assert(before.push(line) + after =~= before.push(line));
        assert(before.push(line).drop_last() =~= before);
        assert(before + after =~= before);
    } else {
        other_lines_set_nothing(before, line, after.drop_last());
        assert((before.push(line) + after).drop_last() =~= before.push(line) + after.drop_last());
        assert((before + after).drop_last() =~= before + after.drop_last());
    }
}

/// An explicit value, else the one the configuration file gives to `key`.
pub open spec fn setting(
    explicit: Option<Seq<char>>,
    env: Map<Seq<char>, Seq<char>>,
    key: Seq<char>,
) -> Option<Seq<char>> {
    match explicit {
        Some(v) => Some(v),
        None => if env.contains_key(key) {
            Some(env[key])
        } else {
            None
        },
    }
}

/// The view of an optional text.
pub open spec fn opt_view(t: Option<&str>) -> Option<Seq<char>> {
    match t {
        Some(s) => Some(s@),
        None => None,
    }
}

fn lookup<'a>(explicit: Option<&'a str>, env: &'a EnvVars, key: &str) -> (r: Option<&'a str>)
    ensures
        opt_view(r) == setting(opt_view(explicit), env@, key@),
{
    match explicit {
        Some(v) => Some(v),
        None => env.get(key),
    }
}

/// The server's URL, by precedence.
pub open spec fn url_choice(
    explicit: Option<Seq<char>>,
    env: Map<Seq<char>, Seq<char>>,
) -> Seq<char> {
    match setting(explicit, env, "VISE_URL"@) {
        Some(url) => if url.len() > 0 {
            url
        } else {
            DEFAULT_URL@
        },
        None => DEFAULT_URL@,
    }
}

/// Server URL precedence: explicit (`--url` flag or `VISE_URL` env var), then
/// `VISE_URL` in `~/.vise/.env`, then [`DEFAULT_URL`].
pub fn resolve_url(explicit: Option<&str>, env: &EnvVars) -> (r: String)
    ensures
        r@ == url_choice(opt_view(explicit), env@),
{
    match lookup(explicit, env, "VISE_URL") {
        Some(url) => if chars_of(url).len() > 0 {
            url.to_owned()
        } else {
            DEFAULT_URL.to_owned()
        },
        None => DEFAULT_URL.to_owned(),
    }
}

/// The API token, by precedence.
pub open spec fn token_choice(
    explicit: Option<Seq<char>>,
    env: Map<Seq<char>, Seq<char>>,
) -> Option<Seq<char>> {
    match setting(explicit, env, "VISE_API_TOKEN"@) {
        Some(token) => if trimmed(token).len() > 0 {
            Some(trimmed(token))
        } else {
            None
        },
        None => None,
    }
}

/// API token precedence: explicit (`--api-token` flag or `VISE_API_TOKEN` env
/// var), then `VISE_API_TOKEN` in `~/.vise/.env`. `None` when neither is set:
/// the server only requires one when it was started with `VISE_API_TOKEN`.
pub fn resolve_api_token(explicit: Option<&str>, env: &EnvVars) -> (r: Option<String>)
    ensures
        match r {
            Some(t) => token_choice(opt_view(explicit), env@) == Some(t@),
            None => token_choice(opt_view(explicit), env@) is None,
        },
{
    match lookup(explicit, env, "VISE_API_TOKEN") {
        Some(token) => {
            let chars: Vec<char> = chars_of(token);
            let token: &[char] = trim(&chars);
            if token.len() > 0 {
                Some(text_of(token))
            } else {
                None
            }
        },
        None => None,
    }
}

// --- the host's binary -----------------------------------------------------------

/// Where the binary may be in the directories of `PATH`.
pub open spec fn binaries_in(dirs: Seq<Seq<char>>) -> Seq<Seq<char>> {
    dirs.map_values(|dir: Seq<char>| path_joined(dir, HOST_BINARY@))
}

/// Where the binary may be, in the order of preference.
pub open spec fn binary_places(
    explicit: Option<Seq<char>>,
    exe_dir: Option<Seq<char>>,
    root: Seq<char>,
    path_dirs: Seq<Seq<char>>,
) -> Seq<Seq<char>> {
    match explicit {
        Some(path) => seq![path],
        None => (match exe_dir {
            Some(dir) => seq![path_joined(dir, HOST_BINARY@)],
            None => Seq::empty(),
        }) + seq![path_joined(path_joined(root, "bin"@), HOST_BINARY@)] + binaries_in(path_dirs),
    }
}

/// Where to look for the `vise-host` binary: an explicit path (`--bin` /
/// `VISE_HOST_BIN`) alone; else next to the running `vise` executable, then
/// `~/.vise/bin`, then the directories of `PATH`.
pub fn host_binary_candidates(
    explicit: Option<&str>,
    exe_dir: Option<&str>,
    paths: &Paths,
    path_dirs: &[String],
) -> (r: Vec<String>)
    ensures
        string_views(r@) == binary_places(
            opt_view(explicit),
            opt_view(exe_dir),
            paths@,
            string_views(path_dirs@),
        ),
{
    let mut out: Vec<String> = Vec::new();
    match explicit {
        Some(path) => {
            out.push(path.to_owned());
            assert(string_views(out@) =~= seq![path@]);
            return out;
        },
        None => {},
    }
    match exe_dir {
        Some(dir) => out.push(join_path(dir, HOST_BINARY)),
        None => {},
    }
    out.push(join_path(paths.bin_dir().as_str(), HOST_BINARY));
    let ghost fixed = string_views(out@);
    let ghost in_path = binaries_in(string_views(path_dirs@));
    for i in 0..path_dirs.len()
        invariant
            in_path == binaries_in(string_views(path_dirs@)),
            string_views(out@) =~= fixed + in_path.take(i as int),
    {
        let ghost before = string_views(out@);
        out.push(join_path(path_dirs[i].as_str(), HOST_BINARY));
        assert(in_path[i as int] == out@.last()@);
        assert(string_views(out@) =~= before.push(in_path[i as int]));
        assert(in_path.take(i + 1) =~= in_path.take(i as int).push(in_path[i as int]));
    }
    assert(in_path.take(in_path.len() as int) =~= in_path);
    assert(string_views(out@) =~= binary_places(
        opt_view(explicit),
        opt_view(exe_dir),
        paths@,
        string_views(path_dirs@),
    ));
    out
}

/// What is said when the binary is not found.
pub open spec fn binary_missing(explicit: Option<Seq<char>>, root: Seq<char>) -> Seq<char> {
    match explicit {
        Some(path) => "vise-host binary not found at "@ + path,
        None => "vise-host binary not found (looked next to vise, in "@ + path_joined(root, "bin"@)
            + " and on PATH); install it with scripts/install.sh or pass --bin"@,
    }
}

/// Find the `vise-host` binary: the first candidate that is a file.
pub fn resolve_host_binary(
    explicit: Option<&str>,
    paths: &Paths,
    candidates: &[String],
    is_file: &[bool],
) -> (r: Result<String, String>)
    requires
        candidates@.len() == is_file@.len(),
    ensures
        match r {
            Ok(binary) => exists|i: int|
                #![trigger is_file@[i]]
                0 <= i < is_file@.len() && is_file@[i] && binary@ == candidates@[i]@ && (forall|
                    j: int,
                |
                    0 <= j < i ==> !(#[trigger] is_file@[j])),
            Err(e) => (forall|j: int| 0 <= j < is_file@.len() ==> !(#[trigger] is_file@[j])) && e@
                == binary_missing(opt_view(explicit), paths@),
        },
        r is Ok <==> is_file@.contains(true),
{
    for i in 0..candidates.len()
        invariant
            candidates@.len() == is_file@.len(),
            forall|j: int| 0 <= j < i ==> !(#[trigger] is_file@[j]),
    {
        if is_file[i] {
            assert(is_file@[i as int]);
            return Ok(candidates[i].clone());
        }
    }
    match explicit {
        Some(path) => {
            let mut message = "vise-host binary not found at ".to_owned();
            message.append(path);
            Err(message)
        },
        None => {
            let mut message = "vise-host binary not found (looked next to vise, in ".to_owned();
            message.append(paths.bin_dir().as_str());
            message.append(" and on PATH); install it with scripts/install.sh or pass --bin");
            Err(message)
        },
    }
}

// --- starting -----------------------------------------------------------

/// How the host is to be started.
#[derive(Debug)]
pub struct StartOptions {
    /// Explicit path to the `vise-host` binary.
    pub binary: Option<String>,
    /// Host bearer token; falls back to `VISE_HOST_TOKEN` in `~/.vise/.env`.
    pub token: Option<String>,
    /// Server URL; falls back to `VISE_URL` in `~/.vise/.env`.
    pub url: Option<String>,
    /// Extra arguments appended to the `vise-host` command line.
    pub extra_args: Vec<String>,
}

/// What `vise host start` comes to.
#[derive(Debug)]
pub enum StartPlan {
    /// A host is running already, with this pid; nothing is spawned.
    AlreadyRunning(u32),
    /// A host is to be spawned.
    Spawn(Launch),
}

/// A host process to spawn.
#[derive(Debug)]
pub struct Launch {
    /// The host's binary.
    pub binary: String,
    /// Command line after the binary.
    pub args: Vec<String>,
    /// Value of `VISE_HOST_TOKEN` in the host's environment.
    pub token: String,
    /// Server that the host talks to.
    pub url: String,
    /// Where the host's output goes.
    pub log_file: String,
}

/// The host's command line: the server, then the extra arguments.
pub open spec fn host_args(url: Seq<char>, extra: Seq<Seq<char>>) -> Seq<Seq<char>> {
    seq!["--url"@, url] + extra
}

/// The host's token, when there is one.
pub open spec fn host_token(
    explicit: Option<Seq<char>>,
    env: Map<Seq<char>, Seq<char>>,
) -> Option<Seq<char>> {
    match setting(explicit, env, "VISE_HOST_TOKEN"@) {
        Some(token) => if token.len() > 0 {
            Some(token)
        } else {
            None
        },
        None => None,
    }
}

/// What is said when there is no token.
pub open spec fn token_missing(root: Seq<char>) -> Seq<char> {
    "no host token: pass --token, set VISE_HOST_TOKEN, or add VISE_HOST_TOKEN=... to "@
        + path_joined(root, ".env"@) + " (enroll a host with `vise hosts create <name>`)"@
}

/// The view of an optional string.
pub open spec fn opt_string_view(t: Option<String>) -> Option<Seq<char>> {
    match t {
        Some(s) => Some(s@),
        None => None,
    }
}

fn opt_str(t: &Option<String>) -> (r: Option<&str>)
    ensures
        opt_view(r) == opt_string_view(*t),
{
    match t {
        Some(s) => Some(s.as_str()),
        None => None,
    }
}

/// `vise host start`, given the pid of the running host, the search for the
/// binary and the configuration. A no-op when a host is running. Otherwise the
/// token and the URL by their precedence, the command line and the log; fails
/// before anything is spawned when there is no binary or no token.
pub fn start(
    paths: &Paths,
    options: &StartOptions,
    live: Option<u32>,
    binary: Result<String, String>,
    env: &EnvVars,
) -> (r: Result<StartPlan, String>)
    ensures
        match (live, binary, host_token(opt_string_view(options.token), env@)) {
            (Some(pid), _, _) => r == Ok::<StartPlan, String>(StartPlan::AlreadyRunning(pid)),
            (None, Err(e), _) => r == Err::<StartPlan, String>(e),
            (None, Ok(binary), None) => r matches Err(e) && e@ == token_missing(paths@),
            (None, Ok(binary), Some(token)) => {
                &&& r matches Ok(StartPlan::Spawn(launch))
                &&& launch.binary == binary
                &&& launch.token@ == token
                &&& launch.url@ == url_choice(opt_string_view(options.url), env@)
                &&& string_views(launch.args@) == host_args(
                    launch.url@,
                    string_views(options.extra_args@),
                )
                &&& launch.log_file@ == path_joined(path_joined(paths@, "logs"@), "host.log"@)
            },
        },
{
    match live {
        Some(pid) => return Ok(StartPlan::AlreadyRunning(pid)),
        None => {},
    }
    let binary: String = match binary {
        Ok(binary) => binary,
        Err(e) => return Err(e),
    };
    let token: Option<&str> = lookup(opt_str(&options.token), env, "VISE_HOST_TOKEN");
    match token {
        Some(token) => if chars_of(token).len() > 0 {
            let url: String = resolve_url(opt_str(&options.url), env);
            let mut args: Vec<String> = Vec::new();
            args.push("--url".to_owned());
            args.push(url.clone());
            let ghost extra = string_views(options.extra_args@);
            assert(string_views(args@) =~= seq!["--url"@, url@] + extra.take(0));
            for i in 0..options.extra_args.len()
                invariant
                    extra == string_views(options.extra_args@),
                    string_views(args@) =~= seq!["--url"@, url@] + extra.take(i as int),
            {
                let ghost before = string_views(args@);
                args.push(options.extra_args[i].clone());
                assert(extra[i as int] == args@.last()@);
                assert(string_views(args@) =~= before.push(extra[i as int]));
                assert(extra.take(i + 1) =~= extra.take(i as int).push(extra[i as int]));
            }
            assert(extra.take(extra.len() as int) =~= extra);
            return Ok(
                StartPlan::Spawn(
                    Launch { binary, args, token: token.to_owned(), url, log_file: paths.log_file() },
                ),
            );
        },
        None => {},
    }
    let mut message =
        "no host token: pass --token, set VISE_HOST_TOKEN, or add VISE_HOST_TOKEN=... to ".to_owned();
    message.append(paths.env_file().as_str());
    message.append(" (enroll a host with `vise hosts create <name>`)");
    Err(message)
}

/// `before`, the pid, `after`.
pub open spec fn with_pid(before: Seq<char>, pid: u32, after: Seq<char>) -> Seq<char> {
    before + decimal(pid as nat) + after
}

fn pid_message(before: &str, pid: u32, after: &str) -> (r: String)
    ensures
        r@ == with_pid(before@, pid, after@),
{
    let mut out = before.to_owned();
    push_chars(&mut out, &to_decimal(pid as u64));
    out.append(after);
    out
}

/// What is said when a host is running already.
pub fn already_running(pid: u32) -> (r: String)
    ensures
        r@ == with_pid("vise-host already running (pid "@, pid, ")\n"@),
{
    pid_message("vise-host already running (pid ", pid, ")\n")
}

/// What is said when a host was started.
pub open spec fn started_text(pid: u32, url: Seq<char>, log_file: Seq<char>) -> Seq<char> {
    with_pid("started vise-host (pid "@, pid, ")\n"@) + "  url: "@ + url + "\n"@ + "  log: "@
        + log_file + "\n"@
}

/// What is said when a host was started.
pub fn started(pid: u32, launch: &Launch) -> (r: String)
    ensures
        r@ == started_text(pid, launch.url@, launch.log_file@),
{
    let mut out: String = pid_message("started vise-host (pid ", pid, ")\n");
    out.append("  url: ");
    out.append(launch.url.as_str());
    out.append("\n");
    out.append("  log: ");
    out.append(launch.log_file.as_str());
    out.append("\n");
    out
}

/// What is said when a started host exits at once.
pub open spec fn immediate_exit_text(
    status: Seq<char>,
    log_file: Seq<char>,
    log: Option<Seq<char>>,
) -> Seq<char> {
    "vise-host exited immediately ("@ + status + "); last log lines from "@ + log_file + ":\n"@
        + match log {
        Some(text) => tail_of(lines_of(text), 20),
        None => Seq::empty(),
    }
}

/// What is said when a started host exits at once, with the end of its log
/// when that can be read.
pub fn immediate_exit(status: &str, launch: &Launch, log: Option<&str>) -> (r: String)
    ensures
        r@ == immediate_exit_text(status@, launch.log_file@, opt_view(log)),
{
    let mut out = "vise-host exited immediately (".to_owned();
    out.append(status);
    out.append("); last log lines from ");
    out.append(launch.log_file.as_str());
    out.append(":\n");
    match log {
        Some(text) => out.append(tail_lines(text, 20).as_str()),
        None => {
            assert(out@ + Seq::empty() =~= out@);
        },
    }
    out
}

// --- the log -----------------------------------------------------------

/// The last `n` lines, each terminated by a newline.
pub open spec fn tail_of(lines: Seq<Seq<char>>, n: int) -> Seq<char> {
    terminated(
        if n < lines.len() {
            lines.skip(lines.len() - n)
        } else {
            lines
        },
    )
}

/// The last `n` lines of `text`, each terminated by a newline.
pub fn tail_lines(text: &str, n: usize) -> (r: String)
    ensures
        r@ == tail_of(lines_of(text@), n as int),
{
    let chars: Vec<char> = chars_of(text);
    let lines: Vec<&[char]> = split_lines(&chars);
    let start: usize = if n < lines.len() {
        lines.len() - n
    } else {
        0
    };
    let ghost kept = lines_of(text@).skip(start as int);
    let mut out = String::new();
    for i in start..lines.len()
        invariant
            start <= lines@.len(),
            slice_views(lines@) == lines_of(text@),
            kept == lines_of(text@).skip(start as int),
            out@ == terminated(kept.take(i - start)),
    {
        push_chars(&mut out, lines[i]);
        out.append("\n");
        proof {
            let upto = kept.take(i - start + 1);
            assert(upto.drop_last() =~= kept.take(i - start));
            assert(upto.last() == slice_views(lines@)[i as int]);
        }
    }
    proof {
        assert(kept.take(kept.len() as int) =~= kept);
        if start == 0 {
            assert(kept =~= lines_of(text@));
        }
    }
    out
}

/// What to read of a followed log.
#[derive(Debug, Clone, Copy, PartialEq, Eq, Structural)]
pub struct FollowStep {
    /// Offset to go on from.
    pub offset: u64,
    /// There is something to read there.
    pub read: bool,
}

/// Goes on following a log that was read up to `offset` and is `len` bytes
/// long: a log shorter than that was truncated or rotated and is read from its
/// beginning.
pub fn follow_log(offset: u64, len: u64) -> (r: FollowStep)
    ensures
        r.offset == if len < offset {
            0
        } else {
            offset
        },
        r.read <==> r.offset < len,
{
    let offset: u64 = if len < offset {
        0
    } else {
        offset
    };
    FollowStep { offset, read: len != offset }
}

/// What is said when there is no log.
pub fn no_log(paths: &Paths) -> (r: String)
    ensures
        r@ == "no host log at "@ + path_joined(path_joined(paths@, "logs"@), "host.log"@)
            + " (start the host with `vise host start`)"@,
{
    let mut out = "no host log at ".to_owned();
    out.append(paths.log_file().as_str());
    out.append(" (start the host with `vise host start`)");
    out
}

// --- the pidfile -----------------------------------------------------------

/// The text as a string literal: quoted, with escapes.
pub uninterp spec fn debug_text(t: Seq<char>) -> Seq<char>;

/// The standard library's `Debug` notation of a string, which depends on the
/// string alone.
#[verifier::external_body]
fn debug_quoted(t: &str) -> (r: String)
    ensures
        r@ == debug_text(t@),
{
    format!("{:?}", t)
}

/// The contents of the pidfile.
pub open spec fn pid_text(pid: u32) -> Seq<char> {
    decimal(pid as nat) + "\n"@
}

/// The contents of the pidfile.
pub fn pid_file_contents(pid: u32) -> (r: String)
    ensures
        r@ == pid_text(pid),
{
    let mut out: String = text_of(&to_decimal(pid as u64));
    out.append("\n");
    out
}

/// The pid that a pidfile's contents give; an error when they are no pid.
pub open spec fn pid_in(text: Seq<char>) -> Result<Option<nat>, ()> {
    if trimmed(text).len() == 0 {
        Ok(None)
    } else {
        match unsigned_value(trimmed(text), u32::MAX as nat) {
            Some(pid) => Ok(Some(pid)),
            None => Err(()),
        }
    }
}

/// The pid in the pidfile, given the file's contents (`None` when there is no
/// such file).
pub fn read_pid(paths: &Paths, contents: Option<&str>) -> (r: Result<Option<u32>, String>)
    ensures
        match contents {
            Some(text) => match pid_in(text@) {
                Ok(Some(pid)) => r matches Ok(Some(p)) && p == pid,
                Ok(None) => r matches Ok(None),
                Err(_) => r matches Err(e) && e@ == path_joined(paths@, "host.pid"@)
                    + " does not contain a pid: "@ + debug_text(trimmed(text@)),
            },
            None => r matches Ok(None),
        },
{
    match contents {
        Some(text) => {
            let chars: Vec<char> = chars_of(text);
            let trimmed_text: &[char] = trim(&chars);
            if trimmed_text.len() == 0 {
                return Ok(None);
            }
            match parse_unsigned(trimmed_text, u32::MAX as u64) {
                Some(pid) => Ok(Some(pid as u32)),
                None => {
                    let mut message: String = paths.pid_file();
                    message.append(" does not contain a pid: ");
                    message.append(debug_quoted(text_of(trimmed_text).as_str()).as_str());
                    Err(message)
                },
            }
        },
        None => Ok(None),
    }
}

proof fn lemma_trim_numeral(n: nat)
    ensures
        trimmed(decimal(n) + "\n"@) == decimal(n),
{
    crate::decimal::lemma_decimal_digits(n);
    reveal_strlit("\n");
    let d = decimal(n);
    let t = d + "\n"@;
    assert(crate::decimal::is_digit(d[0]));
    assert(t[0] == d[0]);
    assert(crate::text::trimmed_start(t) == t);
    assert(t.last() == '\n');
    assert(t.drop_last() =~= d);
    assert(crate::decimal::is_digit(d[d.len() - 1]));
    reveal_with_fuel(crate::text::trimmed_end, 2);
}

/// Reading a written pidfile gives the pid it was written for.
pub proof fn pidfile_round_trip(pid: u32)
    ensures
        pid_in(pid_text(pid)) == Ok::<Option<nat>, ()>(Some(pid as nat)),
{
    lemma_trim_numeral(pid as nat);
    crate::decimal::lemma_decimal_digits(pid as nat);
    numeral_round_trip(pid as nat, u32::MAX as nat);
}

/// What a pidfile says about the host.
#[derive(Debug, Clone, Copy, PartialEq, Eq, Structural)]
pub struct Liveness {
    /// Pid of the running host.
    pub pid: Option<u32>,
    /// The pidfile is stale and is to be removed.
    pub remove_pidfile: bool,
}

/// Pid from the pidfile if that process is alive. A stale pidfile (process
/// gone) is removed on the way through.
pub fn live_pid(pid: Option<u32>, alive: bool) -> (r: Liveness)
    ensures
        r.pid == if alive {
            pid
        } else {
            None
        },
        r.remove_pidfile <==> pid is Some && !alive,
{
    match pid {
        Some(pid) => if alive {
            Liveness { pid: Some(pid), remove_pidfile: false }
        } else {
            Liveness { pid: None, remove_pidfile: true }
        },
        None => Liveness { pid: None, remove_pidfile: false },
    }
}

// --- stopping and status -----------------------------------------------------------

/// Where stopping a host stands.
#[derive(Debug, Clone, Copy, PartialEq, Eq, Structural)]
pub enum StopState {
    /// Nothing is running.
    NotRunning,
    /// SIGTERM is to be sent, and the exit awaited for [`STOP_TIMEOUT_MS`].
    Terminate,
    /// SIGKILL is to be sent, and the exit awaited for [`KILL_TIMEOUT_MS`].
    Kill,
    /// The host is gone; the pidfile is to be removed.
    Stopped,
    /// The host survived SIGKILL.
    Stuck,
}

/// Begins to stop the host that runs as `pid`.
pub fn stop(pid: Option<u32>) -> (r: StopState)
    ensures
        r == match pid {
            Some(_) => StopState::Terminate,
            None => StopState::NotRunning,
        },
{
    match pid {
        Some(_) => StopState::Terminate,
        None => StopState::NotRunning,
    }
}

impl StopState {
    /// The host is no longer waited for.
    pub open spec fn is_final(self) -> bool {
        self != StopState::Terminate && self != StopState::Kill
    }

    /// The state after waiting: SIGKILL follows SIGTERM when the host did not
    /// exit, and a host that survives that is stuck.
    pub open spec fn waited(self, exited: bool) -> StopState {
        match self {
            StopState::Terminate => if exited {
                StopState::Stopped
            } else {
                StopState::Kill
            },
            StopState::Kill => if exited {
                StopState::Stopped
            } else {
                StopState::Stuck
            },
            other => other,
        }
    }

    /// Goes on after waiting.
    pub fn after_wait(self, exited: bool) -> (r: StopState)
        ensures
            r == self.waited(exited),
    {
        match self {
            StopState::Terminate => if exited {
                StopState::Stopped
            } else {
                StopState::Kill
            },
            StopState::Kill => if exited {
                StopState::Stopped
            } else {
                StopState::Stuck
            },
            other => other,
        }
    }

    /// What is said on reaching this state with the host `pid`.
    pub open spec fn said(self, pid: u32) -> Seq<char> {
        match self {
            StopState::NotRunning => "vise-host is not running\n"@,
            StopState::Terminate => Seq::empty(),
            StopState::Kill => with_pid(
                "vise-host (pid "@,
                pid,
                ") did not exit after SIGTERM; sending SIGKILL\n"@,
            ),
            StopState::Stopped => with_pid("stopped vise-host (pid "@, pid, ")\n"@),
            StopState::Stuck => with_pid(
                "vise-host (pid "@,
                pid,
                ") is still running after SIGKILL"@,
            ),
        }
    }

    /// What is said on reaching this state with the host `pid`.
    pub fn message(self, pid: u32) -> (r: String)
        ensures
            r@ == self.said(pid),
    {
        match self {
            StopState::NotRunning => "vise-host is not running\n".to_owned(),
            StopState::Terminate => String::new(),
            StopState::Kill => pid_message(
                "vise-host (pid ",
                pid,
                ") did not exit after SIGTERM; sending SIGKILL\n",
            ),
            StopState::Stopped => pid_message("stopped vise-host (pid ", pid, ")\n"),
            StopState::Stuck => pid_message(
                "vise-host (pid ",
                pid,
                ") is still running after SIGKILL",
            ),
        }
    }
}

/// Stopping ends after at most two waits, whatever the host does, and ends
/// with the host gone as soon as it was seen to exit.
pub proof fn stopping_ends(first: bool, second: bool)
    ensures
        StopState::Terminate.waited(first).waited(second).is_final(),
        StopState::Terminate.waited(first).waited(second) == StopState::Stopped <==> first
            || second,
{
}

/// What is printed about the host's status.
pub open spec fn status_text(pid: Option<u32>, root: Seq<char>) -> Seq<char> {
    match pid {
        Some(pid) => with_pid("vise-host: running (pid "@, pid, ")\n"@) + "  log: "@ + path_joined(
            path_joined(root, "logs"@),
            "host.log"@,
        ) + "\n"@,
        None => "vise-host: not running\n"@,
    }
}

/// What is printed about the host's status, and whether it is running.
pub fn status(paths: &Paths, pid: Option<u32>) -> (r: (String, bool))
    ensures
        r.0@ == status_text(pid, paths@),
        r.1 == pid is Some,
{
    match pid {
        Some(pid) => {
            let mut out: String = pid_message("vise-host: running (pid ", pid, ")\n");
            out.append("  log: ");
            out.append(paths.log_file().as_str());
            out.append("\n");
            (out, true)
        },
        None => ("vise-host: not running\n".to_owned(), false),
    }
}

// --- what callers see -----------------------------------------------------------

/// Quotes come off a value when the same kind stands at both of its ends, and
/// then only they do; any other value is left as it is.
pub proof fn matching_quotes_come_off(inner: Seq<char>, value: Seq<char>)
    ensures
        unquoted(seq!['"'] + inner + seq!['"']) == inner,
        unquoted(seq!['\''] + inner + seq!['\'']) == inner,
        value.len() < 2 ==> unquoted(value) == value,
        value.len() > 0 && value[0] != '"' && value[0] != '\'' ==> unquoted(value) == value,
        value.len() > 0 && value[0] != value.last() ==> unquoted(value) == value,
{
    let double = seq!['"'] + inner + seq!['"'];
    let single = seq!['\''] + inner + seq!['\''];
    assert(double.subrange(1, double.len() - 1) =~= inner);
    assert(single.subrange(1, single.len() - 1) =~= inner);
}

/// A line of the configuration file: white space, the key, white space, an
/// equals sign, white space, the value, white space.
pub open spec fn written_line(
    lead: Seq<char>,
    key: Seq<char>,
    b: Seq<char>,
    c: Seq<char>,
    value: Seq<char>,
    trail: Seq<char>,
) -> Seq<char> {
    lead + (key + b + seq!['='] + (c + value)) + trail
}

/// A text with no white space at its ends.
pub open spec fn is_trim(t: Seq<char>) -> bool {
    t.len() > 0 ==> !is_white(t[0]) && !is_white(t.last())
}

/// A line sets its key to its value, whatever white space stands around them,
/// with or without `export ` before the key.
#[verifier::spinoff_prover]
#[verifier::rlimit(40)]
pub proof fn lines_set_what_they_say(
    lead: Seq<char>,
    gap: Seq<char>,
    key: Seq<char>,
    b: Seq<char>,
    c: Seq<char>,
    value: Seq<char>,
    trail: Seq<char>,
)
    requires
        all_white(lead),
        all_white(gap),
        all_white(b),
        all_white(c),
        all_white(trail),
        is_trim(key),
        key.len() > 0,
        key[0] != '#',
        !key.contains('='),
        is_trim(value),
        value.len() == 0 ==> c.len() == 0,
    ensures
        !starts(key + b + seq!['='] + (c + value), "export "@) ==> assignment(
            written_line(lead, key, b, c, value, trail),
        ) == Some((key, unquoted(value))),
        assignment(lead + ("export "@ + (gap + (key + b + seq!['='] + (c + value)))) + trail)
            == Some((key, unquoted(value))),
{
    reveal_strlit("export ");
    let front = key + b;
    let back = c + value;
    let none = Seq::<char>::empty();
    let body = front + seq!['='] + back;
    assert(body[0] == key[0]);
    assert(body.last() == if value.len() > 0 {
        value.last()
    } else {
        '='
    });
    assert(is_trim(body));
    trimming_finds_the_text(lead, body, trail);
    assert(!front.contains('=')) by {
        if front.contains('=') {
            let i = choose|i: int| 0 <= i < front.len() && front[i] == '=';
            if i < key.len() {
                assert(key[i] == '=');
            } else {
                assert(is_white(b[i - key.len()]));
            }
        }
    }
    lemma_split_pair(front, '=', back);
    trimming_finds_the_text(none, key, b);
    assert(none + key + b =~= front);
    trimming_finds_the_text(c, value, none);
    assert(c + value + none =~= back);
    let exported = "export "@ + (gap + body);
    assert(exported[0] == 'e');
    assert(exported.last() == body.last());
    trimming_finds_the_text(lead, exported, trail);
    prefixes_come_off(exported, "export "@, gap + body);
    trimming_finds_the_text(gap, body, none);
    assert(gap + body + none =~= gap + body);
}

/// Blank lines, comments and lines without an equals sign set nothing.
pub proof fn other_lines_are_ignored(lead: Seq<char>, text: Seq<char>, trail: Seq<char>)
    requires
        all_white(lead),
        all_white(trail),
        is_trim(text),
    ensures
        text.len() == 0 ==> assignment(lead + text + trail) is None,
        text.len() > 0 && text[0] == '#' ==> assignment(lead + text + trail) is None,
        !text.contains('=') ==> assignment(lead + text + trail) is None,
{
    trimming_finds_the_text(lead, text, trail);
    if !text.contains('=') && text.len() > 0 {
        let body = match after_prefix(text, "export "@) {
            Some(rest) => trimmed(rest),
            None => text,
        };
        cutting_at_the_first(body, '=');
        if let Some((x, y)) = split_pair(body, '=') {
            assert(body[x.len() as int] == '=');
        }
        if body.contains('=') {
            let i = choose|i: int| 0 <= i < body.len() && body[i] == '=';
            if let Some(rest) = after_prefix(text, "export "@) {
                lemma_trimmed_is_part(rest);
                let (x, y) = choose|x: int, y: int|
                    0 <= x <= y <= rest.len() && trimmed(rest) == rest.subrange(x, y);
                prefixes_come_off(text, "export "@, rest);
                assert(rest[x + i] == '=');
                assert(text["export "@.len() + x + i] == '=');
            } else {
                assert(text[i] == '=');
            }
        }
    }
}

/// Every variable of a configuration file has the value of the last line that
/// sets it, and no variable comes from elsewhere; a missing file sets none.
pub proof fn files_are_read_line_by_line(
    contents: &str,
    vars: EnvVars,
    key: &str,
    found: Option<&str>,
    i: int,
    missing: EnvVars,
    nothing: Option<&str>,
)
    requires
        call_ensures(load_env, (Some(contents),), vars),
        call_ensures(EnvVars::get, (&vars, key), found),
        call_ensures(load_env, (None::<&str>,), missing),
        call_ensures(EnvVars::get, (&missing, key), nothing),
        ({
            let lines = lines_of(contents@);
            &&& -1 <= i < lines.len()
            &&& i >= 0 ==> (assignment(lines[i]) matches Some((k, _)) && k == key@)
            &&& forall|j: int|
                i < j < lines.len() ==> (assignment(#[trigger] lines[j]) matches Some((k, _)) ==> k
                    != key@)
        }),
    ensures
        nothing is None,
        i < 0 ==> found is None,
        i >= 0 ==> (found matches Some(value) && assignment(lines_of(contents@)[i]) == Some(
            (key@, value@),
        )),
{
    let lines = lines_of(contents@);
    if i >= 0 {
        let (_, value) = assignment(lines[i])->0;
        last_assignment_wins(lines, i, key@, value);
    } else {
        lemma_unset(lines, key@);
    }
}

proof fn lemma_unset(lines: Seq<Seq<char>>, key: Seq<char>)
    requires
        forall|j: int|
            0 <= j < lines.len() ==> (assignment(#[trigger] lines[j]) matches Some((k, _)) ==> k
                != key),
    ensures
        !env_of(lines).contains_key(key),
    decreases lines.len(),
{
    if lines.len() > 0 {
        let front = lines.drop_last();
        assert forall|j: int| 0 <= j < front.len() implies (assignment(#[trigger] front[j]) matches Some(
            (k, _),
        ) ==> k != key) by {
            assert(front[j] == lines[j]);
        }
        lemma_unset(front, key);
        assert(lines[lines.len() - 1] == lines.last());
    }
}

/// A value that is given comes before the one in the file. A server without
/// either, or with an empty one, is the local one; a token counts without the
/// white space around it, and a blank one does not count.
pub proof fn given_values_come_first(
    explicit: Option<&str>,
    env: &EnvVars,
    url_set: Option<&str>,
    token_set: Option<&str>,
    url: String,
    token: Option<String>,
)
    requires
        call_ensures(EnvVars::get, (env, "VISE_URL"), url_set),
        call_ensures(EnvVars::get, (env, "VISE_API_TOKEN"), token_set),
        call_ensures(resolve_url, (explicit, env), url),
        call_ensures(resolve_api_token, (explicit, env), token),
    ensures
        explicit matches Some(given) ==> url@ == if given@.len() > 0 {
            given@
        } else {
            "http://localhost:3000"@
        },
        explicit is None ==> match url_set {
            Some(set) => url@ == if set@.len() > 0 {
                set@
            } else {
                "http://localhost:3000"@
            },
            None => url@ == "http://localhost:3000"@,
        },
        ({
            let wanted = match explicit {
                Some(given) => Some(given@),
                None => match token_set {
                    Some(set) => Some(set@),
                    None => None,
                },
            };
            &&& token is Some <==> wanted is Some && trimmed(wanted->0).len() > 0
            &&& token matches Some(t) ==> t@ == trimmed(wanted->0)
        }),
{
}

/// Everything lies under the root directory, which is the one that is set, or
/// `.vise` in the user's.
#[verifier::spinoff_prover]
#[verifier::rlimit(40)]
pub proof fn everything_lies_under_the_root(
    vise_home: Option<&str>,
    home: Option<&str>,
    r: Result<Paths, String>,
    paths: &Paths,
    env_file: String,
    bin_dir: String,
    pid_file: String,
    log_file: String,
)
    requires
        call_ensures(Paths::from_env, (vise_home, home), r),
        call_ensures(Paths::env_file, (paths,), env_file),
        call_ensures(Paths::bin_dir, (paths,), bin_dir),
        call_ensures(Paths::pid_file, (paths,), pid_file),
        call_ensures(Paths::log_file, (paths,), log_file),
        paths@.len() > 0,
    ensures
        vise_home matches Some(dir) ==> (r matches Ok(p) && p@ == dir@),
        vise_home is None && home is None ==> (r matches Err(e) && e@
            == "HOME is not set; set VISE_HOME to the vise state directory"@),
        vise_home is None ==> (home matches Some(dir) ==> (r matches Ok(p) && (dir@.len() > 0
            ==> p@ == (if dir@.last() == '/' {
            dir@ + ".vise"@
        } else {
            dir@ + "/"@ + ".vise"@
        })))),
        ({
            let under = if paths@.last() == '/' {
                paths@
            } else {
                paths@ + "/"@
            };
            &&& env_file@ == under + ".env"@
            &&& bin_dir@ == under + "bin"@
            &&& pid_file@ == under + "host.pid"@
            &&& log_file@ == under + "logs/host.log"@
        }),
{
    reveal_strlit("logs");
    reveal_strlit("/");
    reveal_strlit("host.log");
    reveal_strlit("logs/host.log");
    let under = if paths@.last() == '/' {
        paths@
    } else {
        paths@ + "/"@
    };
    let logs = under + "logs"@;
    assert(logs.last() == 's');
    assert("logs"@ + "/"@ + "host.log"@ =~= "logs/host.log"@);
    assert(logs + "/"@ + "host.log"@ =~= under + ("logs"@ + "/"@ + "host.log"@));
}

/// The host's binary is looked for where it was said to be, and nowhere else;
/// or next to the running program, then among the installed binaries, then
/// along the search path, in its order.
#[verifier::spinoff_prover]
#[verifier::rlimit(40)]
pub proof fn binaries_are_looked_for_in_order(
    explicit: Option<&str>,
    exe_dir: Option<&str>,
    paths: &Paths,
    path_dirs: &[String],
    r: Vec<String>,
    bin_dir: String,
    installed: String,
    dir: &str,
    beside: String,
    i: int,
    along: String,
)
    requires
        call_ensures(host_binary_candidates, (explicit, exe_dir, paths, path_dirs), r),
        call_ensures(Paths::bin_dir, (paths,), bin_dir),
        exists|installed_in: &str| #[trigger]
            same_view(installed_in, bin_dir@) && call_ensures(
                join_path,
                (installed_in, "vise-host"),
                installed,
            ),
        exe_dir matches Some(d) ==> d@ == dir@,
        call_ensures(join_path, (dir, "vise-host"), beside),
        0 <= i < path_dirs@.len(),
        exists|d: &str| #[trigger]
            same_view(d, path_dirs@[i]@) && call_ensures(join_path, (d, "vise-host"), along),
    ensures
        explicit matches Some(path) ==> r@.len() == 1 && r@[0]@ == path@,
        explicit is None && exe_dir is Some ==> r@.len() == 2 + path_dirs@.len() && r@[0]@
            == beside@ && r@[1]@ == installed@ && r@[2 + i]@ == along@,
        explicit is None && exe_dir is None ==> r@.len() == 1 + path_dirs@.len() && r@[0]@
            == installed@ && r@[1 + i]@ == along@,
{
    let views = string_views(r@);
    assert(views.len() == r@.len());
    assert(string_views(path_dirs@)[i] == path_dirs@[i]@);
    assert(r@.len() > 0 ==> views[0] == r@[0]@);
    assert(r@.len() > 1 ==> views[1] == r@[1]@);
    assert(r@.len() > 2 + i ==> views[2 + i] == r@[2 + i]@);
    assert(r@.len() > 1 + i ==> views[1 + i] == r@[1 + i]@);
}

/// The text holds these characters.
pub open spec fn same_view(text: &str, chars: Seq<char>) -> bool {
    text@ == chars
}

/// The first candidate that is a file is the binary; without one the search
/// fails and says where it looked.
pub proof fn the_first_file_is_the_binary(
    explicit: Option<&str>,
    paths: &Paths,
    candidates: &[String],
    is_file: &[bool],
    r: Result<String, String>,
    i: int,
    bin_dir: String,
)
    requires
        candidates@.len() == is_file@.len(),
        call_ensures(resolve_host_binary, (explicit, paths, candidates, is_file), r),
        call_ensures(Paths::bin_dir, (paths,), bin_dir),
        0 <= i <= is_file@.len(),
        forall|j: int| 0 <= j < i ==> !(#[trigger] is_file@[j]),
        i < is_file@.len() ==> is_file@[i],
    ensures
        i < is_file@.len() ==> (r matches Ok(binary) && binary@ == candidates@[i]@),
        i == is_file@.len() ==> (r matches Err(e) && match explicit {
            Some(path) => e@ == "vise-host binary not found at "@ + path@,
            None => e@ == "vise-host binary not found (looked next to vise, in "@ + bin_dir@
                + " and on PATH); install it with scripts/install.sh or pass --bin"@,
        }),
{
    match r {
        Ok(binary) => {
            let k = choose|k: int|
                #![trigger is_file@[k]]
                0 <= k < is_file@.len() && is_file@[k] && binary@ == candidates@[k]@ && (forall|
                    j: int,
                |
                    0 <= j < k ==> !(#[trigger] is_file@[j]));
            if i < is_file@.len() {
                assert(is_file@[i]);
                assert(k == i);
            } else {
                assert(!is_file@[k]);
            }
        },
        Err(e) => {
            if i < is_file@.len() {
                assert(is_file@[i] == true);
                assert(is_file@.contains(true));
            }
        },
    }
}

/// A host is started once, with its binary, its token and its server, the
/// server first on its command line and every extra argument behind it.
#[verifier::spinoff_prover]
#[verifier::rlimit(40)]
pub proof fn hosts_are_started_with_what_they_need(
    paths: &Paths,
    options: &StartOptions,
    live: Option<u32>,
    binary: Result<String, String>,
    env: &EnvVars,
    r: Result<StartPlan, String>,
    token_set: Option<&str>,
    explicit_url: Option<&str>,
    url: String,
    log_file: String,
    env_file: String,
    i: int,
)
    requires
        call_ensures(start, (paths, options, live, binary, env), r),
        call_ensures(Paths::env_file, (paths,), env_file),
        call_ensures(EnvVars::get, (env, "VISE_HOST_TOKEN"), token_set),
        explicit_url is Some <==> options.url is Some,
        explicit_url matches Some(u) ==> u@ == options.url->0@,
        call_ensures(resolve_url, (explicit_url, env), url),
        call_ensures(Paths::log_file, (paths,), log_file),
    ensures
        live matches Some(pid) ==> r == Ok::<StartPlan, String>(StartPlan::AlreadyRunning(pid)),
        live is None ==> (binary matches Err(e) ==> r == Err::<StartPlan, String>(e)),
        live is None ==> (binary matches Ok(found) ==> {
            let token = match options.token {
                Some(t) => Some(t@),
                None => match token_set {
                    Some(t) => Some(t@),
                    None => None,
                },
            };
            if token is Some && token->0.len() > 0 {
                &&& r matches Ok(StartPlan::Spawn(launch))
                &&& launch.binary@ == found@
                &&& launch.token@ == token->0
                &&& launch.url@ == url@
                &&& launch.log_file@ == log_file@
                &&& launch.args@.len() == options.extra_args@.len() + 2
                &&& launch.args@[0]@ == "--url"@
                &&& launch.args@[1]@ == url@
                &&& 0 <= i < options.extra_args@.len() ==> launch.args@[i + 2]@
                    == options.extra_args@[i]@
            } else {
                r matches Err(e) && e@
                    == "no host token: pass --token, set VISE_HOST_TOKEN, or add VISE_HOST_TOKEN=... to "@
                    + env_file@ + " (enroll a host with `vise hosts create <name>`)"@
            }
        }),
{
    if let Ok(StartPlan::Spawn(launch)) = r {
        let views = string_views(launch.args@);
        let extra = string_views(options.extra_args@);
        if live is None && binary is Ok {
            assert(views.len() == launch.args@.len());
            assert(views[0] == launch.args@[0]@);
            assert(views[1] == launch.args@[1]@);
            if 0 <= i < options.extra_args@.len() {
                assert(views[i + 2] == launch.args@[i + 2]@);
                assert(extra[i] == options.extra_args@[i]@);
            }
        }
    }
}

/// What is said of a host: that it runs already, was started or stopped, runs
/// or not, each with its pid, and where its log is.
pub proof fn hosts_are_told_of(
    pid: u32,
    launch: &Launch,
    paths: &Paths,
    log_file: String,
    running: String,
    begun: String,
    up: (String, bool),
    down: (String, bool),
    missing: String,
)
    requires
        call_ensures(Paths::log_file, (paths,), log_file),
        call_ensures(already_running, (pid,), running),
        call_ensures(started, (pid, launch), begun),
        call_ensures(status, (paths, Some(pid)), up),
        call_ensures(status, (paths, None::<u32>), down),
        call_ensures(no_log, (paths,), missing),
    ensures
        running@ == "vise-host already running (pid "@ + decimal(pid as nat) + ")\n"@,
        begun@ == "started vise-host (pid "@ + decimal(pid as nat) + ")\n"@ + "  url: "@
            + launch.url@ + "\n"@ + "  log: "@ + launch.log_file@ + "\n"@,
        up.0@ == "vise-host: running (pid "@ + decimal(pid as nat) + ")\n"@ + "  log: "@ + log_file@
            + "\n"@,
        up.1,
        down.0@ == "vise-host: not running\n"@,
        !down.1,
        missing@ == "no host log at "@ + log_file@
            + " (start the host with `vise host start`)"@,
{
}

/// A host that exits at once is reported with its status, and with the last
/// twenty lines of its log when there is one.
pub proof fn early_exits_show_the_log(
    status: &str,
    launch: &Launch,
    log: &str,
    end: String,
    r: String,
    without: String,
)
    requires
        call_ensures(tail_lines, (log, 20usize), end),
        call_ensures(immediate_exit, (status, launch, Some(log)), r),
        call_ensures(immediate_exit, (status, launch, None::<&str>), without),
    ensures
        r@ == "vise-host exited immediately ("@ + status@ + "); last log lines from "@
            + launch.log_file@ + ":\n"@ + end@,
        without@ == "vise-host exited immediately ("@ + status@ + "); last log lines from "@
            + launch.log_file@ + ":\n"@,
{
    let text = "vise-host exited immediately ("@ + status@ + "); last log lines from "@
        + launch.log_file@ + ":\n"@;
    assert(text + Seq::<char>::empty() =~= text);
}

/// The end of a log grows by one whole line, before those that are shown
/// already, for each further line that is asked for, until all are shown.
pub proof fn ends_of_logs_grow_by_lines(
    text: &str,
    n: usize,
    m: usize,
    none: String,
    shown: String,
    more: String,
)
    requires
        call_ensures(tail_lines, (text, 0usize), none),
        call_ensures(tail_lines, (text, n), shown),
        call_ensures(tail_lines, (text, m), more),
        m == n + 1,
    ensures
        none@.len() == 0,
        ({
            let lines = lines_of(text@);
            if n < lines.len() {
                more@ == lines[lines.len() - m] + "\n"@ + shown@
            } else {
                more@ == shown@ && shown@ == terminated(lines)
            }
        }),
{
    let lines = lines_of(text@);
    assert(lines.skip(lines.len() as int) =~= Seq::empty());
    if n < lines.len() {
        let rest = lines.skip(lines.len() - n);
        lemma_terminated_first(lines[lines.len() - m], rest);
        assert(seq![lines[lines.len() - m]] + rest =~= lines.skip(lines.len() - m));
        if m == lines.len() {
            assert(lines.skip(0) =~= lines);
        }
    }
}

/// A followed log is read on from where it was left, and from its beginning
/// when it became shorter than that.
pub proof fn logs_are_followed(offset: u64, len: u64, r: FollowStep)
    requires
        call_ensures(follow_log, (offset, len), r),
    ensures
        len < offset ==> r.offset == 0,
        len >= offset ==> r.offset == offset,
        r.read <==> (len > offset || (len < offset && len > 0)),
{
}

/// A written pidfile gives its pid back; an empty one or none gives no pid.
pub proof fn pidfiles_are_read_back(
    pid: u32,
    written: String,
    paths: &Paths,
    contents: &str,
    r: Result<Option<u32>, String>,
    absent: Result<Option<u32>, String>,
    pid_file: String,
)
    requires
        call_ensures(Paths::pid_file, (paths,), pid_file),
        call_ensures(pid_file_contents, (pid,), written),
        call_ensures(read_pid, (paths, Some(contents)), r),
        call_ensures(read_pid, (paths, None::<&str>), absent),
    ensures
        written@ == decimal(pid as nat) + "\n"@,
        contents@ == written@ ==> (r matches Ok(Some(found)) && found == pid),
        all_white(contents@) ==> (r matches Ok(None)),
        r is Err ==> trimmed(contents@).len() > 0 && unsigned_value(
            trimmed(contents@),
            u32::MAX as nat,
        ) is None,
        r matches Err(e) ==> e@ == pid_file@ + " does not contain a pid: "@ + debug_text(
            trimmed(contents@),
        ),
        r matches Ok(Some(found)) ==> unsigned_value(trimmed(contents@), u32::MAX as nat) == Some(
            found as nat,
        ),
        absent matches Ok(None),
{
    pidfile_round_trip(pid);
    let none = Seq::<char>::empty();
    if all_white(contents@) {
        trimming_finds_the_text(contents@, none, none);
        assert(contents@ + none + none =~= contents@);
    }
}

/// The pid in the pidfile counts while its process lives; a pidfile of a
/// process that is gone is removed.
pub proof fn stale_pidfiles_are_removed(pid: Option<u32>, alive: bool, r: Liveness)
    requires
        call_ensures(live_pid, (pid, alive), r),
    ensures
        pid is Some && alive ==> r.pid == pid && !r.remove_pidfile,
        pid is Some && !alive ==> r.pid is None && r.remove_pidfile,
        pid is None ==> r.pid is None && !r.remove_pidfile,
{
}

/// A running host is first asked to end, then killed when it does not, and
/// given up on when it survives that; each step but the first says what came
/// of it.
pub proof fn hosts_are_stopped_step_by_step(
    pid: u32,
    begun: StopState,
    idle: StopState,
    exited: bool,
    first: StopState,
    again: bool,
    second: StopState,
    said: String,
    state: StopState,
)
    requires
        call_ensures(stop, (Some(pid),), begun),
        call_ensures(stop, (None::<u32>,), idle),
        call_ensures(StopState::after_wait, (begun, exited), first),
        call_ensures(StopState::after_wait, (first, again), second),
        call_ensures(StopState::message, (state, pid), said),
    ensures
        begun is Terminate,
        idle is NotRunning,
        exited ==> first is Stopped && second is Stopped,
        !exited ==> first is Kill,
        !exited && again ==> second is Stopped,
        !exited && !again ==> second is Stuck,
        state is NotRunning ==> said@ == "vise-host is not running\n"@,
        state is Terminate ==> said@.len() == 0,
        state is Kill ==> said@ == "vise-host (pid "@ + decimal(pid as nat)
            + ") did not exit after SIGTERM; sending SIGKILL\n"@,
        state is Stopped ==> said@ == "stopped vise-host (pid "@ + decimal(pid as nat) + ")\n"@,
        state is Stuck ==> said@ == "vise-host (pid "@ + decimal(pid as nat)
            + ") is still running after SIGKILL"@,
{
}

/// The variables of a file are a table of texts: what is set is found, and a
/// file without variables is empty.
pub proof fn variables_are_a_table(
    fresh: EnvVars,
    vars: &mut EnvVars,
    key: &str,
    value: &str,
    other: &str,
    had: Option<&str>,
    has: Option<&str>,
    contains: bool,
    empty: bool,
    count: usize,
)
    requires
        call_ensures(EnvVars::new, (), fresh),
        call_ensures(EnvVars::is_empty, (&fresh,), empty),
        call_ensures(EnvVars::insert, (vars, key, value), ()),
        call_ensures(EnvVars::get, (old(vars), other), had),
        call_ensures(EnvVars::get, (final(vars), other), has),
        call_ensures(EnvVars::contains_key, (final(vars), key), contains),
        call_ensures(EnvVars::len, (&fresh,), count),
    ensures
        empty,
        count == 0,
        contains,
        other@ == key@ ==> (has matches Some(v) && v@ == value@),
        other@ != key@ ==> (has is Some <==> had is Some),
        other@ != key@ ==> (has matches Some(v) ==> v@ == had->0@),
{
}

/// A root directory is the one that was given.
pub proof fn roots_are_kept(root: &str, paths: Paths, shown: &str)
    requires
        call_ensures(Paths::new, (root,), paths),
        call_ensures(Paths::root, (&paths,), shown),
    ensures
        shown@ == root@,
{
}

/// A stopping host has ten seconds, a killed one two, and a started one must
/// live for half a second; a followed log is looked at twice a second.
pub proof fn hosts_are_waited_for()
    ensures
        STOP_TIMEOUT_MS == 10 * 1000,
        KILL_TIMEOUT_MS == 2 * 1000,
        2 * START_GRACE_MS == 1000,
        2 * FOLLOW_INTERVAL_MS == 1000,
{
}

} // verus!
