//! Running code in sandboxes.
//!
//! Each session has a sandbox of its own, a container that is started when it is first
//! needed and stopped when it was not used for a while.

use crate::clock::{between, span_between, Elapsed, Timestamp, NANOS_PER_SEC};
use crate::text_map::TextMap;
use vstd::prelude::*;
use vstd::string::*;

verus! {

/// How the code interpreter is configured.
#[derive(Debug, Clone)]
pub struct CodeInterpreterConfig {
    pub docker_image: String,
    pub execution_timeout_secs: u64,
    pub memory_limit_mb: u64,
    pub cpu_percent: u64,
    pub max_sessions: usize,
    pub idle_timeout_secs: u64,
    pub preload_packages: Vec<String>,
}

/// How the code interpreter works.
#[derive(Debug, Clone)]
pub struct CodeInterpreterSettings {
    pub docker_image: String,
    pub execution_timeout: Elapsed,
    pub memory_limit_mb: u64,
    pub cpu_percent: u64,
    pub max_sessions: usize,
    pub idle_timeout: Elapsed,
    pub preload_packages: Vec<String>,
}

/// `r` are the settings that a configuration gives.
pub open spec fn are_settings_of(config: CodeInterpreterConfig, r: CodeInterpreterSettings) -> bool {
    &&& r.docker_image@ == config.docker_image@
    &&& r.execution_timeout.secs == at_least(config.execution_timeout_secs, 1)
    &&& r.memory_limit_mb == at_least(config.memory_limit_mb, 64)
    &&& r.cpu_percent == if config.cpu_percent > 100 {
        100
    } else {
        at_least(config.cpu_percent, 1)
    }
    &&& r.max_sessions == if config.max_sessions == 0 {
        1
    } else {
        config.max_sessions
    }
    &&& r.idle_timeout.secs == config.idle_timeout_secs
    &&& r.preload_packages@ == config.preload_packages@
}

/// `n`, but at least `least`.
pub open spec fn at_least(n: u64, least: u64) -> u64 {
    if n < least {
        least
    } else {
        n
    }
}

impl CodeInterpreterSettings {
    /// How the code interpreter works with a configuration: at least a second for a run,
    /// 64 megabytes and one session, and from 1 to 100 percent of a processor.
    pub fn from_config(config: CodeInterpreterConfig) -> (r: CodeInterpreterSettings)
        ensures
            r.docker_image == config.docker_image,
            r.execution_timeout == (Elapsed {
                secs: at_least(config.execution_timeout_secs, 1),
                nanos: 0,
            }),
            r.memory_limit_mb == at_least(config.memory_limit_mb, 64),
            r.cpu_percent == if config.cpu_percent > 100 {
                100
            } else {
                at_least(config.cpu_percent, 1)
            },
            r.max_sessions == if config.max_sessions == 0 {
                1
            } else {
                config.max_sessions
            },
            r.idle_timeout == (Elapsed { secs: config.idle_timeout_secs, nanos: 0 }),
            r.preload_packages == config.preload_packages,
            are_settings_of(config, r),
    {
        let timeout: u64 = if config.execution_timeout_secs < 1 {
            1
        } else {
            config.execution_timeout_secs
        };
        let memory: u64 = if config.memory_limit_mb < 64 {
            64
        } else {
            config.memory_limit_mb
        };
        let cpu: u64 = if config.cpu_percent > 100 {
            100
        } else if config.cpu_percent < 1 {
            1
        } else {
            config.cpu_percent
        };
        let sessions: usize = if config.max_sessions == 0 {
            1
        } else {
            config.max_sessions
        };
        CodeInterpreterSettings {
            docker_image: config.docker_image,
            execution_timeout: Elapsed::from_secs(timeout),
            memory_limit_mb: memory,
            cpu_percent: cpu,
            max_sessions: sessions,
            idle_timeout: Elapsed::from_secs(config.idle_timeout_secs),
            preload_packages: config.preload_packages,
        }
    }
}

/// What a run gave.
#[derive(Debug, Clone)]
pub struct ExecutionResult {
    pub stdout: String,
    pub stderr: String,
    pub exit_code: i64,
}

/// What can go wrong with a run.
#[derive(Debug, Clone)]
pub enum CodeInterpreterError {
    DockerUnavailable(String),
    Sandbox(String),
    Execution(String),
    Timeout,
    Pool(String),
}

impl CodeInterpreterError {
    /// The error in words.
    pub open spec fn words(self) -> Seq<char> {
        match self {
            CodeInterpreterError::DockerUnavailable(m) => "Docker is unavailable: "@ + m@,
            CodeInterpreterError::Sandbox(m) => "Failed to manage sandbox: "@ + m@,
            CodeInterpreterError::Execution(m) => "Failed to execute code: "@ + m@,
            CodeInterpreterError::Timeout => "Code execution timed out"@,
            CodeInterpreterError::Pool(m) => "Failed to acquire sandbox slot: "@ + m@,
        }
    }

    /// The error in words.
    pub fn message(&self) -> (r: String)
        ensures
            r@ == self.words(),
    {
        let (head, rest) = match self {
            CodeInterpreterError::DockerUnavailable(m) => ("Docker is unavailable: ", m),
            CodeInterpreterError::Sandbox(m) => ("Failed to manage sandbox: ", m),
            CodeInterpreterError::Execution(m) => ("Failed to execute code: ", m),
            CodeInterpreterError::Timeout => return "Code execution timed out".to_owned(),
            CodeInterpreterError::Pool(m) => ("Failed to acquire sandbox slot: ", m),
        };
        let mut r = head.to_owned();
        r.append(rest.as_str());
        r
    }
}

// ---------------------------------------------------------------------------
// Containers
// ---------------------------------------------------------------------------

/// A container that is to be created.
#[derive(Debug, Clone)]
pub struct SandboxPlan {
    pub name: String,
    pub image: String,
    pub cmd: Vec<String>,
    pub working_dir: String,
    pub memory: i64,
    pub nano_cpus: i64,
    pub network_mode: String,
    pub auto_remove: bool,
}

/// A number of bytes as the limit of a container holds it.
#[verifier::truncate]
fn wrapped(n: u64) -> (r: i64)
    ensures
        r == n as i64,
{
    n as i64
}

/// `p` is the container of a session.
pub open spec fn is_sandbox_for(s: CodeInterpreterSettings, session_id: Seq<char>, p: SandboxPlan) -> bool {
    &&& p.name@ == "nexus-ci-"@ + session_id
    &&& p.image@ == s.docker_image@
    &&& p.memory == (s.memory_limit_mb * 1024 * 1024) as u64 as i64
    &&& p.nano_cpus == s.cpu_percent * 10_000_000
    &&& p.network_mode@ == "none"@
    &&& p.auto_remove
}

/// The container of a session: without network, within the limits of memory and
/// processor, and idle until code is run in it. Bytes beyond the range of the limit wrap.
pub fn plan_sandbox(settings: &CodeInterpreterSettings, session_id: &str) -> (r: SandboxPlan)
    requires
        settings.memory_limit_mb * 1024 * 1024 <= u64::MAX,
        settings.cpu_percent * 1_000_000_000 <= u64::MAX,
    ensures
        r.name@ == "nexus-ci-"@ + session_id@,
        r.image@ == settings.docker_image@,
        crate::text::texts(r.cmd@) == seq!["sleep"@, "infinity"@],
        r.working_dir@ == "/workspace"@,
        r.memory == (settings.memory_limit_mb * 1024 * 1024) as u64 as i64,
        r.nano_cpus == settings.cpu_percent * 10_000_000,
        r.network_mode@ == "none"@,
        r.auto_remove,
        is_sandbox_for(*settings, session_id@, r),
{
    let mut name = "nexus-ci-".to_owned();
    name.append(session_id);
    let mut cmd: Vec<String> = Vec::new();
    cmd.push("sleep".to_owned());
    cmd.push("infinity".to_owned());
    assert(crate::text::texts(cmd@) =~= seq!["sleep"@, "infinity"@]);
    let memory: i64 = wrapped(settings.memory_limit_mb * 1024 * 1024);
    SandboxPlan {
        name,
        image: settings.docker_image.clone(),
        cmd,
        working_dir: "/workspace".to_owned(),
        memory,
        nano_cpus: ((settings.cpu_percent * 1_000_000_000) / 100) as i64,
        network_mode: "none".to_owned(),
        auto_remove: true,
    }
}

/// `cmd` installs the packages.
pub open spec fn is_install(packages: Seq<String>, cmd: Seq<String>) -> bool {
    crate::text::texts(cmd) == seq!["pip"@, "install"@, "--no-cache-dir"@] + crate::text::texts(
        packages,
    )
}

/// The command that installs the packages that are there from the beginning; nothing
/// where there are none.
pub fn install_command(settings: &CodeInterpreterSettings) -> (r: Option<Vec<String>>)
    ensures
        match r {
            None => settings.preload_packages@.len() == 0,
            Some(v) => settings.preload_packages@.len() > 0 && crate::text::texts(v@) == seq![
                "pip"@,
                "install"@,
                "--no-cache-dir"@,
            ] + crate::text::texts(settings.preload_packages@),
        },
        r matches Some(v) ==> is_install(settings.preload_packages@, v@),
{
    if settings.preload_packages.len() == 0 {
        return None;
    }
    let mut v: Vec<String> = Vec::new();
    v.push("pip".to_owned());
    v.push("install".to_owned());
    v.push("--no-cache-dir".to_owned());
    let ghost head = v@;
    let mut i: usize = 0;
    while i < settings.preload_packages.len()
        invariant
            i <= settings.preload_packages@.len(),
            v@ == head + settings.preload_packages@.take(i as int),
        decreases settings.preload_packages@.len() - i,
    {
        v.push(settings.preload_packages[i].clone());
        assert(settings.preload_packages@.take(i + 1) =~= settings.preload_packages@.take(
            i as int,
        ).push(settings.preload_packages@[i as int]));
        i = i + 1;
    }
    assert(settings.preload_packages@.take(settings.preload_packages@.len() as int)
        =~= settings.preload_packages@);
    assert(crate::text::texts(v@) =~= seq!["pip"@, "install"@, "--no-cache-dir"@]
        + crate::text::texts(settings.preload_packages@));
    Some(v)
}

/// `cmd` runs the Python code.
pub open spec fn is_python_run(code: Seq<char>, cmd: Seq<String>) -> bool {
    crate::text::texts(cmd) == seq!["python3"@, "-u"@, "-c"@, code]
}

/// The command that runs Python code.
pub fn python_command(code: &str) -> (r: Vec<String>)
    ensures
        crate::text::texts(r@) == seq!["python3"@, "-u"@, "-c"@, code@],
        is_python_run(code@, r@),
{
    let mut v: Vec<String> = Vec::new();
    v.push("python3".to_owned());
    v.push("-u".to_owned());
    v.push("-c".to_owned());
    v.push(code.to_owned());
    assert(crate::text::texts(v@) =~= seq!["python3"@, "-u"@, "-c"@, code@]);
    v
}

/// A piece of what a command writes.
#[derive(Debug, Clone)]
pub enum OutputPiece {
    StdOut(String),
    StdErr(String),
    Other,
}

/// What the pieces write to the output.
pub open spec fn written_out(s: Seq<OutputPiece>) -> Seq<char>
    decreases s.len(),
{
    if s.len() == 0 {
        Seq::empty()
    } else {
        match s.last() {
            OutputPiece::StdOut(t) => written_out(s.drop_last()) + t@,
            _ => written_out(s.drop_last()),
        }
    }
}

/// What the pieces write to the error output.
pub open spec fn written_err(s: Seq<OutputPiece>) -> Seq<char>
    decreases s.len(),
{
    if s.len() == 0 {
        Seq::empty()
    } else {
        match s.last() {
            OutputPiece::StdErr(t) => written_err(s.drop_last()) + t@,
            _ => written_err(s.drop_last()),
        }
    }
}

/// What the pieces write to the output and to the error output.
pub fn collect_pieces(pieces: &Vec<OutputPiece>) -> (r: (String, String))
    ensures
        r.0@ == written_out(pieces@),
        r.1@ == written_err(pieces@),
{
    let mut out = String::new();
    let mut err = String::new();
    let mut i: usize = 0;
    assert(out@ =~= written_out(pieces@.take(0)));
    assert(err@ =~= written_err(pieces@.take(0)));
    while i < pieces.len()
        invariant
            i <= pieces@.len(),
            out@ == written_out(pieces@.take(i as int)),
            err@ == written_err(pieces@.take(i as int)),
        decreases pieces@.len() - i,
    {
        assert(pieces@.take(i + 1).drop_last() =~= pieces@.take(i as int));
        match &pieces[i] {
            OutputPiece::StdOut(t) => out.append(t.as_str()),
            OutputPiece::StdErr(t) => err.append(t.as_str()),
            OutputPiece::Other => {},
        }
        i = i + 1;
    }
    assert(pieces@.take(pieces@.len() as int) =~= pieces@);
    (out, err)
}

/// How a command ended.
#[derive(Debug, Clone)]
pub enum RunEnd {
    /// It took too long.
    TimedOut,
    /// Its output could not be read.
    Failed(String),
    /// It ended, after writing these pieces, with this exit code, if known.
    Ended(Vec<OutputPiece>, Option<i64>),
}

/// `r` is what comes of a command that ended so.
pub open spec fn is_run_result(end: RunEnd, r: Result<ExecutionResult, CodeInterpreterError>) -> bool {
    match end {
        RunEnd::TimedOut => r matches Err(e) && e is Timeout,
        RunEnd::Failed(m) => r matches Err(CodeInterpreterError::Execution(t)) && t == m,
        RunEnd::Ended(p, c) => r matches Ok(x) && x.stdout@ == written_out(p@) && x.stderr@
            == written_err(p@) && x.exit_code == (match c {
            Some(n) => n,
            None => 0,
        }),
    }
}

/// What comes of a command.
pub fn run_result(end: RunEnd) -> (r: Result<ExecutionResult, CodeInterpreterError>)
    ensures
        match end {
            RunEnd::TimedOut => r == Err::<ExecutionResult, CodeInterpreterError>(
                CodeInterpreterError::Timeout,
            ),
            RunEnd::Failed(e) => r == Err::<ExecutionResult, CodeInterpreterError>(
                CodeInterpreterError::Execution(e),
            ),
            RunEnd::Ended(p, c) => r matches Ok(x) && x.stdout@ == written_out(p@) && x.stderr@
                == written_err(p@) && x.exit_code == match c {
                Some(n) => n,
                None => 0,
            },
        },
        is_run_result(end, r),
{
    match end {
        RunEnd::TimedOut => Err(CodeInterpreterError::Timeout),
        RunEnd::Failed(e) => Err(CodeInterpreterError::Execution(e)),
        RunEnd::Ended(pieces, code) => {
            let (stdout, stderr) = collect_pieces(&pieces);
            let exit_code: i64 = match code {
                Some(n) => n,
                None => 0,
            };
            Ok(ExecutionResult { stdout, stderr, exit_code })
        },
    }
}

// ---------------------------------------------------------------------------
// Sandboxes
// ---------------------------------------------------------------------------

/// The sandbox of a session.
#[derive(Debug, Clone)]
pub struct SandboxEntry {
    pub container_id: String,
    pub last_used: Timestamp,
}

/// The sandboxes of all sessions.
#[derive(Debug)]
pub struct SandboxPool {
    pub sandboxes: TextMap<SandboxEntry>,
}

/// The sandbox was not used for the stretch `limit` before `at`.
pub open spec fn is_idle(e: SandboxEntry, limit: Elapsed, at: Timestamp) -> bool {
    span_between(e.last_used, at).total() >= limit.total()
}

/// The sessions whose sandbox is idle.
pub open spec fn idle_in(s: Seq<(String, SandboxEntry)>, limit: Elapsed, at: Timestamp) -> Seq<String>
    decreases s.len(),
{
    if s.len() == 0 {
        Seq::empty()
    } else if is_idle(s.last().1, limit, at) {
        idle_in(s.drop_last(), limit, at).push(s.last().0)
    } else {
        idle_in(s.drop_last(), limit, at)
    }
}

impl SandboxPool {
    /// The times in the pool are ones that a clock gives.
    pub open spec fn timed(self) -> bool {
        forall|k: Seq<char>| #[trigger]
            self.sandboxes@.dom().contains(k) ==> self.sandboxes@[k].last_used.nanos
                < NANOS_PER_SEC
    }

    /// No sandboxes.
    pub fn new() -> (r: SandboxPool)
        ensures
            r.sandboxes@ == Map::<Seq<char>, SandboxEntry>::empty(),
            r.timed(),
    {
        SandboxPool { sandboxes: TextMap::new() }
    }

    /// The container of a session, which counts as used at `at`; nothing where the
    /// session has none.
    pub fn touch(&mut self, session_id: &str, at: Timestamp) -> (r: Option<String>)
        ensures
            match r {
                Some(id) => old(self).sandboxes@.dom().contains(session_id@) && id == old(
                    self,
                ).sandboxes@[session_id@].container_id && final(self).sandboxes@ == old(
                    self,
                ).sandboxes@.insert(
                    session_id@,
                    SandboxEntry { container_id: id, last_used: at },
                ),
                None => !old(self).sandboxes@.dom().contains(session_id@) && final(self).sandboxes@
                    == old(self).sandboxes@,
            },
            old(self).timed() && at.nanos < NANOS_PER_SEC ==> final(self).timed(),
    {
        match self.sandboxes.remove(session_id) {
            None => {
                assert(self.sandboxes@ =~= old(self).sandboxes@);
                None
            },
            Some(e) => {
                let id = e.container_id.clone();
                self.sandboxes.insert(
                    session_id.to_owned(),
                    SandboxEntry { container_id: e.container_id, last_used: at },
                );
                assert(self.sandboxes@ =~= old(self).sandboxes@.insert(
                    session_id@,
                    SandboxEntry { container_id: id, last_used: at },
                ));
                Some(id)
            },
        }
    }

    /// Takes in the container of a session, started at `at`.
    pub fn insert(&mut self, session_id: &str, container_id: String, at: Timestamp)
        ensures
            final(self).sandboxes@ == old(self).sandboxes@.insert(
                session_id@,
                SandboxEntry { container_id, last_used: at },
            ),
            old(self).timed() && at.nanos < NANOS_PER_SEC ==> final(self).timed(),
    {
        self.sandboxes.insert(
            session_id.to_owned(),
            SandboxEntry { container_id, last_used: at },
        );
    }

    /// Gives up the sandbox of a session; its container, if it had one, is to be stopped.
    pub fn teardown(&mut self, session_id: &str) -> (r: Option<String>)
        ensures
            final(self).sandboxes@ == old(self).sandboxes@.remove(session_id@),
            match r {
                Some(id) => old(self).sandboxes@.dom().contains(session_id@) && id == old(
                    self,
                ).sandboxes@[session_id@].container_id,
                None => !old(self).sandboxes@.dom().contains(session_id@),
            },
            old(self).timed() ==> final(self).timed(),
    {
        match self.sandboxes.remove(session_id) {
            Some(e) => Some(e.container_id),
            None => None,
        }
    }

    /// The sessions whose sandbox is idle at `at`; none where sandboxes may be idle for ever.
    pub fn idle_sessions(&self, idle_timeout: Elapsed, at: Timestamp) -> (r: Vec<String>)
        requires
            self.timed(),
            idle_timeout.wf(),
            at.nanos < NANOS_PER_SEC,
        ensures
            r@ == if idle_timeout.total() == 0 {
                Seq::empty()
            } else {
                idle_in(self.sandboxes.listed(), idle_timeout, at)
            },
    {
        let mut r: Vec<String> = Vec::new();
        if idle_timeout.secs == 0 && idle_timeout.nanos == 0 {
            return r;
        }
        let ghost all = self.sandboxes.listed();
        let n: usize = self.sandboxes.len();
        let mut i: usize = 0;
        assert(r@ =~= idle_in(all.take(0), idle_timeout, at));
        while i < n
            invariant
                i <= n,
                n == all.len(),
                all == self.sandboxes.listed(),
                forall|k: int|
                    0 <= k < all.len() ==> self.sandboxes@.dom().contains(#[trigger] all[k].0@)
                        && self.sandboxes@[all[k].0@] == all[k].1,
                self.timed(),
                idle_timeout.wf(),
                at.nanos < NANOS_PER_SEC,
                r@ == idle_in(all.take(i as int), idle_timeout, at),
            decreases n - i,
        {
            assert(all.take(i + 1).drop_last() =~= all.take(i as int));
            assert(all.take(i + 1).last() == all[i as int]);
            let e = self.sandboxes.value_at(i);
            assert(self.sandboxes@.dom().contains(all[i as int].0@));
            if !between(e.last_used, at).is_less(&idle_timeout) {
                r.push(self.sandboxes.key_at(i).clone());
            }
            i = i + 1;
        }
        assert(all.take(n as int) =~= all);
        r
    }
}

} // verus!
