//! Execution policies: how a shell command is launched and constrained, on
//! the host, through the Codex CLI sandbox, or inside a Docker container.
//!
//! A policy turns the user's command into the full argument list of the
//! process to start; starting it is left to the caller. Durations are whole
//! milliseconds.

use vstd::prelude::*;
use crate::text::{
    char_is_whitespace, chars_of, decimal, is_whitespace, lemma_text_less_total,
    lemma_text_less_trans, push_owned, push_string, push_text, starts_with, str_eq, str_less,
    text_less, texts, u64_to_string, extend_texts,
};

verus! {

/// Prefix of the temporary directories created for shell workspaces.
pub const SHELL_TEMP_PREFIX: &'static str = "langchain-shell-";

// ---------------------------------------------------------------------------
// Shared configuration
// ---------------------------------------------------------------------------

/// Limits shared by all policies.
#[derive(Debug, Clone, Copy, PartialEq, Eq, Structural)]
pub struct ExecutionPolicyConfig {
    /// Maximum time for a single command, in milliseconds.
    pub command_timeout_ms: u64,
    /// Maximum time for shell startup, in milliseconds.
    pub startup_timeout_ms: u64,
    /// Maximum time to wait for graceful termination, in milliseconds.
    pub termination_timeout_ms: u64,
    /// Maximum number of output lines to capture.
    pub max_output_lines: usize,
    /// Optional maximum output size in bytes.
    pub max_output_bytes: Option<usize>,
}

/// The default limits: 30 s per command and for startup, 10 s to terminate,
/// 100 lines of output and no byte limit.
pub open spec fn default_config() -> ExecutionPolicyConfig {
    ExecutionPolicyConfig {
        command_timeout_ms: 30_000,
        startup_timeout_ms: 30_000,
        termination_timeout_ms: 10_000,
        max_output_lines: 100,
        max_output_bytes: None,
    }
}

impl Default for ExecutionPolicyConfig {
    fn default() -> (r: Self)
        ensures
            r == default_config(),
    {
        ExecutionPolicyConfig {
            command_timeout_ms: 30_000,
            startup_timeout_ms: 30_000,
            termination_timeout_ms: 10_000,
            max_output_lines: 100,
            max_output_bytes: None,
        }
    }
}

/// What is wrong with a configuration, if anything.
pub open spec fn config_problem(c: ExecutionPolicyConfig) -> Option<Seq<char>> {
    if c.max_output_lines == 0 {
        Some("max_output_lines must be positive"@)
    } else {
        None
    }
}

/// The result of a check that reports `problem`, if any.
pub open spec fn checked(r: Result<(), String>, problem: Option<Seq<char>>) -> bool {
    match problem {
        Some(m) => r matches Err(e) && e@ == m,
        None => r is Ok,
    }
}

impl ExecutionPolicyConfig {
    /// Checks that the configuration is consistent.
    pub fn validate(&self) -> (r: Result<(), String>)
        ensures
            checked(r, config_problem(*self)),
    {
        if self.max_output_lines == 0 {
            return Err(String::from_str("max_output_lines must be positive"));
        }
        Ok(())
    }
}

/// Whether every character of `s` is whitespace, so that trimming leaves
/// nothing.
pub open spec fn blank(s: Seq<char>) -> bool {
    forall|i: int| 0 <= i < s.len() ==> #[trigger] char_is_whitespace(s[i])
}

/// Whether trimming whitespace from `s` leaves nothing.
fn is_blank(s: &str) -> (r: bool)
    ensures
        r == blank(s@),
{
    let cs = chars_of(s);
    let mut i: usize = 0;
    while i < cs.len()
        invariant
            cs@ == s@,
            i <= cs@.len(),
            forall|k: int| 0 <= k < i ==> #[trigger] char_is_whitespace(s@[k]),
        decreases cs.len() - i,
    {
        if !is_whitespace(cs[i]) {
            return false;
        }
        i = i + 1;
    }
    true
}

// ---------------------------------------------------------------------------
// Host policy
// ---------------------------------------------------------------------------

/// Runs the command directly on the host, with optional CPU and memory
/// limits but no filesystem or network sandboxing.
#[derive(Debug, Clone, Copy, PartialEq, Eq, Structural)]
pub struct HostExecutionPolicy {
    /// Base configuration.
    pub config: ExecutionPolicyConfig,
    /// Optional CPU time limit in seconds.
    pub cpu_time_seconds: Option<u64>,
    /// Optional memory limit in bytes.
    pub memory_bytes: Option<u64>,
    /// Whether to create a new process group.
    pub create_process_group: bool,
}

/// The default host policy: default limits, no CPU or memory limit, a new
/// process group.
pub open spec fn default_host() -> HostExecutionPolicy {
    HostExecutionPolicy {
        config: default_config(),
        cpu_time_seconds: None,
        memory_bytes: None,
        create_process_group: true,
    }
}

/// What is wrong with a host policy, if anything.
pub open spec fn host_problem(p: HostExecutionPolicy) -> Option<Seq<char>> {
    if config_problem(p.config) is Some {
        config_problem(p.config)
    } else if p.cpu_time_seconds == Some(0u64) {
        Some("cpu_time_seconds must be positive if provided"@)
    } else if p.memory_bytes == Some(0u64) {
        Some("memory_bytes must be positive if provided"@)
    } else {
        None
    }
}

impl Default for HostExecutionPolicy {
    fn default() -> (r: Self)
        ensures
            r == default_host(),
    {
        HostExecutionPolicy {
            config: ExecutionPolicyConfig::default(),
            cpu_time_seconds: None,
            memory_bytes: None,
            create_process_group: true,
        }
    }
}

impl HostExecutionPolicy {
    /// The default host policy.
    pub fn new() -> (r: Self)
        ensures
            r == default_host(),
    {
        Self::default()
    }

    /// Sets the CPU time limit.
    pub fn with_cpu_limit(self, seconds: u64) -> (r: Self)
        ensures
            r == (HostExecutionPolicy { cpu_time_seconds: Some(seconds), ..self }),
    {
        HostExecutionPolicy { cpu_time_seconds: Some(seconds), ..self }
    }

    /// Sets the memory limit.
    pub fn with_memory_limit(self, bytes: u64) -> (r: Self)
        ensures
            r == (HostExecutionPolicy { memory_bytes: Some(bytes), ..self }),
    {
        HostExecutionPolicy { memory_bytes: Some(bytes), ..self }
    }

    /// Replaces the base configuration.
    pub fn with_config(self, config: ExecutionPolicyConfig) -> (r: Self)
        ensures
            r == (HostExecutionPolicy { config, ..self }),
    {
        HostExecutionPolicy { config, ..self }
    }

    /// Checks the configuration and the limits.
    pub fn validate(&self) -> (r: Result<(), String>)
        ensures
            checked(r, host_problem(*self)),
    {
        self.config.validate()?;
        if let Some(cpu) = self.cpu_time_seconds {
            if cpu == 0 {
                return Err(String::from_str("cpu_time_seconds must be positive if provided"));
            }
        }
        if let Some(mem) = self.memory_bytes {
            if mem == 0 {
                return Err(String::from_str("memory_bytes must be positive if provided"));
            }
        }
        Ok(())
    }

    /// The host runs the command as given.
    pub fn build_command(&self, command: &[String], workspace: &str, env: &[(String, String)]) -> (r:
        Result<Vec<String>, String>)
        ensures
            r matches Ok(v) && texts(v@) == texts(command@),
    {
        let mut out: Vec<String> = Vec::new();
        extend_texts(&mut out, command);
        assert(texts(out@) =~= texts(command@));
        Ok(out)
    }
}

// ---------------------------------------------------------------------------
// Codex sandbox policy
// ---------------------------------------------------------------------------

/// Runs the command through the Codex CLI sandbox, which applies Seatbelt
/// (macOS) or Landlock/seccomp (Linux) restrictions.
#[derive(Debug, Clone)]
pub struct CodexSandboxExecutionPolicy {
    /// Base configuration.
    pub config: ExecutionPolicyConfig,
    /// Path to the codex binary.
    pub binary: String,
    /// Platform selection: "auto", "macos" or "linux".
    pub platform: String,
    /// Configuration overrides passed to the sandbox; `with_config_override`
    /// keeps them in key order, each key once, and the command lists them in
    /// the order held here.
    pub config_overrides: Vec<(String, String)>,
}

/// Whether the keys of `v` strictly increase.
pub open spec fn keys_sorted(v: Seq<(String, String)>) -> bool {
    forall|i: int, j: int| 0 <= i < j < v.len() ==> text_less(#[trigger] v[i].0@, #[trigger] v[j].0@)
}

/// The value stored under `k` in `v`, if any.
pub open spec fn entry_value(v: Seq<(String, String)>, k: Seq<char>) -> Option<Seq<char>>
    decreases v.len(),
{
    if v.len() == 0 {
        None
    } else if v.last().0@ == k {
        Some(v.last().1@)
    } else {
        entry_value(v.drop_last(), k)
    }
}

/// The `-c key=value` arguments for the entries of `v`, in order.
pub open spec fn override_args(v: Seq<(String, String)>) -> Seq<Seq<char>>
    decreases v.len(),
{
    if v.len() == 0 {
        Seq::empty()
    } else {
        override_args(v.drop_last()) + seq!["-c"@, v.last().0@ + "="@ + v.last().1@]
    }
}

/// The platform argument: the configured one unless it is "auto", else the
/// host's operating system when the sandbox supports it.
pub open spec fn platform_choice(platform: Seq<char>, host_os: Seq<char>) -> Result<
    Seq<char>,
    Seq<char>,
> {
    if platform != "auto"@ {
        Ok(platform)
    } else if host_os == "linux"@ {
        Ok("linux"@)
    } else if host_os == "macos"@ {
        Ok("macos"@)
    } else {
        Err(
            "Codex sandbox policy could not determine a supported platform; set 'platform' explicitly"@,
        )
    }
}

/// The full command that runs `command` in the sandbox on `platform`.
pub open spec fn codex_args(p: CodexSandboxExecutionPolicy, platform: Seq<char>, command: Seq<
    Seq<char>,
>) -> Seq<Seq<char>> {
    seq![p.binary@, "sandbox"@, platform] + override_args(p.overrides()) + seq!["--"@] + command
}

/// Where a new entry with key `k` goes among entries sorted by key: after
/// every entry whose key sorts before `k`.
pub open spec fn slot_of(v: Seq<(String, String)>, k: Seq<char>, i: int) -> bool {
    &&& 0 <= i <= v.len()
    &&& forall|j: int| 0 <= j < i ==> text_less(#[trigger] v[j].0@, k)
    &&& i < v.len() ==> !text_less(v[i].0@, k)
}

/// Setting `k` in sorted entries keeps them sorted and changes only `k`.
proof fn lemma_set_sorted(v: Seq<(String, String)>, i: int, e: (String, String))
    requires
        keys_sorted(v),
        slot_of(v, e.0@, i),
    ensures
        i < v.len() && v[i].0@ == e.0@ ==> {
            let w = v.update(i, e);
            keys_sorted(w) && forall|q: Seq<char>| #[trigger] entry_value(w, q) == if q == e.0@ {
                Some(e.1@)
            } else {
                entry_value(v, q)
            }
        },
        !(i < v.len() && v[i].0@ == e.0@) ==> {
            let w = v.insert(i, e);
            keys_sorted(w) && forall|q: Seq<char>| #[trigger] entry_value(w, q) == if q == e.0@ {
                Some(e.1@)
            } else {
                entry_value(v, q)
            }
        },
{
    let k = e.0@;
    if i < v.len() && v[i].0@ == k {
        let w = v.update(i, e);
        assert forall|a: int, b: int| 0 <= a < b < w.len() implies text_less(
            #[trigger] w[a].0@,
            #[trigger] w[b].0@,
        ) by {
            if a == i {
                assert(text_less(v[a].0@, v[b].0@));
            } else if b == i {
                assert(text_less(v[a].0@, v[b].0@));
            }
        }
        assert forall|q: Seq<char>| #[trigger] entry_value(w, q) == if q == k {
            Some(e.1@)
        } else {
            entry_value(v, q)
        } by {
            lemma_entry_value_sorted(v, q);
            lemma_entry_value_sorted(w, q);
            if q == k {
                assert(w[i].0@ == q);
            } else {
                if entry_value(v, q) is Some {
                    let j = choose|j: int| 0 <= j < v.len() && v[j].0@ == q;
                    assert(w[j] == v[j]);
                }
                if entry_value(w, q) is Some {
                    let j = choose|j: int| 0 <= j < w.len() && w[j].0@ == q;
                    assert(w[j] == v[j]);
                }
            }
        }
    } else {
        let w = v.insert(i, e);
        assert forall|a: int, b: int| 0 <= a < b < w.len() implies text_less(
            #[trigger] w[a].0@,
            #[trigger] w[b].0@,
        ) by {
            if i < v.len() {
                lemma_text_less_total(v[i].0@, k);
            }
            if a < i && b == i {
            } else if a < i && b > i {
                assert(w[b] == v[b - 1]);
                if b - 1 > i {
                    assert(text_less(v[i].0@, v[b - 1].0@));
                    lemma_text_less_trans(k, v[i].0@, v[b - 1].0@);
                }
                lemma_text_less_trans(w[a].0@, k, w[b].0@);
            } else if a == i {
                assert(w[b] == v[b - 1]);
                if b - 1 > i {
                    assert(text_less(v[i].0@, v[b - 1].0@));
                    lemma_text_less_trans(k, v[i].0@, v[b - 1].0@);
                }
            } else if a < i && b < i {
            } else {
                assert(w[a] == v[a - 1]);
                assert(w[b] == v[b - 1]);
            }
        }
        assert forall|q: Seq<char>| #[trigger] entry_value(w, q) == if q == k {
            Some(e.1@)
        } else {
            entry_value(v, q)
        } by {
            lemma_entry_value_sorted(v, q);
            lemma_entry_value_sorted(w, q);
            if q == k {
                assert(w[i].0@ == q);
            } else {
                if entry_value(v, q) is Some {
                    let j = choose|j: int| 0 <= j < v.len() && v[j].0@ == q;
                    if j < i {
                        assert(w[j] == v[j]);
                    } else {
                        assert(w[j + 1] == v[j]);
                    }
                }
                if entry_value(w, q) is Some {
                    let j = choose|j: int| 0 <= j < w.len() && w[j].0@ == q;
                    if j < i {
                        assert(w[j] == v[j]);
                    } else {
                        assert(j != i);
                        assert(w[j] == v[j - 1]);
                    }
                }
            }
        }
    }
}

/// In entries sorted by key, the value of `q` is that of the one entry
/// with key `q`.
proof fn lemma_entry_value_sorted(v: Seq<(String, String)>, q: Seq<char>)
    requires
        keys_sorted(v),
    ensures
        entry_value(v, q) is Some <==> exists|j: int| 0 <= j < v.len() && v[j].0@ == q,
        forall|j: int| 0 <= j < v.len() && v[j].0@ == q ==> entry_value(v, q) == Some(v[j].1@),
    decreases v.len(),
{
    if v.len() > 0 {
        let u = v.drop_last();
        assert(keys_sorted(u)) by {
            assert forall|a: int, b: int| 0 <= a < b < u.len() implies text_less(
                #[trigger] u[a].0@,
                #[trigger] u[b].0@,
            ) by {
                assert(u[a] == v[a] && u[b] == v[b]);
            }
        }
        lemma_entry_value_sorted(u, q);
        assert forall|j: int| 0 <= j < v.len() && v[j].0@ == q implies entry_value(v, q) == Some(
            v[j].1@,
        ) by {
            if j < v.len() - 1 {
                assert(u[j] == v[j]);
                assert(text_less(v[j].0@, v.last().0@));
                lemma_text_less_total(q, q);
            }
        }
        if entry_value(u, q) is Some {
            let j = choose|j: int| 0 <= j < u.len() && u[j].0@ == q;
            assert(v[j] == u[j]);
        }
        if v.last().0@ == q {
            assert(v[v.len() - 1].0@ == q);
        }
    }
}

impl CodexSandboxExecutionPolicy {
    /// The configuration overrides, in key order.
    pub open spec fn overrides(&self) -> Seq<(String, String)> {
        self.config_overrides@
    }

    /// The overrides are sorted by key, each key once.
    pub open spec fn wf(&self) -> bool {
        keys_sorted(self.config_overrides@)
    }

    /// The default sandbox policy: binary `codex`, platform `auto`, no
    /// overrides.
    pub fn new() -> (r: Self)
        ensures
            r.wf(),
            r.config == default_config(),
            r.binary@ == "codex"@,
            r.platform@ == "auto"@,
            r.overrides().len() == 0,
    {
        CodexSandboxExecutionPolicy {
            config: ExecutionPolicyConfig::default(),
            binary: String::from_str("codex"),
            platform: String::from_str("auto"),
            config_overrides: Vec::new(),
        }
    }

    /// Sets the path of the codex binary.
    pub fn with_binary(self, binary: &str) -> (r: Self)
        ensures
            r.binary@ == binary@,
            r.config == self.config,
            r.platform == self.platform,
            r.overrides() == self.overrides(),
            r.wf() == self.wf(),
    {
        CodexSandboxExecutionPolicy { binary: String::from_str(binary), ..self }
    }

    /// Sets the platform selection.
    pub fn with_platform(self, platform: &str) -> (r: Self)
        ensures
            r.platform@ == platform@,
            r.config == self.config,
            r.binary == self.binary,
            r.overrides() == self.overrides(),
            r.wf() == self.wf(),
    {
        CodexSandboxExecutionPolicy { platform: String::from_str(platform), ..self }
    }

    /// Sets the override `key` to `value`, replacing an earlier value.
    pub fn with_config_override(self, key: &str, value: &str) -> (r: Self)
        requires
            self.wf(),
        ensures
            r.wf(),
            r.config == self.config,
            r.binary == self.binary,
            r.platform == self.platform,
            forall|q: Seq<char>| #[trigger] entry_value(r.overrides(), q) == if q == key@ {
                Some(value@)
            } else {
                entry_value(self.overrides(), q)
            },
    {
        let mut v = self.config_overrides;
        let mut i: usize = 0;
        while i < v.len() && str_less(v[i].0.as_str(), key)
            invariant
                i <= v@.len(),
                forall|j: int| 0 <= j < i ==> text_less(#[trigger] v@[j].0@, key@),
            decreases v.len() - i,
        {
            i = i + 1;
        }
        let e = (String::from_str(key), String::from_str(value));
        proof {
            lemma_set_sorted(v@, i as int, e);
        }
        if i < v.len() && str_eq(v[i].0.as_str(), key) {
            v.set(i, e);
        } else {
            v.insert(i, e);
        }
        CodexSandboxExecutionPolicy { config_overrides: v, ..self }
    }

    /// The value of the override `key`, if set.
    pub fn config_override(&self, key: &str) -> (r: Option<&str>)
        requires
            self.wf(),
        ensures
            match r {
                Some(s) => entry_value(self.overrides(), key@) == Some(s@),
                None => entry_value(self.overrides(), key@) is None,
            },
    {
        let mut i: usize = 0;
        proof {
            lemma_entry_value_sorted(self.config_overrides@, key@);
        }
        while i < self.config_overrides.len()
            invariant
                self.wf(),
                i <= self.config_overrides@.len(),
                forall|j: int| 0 <= j < i ==> (#[trigger] self.config_overrides@[j]).0@ != key@,
            decreases self.config_overrides.len() - i,
        {
            if str_eq(self.config_overrides[i].0.as_str(), key) {
                proof {
                    lemma_entry_value_sorted(self.config_overrides@, key@);
                    assert(self.config_overrides@[i as int].0@ == key@);
                }
                return Some(self.config_overrides[i].1.as_str());
            }
            i = i + 1;
        }
        None
    }

    /// The platform argument for a host running `host_os` (the name Rust
    /// gives the target operating system, such as "linux" or "macos").
    pub fn determine_platform(&self, host_os: &str) -> (r: Result<String, String>)
        ensures
            match platform_choice(self.platform@, host_os@) {
                Ok(p) => r matches Ok(s) && s@ == p,
                Err(m) => r matches Err(s) && s@ == m,
            },
    {
        if !str_eq(self.platform.as_str(), "auto") {
            return Ok(self.platform.clone());
        }
        if str_eq(host_os, "linux") {
            Ok(String::from_str("linux"))
        } else if str_eq(host_os, "macos") {
            Ok(String::from_str("macos"))
        } else {
            Err(
                String::from_str(
                    "Codex sandbox policy could not determine a supported platform; set 'platform' explicitly",
                ),
            )
        }
    }

    /// The sandbox invocation of `command`: the binary, `sandbox`, the
    /// platform, each override as `-c key=value` in key order, `--`, then
    /// the command.
    pub fn build_command(
        &self,
        command: &[String],
        workspace: &str,
        env: &[(String, String)],
        host_os: &str,
    ) -> (r: Result<Vec<String>, String>)
        ensures
            match platform_choice(self.platform@, host_os@) {
                Ok(p) => r matches Ok(v) && texts(v@) == codex_args(*self, p, texts(command@)),
                Err(m) => r matches Err(s) && s@ == m,
            },
    {
        let platform_arg = self.determine_platform(host_os)?;
        let ghost p = platform_arg@;
        let mut full: Vec<String> = Vec::new();
        push_text(&mut full, self.binary.as_str());
        push_text(&mut full, "sandbox");
        push_owned(&mut full, platform_arg);
        assert(texts(full@) =~= seq![self.binary@, "sandbox"@, p]);
        let mut i: usize = 0;
        while i < self.config_overrides.len()
            invariant
                i <= self.config_overrides@.len(),
                texts(full@) == seq![self.binary@, "sandbox"@, p] + override_args(
                    self.config_overrides@.subrange(0, i as int),
                ),
            decreases self.config_overrides.len() - i,
        {
            let ghost before = texts(full@);
            push_text(&mut full, "-c");
            let mut kv = self.config_overrides[i].0.clone();
            kv.append("=");
            push_string(&mut kv, &self.config_overrides[i].1);
            push_owned(&mut full, kv);
            proof {
                let s = self.config_overrides@.subrange(0, i + 1);
                assert(s.drop_last() =~= self.config_overrides@.subrange(0, i as int));
                assert(texts(full@) =~= before + seq!["-c"@, s.last().0@ + "="@ + s.last().1@]);
            }
            i = i + 1;
        }
        assert(self.config_overrides@.subrange(0, self.config_overrides@.len() as int)
            =~= self.config_overrides@);
        push_text(&mut full, "--");
        extend_texts(&mut full, command);
        assert(texts(full@) =~= codex_args(*self, p, texts(command@)));
        Ok(full)
    }
}

impl Default for CodexSandboxExecutionPolicy {
    fn default() -> (r: Self)
        ensures
            r.wf(),
            r.config == default_config(),
            r.binary@ == "codex"@,
            r.platform@ == "auto"@,
            r.overrides().len() == 0,
    {
        Self::new()
    }
}

// ---------------------------------------------------------------------------
// Docker policy
// ---------------------------------------------------------------------------

/// Runs the command inside a dedicated Docker container, for untrusted
/// commands or strong isolation between sessions; the network is off by
/// default.
#[derive(Debug, Clone)]
pub struct DockerExecutionPolicy {
    /// Base configuration.
    pub config: ExecutionPolicyConfig,
    /// Path to the docker binary.
    pub binary: String,
    /// Docker image to use.
    pub image: String,
    /// Remove the container on exit.
    pub remove_container_on_exit: bool,
    /// Whether networking is enabled.
    pub network_enabled: bool,
    /// Additional `docker run` arguments.
    pub extra_run_args: Vec<String>,
    /// Optional memory limit in bytes.
    pub memory_bytes: Option<u64>,
    /// Optional CPU limit (such as "0.5").
    pub cpus: Option<String>,
    /// Whether the root filesystem is read-only.
    pub read_only_rootfs: bool,
    /// Optional user to run as inside the container.
    pub user: Option<String>,
}

/// Whether `p` is the default Docker policy.
pub open spec fn is_default_docker(p: DockerExecutionPolicy) -> bool {
    &&& p.config == default_config()
    &&& p.binary@ == "docker"@
    &&& p.image@ == "python:3.12-alpine3.19"@
    &&& p.remove_container_on_exit
    &&& !p.network_enabled
    &&& p.extra_run_args@.len() == 0
    &&& p.memory_bytes is None
    &&& p.cpus is None
    &&& !p.read_only_rootfs
    &&& p.user is None
}

/// What is wrong with a Docker policy, if anything.
pub open spec fn docker_problem(p: DockerExecutionPolicy) -> Option<Seq<char>> {
    if config_problem(p.config) is Some {
        config_problem(p.config)
    } else if p.memory_bytes == Some(0u64) {
        Some("memory_bytes must be positive if provided"@)
    } else if p.cpus is Some && blank(p.cpus->0@) {
        Some("cpus must be a non-empty string when provided"@)
    } else if p.user is Some && blank(p.user->0@) {
        Some("user must be a non-empty string when provided"@)
    } else {
        None
    }
}

/// `p` with its trailing separators and `.` components removed.
pub open spec fn trim_path_tail(p: Seq<char>) -> Seq<char>
    decreases p.len(),
{
    if p.len() > 0 && p.last() == '/' {
        trim_path_tail(p.drop_last())
    } else if p.len() >= 2 && p.last() == '.' && p[p.len() - 2] == '/' {
        trim_path_tail(p.drop_last())
    } else {
        p
    }
}

/// The position of the last separator in `p`, or -1.
pub open spec fn last_separator(p: Seq<char>) -> int
    decreases p.len(),
{
    if p.len() == 0 {
        -1
    } else if p.last() == '/' {
        p.len() - 1
    } else {
        last_separator(p.drop_last())
    }
}

/// The final component of a path, as `Path::file_name` gives it: the last
/// component unless it is the root, `.` or `..`.
pub open spec fn path_file_name(p: Seq<char>) -> Option<Seq<char>> {
    let t = trim_path_tail(p);
    let name = t.subrange(last_separator(t) + 1, t.len() as int);
    if name.len() == 0 || name == "."@ || name == ".."@ {
        None
    } else {
        Some(name)
    }
}

/// Whether the workspace is mounted: it has a final component, and that
/// does not name a temporary shell workspace.
pub open spec fn mounts_workspace(workspace: Seq<char>) -> bool {
    match path_file_name(workspace) {
        Some(n) => !(SHELL_TEMP_PREFIX@.len() <= n.len() && n.subrange(
            0,
            SHELL_TEMP_PREFIX@.len() as int,
        ) == SHELL_TEMP_PREFIX@),
        None => false,
    }
}

/// The `-e key=value` arguments for the given environment, in order.
pub open spec fn env_args(env: Seq<(String, String)>) -> Seq<Seq<char>>
    decreases env.len(),
{
    if env.len() == 0 {
        Seq::empty()
    } else {
        env_args(env.drop_last()) + seq!["-e"@, env.last().0@ + "="@ + env.last().1@]
    }
}

/// The arguments a flag adds when it is set.
pub open spec fn when(b: bool, args: Seq<Seq<char>>) -> Seq<Seq<char>> {
    if b {
        args
    } else {
        Seq::empty()
    }
}

/// A flag followed by its value, when the value is given.
pub open spec fn option_args(flag: Seq<char>, value: Option<String>) -> Seq<Seq<char>> {
    match value {
        Some(v) => seq![flag, v@],
        None => Seq::empty(),
    }
}

/// The memory option, when a limit is given.
pub open spec fn memory_args(memory: Option<u64>) -> Seq<Seq<char>> {
    match memory {
        Some(m) => seq!["--memory"@, decimal(m as nat)],
        None => Seq::empty(),
    }
}

/// The mount and working-directory options for a workspace.
pub open spec fn mount_args(workspace: Seq<char>) -> Seq<Seq<char>> {
    if mounts_workspace(workspace) {
        seq!["-v"@, workspace + ":"@ + workspace, "-w"@, workspace]
    } else {
        seq!["-w"@, "/"@]
    }
}

/// The container options that come before the environment.
pub open spec fn docker_head(p: DockerExecutionPolicy, workspace: Seq<char>) -> Seq<Seq<char>> {
    seq![p.binary@, "run"@, "-i"@] + when(p.remove_container_on_exit, seq!["--rm"@]) + when(
        !p.network_enabled,
        seq!["--network"@, "none"@],
    ) + memory_args(p.memory_bytes) + mount_args(workspace) + when(
        p.read_only_rootfs,
        seq!["--read-only"@],
    )
}

/// The container options that come after the environment.
pub open spec fn docker_tail(p: DockerExecutionPolicy) -> Seq<Seq<char>> {
    option_args("--cpus"@, p.cpus) + option_args("--user"@, p.user) + texts(p.extra_run_args@)
        + seq![p.image@]
}

/// The `docker run` invocation of `command`.
pub open spec fn docker_args(
    p: DockerExecutionPolicy,
    command: Seq<Seq<char>>,
    workspace: Seq<char>,
    env: Seq<(String, String)>,
) -> Seq<Seq<char>> {
    docker_head(p, workspace) + env_args(env) + docker_tail(p) + command
}

/// The path with trailing separators and `.` components removed.
fn trimmed_path_end(p: &Vec<char>) -> (r: usize)
    ensures
        r <= p@.len(),
        p@.subrange(0, r as int) == trim_path_tail(p@),
{
    let mut end: usize = p.len();
    assert(p@.subrange(0, end as int) =~= p@);
    while end > 0
        invariant
            end <= p@.len(),
            trim_path_tail(p@.subrange(0, end as int)) == trim_path_tail(p@),
        decreases end,
    {
        let ghost s = p@.subrange(0, end as int);
        if p[end - 1] == '/' {
            assert(s.drop_last() =~= p@.subrange(0, end - 1));
            end = end - 1;
        } else if end >= 2 && p[end - 1] == '.' && p[end - 2] == '/' {
            assert(s.drop_last() =~= p@.subrange(0, end - 1));
            end = end - 1;
        } else {
            return end;
        }
    }
    end
}

/// The position after the last separator before `end`.
fn name_start(p: &Vec<char>, end: usize) -> (r: usize)
    requires
        end <= p@.len(),
    ensures
        r <= end,
        r == last_separator(p@.subrange(0, end as int)) + 1,
{
    let mut k: usize = end;
    while k > 0
        invariant
            k <= end <= p@.len(),
            last_separator(p@.subrange(0, end as int)) == last_separator(p@.subrange(0, k as int)),
        decreases k,
    {
        let ghost s = p@.subrange(0, k as int);
        if p[k - 1] == '/' {
            return k;
        }
        assert(s.drop_last() =~= p@.subrange(0, k - 1));
        k = k - 1;
    }
    k
}

impl DockerExecutionPolicy {
    /// The default Docker policy: image `python:3.12-alpine3.19`, container
    /// removed on exit, network off.
    pub fn new() -> (r: Self)
        ensures
            is_default_docker(r),
    {
        DockerExecutionPolicy {
            config: ExecutionPolicyConfig::default(),
            binary: String::from_str("docker"),
            image: String::from_str("python:3.12-alpine3.19"),
            remove_container_on_exit: true,
            network_enabled: false,
            extra_run_args: Vec::new(),
            memory_bytes: None,
            cpus: None,
            read_only_rootfs: false,
            user: None,
        }
    }

    /// Sets the image.
    pub fn with_image(self, image: &str) -> (r: Self)
        ensures
            r.image@ == image@,
            r == (DockerExecutionPolicy { image: r.image, ..self }),
    {
        DockerExecutionPolicy { image: String::from_str(image), ..self }
    }

    /// Turns networking on or off.
    pub fn with_network(self, enabled: bool) -> (r: Self)
        ensures
            r == (DockerExecutionPolicy { network_enabled: enabled, ..self }),
    {
        DockerExecutionPolicy { network_enabled: enabled, ..self }
    }

    /// Sets the memory limit.
    pub fn with_memory_limit(self, bytes: u64) -> (r: Self)
        ensures
            r == (DockerExecutionPolicy { memory_bytes: Some(bytes), ..self }),
    {
        DockerExecutionPolicy { memory_bytes: Some(bytes), ..self }
    }

    /// Sets the CPU limit.
    pub fn with_cpus(self, cpus: &str) -> (r: Self)
        ensures
            r.cpus matches Some(c) && c@ == cpus@,
            r == (DockerExecutionPolicy { cpus: r.cpus, ..self }),
    {
        DockerExecutionPolicy { cpus: Some(String::from_str(cpus)), ..self }
    }

    /// Makes the root filesystem read-only or writable.
    pub fn with_read_only_rootfs(self, read_only: bool) -> (r: Self)
        ensures
            r == (DockerExecutionPolicy { read_only_rootfs: read_only, ..self }),
    {
        DockerExecutionPolicy { read_only_rootfs: read_only, ..self }
    }

    /// Sets the user to run as.
    pub fn with_user(self, user: &str) -> (r: Self)
        ensures
            r.user matches Some(u) && u@ == user@,
            r == (DockerExecutionPolicy { user: r.user, ..self }),
    {
        DockerExecutionPolicy { user: Some(String::from_str(user)), ..self }
    }

    /// Adds an argument for `docker run`.
    pub fn with_extra_run_arg(self, arg: &str) -> (r: Self)
        ensures
            texts(r.extra_run_args@) == texts(self.extra_run_args@).push(arg@),
            r == (DockerExecutionPolicy { extra_run_args: r.extra_run_args, ..self }),
    {
        let mut s = self;
        push_text(&mut s.extra_run_args, arg);
        s
    }

    /// Checks the configuration and the limits.
    pub fn validate(&self) -> (r: Result<(), String>)
        ensures
            checked(r, docker_problem(*self)),
    {
        self.config.validate()?;
        if let Some(mem) = self.memory_bytes {
            if mem == 0 {
                return Err(String::from_str("memory_bytes must be positive if provided"));
            }
        }
        if let Some(cpus) = &self.cpus {
            if is_blank(cpus.as_str()) {
                return Err(String::from_str("cpus must be a non-empty string when provided"));
            }
        }
        if let Some(user) = &self.user {
            if is_blank(user.as_str()) {
                return Err(String::from_str("user must be a non-empty string when provided"));
            }
        }
        Ok(())
    }

    /// Whether the workspace is mounted into the container: not when it is a
    /// temporary shell workspace or has no final component.
    pub fn should_mount_workspace(workspace: &str) -> (r: bool)
        ensures
            r == mounts_workspace(workspace@),
    {
        let p = chars_of(workspace);
        let end = trimmed_path_end(&p);
        let start = name_start(&p, end);
        let ghost t = p@.subrange(0, end as int);
        let mut name: Vec<char> = Vec::new();
        let mut i: usize = start;
        while i < end
            invariant
                start <= i <= end <= p@.len(),
                name@ == p@.subrange(start as int, i as int),
            decreases end - i,
        {
            name.push(p[i]);
            i = i + 1;
        }
        assert(name@ =~= t.subrange(last_separator(t) + 1, t.len() as int));
        let n = crate::text::string_of_chars(&name);
        if name.len() == 0 || str_eq(n.as_str(), ".") || str_eq(n.as_str(), "..") {
            return false;
        }
        !starts_with(n.as_str(), SHELL_TEMP_PREFIX)
    }

    /// Appends the container options that come before the environment.
    #[verifier::spinoff_prover]
    #[verifier::rlimit(50)]
    fn push_head(&self, full: &mut Vec<String>, workspace: &str)
        ensures
            texts(final(full)@) == texts(old(full)@) + docker_head(*self, workspace@),
    {
        let ghost s0 = texts(full@);
        push_text(full, self.binary.as_str());
        push_text(full, "run");
        push_text(full, "-i");
        let ghost s1 = texts(full@);
        assert(s1 =~= s0 + seq![self.binary@, "run"@, "-i"@]);
        if self.remove_container_on_exit {
            push_text(full, "--rm");
        }
        let ghost s2 = texts(full@);
        assert(s2 =~= s1 + when(self.remove_container_on_exit, seq!["--rm"@]));
        if !self.network_enabled {
            push_text(full, "--network");
            push_text(full, "none");
        }
        let ghost s3 = texts(full@);
        assert(s3 =~= s2 + when(!self.network_enabled, seq!["--network"@, "none"@]));
        if let Some(mem) = self.memory_bytes {
            push_text(full, "--memory");
            push_owned(full, u64_to_string(mem));
        }
        let ghost s4 = texts(full@);
        assert(s4 =~= s3 + memory_args(self.memory_bytes));
        push_mount(full, workspace);
        let ghost s5 = texts(full@);
        if self.read_only_rootfs {
            push_text(full, "--read-only");
        }
        assert(texts(full@) =~= s5 + when(self.read_only_rootfs, seq!["--read-only"@]));
        assert(texts(full@) =~= s0 + docker_head(*self, workspace@));
    }

    /// Appends the container options that come after the environment.
    fn push_tail(&self, full: &mut Vec<String>)
        ensures
            texts(final(full)@) == texts(old(full)@) + docker_tail(*self),
    {
        let ghost s0 = texts(full@);
        if let Some(cpus) = &self.cpus {
            push_text(full, "--cpus");
            push_text(full, cpus.as_str());
        }
        let ghost s1 = texts(full@);
        assert(s1 =~= s0 + option_args("--cpus"@, self.cpus));
        if let Some(user) = &self.user {
            push_text(full, "--user");
            push_text(full, user.as_str());
        }
        let ghost s2 = texts(full@);
        assert(s2 =~= s1 + option_args("--user"@, self.user));
        extend_texts(full, self.extra_run_args.as_slice());
        push_text(full, self.image.as_str());
        assert(texts(full@) =~= s0 + docker_tail(*self));
    }

    /// The `docker run` invocation of `command`: the container options, the
    /// environment as `-e key=value` in the order given, the CPU and user
    /// options, the extra arguments, the image, then the command.
    pub fn build_command(&self, command: &[String], workspace: &str, env: &[(String, String)]) -> (r:
        Result<Vec<String>, String>)
        ensures
            r matches Ok(v) && texts(v@) == docker_args(*self, texts(command@), workspace@, env@),
    {
        let mut full: Vec<String> = Vec::new();
        self.push_head(&mut full, workspace);
        let ghost head = texts(full@);
        assert(head =~= docker_head(*self, workspace@));
        push_env_args(&mut full, env);
        self.push_tail(&mut full);
        extend_texts(&mut full, command);
        assert(texts(full@) =~= docker_args(*self, texts(command@), workspace@, env@));
        Ok(full)
    }
}

/// Appends the mount and working-directory options for `workspace`.
fn push_mount(full: &mut Vec<String>, workspace: &str)
    ensures
        texts(final(full)@) == texts(old(full)@) + mount_args(workspace@),
{
    let ghost s0 = texts(full@);
    if DockerExecutionPolicy::should_mount_workspace(workspace) {
        push_text(full, "-v");
        let mut both = String::from_str(workspace);
        both.append(":");
        both.append(workspace);
        push_owned(full, both);
        push_text(full, "-w");
        push_text(full, workspace);
    } else {
        push_text(full, "-w");
        push_text(full, "/");
    }
    assert(texts(full@) =~= s0 + mount_args(workspace@));
}

/// Appends `-e key=value` for each variable of `env`, in order.
fn push_env_args(full: &mut Vec<String>, env: &[(String, String)])
    ensures
        texts(final(full)@) == texts(old(full)@) + env_args(env@),
{
    let ghost head = texts(full@);
    let mut i: usize = 0;
    assert(env_args(env@.subrange(0, 0)) =~= Seq::<Seq<char>>::empty());
    assert(texts(full@) =~= head + env_args(env@.subrange(0, 0)));
    while i < env.len()
        invariant
            i <= env@.len(),
            texts(full@) == head + env_args(env@.subrange(0, i as int)),
        decreases env.len() - i,
    {
        let ghost before = texts(full@);
        push_text(full, "-e");
        let mut kv = env[i].0.clone();
        kv.append("=");
        push_string(&mut kv, &env[i].1);
        push_owned(full, kv);
        proof {
            let s = env@.subrange(0, i + 1);
            assert(s.drop_last() =~= env@.subrange(0, i as int));
            assert(texts(full@) =~= before + seq!["-e"@, s.last().0@ + "="@ + s.last().1@]);
        }
        i = i + 1;
    }
    assert(env@.subrange(0, env@.len() as int) =~= env@);
}

impl Default for DockerExecutionPolicy {
    fn default() -> (r: Self)
        ensures
            is_default_docker(r),
    {
        Self::new()
    }
}

// ---------------------------------------------------------------------------
// Any policy
// ---------------------------------------------------------------------------

/// One of the execution policies.
#[derive(Debug, Clone)]
pub enum ExecutionPolicyKind {
    Host(HostExecutionPolicy),
    CodexSandbox(CodexSandboxExecutionPolicy),
    Docker(DockerExecutionPolicy),
}

/// What is wrong with a policy, if anything; the sandbox policy checks only
/// its base configuration.
pub open spec fn kind_problem(k: ExecutionPolicyKind) -> Option<Seq<char>> {
    match k {
        ExecutionPolicyKind::Host(p) => host_problem(p),
        ExecutionPolicyKind::CodexSandbox(p) => config_problem(p.config),
        ExecutionPolicyKind::Docker(p) => docker_problem(p),
    }
}

/// The full command a policy builds for `command`, or its error.
pub open spec fn kind_command(
    k: ExecutionPolicyKind,
    command: Seq<Seq<char>>,
    workspace: Seq<char>,
    env: Seq<(String, String)>,
    host_os: Seq<char>,
) -> Result<Seq<Seq<char>>, Seq<char>> {
    match k {
        ExecutionPolicyKind::Host(_) => Ok(command),
        ExecutionPolicyKind::CodexSandbox(p) => match platform_choice(p.platform@, host_os) {
            Ok(platform) => Ok(codex_args(p, platform, command)),
            Err(m) => Err(m),
        },
        ExecutionPolicyKind::Docker(p) => Ok(docker_args(p, command, workspace, env)),
    }
}

/// Whether `r` is the outcome `expected`.
pub open spec fn command_is(r: Result<Vec<String>, String>, expected: Result<Seq<Seq<char>>, Seq<char>>) -> bool {
    match expected {
        Ok(args) => r matches Ok(v) && texts(v@) == args,
        Err(m) => r matches Err(s) && s@ == m,
    }
}

impl ExecutionPolicyKind {
    /// Checks the policy.
    pub fn validate(&self) -> (r: Result<(), String>)
        ensures
            checked(r, kind_problem(*self)),
    {
        match self {
            ExecutionPolicyKind::Host(p) => p.validate(),
            ExecutionPolicyKind::CodexSandbox(p) => p.config.validate(),
            ExecutionPolicyKind::Docker(p) => p.validate(),
        }
    }

    /// The full command that launches `command` under this policy, for a host
    /// running `host_os`.
    pub fn build_command(
        &self,
        command: &[String],
        workspace: &str,
        env: &[(String, String)],
        host_os: &str,
    ) -> (r: Result<Vec<String>, String>)
        ensures
            command_is(r, kind_command(*self, texts(command@), workspace@, env@, host_os@)),
    {
        match self {
            ExecutionPolicyKind::Host(p) => p.build_command(command, workspace, env),
            ExecutionPolicyKind::CodexSandbox(p) => p.build_command(command, workspace, env, host_os),
            ExecutionPolicyKind::Docker(p) => p.build_command(command, workspace, env),
        }
    }

    /// The command to spawn: as `build_command`, except that an empty
    /// command is refused with `Empty command`.
    pub fn spawn_args(
        &self,
        command: &[String],
        workspace: &str,
        env: &[(String, String)],
        host_os: &str,
    ) -> (r: Result<Vec<String>, String>)
        ensures
            match kind_command(*self, texts(command@), workspace@, env@, host_os@) {
                Ok(args) => if args.len() == 0 {
                    r matches Err(s) && s@ == "Empty command"@
                } else {
                    r matches Ok(v) && texts(v@) == args
                },
                Err(m) => r matches Err(s) && s@ == m,
            },
    {
        let full = self.build_command(command, workspace, env, host_os)?;
        if full.len() == 0 {
            return Err(String::from_str("Empty command"));
        }
        Ok(full)
    }
}

impl Default for ExecutionPolicyKind {
    fn default() -> (r: Self)
        ensures
            r == ExecutionPolicyKind::Host(default_host()),
    {
        ExecutionPolicyKind::Host(HostExecutionPolicy::default())
    }
}

/// The full command that launches a shell under `policy`.
pub fn build_spawn_command(
    policy: &ExecutionPolicyKind,
    shell_command: &[String],
    workspace: &str,
    env: &[(String, String)],
    host_os: &str,
) -> (r: Result<Vec<String>, String>)
    ensures
        command_is(r, kind_command(*policy, texts(shell_command@), workspace@, env@, host_os@)),
{
    policy.build_command(shell_command, workspace, env, host_os)
}

} // verus!
