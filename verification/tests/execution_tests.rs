use rustchain::agents::middleware::execution::{
    build_spawn_command, CodexSandboxExecutionPolicy, DockerExecutionPolicy, ExecutionPolicyConfig,
    ExecutionPolicyKind, HostExecutionPolicy,
};

fn strings(v: &[&str]) -> Vec<String> {
    v.iter().map(|s| s.to_string()).collect()
}

#[test]
fn test_execution_policy_config_default() {
    let config = ExecutionPolicyConfig::default();
    assert_eq!(config.command_timeout_ms, 30_000);
    assert_eq!(config.startup_timeout_ms, 30_000);
    assert_eq!(config.termination_timeout_ms, 10_000);
    assert_eq!(config.max_output_lines, 100);
    assert!(config.max_output_bytes.is_none());
    assert!(config.validate().is_ok());
}

#[test]
fn test_execution_policy_config_invalid() {
    let config = ExecutionPolicyConfig { max_output_lines: 0, ..Default::default() };
    assert_eq!(config.validate(), Err("max_output_lines must be positive".to_string()));
}

#[test]
fn test_host_policy_default() {
    let policy = HostExecutionPolicy::default();
    assert!(policy.cpu_time_seconds.is_none());
    assert!(policy.memory_bytes.is_none());
    assert!(policy.create_process_group);
    assert!(policy.validate().is_ok());
}

#[test]
fn test_host_policy_builder() {
    let policy = HostExecutionPolicy::new().with_cpu_limit(60).with_memory_limit(1024 * 1024 * 512);
    assert_eq!(policy.cpu_time_seconds, Some(60));
    assert_eq!(policy.memory_bytes, Some(512 * 1024 * 1024));
    assert!(policy.validate().is_ok());
}

#[test]
fn test_host_policy_invalid_cpu() {
    let policy = HostExecutionPolicy { cpu_time_seconds: Some(0), ..Default::default() };
    assert_eq!(policy.validate(), Err("cpu_time_seconds must be positive if provided".to_string()));
}

#[test]
fn test_host_policy_invalid_memory() {
    let policy = HostExecutionPolicy { memory_bytes: Some(0), ..Default::default() };
    assert_eq!(policy.validate(), Err("memory_bytes must be positive if provided".to_string()));
}

#[test]
fn test_host_policy_build_command() {
    let policy = HostExecutionPolicy::default();
    let cmd = strings(&["bash", "-c", "echo hello"]);
    let result = policy.build_command(&cmd, "/tmp", &[]).unwrap();
    assert_eq!(result, cmd);
}

#[test]
fn test_codex_sandbox_default() {
    let policy = CodexSandboxExecutionPolicy::default();
    assert_eq!(policy.binary, "codex");
    assert_eq!(policy.platform, "auto");
}

#[test]
fn test_codex_sandbox_builder() {
    let policy = CodexSandboxExecutionPolicy::new()
        .with_binary("codex-cli")
        .with_platform("linux")
        .with_config_override("key", "value");
    assert_eq!(policy.binary, "codex-cli");
    assert_eq!(policy.platform, "linux");
    assert_eq!(policy.config_override("key"), Some("value"));
}

#[test]
fn test_codex_sandbox_build_command() {
    let policy = CodexSandboxExecutionPolicy::new().with_platform("linux");
    let cmd = strings(&["bash"]);
    let result = policy.build_command(&cmd, "/tmp", &[], "linux").unwrap();
    assert_eq!(result[0], "codex");
    assert_eq!(result[1], "sandbox");
    assert_eq!(result[2], "linux");
    assert!(result.contains(&"--".to_string()));
    assert!(result.contains(&"bash".to_string()));
}

#[test]
fn test_codex_sandbox_build_command_with_overrides() {
    let policy = CodexSandboxExecutionPolicy::new()
        .with_platform("macos")
        .with_config_override("network", "false")
        .with_config_override("allow_write", "true");
    let cmd = strings(&["sh"]);
    let result = policy.build_command(&cmd, "/tmp", &[], "linux").unwrap();
    let c_positions: Vec<usize> =
        result.iter().enumerate().filter(|(_, v)| *v == "-c").map(|(i, _)| i).collect();
    assert_eq!(c_positions.len(), 2);
    assert_eq!(result[c_positions[0] + 1], "allow_write=true");
    assert_eq!(result[c_positions[1] + 1], "network=false");
    assert_eq!(
        result,
        strings(&["codex", "sandbox", "macos", "-c", "allow_write=true", "-c", "network=false", "--", "sh"])
    );
}

#[test]
fn codex_override_replaces_earlier_value() {
    let policy = CodexSandboxExecutionPolicy::new()
        .with_config_override("b", "1")
        .with_config_override("a", "2")
        .with_config_override("b", "3");
    assert_eq!(policy.config_overrides.len(), 2);
    assert_eq!(policy.config_override("b"), Some("3"));
    assert_eq!(policy.config_override("zzz"), None);
    let result = policy.build_command(&[], "/", &[], "linux").unwrap();
    assert_eq!(result, strings(&["codex", "sandbox", "linux", "-c", "a=2", "-c", "b=3", "--"]));
}

#[test]
fn codex_auto_platform_follows_host() {
    let policy = CodexSandboxExecutionPolicy::new();
    assert_eq!(policy.determine_platform("macos"), Ok("macos".to_string()));
    assert_eq!(policy.determine_platform("linux"), Ok("linux".to_string()));
    assert!(policy.determine_platform("windows").unwrap_err().contains("set 'platform' explicitly"));
    assert!(policy.build_command(&[], "/", &[], "windows").is_err());
}

#[test]
fn test_docker_policy_default() {
    let policy = DockerExecutionPolicy::default();
    assert_eq!(policy.image, "python:3.12-alpine3.19");
    assert!(policy.remove_container_on_exit);
    assert!(!policy.network_enabled);
    assert!(policy.validate().is_ok());
}

#[test]
fn test_docker_policy_builder() {
    let policy = DockerExecutionPolicy::new()
        .with_image("ubuntu:24.04")
        .with_network(true)
        .with_memory_limit(1024 * 1024 * 256)
        .with_cpus("0.5")
        .with_read_only_rootfs(true)
        .with_user("nobody")
        .with_extra_run_arg("--cap-drop=ALL");
    assert_eq!(policy.image, "ubuntu:24.04");
    assert!(policy.network_enabled);
    assert_eq!(policy.memory_bytes, Some(256 * 1024 * 1024));
    assert_eq!(policy.cpus.as_deref(), Some("0.5"));
    assert!(policy.read_only_rootfs);
    assert_eq!(policy.user.as_deref(), Some("nobody"));
    assert_eq!(policy.extra_run_args, vec!["--cap-drop=ALL"]);
    assert!(policy.validate().is_ok());
}

#[test]
fn test_docker_policy_invalid_memory() {
    let policy = DockerExecutionPolicy { memory_bytes: Some(0), ..Default::default() };
    assert!(policy.validate().is_err());
}

#[test]
fn test_docker_policy_invalid_cpus() {
    let policy = DockerExecutionPolicy { cpus: Some("  ".into()), ..Default::default() };
    assert_eq!(policy.validate(), Err("cpus must be a non-empty string when provided".to_string()));
}

#[test]
fn test_docker_policy_invalid_user() {
    let policy = DockerExecutionPolicy { user: Some("".into()), ..Default::default() };
    assert_eq!(policy.validate(), Err("user must be a non-empty string when provided".to_string()));
}

#[test]
fn test_docker_policy_build_command() {
    let policy = DockerExecutionPolicy::default();
    let cmd = strings(&["bash"]);
    let result = policy.build_command(&cmd, "/workspace", &[]).unwrap();
    assert!(result.contains(&"docker".to_string()));
    assert!(result.contains(&"run".to_string()));
    assert!(result.contains(&"--rm".to_string()));
    assert!(result.contains(&"--network".to_string()));
    assert!(result.contains(&"none".to_string()));
    assert!(result.contains(&"python:3.12-alpine3.19".to_string()));
    assert!(result.contains(&"bash".to_string()));
    assert_eq!(
        result,
        strings(&[
            "docker", "run", "-i", "--rm", "--network", "none", "-v", "/workspace:/workspace", "-w",
            "/workspace", "python:3.12-alpine3.19", "bash",
        ])
    );
}

#[test]
fn test_docker_should_mount_workspace() {
    assert!(DockerExecutionPolicy::should_mount_workspace("/my/workspace"));
    assert!(!DockerExecutionPolicy::should_mount_workspace("/tmp/langchain-shell-abc123"));
}

#[test]
fn docker_mount_edge_cases() {
    assert!(!DockerExecutionPolicy::should_mount_workspace("/"));
    assert!(!DockerExecutionPolicy::should_mount_workspace(""));
    assert!(!DockerExecutionPolicy::should_mount_workspace("/a/.."));
    assert!(!DockerExecutionPolicy::should_mount_workspace("."));
    assert!(DockerExecutionPolicy::should_mount_workspace("/a/b/"));
    assert!(DockerExecutionPolicy::should_mount_workspace("/a/b/."));
    assert!(!DockerExecutionPolicy::should_mount_workspace("/tmp/langchain-shell-x/"));
    let result = DockerExecutionPolicy::new().build_command(&[], "/tmp/langchain-shell-1", &[]).unwrap();
    assert!(result.windows(2).any(|w| w[0] == "-w" && w[1] == "/"));
    assert!(!result.contains(&"-v".to_string()));
}

#[test]
fn test_docker_policy_with_env() {
    let policy = DockerExecutionPolicy::default();
    let cmd = strings(&["bash"]);
    let env = vec![("FOO".to_string(), "bar".to_string())];
    let result = policy.build_command(&cmd, "/workspace", &env).unwrap();
    assert!(result.contains(&"-e".to_string()));
    assert!(result.contains(&"FOO=bar".to_string()));
}

#[test]
fn test_docker_policy_read_only() {
    let policy = DockerExecutionPolicy::new().with_read_only_rootfs(true);
    let cmd = strings(&["bash"]);
    let result = policy.build_command(&cmd, "/workspace", &[]).unwrap();
    assert!(result.contains(&"--read-only".to_string()));
}

#[test]
fn docker_full_option_order() {
    let policy = DockerExecutionPolicy::new()
        .with_network(true)
        .with_memory_limit(64)
        .with_cpus("1")
        .with_user("u")
        .with_read_only_rootfs(true)
        .with_extra_run_arg("--init");
    let env = vec![("A".to_string(), "1".to_string())];
    let result = policy.build_command(&strings(&["sh"]), "/w", &env).unwrap();
    assert_eq!(
        result,
        strings(&[
            "docker", "run", "-i", "--rm", "--memory", "64", "-v", "/w:/w", "-w", "/w", "--read-only",
            "-e", "A=1", "--cpus", "1", "--user", "u", "--init", "python:3.12-alpine3.19", "sh",
        ])
    );
}

#[test]
fn test_execution_policy_kind_default() {
    let kind = ExecutionPolicyKind::default();
    assert!(matches!(kind, ExecutionPolicyKind::Host(_)));
    assert!(kind.validate().is_ok());
}

#[test]
fn test_build_spawn_command() {
    let policy = ExecutionPolicyKind::Host(HostExecutionPolicy::default());
    let cmd = strings(&["bash"]);
    let result = build_spawn_command(&policy, &cmd, "/tmp", &[], "linux").unwrap();
    assert_eq!(result, vec!["bash"]);
}

#[test]
fn spawn_args_refuses_empty_command() {
    let host = ExecutionPolicyKind::default();
    assert_eq!(host.spawn_args(&[], "/tmp", &[], "linux"), Err("Empty command".to_string()));
    let docker = ExecutionPolicyKind::Docker(DockerExecutionPolicy::default());
    assert!(docker.spawn_args(&[], "/tmp", &[], "linux").is_ok());
    let sandbox = ExecutionPolicyKind::CodexSandbox(CodexSandboxExecutionPolicy::default());
    assert!(sandbox.validate().is_ok());
}
