use fresher::config::{
    detect_project_type, is_true_text, parse_u32_text, Config, EnvOverrides, ProjectMarkers,
    ProjectType,
};

#[test]
fn test_default_config() {
    let config = Config::default();

    assert_eq!(config.fresher.mode, "planning");
    assert_eq!(config.fresher.max_iterations, 0);
    assert!(config.fresher.smart_termination);
    assert!(config.fresher.dangerous_permissions);
    assert_eq!(config.fresher.max_turns, 50);
    assert_eq!(config.fresher.model, "sonnet");

    assert!(config.commands.test.is_empty());
    assert!(config.commands.build.is_empty());
    assert!(config.commands.lint.is_empty());

    assert_eq!(config.paths.log_dir, ".fresher/logs");
    assert_eq!(config.paths.spec_dir, "specs");
    assert_eq!(config.paths.src_dir, "src");

    assert!(config.hooks.enabled);
    assert_eq!(config.hooks.timeout, 30);

    assert!(!config.docker.use_docker);
    assert_eq!(config.docker.memory, "4g");
    assert_eq!(config.docker.cpus, "2");
}

#[test]
fn test_invalid_number_parsing() {
    let invalid = "not_a_number";
    assert!(parse_u32_text(invalid).is_none(), "Invalid string should not parse as u32");

    let valid = "10";
    let result = parse_u32_text(valid);
    assert!(result.is_some(), "Valid number string should parse");
    assert_eq!(result.unwrap(), 10);
}

#[test]
fn test_number_parsing_bounds() {
    assert_eq!(parse_u32_text("0"), Some(0));
    assert_eq!(parse_u32_text("4294967295"), Some(4294967295));
    assert!(parse_u32_text("4294967296").is_none());
    assert!(parse_u32_text("").is_none());
    assert!(parse_u32_text("-1").is_none());
}

#[test]
fn test_true_text() {
    assert!(is_true_text("true"));
    assert!(is_true_text("TRUE"));
    assert!(is_true_text("True"));
    assert!(!is_true_text("false"));
    assert!(!is_true_text("yes"));
    assert!(!is_true_text(""));
}

#[test]
fn test_env_override_mode() {
    let mut config = Config::default();
    let mut env = EnvOverrides::default();
    env.mode = Some("building".to_string());
    config.apply_env_overrides(&env);
    assert_eq!(config.fresher.mode, "building");
}

#[test]
fn test_env_override_max_iterations() {
    let mut config = Config::default();
    let mut env = EnvOverrides::default();
    env.max_iterations = Some("10".to_string());
    config.apply_env_overrides(&env);
    assert_eq!(config.fresher.max_iterations, 10);
}

#[test]
fn test_env_override_invalid_number_keeps_setting() {
    let mut config = Config::default();
    config.fresher.max_iterations = 4;
    let mut env = EnvOverrides::default();
    env.max_iterations = Some("many".to_string());
    config.apply_env_overrides(&env);
    assert_eq!(config.fresher.max_iterations, 4);
}

#[test]
fn test_env_override_smart_termination() {
    let mut config = Config::default();
    let mut env = EnvOverrides::default();
    env.smart_termination = Some("false".to_string());
    config.apply_env_overrides(&env);
    assert!(!config.fresher.smart_termination);
}

#[test]
fn test_env_override_hooks() {
    let mut config = Config::default();
    let mut env = EnvOverrides::default();
    env.hooks_enabled = Some("false".to_string());
    env.hook_timeout = Some("60".to_string());
    config.apply_env_overrides(&env);
    assert!(!config.hooks.enabled);
    assert_eq!(config.hooks.timeout, 60);
}

#[test]
fn test_env_override_docker() {
    let mut config = Config::default();
    let mut env = EnvOverrides::default();
    env.use_docker = Some("true".to_string());
    env.docker_memory = Some("8g".to_string());
    env.docker_cpus = Some("4".to_string());
    config.apply_env_overrides(&env);
    assert!(config.docker.use_docker);
    assert_eq!(config.docker.memory, "8g");
    assert_eq!(config.docker.cpus, "4");
}

#[test]
fn test_env_override_commands() {
    let mut config = Config::default();
    let mut env = EnvOverrides::default();
    env.test_cmd = Some("bun test".to_string());
    env.build_cmd = Some("bun run build".to_string());
    env.lint_cmd = Some("bun run lint".to_string());
    config.apply_env_overrides(&env);
    assert_eq!(config.commands.test, "bun test");
    assert_eq!(config.commands.build, "bun run build");
    assert_eq!(config.commands.lint, "bun run lint");
}

#[test]
fn test_env_override_paths() {
    let mut config = Config::default();
    let mut env = EnvOverrides::default();
    env.log_dir = Some("/tmp/logs".to_string());
    env.spec_dir = Some("specifications".to_string());
    env.src_dir = Some("source".to_string());
    config.apply_env_overrides(&env);
    assert_eq!(config.paths.log_dir, "/tmp/logs");
    assert_eq!(config.paths.spec_dir, "specifications");
    assert_eq!(config.paths.src_dir, "source");
}

#[test]
fn test_project_type_name() {
    assert_eq!(ProjectType::Bun.name(), "bun");
    assert_eq!(ProjectType::NodeJs.name(), "nodejs");
    assert_eq!(ProjectType::Rust.name(), "rust");
    assert_eq!(ProjectType::Go.name(), "go");
    assert_eq!(ProjectType::Python.name(), "python");
    assert_eq!(ProjectType::Make.name(), "make");
    assert_eq!(ProjectType::DotNet.name(), "dotnet");
    assert_eq!(ProjectType::Maven.name(), "maven");
    assert_eq!(ProjectType::Gradle.name(), "gradle");
    assert_eq!(ProjectType::Generic.name(), "generic");
}

#[test]
fn test_project_type_default_commands() {
    let rust_cmds = ProjectType::Rust.default_commands();
    assert_eq!(rust_cmds.test, "cargo test");
    assert_eq!(rust_cmds.build, "cargo build");
    assert_eq!(rust_cmds.lint, "cargo clippy");

    let bun_cmds = ProjectType::Bun.default_commands();
    assert_eq!(bun_cmds.test, "bun test");
    assert_eq!(bun_cmds.build, "bun run build");
    assert_eq!(bun_cmds.lint, "bun run lint");

    let go_cmds = ProjectType::Go.default_commands();
    assert_eq!(go_cmds.test, "go test ./...");
    assert_eq!(go_cmds.build, "go build");
    assert_eq!(go_cmds.lint, "go fmt");

    let generic_cmds = ProjectType::Generic.default_commands();
    assert!(generic_cmds.test.is_empty());
    assert!(generic_cmds.build.is_empty());
    assert!(generic_cmds.lint.is_empty());
}

#[test]
fn test_detect_project_type_precedence() {
    let mut f = ProjectMarkers::default();
    assert!(matches!(detect_project_type(&f), ProjectType::Generic));
    f.pom_xml = true;
    assert!(matches!(detect_project_type(&f), ProjectType::Maven));
    f.cargo_toml = true;
    assert!(matches!(detect_project_type(&f), ProjectType::Rust));
    f.package_json = true;
    assert!(matches!(detect_project_type(&f), ProjectType::NodeJs));
    f.bun_lockb = true;
    assert!(matches!(detect_project_type(&f), ProjectType::Bun));
}
