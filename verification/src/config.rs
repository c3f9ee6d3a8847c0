//! Configuration: the settings record, environment overrides, and
//! project-type detection with its default commands.

use vstd::prelude::*;

use crate::text::{
    ci_matches, spec_ci_matches, spec_parse_u64, to_chars,
};

verus! {

/// Core loop settings.
#[derive(Debug, Clone)]
pub struct FresherConfig {
    pub mode: String,
    pub max_iterations: u32,
    pub smart_termination: bool,
    pub dangerous_permissions: bool,
    pub max_turns: u32,
    pub model: String,
}

/// The project's own commands.
#[derive(Debug, Clone)]
pub struct CommandsConfig {
    pub test: String,
    pub build: String,
    pub lint: String,
}

/// Where the project keeps its files.
#[derive(Debug, Clone)]
pub struct PathsConfig {
    pub log_dir: String,
    pub spec_dir: String,
    pub src_dir: String,
}

/// Hook settings.
#[derive(Debug, Clone, Copy, PartialEq, Eq, Structural)]
pub struct HooksConfig {
    pub enabled: bool,
    pub timeout: u32,
}

/// Container settings.
#[derive(Debug, Clone)]
pub struct DockerConfig {
    pub use_docker: bool,
    pub memory: String,
    pub cpus: String,
    pub presets: Vec<String>,
    pub setup_script: Option<String>,
}

/// The whole configuration.
#[derive(Debug, Clone)]
pub struct Config {
    pub fresher: FresherConfig,
    pub commands: CommandsConfig,
    pub paths: PathsConfig,
    pub hooks: HooksConfig,
    pub docker: DockerConfig,
}

impl Default for Config {
    /// The default settings: planning mode without an iteration ceiling,
    /// smart termination on, hooks on with half a minute of patience,
    /// no container, and no project commands yet.
    fn default() -> (r: Config)
        ensures
            r.fresher.mode@ == "planning"@,
            r.fresher.max_iterations == 0,
            r.fresher.smart_termination,
            r.fresher.dangerous_permissions,
            r.fresher.max_turns == 50,
            r.fresher.model@ == "sonnet"@,
            r.commands.test@ == Seq::<char>::empty(),
            r.commands.build@ == Seq::<char>::empty(),
            r.commands.lint@ == Seq::<char>::empty(),
            r.paths.log_dir@ == ".fresher/logs"@,
            r.paths.spec_dir@ == "specs"@,
            r.paths.src_dir@ == "src"@,
            r.hooks.enabled,
            r.hooks.timeout == 30,
            !r.docker.use_docker,
            r.docker.memory@ == "4g"@,
            r.docker.cpus@ == "2"@,
            r.docker.presets@.len() == 0,
            r.docker.setup_script is None,
    {
        Config {
            fresher: FresherConfig {
                mode: String::from_str("planning"),
                max_iterations: 0,
                smart_termination: true,
                dangerous_permissions: true,
                max_turns: 50,
                model: String::from_str("sonnet"),
            },
            commands: CommandsConfig {
                test: String::new(),
                build: String::new(),
                lint: String::new(),
            },
            paths: PathsConfig {
                log_dir: String::from_str(".fresher/logs"),
                spec_dir: String::from_str("specs"),
                src_dir: String::from_str("src"),
            },
            hooks: HooksConfig { enabled: true, timeout: 30 },
            docker: DockerConfig {
                use_docker: false,
                memory: String::from_str("4g"),
                cpus: String::from_str("2"),
                presets: Vec::new(),
                setup_script: None,
            },
        }
    }
}

/// The environment's overriding values, each as found, unparsed.
#[derive(Debug, Clone, Default)]
pub struct EnvOverrides {
    pub mode: Option<String>,
    pub max_iterations: Option<String>,
    pub smart_termination: Option<String>,
    pub dangerous_permissions: Option<String>,
    pub max_turns: Option<String>,
    pub model: Option<String>,
    pub test_cmd: Option<String>,
    pub build_cmd: Option<String>,
    pub lint_cmd: Option<String>,
    pub log_dir: Option<String>,
    pub spec_dir: Option<String>,
    pub src_dir: Option<String>,
    pub hooks_enabled: Option<String>,
    pub hook_timeout: Option<String>,
    pub use_docker: Option<String>,
    pub docker_memory: Option<String>,
    pub docker_cpus: Option<String>,
}

/// The `u32` a plain decimal numeral spells, if it fits.
pub open spec fn spec_parse_u32_text(s: Seq<char>) -> Option<u32> {
    match spec_parse_u64(s) {
        Some(x) => if x <= u32::MAX as u64 {
            Some(x as u32)
        } else {
            None
        },
        None => None,
    }
}

/// Parses a plain decimal numeral as `u32`, matching `spec_parse_u32_text`.
pub fn parse_u32_text(s: &str) -> (r: Option<u32>)
    ensures
        r == spec_parse_u32_text(s@),
{
    let v = to_chars(s);
    proof {
        assert(v@.subrange(0, v@.len() as int) =~= v@);
    }
    match crate::text::parse_u64_range(&v, 0, v.len()) {
        Some(x) => {
            if x <= 0xffff_ffffu64 {
                Some(x as u32)
            } else {
                None
            }
        },
        None => None,
    }
}

/// Whether a value spells `true`, blind to ASCII case.
pub open spec fn spec_is_true_text(s: Seq<char>) -> bool {
    spec_ci_matches(s, "true"@)
}

/// Checks a boolean setting's text, matching `spec_is_true_text`.
pub fn is_true_text(s: &str) -> (r: bool)
    ensures
        r == spec_is_true_text(s@),
{
    let v = to_chars(s);
    proof {
        assert(v@.subrange(0, v@.len() as int) =~= v@);
    }
    ci_matches(&v, 0, v.len(), "true")
}

/// A text override: the given value, else what stood before.
pub open spec fn spec_text_override(v: Option<String>, old_text: Seq<char>) -> Seq<char> {
    match v {
        Some(s) => s@,
        None => old_text,
    }
}

/// A number override: the given value when it parses, else what stood.
pub open spec fn spec_u32_override(v: Option<String>, old_n: u32) -> u32 {
    match v {
        Some(s) => match spec_parse_u32_text(s@) {
            Some(n) => n,
            None => old_n,
        },
        None => old_n,
    }
}

/// A boolean override: whether the given value spells `true`, else what
/// stood before.
pub open spec fn spec_bool_override(v: Option<String>, old_b: bool) -> bool {
    match v {
        Some(s) => spec_is_true_text(s@),
        None => old_b,
    }
}

fn apply_fresher_overrides(f: &mut FresherConfig, env: &EnvOverrides)
    ensures
        final (f).mode@ == spec_text_override(env.mode, old(f).mode@),
        final (f).max_iterations == spec_u32_override(env.max_iterations, old(f).max_iterations),
        final (f).smart_termination == spec_bool_override(
            env.smart_termination,
            old(f).smart_termination,
        ),
        final (f).dangerous_permissions == spec_bool_override(
            env.dangerous_permissions,
            old(f).dangerous_permissions,
        ),
        final (f).max_turns == spec_u32_override(env.max_turns, old(f).max_turns),
        final (f).model@ == spec_text_override(env.model, old(f).model@),
{
    match &env.mode {
        Some(v) => f.mode = v.clone(),
        None => {},
    }
    match &env.max_iterations {
        Some(v) => match parse_u32_text(v.as_str()) {
            Some(n) => f.max_iterations = n,
            None => {},
        },
        None => {},
    }
    match &env.smart_termination {
        Some(v) => f.smart_termination = is_true_text(v.as_str()),
        None => {},
    }
    match &env.dangerous_permissions {
        Some(v) => f.dangerous_permissions = is_true_text(v.as_str()),
        None => {},
    }
    match &env.max_turns {
        Some(v) => match parse_u32_text(v.as_str()) {
            Some(n) => f.max_turns = n,
            None => {},
        },
        None => {},
    }
    match &env.model {
        Some(v) => f.model = v.clone(),
        None => {},
    }
}

fn apply_command_overrides(c: &mut CommandsConfig, env: &EnvOverrides)
    ensures
        final (c).test@ == spec_text_override(env.test_cmd, old(c).test@),
        final (c).build@ == spec_text_override(env.build_cmd, old(c).build@),
        final (c).lint@ == spec_text_override(env.lint_cmd, old(c).lint@),
{
    match &env.test_cmd {
        Some(v) => c.test = v.clone(),
        None => {},
    }
    match &env.build_cmd {
        Some(v) => c.build = v.clone(),
        None => {},
    }
    match &env.lint_cmd {
        Some(v) => c.lint = v.clone(),
        None => {},
    }
}

fn apply_path_overrides(ps: &mut PathsConfig, env: &EnvOverrides)
    ensures
        final (ps).log_dir@ == spec_text_override(env.log_dir, old(ps).log_dir@),
        final (ps).spec_dir@ == spec_text_override(env.spec_dir, old(ps).spec_dir@),
        final (ps).src_dir@ == spec_text_override(env.src_dir, old(ps).src_dir@),
{
    match &env.log_dir {
        Some(v) => ps.log_dir = v.clone(),
        None => {},
    }
    match &env.spec_dir {
        Some(v) => ps.spec_dir = v.clone(),
        None => {},
    }
    match &env.src_dir {
        Some(v) => ps.src_dir = v.clone(),
        None => {},
    }
}

fn apply_hook_overrides(h: &mut HooksConfig, env: &EnvOverrides)
    ensures
        final (h).enabled == spec_bool_override(env.hooks_enabled, old(h).enabled),
        final (h).timeout == spec_u32_override(env.hook_timeout, old(h).timeout),
{
    match &env.hooks_enabled {
        Some(v) => h.enabled = is_true_text(v.as_str()),
        None => {},
    }
    match &env.hook_timeout {
        Some(v) => match parse_u32_text(v.as_str()) {
            Some(n) => h.timeout = n,
            None => {},
        },
        None => {},
    }
}

fn apply_docker_overrides(d: &mut DockerConfig, env: &EnvOverrides)
    ensures
        final (d).use_docker == spec_bool_override(env.use_docker, old(d).use_docker),
        final (d).memory@ == spec_text_override(env.docker_memory, old(d).memory@),
        final (d).cpus@ == spec_text_override(env.docker_cpus, old(d).cpus@),
        final (d).presets == old(d).presets,
        final (d).setup_script == old(d).setup_script,
{
    match &env.use_docker {
        Some(v) => d.use_docker = is_true_text(v.as_str()),
        None => {},
    }
    match &env.docker_memory {
        Some(v) => d.memory = v.clone(),
        None => {},
    }
    match &env.docker_cpus {
        Some(v) => d.cpus = v.clone(),
        None => {},
    }
}

impl Config {
    /// Applies the environment's overrides: every given text replaces its
    /// setting, every given number replaces its setting when it parses,
    /// and every given boolean setting becomes whether the value spells
    /// `true`.
    pub fn apply_env_overrides(&mut self, env: &EnvOverrides)
        ensures
            final (self).fresher.mode@ == spec_text_override(env.mode, old(self).fresher.mode@),
            final (self).fresher.max_iterations == spec_u32_override(
                env.max_iterations,
                old(self).fresher.max_iterations,
            ),
            final (self).fresher.smart_termination == spec_bool_override(
                env.smart_termination,
                old(self).fresher.smart_termination,
            ),
            final (self).fresher.dangerous_permissions == spec_bool_override(
                env.dangerous_permissions,
                old(self).fresher.dangerous_permissions,
            ),
            final (self).fresher.max_turns == spec_u32_override(
                env.max_turns,
                old(self).fresher.max_turns,
            ),
            final (self).fresher.model@ == spec_text_override(env.model, old(self).fresher.model@),
            final (self).commands.test@ == spec_text_override(
                env.test_cmd,
                old(self).commands.test@,
            ),
            final (self).commands.build@ == spec_text_override(
                env.build_cmd,
                old(self).commands.build@,
            ),
            final (self).commands.lint@ == spec_text_override(
                env.lint_cmd,
                old(self).commands.lint@,
            ),
            final (self).paths.log_dir@ == spec_text_override(
                env.log_dir,
                old(self).paths.log_dir@,
            ),
            final (self).paths.spec_dir@ == spec_text_override(
                env.spec_dir,
                old(self).paths.spec_dir@,
            ),
            final (self).paths.src_dir@ == spec_text_override(
                env.src_dir,
                old(self).paths.src_dir@,
            ),
            final (self).hooks.enabled == spec_bool_override(
                env.hooks_enabled,
                old(self).hooks.enabled,
            ),
            final (self).hooks.timeout == spec_u32_override(
                env.hook_timeout,
                old(self).hooks.timeout,
            ),
            final (self).docker.use_docker == spec_bool_override(
                env.use_docker,
                old(self).docker.use_docker,
            ),
            final (self).docker.memory@ == spec_text_override(
                env.docker_memory,
                old(self).docker.memory@,
            ),
            final (self).docker.cpus@ == spec_text_override(
                env.docker_cpus,
                old(self).docker.cpus@,
            ),
            final (self).docker.presets == old(self).docker.presets,
            final (self).docker.setup_script == old(self).docker.setup_script,
    {
        apply_fresher_overrides(&mut self.fresher, env);
        apply_command_overrides(&mut self.commands, env);
        apply_path_overrides(&mut self.paths, env);
        apply_hook_overrides(&mut self.hooks, env);
        apply_docker_overrides(&mut self.docker, env);
    }
}

/// Which manifest files are present in a project directory.
#[derive(Debug, Clone, Copy, PartialEq, Eq, Structural, Default)]
pub struct ProjectMarkers {
    pub bun_lockb: bool,
    pub bunfig_toml: bool,
    pub package_json: bool,
    pub cargo_toml: bool,
    pub go_mod: bool,
    pub pyproject_toml: bool,
    pub setup_py: bool,
    pub makefile: bool,
    pub csproj: bool,
    pub sln: bool,
    pub pom_xml: bool,
    pub build_gradle: bool,
    pub build_gradle_kts: bool,
}

/// A kind of project, told by its manifest files.
#[derive(Debug, Clone, Copy, PartialEq, Eq, Structural)]
pub enum ProjectType {
    Bun,
    NodeJs,
    Rust,
    Go,
    Python,
    Make,
    DotNet,
    Maven,
    Gradle,
    Generic,
}

/// The detection order: the first matching manifest decides.
pub open spec fn spec_detect_project_type(f: ProjectMarkers) -> ProjectType {
    if f.bun_lockb || f.bunfig_toml {
        ProjectType::Bun
    } else if f.package_json {
        ProjectType::NodeJs
    } else if f.cargo_toml {
        ProjectType::Rust
    } else if f.go_mod {
        ProjectType::Go
    } else if f.pyproject_toml || f.setup_py {
        ProjectType::Python
    } else if f.makefile {
        ProjectType::Make
    } else if f.csproj || f.sln {
        ProjectType::DotNet
    } else if f.pom_xml {
        ProjectType::Maven
    } else if f.build_gradle || f.build_gradle_kts {
        ProjectType::Gradle
    } else {
        ProjectType::Generic
    }
}

/// Detects the project type from the manifest files present, in the
/// fixed precedence order of `spec_detect_project_type`.
pub fn detect_project_type(f: &ProjectMarkers) -> (r: ProjectType)
    ensures
        r == spec_detect_project_type(*f),
{
    if f.bun_lockb || f.bunfig_toml {
        ProjectType::Bun
    } else if f.package_json {
        ProjectType::NodeJs
    } else if f.cargo_toml {
        ProjectType::Rust
    } else if f.go_mod {
        ProjectType::Go
    } else if f.pyproject_toml || f.setup_py {
        ProjectType::Python
    } else if f.makefile {
        ProjectType::Make
    } else if f.csproj || f.sln {
        ProjectType::DotNet
    } else if f.pom_xml {
        ProjectType::Maven
    } else if f.build_gradle || f.build_gradle_kts {
        ProjectType::Gradle
    } else {
        ProjectType::Generic
    }
}

impl ProjectType {
    /// The short name of the project type.
    pub fn name(&self) -> (r: &'static str)
        ensures
            r@ == spec_project_type_name(*self),
    {
        match self {
            ProjectType::Bun => "bun",
            ProjectType::NodeJs => "nodejs",
            ProjectType::Rust => "rust",
            ProjectType::Go => "go",
            ProjectType::Python => "python",
            ProjectType::Make => "make",
            ProjectType::DotNet => "dotnet",
            ProjectType::Maven => "maven",
            ProjectType::Gradle => "gradle",
            ProjectType::Generic => "generic",
        }
    }

    /// The default commands for a project of this type.
    pub fn default_commands(&self) -> (r: CommandsConfig)
        ensures
            r.test@ == spec_default_commands(*self).0,
            r.build@ == spec_default_commands(*self).1,
            r.lint@ == spec_default_commands(*self).2,
    {
        match self {
            ProjectType::Bun => CommandsConfig {
                test: String::from_str("bun test"),
                build: String::from_str("bun run build"),
                lint: String::from_str("bun run lint"),
            },
            ProjectType::NodeJs => CommandsConfig {
                test: String::from_str("npm test"),
                build: String::from_str("npm run build"),
                lint: String::from_str("npm run lint"),
            },
            ProjectType::Rust => CommandsConfig {
                test: String::from_str("cargo test"),
                build: String::from_str("cargo build"),
                lint: String::from_str("cargo clippy"),
            },
            ProjectType::Go => CommandsConfig {
                test: String::from_str("go test ./..."),
                build: String::from_str("go build"),
                lint: String::from_str("go fmt"),
            },
            ProjectType::Python => CommandsConfig {
                test: String::from_str("pytest"),
                build: String::from_str("python -m build"),
                lint: String::from_str("ruff check"),
            },
            ProjectType::Make => CommandsConfig {
                test: String::from_str("make test"),
                build: String::from_str("make build"),
                lint: String::from_str("make lint"),
            },
            ProjectType::DotNet => CommandsConfig {
                test: String::from_str("dotnet test"),
                build: String::from_str("dotnet build"),
                lint: String::new(),
            },
            ProjectType::Maven => CommandsConfig {
                test: String::from_str("mvn test"),
                build: String::from_str("mvn clean package"),
                lint: String::from_str("mvn checkstyle:check"),
            },
            ProjectType::Gradle => CommandsConfig {
                test: String::from_str("gradle test"),
                build: String::from_str("gradle build"),
                lint: String::from_str("gradle check"),
            },
            ProjectType::Generic => CommandsConfig {
                test: String::new(),
                build: String::new(),
                lint: String::new(),
            },
        }
    }
}

/// The short name of each project type.
pub open spec fn spec_project_type_name(t: ProjectType) -> Seq<char> {
    match t {
        ProjectType::Bun => "bun"@,
        ProjectType::NodeJs => "nodejs"@,
        ProjectType::Rust => "rust"@,
        ProjectType::Go => "go"@,
        ProjectType::Python => "python"@,
        ProjectType::Make => "make"@,
        ProjectType::DotNet => "dotnet"@,
        ProjectType::Maven => "maven"@,
        ProjectType::Gradle => "gradle"@,
        ProjectType::Generic => "generic"@,
    }
}

/// The default test, build, and lint commands of each project type.
pub open spec fn spec_default_commands(t: ProjectType) -> (Seq<char>, Seq<char>, Seq<char>) {
    match t {
        ProjectType::Bun => ("bun test"@, "bun run build"@, "bun run lint"@),
        ProjectType::NodeJs => ("npm test"@, "npm run build"@, "npm run lint"@),
        ProjectType::Rust => ("cargo test"@, "cargo build"@, "cargo clippy"@),
        ProjectType::Go => ("go test ./..."@, "go build"@, "go fmt"@),
        ProjectType::Python => ("pytest"@, "python -m build"@, "ruff check"@),
        ProjectType::Make => ("make test"@, "make build"@, "make lint"@),
        ProjectType::DotNet => ("dotnet test"@, "dotnet build"@, Seq::empty()),
        ProjectType::Maven => ("mvn test"@, "mvn clean package"@, "mvn checkstyle:check"@),
        ProjectType::Gradle => ("gradle test"@, "gradle build"@, "gradle check"@),
        ProjectType::Generic => (Seq::empty(), Seq::empty(), Seq::empty()),
    }
}

} // verus!
