//! The lab's configuration, the gates that keep its dangerous routes shut
//! unless explicitly opened, and the shell commands its hooks run.

use vstd::prelude::*;
use crate::text::{concat2, owned, push_str, str_eq};

verus! {

#[derive(Debug, Clone)]
pub struct AppConfig {
    pub server: ServerConfig,
    pub lab: LabConfig,
    pub storage: StorageConfig,
    pub fetch: FetchConfig,
    pub post_process: PostProcessConfig,
}

#[derive(Debug, Clone)]
pub struct ServerConfig {
    pub bind: String,
}

#[derive(Debug, Clone)]
pub struct LabConfig {
    pub enable_debug_routes: bool,
}

#[derive(Debug, Clone)]
pub struct StorageConfig {
    pub root: String,
}

#[derive(Debug, Clone)]
pub struct FetchConfig {
    pub allowed_origins: Vec<String>,
    pub timeout_ms: u64,
    pub max_response_bytes: usize,
}

/// The post-processing hook's settings. The derived `Debug` shows every
/// field, the secret token included.
#[derive(Debug, Clone)]
pub struct PostProcessConfig {
    pub shell_template: String,
    pub exec_program: String,
    pub exec_args: Vec<String>,
    pub secret_token: String,
    pub threat_model: ThreatModel,
}

/// Who writes the hook's template.
#[derive(Debug, Clone, Copy, PartialEq, Eq, Structural)]
pub enum ThreatModel {
    TrustedOperator,
    TenantControlled,
}

/// The configuration file's default location.
pub open spec fn default_config_path() -> Seq<char> {
    "config/dvra.toml"@
}

impl AppConfig {
    /// Where the configuration is read from: `DVRA_CONFIG` when it is set,
    /// else the default location.
    pub fn config_path(dvra_config: Option<&str>) -> (r: String)
        ensures
            dvra_config matches Some(p) ==> r@ == p@,
            dvra_config is None ==> r@ == default_config_path(),
    {
        match dvra_config {
            Some(p) => owned(p),
            None => owned("config/dvra.toml"),
        }
    }
}

/// The value both gates need as acknowledgement.
pub open spec fn acknowledged(ack: Option<&str>) -> bool {
    ack matches Some(a) && a@ == "I_UNDERSTAND"@
}

/// Whether an optional setting holds `expected`.
fn setting_is(v: Option<&str>, expected: &str) -> (r: bool)
    ensures
        r == (v matches Some(s) && s@ == expected@),
{
    match v {
        Some(s) => str_eq(s, expected),
        None => false,
    }
}

/// Opens the command-running and extraction routes.
#[derive(Debug, Clone)]
pub struct DangerousLabGate {
    enabled: bool,
}

impl DangerousLabGate {
    pub closed spec fn is_enabled(&self) -> bool {
        self.enabled
    }

    pub fn disabled() -> (r: Self)
        ensures
            !r.is_enabled(),
    {
        DangerousLabGate { enabled: false }
    }

    /// Open only when `DVRA_LAB_MODE` is `enabled` and `DVRA_ACK_INSECURE` is
    /// `I_UNDERSTAND`; the two values are read by the caller.
    pub fn from_env(lab_mode: Option<&str>, ack: Option<&str>) -> (r: Self)
        ensures
            r.is_enabled() == ((lab_mode matches Some(m) && m@ == "enabled"@) && acknowledged(ack)),
    {
        let enabled = setting_is(lab_mode, "enabled") && setting_is(ack, "I_UNDERSTAND");
        DangerousLabGate { enabled }
    }

    pub fn require_enabled(&self) -> (r: Result<(), ConfigError>)
        ensures
            self.is_enabled() ==> r is Ok,
            !self.is_enabled() ==> r matches Err(ConfigError::DangerousLabDisabled),
    {
        if self.enabled {
            Ok(())
        } else {
            Err(ConfigError::DangerousLabDisabled)
        }
    }
}

/// Opens the fetch route.
#[derive(Debug, Clone)]
pub struct SsrfLabGate {
    enabled: bool,
}

impl SsrfLabGate {
    pub closed spec fn is_enabled(&self) -> bool {
        self.enabled
    }

    pub fn disabled() -> (r: Self)
        ensures
            !r.is_enabled(),
    {
        SsrfLabGate { enabled: false }
    }

    /// Open only when `DVRA_SSRF_LAB_MODE` is `enabled` and
    /// `DVRA_ACK_INSECURE` is `I_UNDERSTAND`; the two values are read by the
    /// caller.
    pub fn from_env(ssrf_lab_mode: Option<&str>, ack: Option<&str>) -> (r: Self)
        ensures
            r.is_enabled() == ((ssrf_lab_mode matches Some(m) && m@ == "enabled"@) && acknowledged(ack)),
    {
        let enabled = setting_is(ssrf_lab_mode, "enabled") && setting_is(ack, "I_UNDERSTAND");
        SsrfLabGate { enabled }
    }

    pub fn require_enabled(&self) -> (r: Result<(), ConfigError>)
        ensures
            self.is_enabled() ==> r is Ok,
            !self.is_enabled() ==> r matches Err(ConfigError::SsrfLabDisabled),
    {
        if self.enabled {
            Ok(())
        } else {
            Err(ConfigError::SsrfLabDisabled)
        }
    }
}

/// Runs the post-processing hook, behind the dangerous-lab gate.
#[derive(Debug, Clone)]
pub struct CommandRunner {
    config: PostProcessConfig,
    gate: DangerousLabGate,
}

impl CommandRunner {
    /// The hook's settings.
    pub closed spec fn settings(&self) -> PostProcessConfig {
        self.config
    }

    /// The hook's shell template.
    pub open spec fn template(&self) -> Seq<char> {
        self.settings().shell_template@
    }

    pub closed spec fn gate_open(&self) -> bool {
        self.gate.is_enabled()
    }

    pub fn new(config: PostProcessConfig, gate: DangerousLabGate) -> (r: Self)
        ensures
            r.settings() == config,
            r.gate_open() == gate.is_enabled(),
    {
        CommandRunner { config, gate }
    }

    /// The hook's command line: `sh -c "{template} {artifact_name}"`, the
    /// artifact name pasted into the shell text as it is. Refused while the
    /// gate is shut.
    pub fn hook_command(&self, artifact_name: &str) -> (r: Result<Vec<String>, ConfigError>)
        ensures
            !self.gate_open() ==> r matches Err(ConfigError::DangerousLabDisabled),
            self.gate_open() ==> (r matches Ok(argv) && argv@.len() == 3 && argv@[0]@ == "sh"@
                && argv@[1]@ == "-c"@ && argv@[2]@ == self.template() + " "@ + artifact_name@),
    {
        self.gate.require_enabled()?;
        let mut command = owned(self.config.shell_template.as_str());
        push_str(&mut command, " ");
        push_str(&mut command, artifact_name);
        let mut argv: Vec<String> = Vec::new();
        argv.push(owned("sh"));
        argv.push(owned("-c"));
        argv.push(command);
        Ok(argv)
    }
}

/// The legacy export's command line: `sh -c "tar -cf /tmp/export.tar {path}"`,
/// the path pasted into the shell text as it is.
pub fn export_command(path: &str) -> (r: Vec<String>)
    ensures
        r@.len() == 3,
        r@[0]@ == "sh"@,
        r@[1]@ == "-c"@,
        r@[2]@ == "tar -cf /tmp/export.tar "@ + path@,
{
    let mut argv: Vec<String> = Vec::new();
    argv.push(owned("sh"));
    argv.push(owned("-c"));
    argv.push(concat2("tar -cf /tmp/export.tar ", path));
    argv
}

/// Why configuration or a hook failed; the underlying errors by their text.
#[derive(Debug, Clone)]
pub enum ConfigError {
    Read { path: String, source: String },
    Parse { path: String, source: String },
    DangerousLabDisabled,
    SsrfLabDisabled,
    Execute(String),
    UnsupportedPlatform,
}

impl ConfigError {
    /// The error's description.
    pub fn message(&self) -> (r: String)
        ensures
            match self {
                ConfigError::Read { path, source } => r@ == "failed to read configuration "@ + path@ + ": "@ + source@,
                ConfigError::Parse { path, source } => r@ == "failed to parse configuration "@ + path@ + ": "@ + source@,
                ConfigError::DangerousLabDisabled => r@
                    == "dangerous command lab is disabled; use the isolated container and explicit acknowledgement"@,
                ConfigError::SsrfLabDisabled => r@ == "SSRF lab is disabled; use the isolated fake-metadata Docker profile"@,
                ConfigError::Execute(e) => r@ == "command execution failed: "@ + e@,
                ConfigError::UnsupportedPlatform => r@ == "this lab currently supports Unix command semantics only"@,
            },
    {
        match self {
            ConfigError::Read { path, source } => {
                let mut m = concat2("failed to read configuration ", path.as_str());
                push_str(&mut m, ": ");
                push_str(&mut m, source.as_str());
                m
            },
            ConfigError::Parse { path, source } => {
                let mut m = concat2("failed to parse configuration ", path.as_str());
                push_str(&mut m, ": ");
                push_str(&mut m, source.as_str());
                m
            },
            ConfigError::DangerousLabDisabled => owned(
                "dangerous command lab is disabled; use the isolated container and explicit acknowledgement",
            ),
            ConfigError::SsrfLabDisabled => owned("SSRF lab is disabled; use the isolated fake-metadata Docker profile"),
            ConfigError::Execute(e) => concat2("command execution failed: ", e.as_str()),
            ConfigError::UnsupportedPlatform => owned("this lab currently supports Unix command semantics only"),
        }
    }
}

} // verus!
