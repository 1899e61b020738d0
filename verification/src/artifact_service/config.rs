//! Worker configuration: parser settings and the post-processing command.

use vstd::prelude::*;
use crate::text::concat2;

verus! {

/// Who controls the post-processing command.
#[derive(Clone, Copy, Debug, Eq, PartialEq, Structural)]
pub enum ConfigAuthority {
    OperatorOnly,
    TenantProject,
}

#[derive(Clone, Debug, Eq, PartialEq)]
pub struct ParserConfig {
    pub normalize_escapes: bool,
}

#[derive(Clone, Debug, Eq, PartialEq)]
pub struct PostProcessConfig {
    pub authority: ConfigAuthority,
    pub command: String,
}

#[derive(Clone, Debug, Eq, PartialEq)]
pub struct WorkerConfig {
    pub parser: ParserConfig,
    pub post_process: Option<PostProcessConfig>,
}

impl Default for ParserConfig {
    fn default() -> (r: Self)
        ensures
            r.normalize_escapes,
    {
        ParserConfig { normalize_escapes: default_true() }
    }
}

/// Default of `normalize_escapes` when the configuration omits it.
pub fn default_true() -> (r: bool)
    ensures
        r,
{
    true
}

impl WorkerConfig {
    /// Applies the layered command override (the environment's
    /// `DVRA_POST_PROCESS_COMMAND`, when set): it replaces the configured
    /// command, or configures an operator-only one when none was configured.
    pub fn apply_environment(&mut self, command: Option<String>)
        ensures
            final(self).parser == old(self).parser,
            command is None ==> *final(self) == *old(self),
            command is Some ==> final(self).post_process is Some
                && final(self).post_process->0.command == command->0
                && final(self).post_process->0.authority == match old(self).post_process {
                    Some(p) => p.authority,
                    None => ConfigAuthority::OperatorOnly,
                },
    {
        if let Some(command) = command {
            match &mut self.post_process {
                Some(post_process) => post_process.command = command,
                None => {
                    self.post_process = Some(
                        PostProcessConfig { authority: ConfigAuthority::OperatorOnly, command },
                    );
                },
            }
        }
    }
}

/// Why a configuration could not be loaded: the read failed, or the YAML
/// did not describe a configuration; each with the underlying error's text.
#[derive(Clone, Debug)]
pub enum ConfigError {
    Io(String),
    Yaml(String),
}

impl ConfigError {
    /// The error's description.
    pub fn message(&self) -> (r: String)
        ensures
            match self {
                ConfigError::Io(e) => r@ == "failed to read configuration: "@ + e@,
                ConfigError::Yaml(e) => r@ == "invalid YAML configuration: "@ + e@,
            },
    {
        match self {
            ConfigError::Io(e) => concat2("failed to read configuration: ", e.as_str()),
            ConfigError::Yaml(e) => concat2("invalid YAML configuration: ", e.as_str()),
        }
    }
}

} // verus!
