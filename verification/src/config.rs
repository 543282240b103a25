//! The settings of the assistant and the order in which their sources
//! count: the command line first, then the environment, then the settings
//! file, then the defaults. Reading the environment and the file is the
//! caller's part.

use crate::error::ConfigError;
use crate::permissions::types::{HookConfig, PermissionRule};
use vstd::prelude::*;
use vstd::string::*;

verus! {

/// The base address of the API where none is set.
pub const DEFAULT_API_BASE_URL: &'static str = "https://api.anthropic.com";

/// The token limit of a response where none is set.
pub const DEFAULT_MAX_TOKENS: u32 = 16384;

/// The settings that a run works with.
#[derive(Debug, Clone)]
pub struct ChetConfig {
    pub api_key: String,
    pub model: String,
    pub max_tokens: u32,
    pub api_base_url: String,
    pub thinking_budget: Option<u32>,
    pub config_dir: String,
    pub permission_rules: Vec<PermissionRule>,
    pub hooks: Vec<HookConfig>,
}

/// The API section of the settings file.
#[derive(Debug, Clone)]
pub struct ApiSettings {
    pub api_key: Option<String>,
    pub model: Option<String>,
    pub max_tokens: Option<u32>,
    pub base_url: Option<String>,
    pub thinking_budget: Option<u32>,
}

/// The permissions section of the settings file.
#[derive(Debug, Clone)]
pub struct PermissionsSettings {
    pub rules: Vec<PermissionRule>,
}

/// What a settings file holds.
#[derive(Debug, Clone)]
pub struct SettingsFile {
    pub api: ApiSettings,
    pub permissions: PermissionsSettings,
    pub hooks: Vec<HookConfig>,
}

/// What the command line sets; it counts before everything else.
#[derive(Debug, Clone)]
pub struct CliOverrides {
    pub api_key: Option<String>,
    pub model: Option<String>,
    pub max_tokens: Option<u32>,
    pub thinking_budget: Option<u32>,
}

/// What the environment sets.
#[derive(Debug, Clone)]
pub struct EnvSettings {
    pub api_key: Option<String>,
    pub model: Option<String>,
    pub api_base_url: Option<String>,
}

impl Default for ApiSettings {
    fn default() -> (s: Self)
        ensures
            s.api_key is None,
            s.model is None,
            s.max_tokens is None,
            s.base_url is None,
            s.thinking_budget is None,
    {
        ApiSettings {
            api_key: None,
            model: None,
            max_tokens: None,
            base_url: None,
            thinking_budget: None,
        }
    }
}

impl Default for PermissionsSettings {
    fn default() -> (s: Self)
        ensures
            s.rules@.len() == 0,
    {
        PermissionsSettings { rules: Vec::new() }
    }
}

impl Default for SettingsFile {
    fn default() -> (s: Self)
        ensures
            s.api.api_key is None,
            s.api.model is None,
            s.api.max_tokens is None,
            s.api.base_url is None,
            s.api.thinking_budget is None,
            s.permissions.rules@.len() == 0,
            s.hooks@.len() == 0,
    {
        SettingsFile {
            api: ApiSettings::default(),
            permissions: PermissionsSettings::default(),
            hooks: Vec::new(),
        }
    }
}

impl Default for CliOverrides {
    fn default() -> (s: Self)
        ensures
            s.api_key is None,
            s.model is None,
            s.max_tokens is None,
            s.thinking_budget is None,
    {
        CliOverrides { api_key: None, model: None, max_tokens: None, thinking_budget: None }
    }
}

/// The first of the three that is set.
pub open spec fn first_set(a: Option<String>, b: Option<String>, c: Option<String>) -> Option<
    Seq<char>,
> {
    match a {
        Some(x) => Some(x@),
        None => match b {
            Some(y) => Some(y@),
            None => match c {
                Some(z) => Some(z@),
                None => None,
            },
        },
    }
}

/// The first of the two that is set.
pub open spec fn first_count(a: Option<u32>, b: Option<u32>) -> Option<u32> {
    match a {
        Some(x) => Some(x),
        None => b,
    }
}

/// Picks the first of the three that is set.
fn pick(a: Option<String>, b: Option<String>, c: Option<String>) -> (r: Option<String>)
    ensures
        crate::message::opt_text(r) == first_set(a, b, c),
{
    match a {
        Some(x) => Some(x),
        None => match b {
            Some(y) => Some(y),
            None => c,
        },
    }
}

/// The message of the error for a missing API key.
pub open spec fn missing_key_text() -> Seq<char> {
    "api_key (set ANTHROPIC_API_KEY or add to ~/.chet/config.toml)"@
}

impl ChetConfig {
    /// Settles the settings from their sources. The API key and the model
    /// come from the command line, else the environment, else the file;
    /// the token limit and the thinking budget from the command line,
    /// else the file; the base address from the environment, else the
    /// file. A missing API key is an error; a missing model, token limit
    /// or base address takes its default. Rules and hooks come from the
    /// file.
    pub fn resolve(
        overrides: CliOverrides,
        env: EnvSettings,
        settings: SettingsFile,
        config_dir: String,
        default_model: &str,
    ) -> (r: Result<ChetConfig, ConfigError>)
        ensures
            match first_set(overrides.api_key, env.api_key, settings.api.api_key) {
                None => r matches Err(ConfigError::MissingKey { key }) && key@
                    == missing_key_text(),
                Some(api_key) => r matches Ok(c) && {
                    &&& c.api_key@ == api_key
                    &&& c.model@ == match first_set(overrides.model, env.model, settings.api.model) {
                        Some(m) => m,
                        None => default_model@,
                    }
                    &&& c.max_tokens == match first_count(
                        overrides.max_tokens,
                        settings.api.max_tokens,
                    ) {
                        Some(n) => n,
                        None => DEFAULT_MAX_TOKENS,
                    }
                    &&& c.api_base_url@ == match first_set(
                        env.api_base_url,
                        settings.api.base_url,
                        None,
                    ) {
                        Some(u) => u,
                        None => DEFAULT_API_BASE_URL@,
                    }
                    &&& c.thinking_budget == first_count(
                        overrides.thinking_budget,
                        settings.api.thinking_budget,
                    )
                    &&& c.config_dir == config_dir
                    &&& c.permission_rules == settings.permissions.rules
                    &&& c.hooks == settings.hooks
                },
            },
    {
        let api_key = match pick(overrides.api_key, env.api_key, settings.api.api_key) {
            Some(k) => k,
            None => {
                return Err(
                    ConfigError::MissingKey {
                        key: "api_key (set ANTHROPIC_API_KEY or add to ~/.chet/config.toml)".to_owned(),
                    },
                );
            },
        };
        let model = match pick(overrides.model, env.model, settings.api.model) {
            Some(m) => m,
            None => default_model.to_owned(),
        };
        let max_tokens = match overrides.max_tokens {
            Some(n) => n,
            None => match settings.api.max_tokens {
                Some(n) => n,
                None => DEFAULT_MAX_TOKENS,
            },
        };
        let api_base_url = match pick(env.api_base_url, settings.api.base_url, None) {
            Some(u) => u,
            None => DEFAULT_API_BASE_URL.to_owned(),
        };
        let thinking_budget = match overrides.thinking_budget {
            Some(b) => Some(b),
            None => settings.api.thinking_budget,
        };
        Ok(
            ChetConfig {
                api_key,
                model,
                max_tokens,
                api_base_url,
                thinking_budget,
                config_dir,
                permission_rules: settings.permissions.rules,
                hooks: settings.hooks,
            },
        )
    }
}

} // verus!
