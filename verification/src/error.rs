//! The errors of the assistant and the text that each one shows.

use crate::text::{decimal, join2, join3, join4, u64_to_string};
use vstd::prelude::*;
use vstd::string::*;

verus! {

/// Errors of the model API.
#[derive(Debug, Clone)]
pub enum ApiError {
    Auth { message: String },
    BadRequest { message: String },
    RateLimited { retry_after_ms: Option<u64> },
    Overloaded,
    Server { status: u16, message: String },
    Network(String),
    StreamParse(String),
    Timeout,
}

/// Errors of running a tool.
#[derive(Debug, Clone)]
pub enum ToolError {
    UnknownTool { name: String },
    InvalidInput { tool: String, message: String },
    ExecutionFailed(String),
    Timeout { timeout_ms: u64 },
    Blocked { tool: String },
}

/// Errors of loading the configuration.
#[derive(Debug, Clone)]
pub enum ConfigError {
    Parse { path: String, message: String },
    MissingKey { key: String },
    InvalidValue { key: String, message: String },
}

/// Any error of the assistant. Cancellation is a status of its own.
#[derive(Debug, Clone)]
pub enum ChetError {
    Api(ApiError),
    Tool(ToolError),
    Config(ConfigError),
    Permission(String),
    Session(String),
    Io(String),
    Cancelled,
    Other(String),
}

/// The text of an optional delay, as it shows inside a message.
pub open spec fn delay_text(d: Option<u64>) -> Seq<char> {
    match d {
        Some(ms) => "Some("@ + decimal(ms as nat) + ")"@,
        None => "None"@,
    }
}

/// The text that an API error shows.
pub open spec fn api_error_text(e: ApiError) -> Seq<char> {
    match e {
        ApiError::Auth { message } => "Authentication failed: "@ + message@,
        ApiError::BadRequest { message } => "Bad request: "@ + message@,
        ApiError::RateLimited { retry_after_ms } => "Rate limited (retry after "@ + delay_text(
            retry_after_ms,
        ) + "ms)"@,
        ApiError::Overloaded => "Server overloaded"@,
        ApiError::Server { status, message } => "Server error: "@ + decimal(status as nat)
            + " "@ + message@,
        ApiError::Network(m) => "Network error: "@ + m@,
        ApiError::StreamParse(m) => "Stream parse error: "@ + m@,
        ApiError::Timeout => "Request timeout"@,
    }
}

/// The text that a tool error shows.
pub open spec fn tool_error_text(e: ToolError) -> Seq<char> {
    match e {
        ToolError::UnknownTool { name } => "Unknown tool: "@ + name@,
        ToolError::InvalidInput { tool, message } => "Invalid input for tool '"@ + tool@
            + "': "@ + message@,
        ToolError::ExecutionFailed(m) => "Tool execution failed: "@ + m@,
        ToolError::Timeout { timeout_ms } => "Tool timed out after "@ + decimal(
            timeout_ms as nat,
        ) + "ms"@,
        ToolError::Blocked { tool } => "Tool '"@ + tool@ + "' blocked by permission rule"@,
    }
}

/// The text that a configuration error shows.
pub open spec fn config_error_text(e: ConfigError) -> Seq<char> {
    match e {
        ConfigError::Parse { path, message } => "Config file parse error at "@ + path@ + ": "@
            + message@,
        ConfigError::MissingKey { key } => "Missing required configuration: "@ + key@,
        ConfigError::InvalidValue { key, message } => "Invalid configuration value for '"@
            + key@ + "': "@ + message@,
    }
}

/// The text that an error shows.
pub open spec fn chet_error_text(e: ChetError) -> Seq<char> {
    match e {
        ChetError::Api(inner) => "API error: "@ + api_error_text(inner),
        ChetError::Tool(inner) => "Tool error: "@ + tool_error_text(inner),
        ChetError::Config(inner) => "Configuration error: "@ + config_error_text(inner),
        ChetError::Permission(m) => "Permission denied: "@ + m@,
        ChetError::Session(m) => "Session error: "@ + m@,
        ChetError::Io(m) => "I/O error: "@ + m@,
        ChetError::Cancelled => "Operation cancelled"@,
        ChetError::Other(m) => m@,
    }
}

impl ApiError {
    /// The text that the error shows.
    pub fn to_string(&self) -> (r: String)
        ensures
            r@ == api_error_text(*self),
    {
        match self {
            ApiError::Auth { message } => join2("Authentication failed: ", message.as_str()),
            ApiError::BadRequest { message } => join2("Bad request: ", message.as_str()),
            ApiError::RateLimited { retry_after_ms } => {
                let delay = match retry_after_ms {
                    Some(ms) => join3("Some(", u64_to_string(*ms).as_str(), ")"),
                    None => "None".to_owned(),
                };
                join3("Rate limited (retry after ", delay.as_str(), "ms)")
            },
            ApiError::Overloaded => "Server overloaded".to_owned(),
            ApiError::Server { status, message } => join4(
                "Server error: ",
                u64_to_string(*status as u64).as_str(),
                " ",
                message.as_str(),
            ),
            ApiError::Network(m) => join2("Network error: ", m.as_str()),
            ApiError::StreamParse(m) => join2("Stream parse error: ", m.as_str()),
            ApiError::Timeout => "Request timeout".to_owned(),
        }
    }
}

impl ToolError {
    /// The text that the error shows.
    pub fn to_string(&self) -> (r: String)
        ensures
            r@ == tool_error_text(*self),
    {
        match self {
            ToolError::UnknownTool { name } => join2("Unknown tool: ", name.as_str()),
            ToolError::InvalidInput { tool, message } => join4(
                "Invalid input for tool '",
                tool.as_str(),
                "': ",
                message.as_str(),
            ),
            ToolError::ExecutionFailed(m) => join2("Tool execution failed: ", m.as_str()),
            ToolError::Timeout { timeout_ms } => join3(
                "Tool timed out after ",
                u64_to_string(*timeout_ms).as_str(),
                "ms",
            ),
            ToolError::Blocked { tool } => join3(
                "Tool '",
                tool.as_str(),
                "' blocked by permission rule",
            ),
        }
    }
}

impl ConfigError {
    /// The text that the error shows.
    pub fn to_string(&self) -> (r: String)
        ensures
            r@ == config_error_text(*self),
    {
        match self {
            ConfigError::Parse { path, message } => join4(
                "Config file parse error at ",
                path.as_str(),
                ": ",
                message.as_str(),
            ),
            ConfigError::MissingKey { key } => join2(
                "Missing required configuration: ",
                key.as_str(),
            ),
            ConfigError::InvalidValue { key, message } => join4(
                "Invalid configuration value for '",
                key.as_str(),
                "': ",
                message.as_str(),
            ),
        }
    }
}

impl ChetError {
    /// The text that the error shows.
    pub fn to_string(&self) -> (r: String)
        ensures
            r@ == chet_error_text(*self),
    {
        match self {
            ChetError::Api(inner) => join2("API error: ", inner.to_string().as_str()),
            ChetError::Tool(inner) => join2("Tool error: ", inner.to_string().as_str()),
            ChetError::Config(inner) => join2(
                "Configuration error: ",
                inner.to_string().as_str(),
            ),
            ChetError::Permission(m) => join2("Permission denied: ", m.as_str()),
            ChetError::Session(m) => join2("Session error: ", m.as_str()),
            ChetError::Io(m) => join2("I/O error: ", m.as_str()),
            ChetError::Cancelled => "Operation cancelled".to_owned(),
            ChetError::Other(m) => m.clone(),
        }
    }
}

} // verus!
