//! What can be wrong with the settings and the configuration.
use vstd::prelude::*;

verus! {

/// Why the configuration was refused.
#[derive(Debug)]
pub enum ConfigError {
    /// The configuration file could not be read.
    Read { path: String, source: String },
    /// The configuration file is not a configuration.
    Parse { path: String, source: String },
    /// The configuration breaks one of the rules.
    Invalid(String),
    /// An environment variable holds no usable value.
    InvalidEnv { name: String, value: String, reason: String },
}

/// The texts of a `ConfigError`.
pub enum ConfigErrorView {
    Read { path: Seq<char>, source: Seq<char> },
    Parse { path: Seq<char>, source: Seq<char> },
    Invalid(Seq<char>),
    InvalidEnv { name: Seq<char>, value: Seq<char>, reason: Seq<char> },
}

impl View for ConfigError {
    type V = ConfigErrorView;

    open spec fn view(&self) -> ConfigErrorView {
        match self {
            ConfigError::Read { path, source } => ConfigErrorView::Read {
                path: path@,
                source: source@,
            },
            ConfigError::Parse { path, source } => ConfigErrorView::Parse {
                path: path@,
                source: source@,
            },
            ConfigError::Invalid(problem) => ConfigErrorView::Invalid(problem@),
            ConfigError::InvalidEnv { name, value, reason } => ConfigErrorView::InvalidEnv {
                name: name@,
                value: value@,
                reason: reason@,
            },
        }
    }
}

impl ConfigErrorView {
    /// The error as one line of text.
    pub open spec fn line(self) -> Seq<char> {
        match self {
            ConfigErrorView::Read { path, source } => "failed to read config file "@ + path + ": "@
                + source,
            ConfigErrorView::Parse { path, source } => "failed to parse config file "@ + path
                + ": "@ + source,
            ConfigErrorView::Invalid(problem) => "invalid config: "@ + problem,
            ConfigErrorView::InvalidEnv { name, value, reason } => "invalid environment variable "@
                + name + "="@ + value + ": "@ + reason,
        }
    }
}

impl ConfigError {
    /// The error as one line of text.
    pub fn message(&self) -> (r: String)
        ensures
            r@ == self@.line(),
            match self {
                ConfigError::Read { path, source } => r@ == "failed to read config file "@ + path@
                    + ": "@ + source@,
                ConfigError::Parse { path, source } => r@ == "failed to parse config file "@ + path@
                    + ": "@ + source@,
                ConfigError::Invalid(problem) => r@ == "invalid config: "@ + problem@,
                ConfigError::InvalidEnv { name, value, reason } => r@
                    == "invalid environment variable "@ + name@ + "="@ + value@ + ": "@ + reason@,
            },
    {
        match self {
            ConfigError::Read { path, source } => "failed to read config file ".to_owned().concat(
                path.as_str(),
            ).concat(": ").concat(source.as_str()),
            ConfigError::Parse { path, source } => "failed to parse config file ".to_owned().concat(
                path.as_str(),
            ).concat(": ").concat(source.as_str()),
            ConfigError::Invalid(problem) => "invalid config: ".to_owned().concat(problem.as_str()),
            ConfigError::InvalidEnv { name, value, reason } => {
                "invalid environment variable ".to_owned().concat(name.as_str()).concat("=").concat(
                    value.as_str(),
                ).concat(": ").concat(reason.as_str())
            },
        }
    }
}

/// The contents of an error are the texts of its fields.
pub proof fn law_error_fields(e: ConfigError)
    ensures
        match e {
            ConfigError::Read { path, source } => e@ == (ConfigErrorView::Read {
                path: path@,
                source: source@,
            }),
            ConfigError::Parse { path, source } => e@ == (ConfigErrorView::Parse {
                path: path@,
                source: source@,
            }),
            ConfigError::Invalid(problem) => e@ == ConfigErrorView::Invalid(problem@),
            ConfigError::InvalidEnv { name, value, reason } => e@ == (ConfigErrorView::InvalidEnv {
                name: name@,
                value: value@,
                reason: reason@,
            }),
        },
{
}

} // verus!
