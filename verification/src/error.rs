//! The library's error type.
//!
//! Each variant carries a human-readable detail string; `message`
//! renders the conventional prefixed form. Conversions from the error
//! types of the capture, model and configuration layers are provided by
//! the embedding application on its own copies; here only the plain
//! string conversions live, which the configuration path uses.

use vstd::prelude::*;
use vstd::string::StringExecFns;

verus! {

/// Everything that can go wrong around the pipeline.
#[derive(Debug, Clone)]
pub enum DDoSError {
    NetworkError(String),
    ModelError(String),
    ConfigError(String),
    LockError(String),
    IoError(String),
    ParseError(String),
}

impl DDoSError {
    /// The conventional rendering: a variant prefix and the detail.
    pub fn message(&self) -> (r: String)
        ensures
            match self {
                DDoSError::NetworkError(m) => r@ == "Network error: "@ + m@,
                DDoSError::ModelError(m) => r@ == "Model error: "@ + m@,
                DDoSError::ConfigError(m) => r@ == "Configuration error: "@ + m@,
                DDoSError::LockError(m) => r@ == "Lock error: "@ + m@,
                DDoSError::IoError(m) => r@ == "IO error: "@ + m@,
                DDoSError::ParseError(m) => r@ == "Parse error: "@ + m@,
            },
    {
        let (prefix, detail): (&str, &String) = match self {
            DDoSError::NetworkError(m) => ("Network error: ", m),
            DDoSError::ModelError(m) => ("Model error: ", m),
            DDoSError::ConfigError(m) => ("Configuration error: ", m),
            DDoSError::LockError(m) => ("Lock error: ", m),
            DDoSError::IoError(m) => ("IO error: ", m),
            DDoSError::ParseError(m) => ("Parse error: ", m),
        };
        let mut r = String::from_str(prefix);
        r.append(detail.as_str());
        r
    }
}

impl From<&str> for DDoSError {
    /// A bare string is a configuration error.
    fn from(msg: &str) -> (r: Self) {
        DDoSError::ConfigError(msg.to_owned())
    }
}

impl vstd::std_specs::convert::FromSpecImpl<&str> for DDoSError {
    /// The owned copy of the string cannot be named in spec, so nothing
    /// is claimed of this conversion.
    open spec fn obeys_from_spec() -> bool {
        false
    }

    open spec fn from_spec(msg: &str) -> Self {
        arbitrary()
    }
}

impl From<String> for DDoSError {
    /// An owned string is a configuration error.
    fn from(msg: String) -> (r: Self) {
        DDoSError::ConfigError(msg)
    }
}

impl vstd::std_specs::convert::FromSpecImpl<String> for DDoSError {
    open spec fn obeys_from_spec() -> bool {
        true
    }

    open spec fn from_spec(msg: String) -> Self {
        DDoSError::ConfigError(msg)
    }
}

} // verus!
