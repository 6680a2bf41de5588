//! Lambda error types.

use vstd::prelude::*;

verus! {

/// Lambda runtime errors.
#[derive(Debug, Clone, PartialEq, Eq)]
pub enum LambdaError {
    /// Application error.
    Application(String),
    /// Request conversion error.
    Request(String),
    /// Response conversion error.
    Response(String),
    /// Configuration error.
    Config(String),
    /// Lambda runtime error.
    Runtime(String),
}

/// Result type for Lambda operations.
pub type Result<T> = std::result::Result<T, LambdaError>;

impl LambdaError {
    /// The text that describes the error: what failed, then its detail.
    pub open spec fn spec_message(&self) -> Seq<char> {
        match self {
            LambdaError::Application(m) => "Application error: "@ + m@,
            LambdaError::Request(m) => "Request conversion error: "@ + m@,
            LambdaError::Response(m) => "Response conversion error: "@ + m@,
            LambdaError::Config(m) => "Configuration error: "@ + m@,
            LambdaError::Runtime(m) => "Lambda runtime error: "@ + m@,
        }
    }

    /// The text that describes the error.
    pub fn message(&self) -> (res: String)
        ensures
            res@ == self.spec_message(),
    {
        match self {
            LambdaError::Application(m) => String::from_str("Application error: ").concat(m.as_str()),
            LambdaError::Request(m) => String::from_str("Request conversion error: ").concat(m.as_str()),
            LambdaError::Response(m) => String::from_str("Response conversion error: ").concat(
                m.as_str(),
            ),
            LambdaError::Config(m) => String::from_str("Configuration error: ").concat(m.as_str()),
            LambdaError::Runtime(m) => String::from_str("Lambda runtime error: ").concat(m.as_str()),
        }
    }
}

} // verus!
