//! The error taxonomy of the engine, with the HTTP status each kind is
//! surfaced as and the message text it carries.

use vstd::prelude::*;

use crate::method::{spec_name, Method};

verus! {

/// Everything the routing-and-dispatch core can fail with. Configuration
/// and script-load failures are fatal for a load or swap attempt; the
/// remaining kinds are per-request.
#[derive(Debug)]
pub enum AppError {
    /// No tenant is registered under the requested host.
    HostNotFound(String),
    /// The tenant matched but the path did not.
    RoutePathNotFound(String),
    /// The path matched but its table has no slot for the method.
    RouteMethodNotAllowed(Method),
    /// Malformed routing configuration: bad pattern, duplicate method
    /// within a path, duplicate path, empty handler name, or empty table.
    Config(String),
    /// Evaluating the tenant's module failed.
    ScriptLoad(String),
    /// The handler was missing, threw, or rejected.
    ScriptRuntime(String),
    /// The handler's response record was malformed.
    Marshal(String),
}

impl AppError {
    /// The HTTP status this error is surfaced as: 404 for an unknown host
    /// or path, 405 for a known path without the method, 500 otherwise.
    pub fn status_code(&self) -> (r: u16)
        ensures
            r == match self {
                AppError::HostNotFound(_) => 404u16,
                AppError::RoutePathNotFound(_) => 404u16,
                AppError::RouteMethodNotAllowed(_) => 405u16,
                _ => 500u16,
            },
    {
        match self {
            AppError::HostNotFound(_) => 404,
            AppError::RoutePathNotFound(_) => 404,
            AppError::RouteMethodNotAllowed(_) => 405,
            AppError::Config(_) => 500,
            AppError::ScriptLoad(_) => 500,
            AppError::ScriptRuntime(_) => 500,
            AppError::Marshal(_) => 500,
        }
    }

    /// The message text for this error: its kind followed by its payload.
    pub fn message(&self) -> (r: String)
        ensures
            r@ == match self {
                AppError::HostNotFound(h) => "HostNotFound: "@ + h@,
                AppError::RoutePathNotFound(p) => "PathNotFound: "@ + p@,
                AppError::RouteMethodNotAllowed(m) => "MethodNotAllowed: "@ + spec_name(*m),
                AppError::Config(s) => "ConfigError: "@ + s@,
                AppError::ScriptLoad(s) => "ScriptLoadError: "@ + s@,
                AppError::ScriptRuntime(s) => "ScriptRuntimeError: "@ + s@,
                AppError::Marshal(s) => "MarshalError: "@ + s@,
            },
    {
        match self {
            AppError::HostNotFound(h) => String::from_str("HostNotFound: ").concat(h.as_str()),
            AppError::RoutePathNotFound(p) => String::from_str("PathNotFound: ").concat(
                p.as_str(),
            ),
            AppError::RouteMethodNotAllowed(m) => String::from_str("MethodNotAllowed: ").concat(
                m.as_str(),
            ),
            AppError::Config(s) => String::from_str("ConfigError: ").concat(s.as_str()),
            AppError::ScriptLoad(s) => String::from_str("ScriptLoadError: ").concat(s.as_str()),
            AppError::ScriptRuntime(s) => String::from_str("ScriptRuntimeError: ").concat(
                s.as_str(),
            ),
            AppError::Marshal(s) => String::from_str("MarshalError: ").concat(s.as_str()),
        }
    }
}

} // verus!
