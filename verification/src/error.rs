//! The error taxonomy: one discriminated type for every failure a call can
//! surface, with enough detail for callers to branch on.

use crate::json::{i64_to_string, spec_int_chars};
use vstd::prelude::*;
use vstd::string::*;

verus! {

/// Everything that can go wrong in a client call, exactly one variant active.
#[derive(Debug)]
pub enum AppwriteError {
    /// Transport failure: connection, DNS, TLS, timeout.
    Http(String),
    /// Failure reported by the server: a non-2xx response.
    Api {
        /// Server-provided message, or the raw body when it gave none.
        message: String,
        /// HTTP status code, for callers to branch on.
        code: u16,
        /// Server-defined error-type tag, when the body carried one.
        error_type: Option<String>,
        /// Raw response body, kept for diagnostics.
        response: Option<String>,
    },
    /// A request or response body could not be encoded or decoded.
    Json(String),
    /// A parameter had an unusable value, e.g. an unrecognized HTTP verb.
    InvalidParameter(String),
    /// A required parameter was not given.
    MissingParameter(String),
    /// The configured endpoint is not a valid http(s) URL.
    InvalidEndpoint(String),
    /// A file could not be found or read.
    FileError(String),
    /// A URL could not be parsed.
    UrlError(String),
    /// An input or output operation failed.
    Io(String),
    /// Any other failure.
    Generic(String),
}

impl AppwriteError {
    /// The status code, for failures the server reported.
    pub open spec fn spec_code(&self) -> Option<u16> {
        match *self {
            AppwriteError::Api { code, .. } => Some(code),
            _ => None,
        }
    }

    /// The server's error-type tag, for failures the server reported.
    pub open spec fn spec_error_type(&self) -> Option<Option<Seq<char>>> {
        match *self {
            AppwriteError::Api { ref error_type, .. } => Some(
                match *error_type {
                    Some(ref t) => Some(t@),
                    None => None,
                },
            ),
            _ => None,
        }
    }

    /// The raw response body, for failures the server reported.
    pub open spec fn spec_response(&self) -> Option<Option<Seq<char>>> {
        match *self {
            AppwriteError::Api { ref response, .. } => Some(
                match *response {
                    Some(ref b) => Some(b@),
                    None => None,
                },
            ),
            _ => None,
        }
    }

    /// A failure the server reported, with only a message and a status code.
    pub fn api(message: &str, code: u16) -> (r: AppwriteError)
        ensures
            r matches AppwriteError::Api {
                message: m,
                code: c,
                error_type: t,
                response: b,
            } && m@ == message@ && c == code && t is None && b is None,
    {
        AppwriteError::Api {
            message: String::from_str(message),
            code,
            error_type: None,
            response: None,
        }
    }

    /// A failure the server reported, with its type tag and raw body.
    pub fn api_with_details(
        message: String,
        code: u16,
        error_type: Option<String>,
        response: Option<String>,
    ) -> (r: AppwriteError)
        ensures
            r == (AppwriteError::Api { message, code, error_type, response }),
    {
        AppwriteError::Api { message, code, error_type, response }
    }

    /// A required parameter was not given.
    pub fn missing_parameter(param: &str) -> (r: AppwriteError)
        ensures
            r matches AppwriteError::MissingParameter(p) && p@ == param@,
    {
        AppwriteError::MissingParameter(String::from_str(param))
    }

    /// A parameter had an unusable value.
    pub fn invalid_parameter(param: &str) -> (r: AppwriteError)
        ensures
            r matches AppwriteError::InvalidParameter(p) && p@ == param@,
    {
        AppwriteError::InvalidParameter(String::from_str(param))
    }

    /// A file could not be found or read.
    pub fn file_error(message: &str) -> (r: AppwriteError)
        ensures
            r matches AppwriteError::FileError(m) && m@ == message@,
    {
        AppwriteError::FileError(String::from_str(message))
    }

    /// The status code when the server reported the failure, else None.
    pub fn code(&self) -> (r: Option<u16>)
        ensures
            r == self.spec_code(),
    {
        match self {
            AppwriteError::Api { code, .. } => Some(*code),
            _ => None,
        }
    }

    /// The server's error-type tag, when the server reported the failure and
    /// tagged it.
    pub fn error_type(&self) -> (r: Option<&str>)
        ensures
            match r {
                Some(t) => self.spec_error_type() == Some(Some(t@)),
                None => self.spec_error_type() is None || self.spec_error_type() == Some(
                    Option::<Seq<char>>::None,
                ),
            },
    {
        match self {
            AppwriteError::Api { error_type: Some(t), .. } => Some(t.as_str()),
            _ => None,
        }
    }

    /// The raw response body, when the server reported the failure and the
    /// body was kept.
    pub fn response(&self) -> (r: Option<&str>)
        ensures
            match r {
                Some(b) => self.spec_response() == Some(Some(b@)),
                None => self.spec_response() is None || self.spec_response() == Some(
                    Option::<Seq<char>>::None,
                ),
            },
    {
        match self {
            AppwriteError::Api { response: Some(b), .. } => Some(b.as_str()),
            _ => None,
        }
    }

    /// A one-line description of the failure.
    pub fn message(&self) -> (r: String)
        ensures
            match *self {
                AppwriteError::Http(ref m) => r@ == "HTTP request failed: "@ + m@,
                AppwriteError::Api { ref message, code, .. } => r@ == "API error ("@
                    + spec_int_chars(code as int) + "): "@ + message@,
                AppwriteError::Json(ref m) => r@ == "JSON error: "@ + m@,
                AppwriteError::InvalidParameter(ref m) => r@ == "Invalid parameter: "@ + m@,
                AppwriteError::MissingParameter(ref m) => r@ == "Missing required parameter: "@
                    + m@,
                AppwriteError::InvalidEndpoint(ref m) => r@ == "Invalid endpoint URL: "@ + m@,
                AppwriteError::FileError(ref m) => r@ == "File operation error: "@ + m@,
                AppwriteError::UrlError(ref m) => r@ == "URL parsing error: "@ + m@,
                AppwriteError::Io(ref m) => r@ == "IO error: "@ + m@,
                AppwriteError::Generic(ref m) => r@ == "Appwrite error: "@ + m@,
            },
    {
        match self {
            AppwriteError::Http(m) => {
                let mut s = String::from_str("HTTP request failed: ");
                s.append(m.as_str());
                s
            },
            AppwriteError::Api { message, code, .. } => {
                let mut s = String::from_str("API error (");
                let digits = i64_to_string(*code as i64);
                s.append(digits.as_str());
                s.append("): ");
                s.append(message.as_str());
                s
            },
            AppwriteError::Json(m) => {
                let mut s = String::from_str("JSON error: ");
                s.append(m.as_str());
                s
            },
            AppwriteError::InvalidParameter(m) => {
                let mut s = String::from_str("Invalid parameter: ");
                s.append(m.as_str());
                s
            },
            AppwriteError::MissingParameter(m) => {
                let mut s = String::from_str("Missing required parameter: ");
                s.append(m.as_str());
                s
            },
            AppwriteError::InvalidEndpoint(m) => {
                let mut s = String::from_str("Invalid endpoint URL: ");
                s.append(m.as_str());
                s
            },
            AppwriteError::FileError(m) => {
                let mut s = String::from_str("File operation error: ");
                s.append(m.as_str());
                s
            },
            AppwriteError::UrlError(m) => {
                let mut s = String::from_str("URL parsing error: ");
                s.append(m.as_str());
                s
            },
            AppwriteError::Io(m) => {
                let mut s = String::from_str("IO error: ");
                s.append(m.as_str());
                s
            },
            AppwriteError::Generic(m) => {
                let mut s = String::from_str("Appwrite error: ");
                s.append(m.as_str());
                s
            },
        }
    }
}

} // verus!
