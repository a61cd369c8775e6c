use vstd::prelude::*;
use vstd::string::StringExecFns;
use crate::text::{decimal, push_decimal, string_from_chars};

verus! {

/// Declares `std::io::Error`, which `AppError::Io` carries without looking inside.
#[verifier::external_type_specification]
#[verifier::external_body]
pub struct ExIoError(std::io::Error);

/// Every way a command can fail.
#[derive(Debug)]
pub enum AppError {
    Io(std::io::Error),
    Parse(String),
    WindowOperation(String),
    NoMatchingWindows,
    MultipleWindows(usize),
    InvalidParameter(String),
    FeatureNotSupported(String),
    PlatformError(String),
    NoWindowsModified,
}

pub type AppResult<T> = Result<T, AppError>;

/// The message of an error other than `Io`, as the user reads it.
pub open spec fn error_text(e: AppError) -> Seq<char> {
    match e {
        AppError::Io(_) => Seq::empty(),
        AppError::Parse(m) => "Parse error: "@ + m@,
        AppError::WindowOperation(m) => "Window operation failed: "@ + m@,
        AppError::NoMatchingWindows => "No matching windows found"@,
        AppError::MultipleWindows(n) => "Multiple windows found ("@ + decimal(n as nat)
            + "). Use --all to modify all matching windows"@,
        AppError::InvalidParameter(m) => "Invalid parameter: "@ + m@,
        AppError::FeatureNotSupported(m) => "Feature not supported: "@ + m@,
        AppError::PlatformError(m) => "Platform error: "@ + m@,
        AppError::NoWindowsModified => "No windows were modified"@,
    }
}

fn prefixed(prefix: &str, m: &String) -> (r: String)
    ensures
        r@ == prefix@ + m@,
{
    let mut s = String::from_str(prefix);
    s.append(m.as_str());
    s
}

impl AppError {
    pub fn window_operation(msg: &str) -> (r: Self)
        ensures
            r matches AppError::WindowOperation(m) && m@ == msg@,
    {
        AppError::WindowOperation(String::from_str(msg))
    }

    pub fn parse(msg: &str) -> (r: Self)
        ensures
            r matches AppError::Parse(m) && m@ == msg@,
    {
        AppError::Parse(String::from_str(msg))
    }

    pub fn invalid_parameter(msg: &str) -> (r: Self)
        ensures
            r matches AppError::InvalidParameter(m) && m@ == msg@,
    {
        AppError::InvalidParameter(String::from_str(msg))
    }

    pub fn platform(msg: &str) -> (r: Self)
        ensures
            r matches AppError::PlatformError(m) && m@ == msg@,
    {
        AppError::PlatformError(String::from_str(msg))
    }

    pub fn feature_not_supported(feature: &str) -> (r: Self)
        ensures
            r matches AppError::FeatureNotSupported(m) && m@ == feature@,
    {
        AppError::FeatureNotSupported(String::from_str(feature))
    }

    /// The text shown to the user for this error.
    pub fn message(&self) -> (r: String)
        ensures
            !(self is Io) ==> r@ == error_text(*self),
    {
        match self {
            AppError::Io(e) => {
                let mut s = String::from_str("IO error: ");
                s.append(e.to_string().as_str());
                s
            },
            AppError::Parse(m) => prefixed("Parse error: ", m),
            AppError::WindowOperation(m) => prefixed("Window operation failed: ", m),
            AppError::NoMatchingWindows => String::from_str("No matching windows found"),
            AppError::MultipleWindows(n) => {
                let mut digits: Vec<char> = Vec::new();
                push_decimal(&mut digits, *n as u64);
                let mut s = String::from_str("Multiple windows found (");
                s.append(string_from_chars(&digits).as_str());
                s.append("). Use --all to modify all matching windows");
                s
            },
            AppError::InvalidParameter(m) => prefixed("Invalid parameter: ", m),
            AppError::FeatureNotSupported(m) => prefixed("Feature not supported: ", m),
            AppError::PlatformError(m) => prefixed("Platform error: ", m),
            AppError::NoWindowsModified => String::from_str("No windows were modified"),
        }
    }
}

} // verus!
