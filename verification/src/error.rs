//! The errors a discovery run can surface to its caller.

use vstd::prelude::*;

verus! {

/// A run-level failure: either the configuration document could not be
/// read, or a configured root could not be expanded. Per-directory
/// listing failures and missing roots are recovered locally and never
/// appear here.
#[derive(Debug)]
pub enum Error {
    /// The configuration file could not be opened or parsed.
    FileError(String),
    /// A `$VAR` or `~` reference in a configured root could not be resolved.
    EnvError(String),
    /// The `HOME` environment variable is not set.
    MissingHome,
}

impl Error {
    /// Wraps a diagnostic message as a configuration-file error.
    pub fn file_error(e: String) -> (r: Self)
        ensures
            r is FileError,
            r->FileError_0@ == e@,
    {
        Self::FileError(e)
    }

    /// The message shown for this error.
    pub open spec fn spec_message(&self) -> Seq<char> {
        match self {
            Error::FileError(e) => "Config file error '"@ + e@ + "'"@,
            Error::EnvError(e) => "EnvError: "@ + e@,
            Error::MissingHome => "Missing 'HOME' env var"@,
        }
    }

    /// Renders the error for display.
    pub fn message(&self) -> (r: String)
        ensures
            r@ == self.spec_message(),
    {
        match self {
            Error::FileError(e) => {
                let mut s: String = "Config file error '".to_owned();
                s.append(e.as_str());
                s.append("'");
                s
            },
            Error::EnvError(e) => {
                let mut s: String = "EnvError: ".to_owned();
                s.append(e.as_str());
                s
            },
            Error::MissingHome => "Missing 'HOME' env var".to_owned(),
        }
    }
}

} // verus!
