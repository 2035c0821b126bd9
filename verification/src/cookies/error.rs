use vstd::prelude::*;

use crate::text::concat2;

verus! {

/// Errors of the cookie randomizer.
///
/// I/O failures are carried as their message: the library itself does
/// no I/O, the application around it does and reports here.
#[derive(Debug)]
pub enum CookiesError {
    /// Certificate-authority material is missing or malformed.
    Ca(String),
    /// The proxy could not be started or run.
    Proxy(String),
    /// This platform's paths could not be inspected or configured.
    Platform(String),
    /// A file could not be read or written.
    Io(String),
}

/// The message an error is displayed with.
pub open spec fn cookies_error_text(e: CookiesError) -> Seq<char> {
    match e {
        CookiesError::Ca(m) => "certificate authority error: "@ + m@,
        CookiesError::Proxy(m) => "proxy error: "@ + m@,
        CookiesError::Platform(m) => "failed to inspect or configure this platform's paths: "@ + m@,
        CookiesError::Io(m) => m@,
    }
}

impl CookiesError {
    /// The error's message, as it is shown to the user.
    pub fn to_string(&self) -> (text: String)
        ensures
            text@ == cookies_error_text(*self),
    {
        match self {
            CookiesError::Ca(m) => concat2("certificate authority error: ", m.as_str()),
            CookiesError::Proxy(m) => concat2("proxy error: ", m.as_str()),
            CookiesError::Platform(m) => concat2("failed to inspect or configure this platform's paths: ", m.as_str()),
            CookiesError::Io(m) => m.clone(),
        }
    }
}

} // verus!
