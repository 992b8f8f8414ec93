//! The uniform success/error envelope through which the presentation layer
//! receives command outcomes.

use vstd::prelude::*;

verus! {

/// Either a payload or an error message, with an explicit success flag.
#[derive(Debug)]
pub struct CommandResponse<T> {
    success: bool,
    data: Option<T>,
    error: Option<String>,
}

impl<T> CommandResponse<T> {
    /// Whether this envelope reports success.
    pub closed spec fn spec_success(&self) -> bool {
        self.success
    }

    /// The payload carried by a successful envelope.
    pub closed spec fn spec_data(&self) -> Option<T> {
        self.data
    }

    /// The error text carried by a failed envelope.
    pub closed spec fn spec_error(&self) -> Option<String> {
        self.error
    }

    /// Wrap a payload as a successful response.
    pub fn success(data: T) -> (r: Self)
        ensures
            r.spec_success(),
            r.spec_data() == Some(data),
            r.spec_error() is None,
    {
        CommandResponse { success: true, data: Some(data), error: None }
    }

    /// Wrap an error message as a failed response.
    pub fn error(err: String) -> (r: Self)
        ensures
            !r.spec_success(),
            r.spec_data() is None,
            r.spec_error() == Some(err),
    {
        CommandResponse { success: false, data: None, error: Some(err) }
    }

    /// Collapse the envelope into a plain result: a successful envelope
    /// yields its payload (or a fixed message when the payload is missing),
    /// and a failed one yields its error text (or a fixed message when none
    /// was recorded).
    pub fn into_result(self) -> (r: Result<T, String>)
        ensures
            match r {
                Ok(d) => self.spec_success() && self.spec_data() == Some(d),
                Err(m) => if self.spec_success() {
                    self.spec_data() is None && m@ == "No data in successful response"@
                } else {
                    match self.spec_error() {
                        Some(e) => m == e,
                        None => m@ == "Unknown error"@,
                    }
                },
            },
    {
        if self.success {
            match self.data {
                Some(d) => Ok(d),
                None => Err(String::from_str("No data in successful response")),
            }
        } else {
            match self.error {
                Some(e) => Err(e),
                None => Err(String::from_str("Unknown error")),
            }
        }
    }
}

} // verus!
