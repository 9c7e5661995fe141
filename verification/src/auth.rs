//! The authentication mechanisms a session can advertise.

use vstd::prelude::*;

verus! {

/// Supported authentication mechanisms
#[derive(PartialEq, Eq, Structural, Clone, Copy, Debug)]
pub enum AuthMechanism {
    /// Plain user/password over TLS
    Plain,
}

impl AuthMechanism {
    /// Show the AuthMechanism text as an SMTP extension
    pub fn extension(&self) -> (r: &'static str)
        ensures
            r@ == "AUTH PLAIN"@,
    {
        match self {
            AuthMechanism::Plain => "AUTH PLAIN",
        }
    }
}

} // verus!
