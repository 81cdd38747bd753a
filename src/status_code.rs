//! HTTP status codes that this library can send.
use vstd::prelude::*;

verus! {

/// The reason phrase of a status code this library knows, if any.
pub open spec fn reason_of(code: u16) -> Option<Seq<char>> {
    if code == 101 {
        Some("Switching Protocols"@)
    } else {
        None
    }
}

/// A status code together with its reason phrase.
pub struct StatusCode(u16);

impl StatusCode {
    /// `101 Switching Protocols`.
    pub fn switching_protocols() -> (r: StatusCode)
        ensures
            r.code_spec() == 101,
    {
        StatusCode(101)
    }

    #[verifier::type_invariant]
    spec fn known(&self) -> bool {
        reason_of(self.0) is Some
    }

    pub closed spec fn code_spec(&self) -> u16 {
        self.0
    }

    pub fn code(&self) -> (r: u16)
        ensures
            r == self.code_spec(),
            reason_of(r) is Some,
    {
        proof {
            use_type_invariant(self);
        }
        self.0
    }

    /// The reason phrase that follows the code on a status line.
    pub fn text(&self) -> (r: String)
        ensures
            reason_of(self.code_spec()) == Some(r@),
    {
        proof {
            use_type_invariant(self);
        }
        "Switching Protocols".to_owned()
    }
}

} // verus!
