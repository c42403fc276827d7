//! The errors that a search request can end in.

use vstd::prelude::*;

verus! {

/// The protocol result codes that this library answers with.
#[derive(Clone, Copy, Debug, PartialEq, Eq, Structural)]
pub enum LdapResultCode {
    /// A distinguished name that does not follow the grammar.
    InvalidDNSyntax,
    /// A filter that cannot be evaluated soundly.
    UnwillingToPerform,
    /// The backend failed on a well-formed request.
    Other,
}

/// A failed request: the result code for the client and a message for a human.
#[derive(Clone, Debug, PartialEq, Eq)]
pub struct LdapError {
    pub code: LdapResultCode,
    pub message: String,
}

/// What a contract says of an [`LdapError`].
pub struct LdapErrorView {
    pub code: LdapResultCode,
    pub message: Seq<char>,
}

impl View for LdapError {
    type V = LdapErrorView;

    open spec fn view(&self) -> LdapErrorView {
        LdapErrorView { code: self.code, message: self.message@ }
    }
}

pub type LdapResult<T> = Result<T, LdapError>;

} // verus!
