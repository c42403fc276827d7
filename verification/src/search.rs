//! A search for users: the filter is converted, the backend lists the users
//! that match, and its failure is reported to the client.

use vstd::prelude::*;
use vstd::string::*;
use crate::error::{LdapError, LdapErrorView, LdapResult, LdapResultCode};
use crate::filter::{convert_user_filter, converted, LdapFilter, UserRequestFilter};
use crate::types::{LdapInfo, UserAndGroups};

verus! {

/// A backend that lists the users that match a filter, with their groups
/// where `get_groups` asks for them. It fails with the cause as text.
pub trait UserListerBackendHandler {
    /// Whether the backend may give this answer to this question. A backend
    /// that says nothing of itself may give any answer.
    open spec fn answers(
        &self,
        filters: Option<UserRequestFilter>,
        get_groups: bool,
        outcome: Result<Vec<UserAndGroups>, String>,
    ) -> bool {
        true
    }

    fn list_users(&self, filters: Option<UserRequestFilter>, get_groups: bool) -> (r: Result<
        Vec<UserAndGroups>,
        String,
    >)
        ensures
            self.answers(filters, get_groups, r),
    ;
}

/// The error that reports a failure of the backend: the code `Other`, and a
/// message with the label of the search and the cause.
pub open spec fn search_error(base: Seq<char>, cause: Seq<char>) -> LdapErrorView {
    LdapErrorView {
        code: LdapResultCode::Other,
        message: "Error while searching user \""@ + base + "\": "@ + cause,
    }
}

/// Whether a search answers an outcome of the backend as it must: with the
/// users as the backend listed them, or with the report of its failure.
pub open spec fn answered(
    base: Seq<char>,
    outcome: Result<Vec<UserAndGroups>, String>,
    r: LdapResult<Vec<UserAndGroups>>,
) -> bool {
    match outcome {
        Ok(users) => r == Ok::<Vec<UserAndGroups>, LdapError>(users),
        Err(cause) => r matches Err(e) && e@ == search_error(base, cause@),
    }
}

/// What a search answers for an outcome of the backend.
pub fn user_list_result(base: &str, outcome: Result<Vec<UserAndGroups>, String>) -> (r: LdapResult<
    Vec<UserAndGroups>,
>)
    ensures
        answered(base@, outcome, r),
{
    match outcome {
        Ok(users) => Ok(users),
        Err(cause) => {
            let mut message = String::from_str("Error while searching user \"");
            message.append(base);
            message.append("\": ");
            message.append(cause.as_str());
            Err(LdapError { code: LdapResultCode::Other, message })
        },
    }
}

/// Lists the users that match the filter of a request. A filter that cannot
/// be converted is refused with the error of the conversion. Otherwise the
/// backend is asked for the users that match the converted filter, and the
/// search answers what the backend does: its users, or the report of its
/// failure with the code `Other`.
pub fn get_user_list<Backend: UserListerBackendHandler>(
    ldap_info: &LdapInfo,
    ldap_filter: &LdapFilter,
    request_groups: bool,
    base: &str,
    backend: &Backend,
) -> (r: LdapResult<Vec<UserAndGroups>>)
    ensures
        converted(ldap_info.deep_view(), ldap_filter.deep_view()) matches Err(refusal) ==> (
        r matches Err(e) && e@ == refusal),
        converted(ldap_info.deep_view(), ldap_filter.deep_view()) matches Ok(expected) ==> (
        exists|filters: UserRequestFilter, outcome: Result<Vec<UserAndGroups>, String>|
            filters.deep_view() == expected && #[trigger] backend.answers(
                Some(filters),
                request_groups,
                outcome,
            ) && answered(base@, outcome, r)),
{
    let filters = match convert_user_filter(ldap_info, ldap_filter) {
        Ok(filters) => filters,
        Err(e) => {
            return Err(e);
        },
    };
    let ghost asked = filters;
    let outcome = backend.list_users(Some(filters), request_groups);
    let ghost given = outcome;
    let r = user_list_result(base, outcome);
    proof {
        assert(backend.answers(Some(asked), request_groups, given) && answered(base@, given, r));
    }
    r
}

} // verus!
