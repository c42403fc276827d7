//! Search filters: the tree that a request carries, the tree that the backend
//! evaluates, and how the first becomes the second.

use vstd::prelude::*;
use vstd::string::*;
use crate::dn::{agrees, get_group_id_from_distinguished_name, get_user_id_from_distinguished_name,
    id_from_dn, user_id_from_dn};
use crate::error::{LdapError, LdapErrorView, LdapResult, LdapResultCode};
use crate::text::{ascii_lowercase, join_texts, contains_text, debug_quoted, debug_text, same_text,
    to_ascii_lowercase};
use crate::types::{LdapInfo, LdapInfoView, UserId};

verus! {

/// The parts of a substring match, as a contract sees them.
pub struct SubstringView {
    pub initial: Option<Seq<char>>,
    pub any: Seq<Seq<char>>,
    pub final_: Option<Seq<char>>,
}

/// The parts of a substring match in a request: what the value starts with,
/// what it holds in this order, what it ends with.
#[derive(Clone, Debug, PartialEq, Eq)]
pub struct LdapSubstringFilter {
    pub initial: Option<String>,
    pub any: Vec<String>,
    pub final_: Option<String>,
}

impl DeepView for LdapSubstringFilter {
    type V = SubstringView;

    open spec fn deep_view(&self) -> SubstringView {
        SubstringView {
            initial: self.initial.deep_view(),
            any: self.any.deep_view(),
            final_: self.final_.deep_view(),
        }
    }
}

/// The assertion of an extensible match, as a contract sees it.
pub struct MatchingRuleView {
    pub matching_rule: Option<Seq<char>>,
    pub type_: Option<Seq<char>>,
    pub match_value: Seq<char>,
    pub dn_attributes: bool,
}

/// The assertion of an extensible match in a request.
#[derive(Clone, Debug, PartialEq, Eq)]
pub struct LdapMatchingRuleAssertion {
    pub matching_rule: Option<String>,
    pub type_: Option<String>,
    pub match_value: String,
    pub dn_attributes: bool,
}

impl DeepView for LdapMatchingRuleAssertion {
    type V = MatchingRuleView;

    open spec fn deep_view(&self) -> MatchingRuleView {
        MatchingRuleView {
            matching_rule: self.matching_rule.deep_view(),
            type_: self.type_.deep_view(),
            match_value: self.match_value@,
            dn_attributes: self.dn_attributes,
        }
    }
}

/// The filter of a search request, as a contract sees it.
pub enum FilterView {
    And(Seq<FilterView>),
    Or(Seq<FilterView>),
    Not(Box<FilterView>),
    Equality(Seq<char>, Seq<char>),
    Substring(Seq<char>, SubstringView),
    GreaterOrEqual(Seq<char>, Seq<char>),
    LessOrEqual(Seq<char>, Seq<char>),
    Present(Seq<char>),
    Approx(Seq<char>, Seq<char>),
    Extensible(MatchingRuleView),
}

/// The filter of a search request.
#[derive(Debug, PartialEq, Eq)]
pub enum LdapFilter {
    And(Vec<LdapFilter>),
    Or(Vec<LdapFilter>),
    Not(Box<LdapFilter>),
    Equality(String, String),
    Substring(String, LdapSubstringFilter),
    GreaterOrEqual(String, String),
    LessOrEqual(String, String),
    Present(String),
    Approx(String, String),
    Extensible(LdapMatchingRuleAssertion),
}

/// What a contract sees of a filter.
pub open spec fn filter_view(filter: LdapFilter) -> FilterView
    decreases filter,
{
    match filter {
        LdapFilter::And(filters) => FilterView::And(filter_views(filters@)),
        LdapFilter::Or(filters) => FilterView::Or(filter_views(filters@)),
        LdapFilter::Not(inner) => FilterView::Not(Box::new(filter_view(*inner))),
        LdapFilter::Equality(field, value) => FilterView::Equality(field@, value@),
        LdapFilter::Substring(field, substring) => FilterView::Substring(
            field@,
            substring.deep_view(),
        ),
        LdapFilter::GreaterOrEqual(field, value) => FilterView::GreaterOrEqual(field@, value@),
        LdapFilter::LessOrEqual(field, value) => FilterView::LessOrEqual(field@, value@),
        LdapFilter::Present(field) => FilterView::Present(field@),
        LdapFilter::Approx(field, value) => FilterView::Approx(field@, value@),
        LdapFilter::Extensible(assertion) => FilterView::Extensible(assertion.deep_view()),
    }
}

/// What a contract sees of a list of filters.
pub open spec fn filter_views(filters: Seq<LdapFilter>) -> Seq<FilterView>
    decreases filters,
{
    if filters.len() == 0 {
        Seq::empty()
    } else {
        filter_views(filters.drop_last()).push(filter_view(filters.last()))
    }
}

impl DeepView for LdapFilter {
    type V = FilterView;

    open spec fn deep_view(&self) -> FilterView {
        filter_view(*self)
    }
}

/// The fields that every user record has.
#[derive(Clone, Copy, Debug, PartialEq, Eq, Structural)]
pub enum UserColumn {
    UserId,
    Email,
    DisplayName,
    CreationDate,
    Uuid,
}

/// What a field name of a request refers to.
#[derive(Clone, Copy, Debug, PartialEq, Eq)]
pub enum UserFieldType {
    NoMatch,
    PrimaryField(UserColumn),
    Attribute(&'static str),
}

/// What a field name refers to, as a contract sees it.
pub enum FieldTypeView {
    NoMatch,
    PrimaryField(UserColumn),
    Attribute(Seq<char>),
}

impl DeepView for UserFieldType {
    type V = FieldTypeView;

    open spec fn deep_view(&self) -> FieldTypeView {
        match self {
            UserFieldType::NoMatch => FieldTypeView::NoMatch,
            UserFieldType::PrimaryField(column) => FieldTypeView::PrimaryField(*column),
            UserFieldType::Attribute(name) => FieldTypeView::Attribute(name@),
        }
    }
}

/// The parts of a substring match that the backend evaluates.
#[derive(Clone, Debug, PartialEq, Eq)]
pub struct SubStringFilter {
    pub initial: Option<String>,
    pub any: Vec<String>,
    pub final_: Option<String>,
}

impl DeepView for SubStringFilter {
    type V = SubstringView;

    open spec fn deep_view(&self) -> SubstringView {
        SubstringView {
            initial: self.initial.deep_view(),
            any: self.any.deep_view(),
            final_: self.final_.deep_view(),
        }
    }
}

/// The filter that the backend evaluates, as a contract sees it.
pub enum UserFilterView {
    True,
    False,
    And(Seq<UserFilterView>),
    Or(Seq<UserFilterView>),
    Not(Box<UserFilterView>),
    UserId(Seq<char>),
    UserIdSubString(SubstringView),
    Equality(UserColumn, Seq<char>),
    AttributeEquality(Seq<char>, Seq<char>),
    SubString(UserColumn, SubstringView),
    MemberOf(Seq<char>),
}

/// The filter that the backend evaluates.
#[derive(Debug, PartialEq, Eq)]
pub enum UserRequestFilter {
    /// Matches every user.
    True,
    /// Matches no user.
    False,
    And(Vec<UserRequestFilter>),
    Or(Vec<UserRequestFilter>),
    Not(Box<UserRequestFilter>),
    /// The user with this identifier.
    UserId(UserId),
    /// The users whose identifier matches.
    UserIdSubString(SubStringFilter),
    /// The users with this value in a primary field.
    Equality(UserColumn, String),
    /// The users with this value in a custom attribute.
    AttributeEquality(String, String),
    /// The users whose primary field matches.
    SubString(UserColumn, SubStringFilter),
    /// The members of the group with this name.
    MemberOf(String),
}

/// What a contract sees of a backend filter.
pub open spec fn user_filter_view(filter: UserRequestFilter) -> UserFilterView
    decreases filter,
{
    match filter {
        UserRequestFilter::True => UserFilterView::True,
        UserRequestFilter::False => UserFilterView::False,
        UserRequestFilter::And(filters) => UserFilterView::And(user_filter_views(filters@)),
        UserRequestFilter::Or(filters) => UserFilterView::Or(user_filter_views(filters@)),
        UserRequestFilter::Not(inner) => UserFilterView::Not(Box::new(user_filter_view(*inner))),
        UserRequestFilter::UserId(id) => UserFilterView::UserId(id.deep_view()),
        UserRequestFilter::UserIdSubString(substring) => UserFilterView::UserIdSubString(
            substring.deep_view(),
        ),
        UserRequestFilter::Equality(column, value) => UserFilterView::Equality(column, value@),
        UserRequestFilter::AttributeEquality(name, value) => UserFilterView::AttributeEquality(
            name@,
            value@,
        ),
        UserRequestFilter::SubString(column, substring) => UserFilterView::SubString(
            column,
            substring.deep_view(),
        ),
        UserRequestFilter::MemberOf(group) => UserFilterView::MemberOf(group@),
    }
}

/// What a contract sees of a list of backend filters.
pub open spec fn user_filter_views(filters: Seq<UserRequestFilter>) -> Seq<UserFilterView>
    decreases filters,
{
    if filters.len() == 0 {
        Seq::empty()
    } else {
        user_filter_views(filters.drop_last()).push(user_filter_view(filters.last()))
    }
}

impl DeepView for UserRequestFilter {
    type V = UserFilterView;

    open spec fn deep_view(&self) -> UserFilterView {
        user_filter_view(*self)
    }
}

/// The filter that matches every user, or the one that matches none.
pub open spec fn constant(value: bool) -> UserFilterView {
    if value {
        UserFilterView::True
    } else {
        UserFilterView::False
    }
}

/// What a field name in lower case refers to. Several names stand for one
/// field; a name that is not listed refers to nothing.
pub open spec fn field_type(field: Seq<char>) -> FieldTypeView {
    if field == "uid"@ || field == "user_id"@ || field == "id"@ {
        FieldTypeView::PrimaryField(UserColumn::UserId)
    } else if field == "mail"@ || field == "rfc822mailbox"@ || field == "email"@ {
        FieldTypeView::PrimaryField(UserColumn::Email)
    } else if field == "cn"@ || field == "displayname"@ || field == "display_name"@ {
        FieldTypeView::PrimaryField(UserColumn::DisplayName)
    } else if field == "givenname"@ || field == "first_name"@ || field == "firstname"@ {
        FieldTypeView::Attribute("first_name"@)
    } else if field == "sn"@ || field == "last_name"@ || field == "lastname"@ {
        FieldTypeView::Attribute("last_name"@)
    } else if field == "avatar"@ || field == "jpegphoto"@ {
        FieldTypeView::Attribute("avatar"@)
    } else if field == "creationdate"@ || field == "createtimestamp"@ || field
        == "modifytimestamp"@ || field == "creation_date"@ {
        FieldTypeView::PrimaryField(UserColumn::CreationDate)
    } else if field == "entryuuid"@ || field == "uuid"@ {
        FieldTypeView::PrimaryField(UserColumn::Uuid)
    } else {
        FieldTypeView::NoMatch
    }
}

/// Whether a value in lower case is an object class of a user entry.
pub open spec fn is_user_object_class(value: Seq<char>) -> bool {
    value == "person"@ || value == "inetorgperson"@ || value == "posixaccount"@ || value
        == "mailaccount"@
}

/// Whether every user has the field with this name in lower case.
pub open spec fn is_present_field(field: Seq<char>) -> bool {
    field == "objectclass"@ || field == "dn"@ || field == "distinguishedname"@ || !(field_type(
        field,
    ) is NoMatch)
}

/// The error of a filter that cannot be evaluated soundly.
pub open spec fn unwilling(message: Seq<char>) -> LdapErrorView {
    LdapErrorView { code: LdapResultCode::UnwillingToPerform, message }
}

/// How an optional text is described.
pub open spec fn described_option(value: Option<Seq<char>>) -> Seq<char> {
    match value {
        Some(text) => "Some("@ + debug_quoted(text) + ")"@,
        None => "None"@,
    }
}

/// How a comparison of a field with a value is described.
pub open spec fn described_comparison(kind: Seq<char>, field: Seq<char>, value: Seq<char>) -> Seq<
    char,
> {
    kind + "("@ + debug_quoted(field) + ", "@ + debug_quoted(value) + ")"@
}

/// How the assertion of an extensible match is described.
pub open spec fn described_assertion(assertion: MatchingRuleView) -> Seq<char> {
    "Extensible(LdapMatchingRuleAssertion { matching_rule: "@ + described_option(
        assertion.matching_rule,
    ) + ", type_: "@ + described_option(assertion.type_) + ", match_value: "@ + debug_quoted(
        assertion.match_value,
    ) + ", dn_attributes: "@ + (if assertion.dn_attributes {
        "true"@
    } else {
        "false"@
    }) + " })"@
}

/// How a filter of a kind that is never converted is described; the empty
/// text for the other kinds.
pub open spec fn described_filter(filter: FilterView) -> Seq<char> {
    match filter {
        FilterView::GreaterOrEqual(field, value) => described_comparison(
            "GreaterOrEqual"@,
            field,
            value,
        ),
        FilterView::LessOrEqual(field, value) => described_comparison("LessOrEqual"@, field, value),
        FilterView::Approx(field, value) => described_comparison("Approx"@, field, value),
        FilterView::Extensible(assertion) => described_assertion(assertion),
        _ => Seq::empty(),
    }
}

/// The conversion of an equality on a field name in lower case.
pub open spec fn converted_equality(info: LdapInfoView, field: Seq<char>, value: Seq<char>) -> Result<
    UserFilterView,
    LdapErrorView,
> {
    if field == "memberof"@ {
        match id_from_dn(ascii_lowercase(value), info.base_dn, info.base_dn_str, true) {
            Ok(group) => Ok(UserFilterView::MemberOf(group)),
            Err(e) => Err(e),
        }
    } else if field == "objectclass"@ {
        Ok(constant(is_user_object_class(ascii_lowercase(value))))
    } else if field == "dn"@ {
        match user_id_from_dn(ascii_lowercase(value), info.base_dn, info.base_dn_str) {
            Ok(id) => Ok(UserFilterView::UserId(id)),
            Err(_) => Ok(UserFilterView::False),
        }
    } else {
        match field_type(field) {
            FieldTypeView::PrimaryField(UserColumn::UserId) => Ok(
                UserFilterView::UserId(ascii_lowercase(value)),
            ),
            FieldTypeView::PrimaryField(column) => Ok(UserFilterView::Equality(column, value)),
            FieldTypeView::Attribute(name) => Ok(UserFilterView::AttributeEquality(name, value)),
            FieldTypeView::NoMatch => Ok(UserFilterView::False),
        }
    }
}

/// The conversion of a substring match on a field name in lower case.
pub open spec fn converted_substring(field: Seq<char>, substring: SubstringView) -> Result<
    UserFilterView,
    LdapErrorView,
> {
    match field_type(field) {
        FieldTypeView::PrimaryField(UserColumn::UserId) => Ok(
            UserFilterView::UserIdSubString(substring),
        ),
        FieldTypeView::PrimaryField(UserColumn::Email) => Ok(
            UserFilterView::SubString(UserColumn::Email, substring),
        ),
        FieldTypeView::PrimaryField(UserColumn::DisplayName) => Ok(
            UserFilterView::SubString(UserColumn::DisplayName, substring),
        ),
        _ => Err(
            unwilling(
                "Unsupported user attribute for substring filter: "@ + debug_quoted(field),
            ),
        ),
    }
}

/// The conversion of a request filter into a backend filter.
///
/// `And`, `Or` and `Not` keep their shape, and the first child that fails
/// decides. Field names are taken in lower case. An equality or a presence on
/// an unknown field matches nothing; a substring match on a field that has
/// none, and every other kind of filter, is refused.
pub open spec fn converted(info: LdapInfoView, filter: FilterView) -> Result<
    UserFilterView,
    LdapErrorView,
>
    decreases filter,
{
    match filter {
        FilterView::And(filters) => match converted_all(info, filters) {
            Ok(children) => Ok(UserFilterView::And(children)),
            Err(e) => Err(e),
        },
        FilterView::Or(filters) => match converted_all(info, filters) {
            Ok(children) => Ok(UserFilterView::Or(children)),
            Err(e) => Err(e),
        },
        FilterView::Not(inner) => match converted(info, *inner) {
            Ok(child) => Ok(UserFilterView::Not(Box::new(child))),
            Err(e) => Err(e),
        },
        FilterView::Equality(field, value) => converted_equality(
            info,
            ascii_lowercase(field),
            value,
        ),
        FilterView::Present(field) => Ok(constant(is_present_field(ascii_lowercase(field)))),
        FilterView::Substring(field, substring) => converted_substring(
            ascii_lowercase(field),
            substring,
        ),
        _ => Err(unwilling("Unsupported user filter: "@ + described_filter(filter))),
    }
}

/// The conversions of a list of filters, or the error of the first filter
/// that has none.
pub open spec fn converted_all(info: LdapInfoView, filters: Seq<FilterView>) -> Result<
    Seq<UserFilterView>,
    LdapErrorView,
>
    decreases filters,
{
    if filters.len() == 0 {
        Ok(Seq::empty())
    } else {
        match converted_all(info, filters.drop_last()) {
            Err(e) => Err(e),
            Ok(before) => match converted(info, filters.last()) {
                Err(e) => Err(e),
                Ok(child) => Ok(before.push(child)),
            },
        }
    }
}

impl From<bool> for UserRequestFilter {
    /// The filter that matches every user, or the one that matches none.
    fn from(value: bool) -> (r: UserRequestFilter) {
        if value {
            UserRequestFilter::True
        } else {
            UserRequestFilter::False
        }
    }
}

impl vstd::std_specs::convert::FromSpecImpl<bool> for UserRequestFilter {
    open spec fn obeys_from_spec() -> bool {
        true
    }

    open spec fn from_spec(value: bool) -> UserRequestFilter {
        if value {
            UserRequestFilter::True
        } else {
            UserRequestFilter::False
        }
    }
}

/// Classifies a field name in lower case.
pub fn map_user_field(field: &str) -> (r: UserFieldType)
    ensures
        r.deep_view() == field_type(field@),
{
    if same_text(field, "uid") || same_text(field, "user_id") || same_text(field, "id") {
        UserFieldType::PrimaryField(UserColumn::UserId)
    } else if same_text(field, "mail") || same_text(field, "rfc822mailbox") || same_text(
        field,
        "email",
    ) {
        UserFieldType::PrimaryField(UserColumn::Email)
    } else if same_text(field, "cn") || same_text(field, "displayname") || same_text(
        field,
        "display_name",
    ) {
        UserFieldType::PrimaryField(UserColumn::DisplayName)
    } else if same_text(field, "givenname") || same_text(field, "first_name") || same_text(
        field,
        "firstname",
    ) {
        UserFieldType::Attribute("first_name")
    } else if same_text(field, "sn") || same_text(field, "last_name") || same_text(
        field,
        "lastname",
    ) {
        UserFieldType::Attribute("last_name")
    } else if same_text(field, "avatar") || same_text(field, "jpegphoto") {
        UserFieldType::Attribute("avatar")
    } else if same_text(field, "creationdate") || same_text(field, "createtimestamp")
        || same_text(field, "modifytimestamp") || same_text(field, "creation_date") {
        UserFieldType::PrimaryField(UserColumn::CreationDate)
    } else if same_text(field, "entryuuid") || same_text(field, "uuid") {
        UserFieldType::PrimaryField(UserColumn::Uuid)
    } else {
        UserFieldType::NoMatch
    }
}

/// A copy of an optional text.
fn copy_option(value: &Option<String>) -> (r: Option<String>)
    ensures
        r.deep_view() == value.deep_view(),
{
    match value {
        Some(text) => Some(text.clone()),
        None => None,
    }
}

impl SubStringFilter {
    /// The substring match of a request, for the backend: the same parts.
    pub fn from_ldap(substring: &LdapSubstringFilter) -> (r: SubStringFilter)
        ensures
            r.deep_view() == substring.deep_view(),
    {
        let mut any: Vec<String> = Vec::new();
        let mut i: usize = 0;
        while i < substring.any.len()
            invariant
                i <= substring.any.len(),
                any.deep_view() == substring.any.deep_view().take(i as int),
            decreases substring.any.len() - i,
        {
            let ghost before = any.deep_view();
            any.push(substring.any[i].clone());
            proof {
                assert(any.deep_view() =~= before.push(substring.any@[i as int]@));
                assert(any.deep_view() =~= substring.any.deep_view().take(i as int + 1));
            }
            i = i + 1;
        }
        proof {
            assert(any.deep_view() =~= substring.any.deep_view());
        }
        SubStringFilter {
            initial: copy_option(&substring.initial),
            any,
            final_: copy_option(&substring.final_),
        }
    }
}

/// The error for a filter that cannot be evaluated soundly.
fn make_unwilling(message: String) -> (r: LdapError)
    ensures
        r@ == unwilling(message@),
{
    LdapError { code: LdapResultCode::UnwillingToPerform, message }
}

/// Describes an optional text.
fn describe_option(value: &Option<String>) -> (r: String)
    ensures
        r@ == described_option(value.deep_view()),
{
    match value {
        Some(text) => {
            let mut out = String::from_str("Some(");
            out.append(debug_text(text.as_str()).as_str());
            out.append(")");
            out
        },
        None => String::from_str("None"),
    }
}

/// Describes a comparison of a field with a value.
fn describe_comparison(kind: &str, field: &str, value: &str) -> (r: String)
    ensures
        r@ == described_comparison(kind@, field@, value@),
{
    let mut out = String::from_str(kind);
    out.append("(");
    out.append(debug_text(field).as_str());
    out.append(", ");
    out.append(debug_text(value).as_str());
    out.append(")");
    out
}

/// Describes the assertion of an extensible match.
fn describe_assertion(assertion: &LdapMatchingRuleAssertion) -> (r: String)
    ensures
        r@ == described_assertion(assertion.deep_view()),
{
    let mut out = String::from_str("Extensible(LdapMatchingRuleAssertion { matching_rule: ");
    out.append(describe_option(&assertion.matching_rule).as_str());
    out.append(", type_: ");
    out.append(describe_option(&assertion.type_).as_str());
    out.append(", match_value: ");
    out.append(debug_text(assertion.match_value.as_str()).as_str());
    out.append(", dn_attributes: ");
    if assertion.dn_attributes {
        out.append("true");
    } else {
        out.append("false");
    }
    out.append(" })");
    out
}

/// The views of a list of filters are the views of its filters, in order.
pub proof fn lemma_filter_views(filters: Seq<LdapFilter>)
    ensures
        filter_views(filters).len() == filters.len(),
        forall|i: int|
            0 <= i < filters.len() ==> (#[trigger] filter_views(filters)[i]) == filter_view(
                filters[i],
            ),
    decreases filters.len(),
{
    if filters.len() > 0 {
        lemma_filter_views(filters.drop_last());
    }
}

/// An error among the first filters is the error of the whole list.
pub proof fn lemma_converted_all_error(info: LdapInfoView, filters: Seq<FilterView>, n: int)
    requires
        0 <= n <= filters.len(),
        converted_all(info, filters.take(n)) is Err,
    ensures
        converted_all(info, filters) == converted_all(info, filters.take(n)),
    decreases filters.len() - n,
{
    if n == filters.len() {
        assert(filters.take(n) =~= filters);
    } else {
        assert(filters.take(n + 1).drop_last() =~= filters.take(n));
        lemma_converted_all_error(info, filters, n + 1);
    }
}

/// Converts an equality on a field name in lower case.
fn convert_equality(ldap_info: &LdapInfo, field: &str, value: &String) -> (r: LdapResult<
    UserRequestFilter,
>)
    ensures
        agrees(r, converted_equality(ldap_info.deep_view(), field@, value@)),
{
    if same_text(field, "memberof") {
        let lower = to_ascii_lowercase(value.as_str());
        match get_group_id_from_distinguished_name(
            lower.as_str(),
            ldap_info.base_dn.as_slice(),
            ldap_info.base_dn_str.as_str(),
        ) {
            Ok(group) => Ok(UserRequestFilter::MemberOf(group)),
            Err(e) => Err(e),
        }
    } else if same_text(field, "objectclass") {
        let lower = to_ascii_lowercase(value.as_str());
        let class = lower.as_str();
        Ok(
            UserRequestFilter::from(
                same_text(class, "person") || same_text(class, "inetorgperson") || same_text(
                    class,
                    "posixaccount",
                ) || same_text(class, "mailaccount"),
            ),
        )
    } else if same_text(field, "dn") {
        let lower = to_ascii_lowercase(value.as_str());
        match get_user_id_from_distinguished_name(
            lower.as_str(),
            ldap_info.base_dn.as_slice(),
            ldap_info.base_dn_str.as_str(),
        ) {
            Ok(id) => Ok(UserRequestFilter::UserId(id)),
            Err(_) => Ok(UserRequestFilter::from(false)),
        }
    } else {
        match map_user_field(field) {
            UserFieldType::PrimaryField(UserColumn::UserId) => Ok(
                UserRequestFilter::UserId(UserId::new(value.as_str())),
            ),
            UserFieldType::PrimaryField(column) => Ok(
                UserRequestFilter::Equality(column, value.clone()),
            ),
            UserFieldType::Attribute(name) => Ok(
                UserRequestFilter::AttributeEquality(String::from_str(name), value.clone()),
            ),
            UserFieldType::NoMatch => Ok(UserRequestFilter::from(false)),
        }
    }
}

/// Converts a substring match on a field name in lower case.
fn convert_substring(field: &str, substring: &LdapSubstringFilter) -> (r: LdapResult<
    UserRequestFilter,
>)
    ensures
        agrees(r, converted_substring(field@, substring.deep_view())),
{
    match map_user_field(field) {
        UserFieldType::PrimaryField(UserColumn::UserId) => Ok(
            UserRequestFilter::UserIdSubString(SubStringFilter::from_ldap(substring)),
        ),
        UserFieldType::PrimaryField(UserColumn::Email) => Ok(
            UserRequestFilter::SubString(UserColumn::Email, SubStringFilter::from_ldap(substring)),
        ),
        UserFieldType::PrimaryField(UserColumn::DisplayName) => Ok(
            UserRequestFilter::SubString(
                UserColumn::DisplayName,
                SubStringFilter::from_ldap(substring),
            ),
        ),
        _ => Err(
            make_unwilling(
                join_texts(
                    "Unsupported user attribute for substring filter: ",
                    debug_text(field).as_str(),
                ),
            ),
        ),
    }
}

/// Whether a list of results and what a contract expects of it agree.
pub open spec fn all_agree(
    r: LdapResult<Vec<UserRequestFilter>>,
    expected: Result<Seq<UserFilterView>, LdapErrorView>,
) -> bool {
    match expected {
        Ok(v) => r matches Ok(x) && user_filter_views(x@) == v,
        Err(e) => r matches Err(x) && x@ == e,
    }
}

/// The warnings that the conversion of a filter calls for, in the order in
/// which the filter is read: those of the equalities that it reaches. Behind
/// the first child that fails nothing is read.
pub open spec fn filter_warnings(info: LdapInfoView, filter: FilterView) -> Seq<Seq<char>>
    decreases filter,
{
    match filter {
        FilterView::And(filters) => filter_warnings_all(info, filters),
        FilterView::Or(filters) => filter_warnings_all(info, filters),
        FilterView::Not(inner) => filter_warnings(info, *inner),
        FilterView::Equality(field, value) => match equality_warning(info, field, value) {
            Some(warning) => seq![warning],
            None => Seq::empty(),
        },
        _ => Seq::empty(),
    }
}

/// The warnings that the conversion of a list of filters calls for.
pub open spec fn filter_warnings_all(info: LdapInfoView, filters: Seq<FilterView>) -> Seq<
    Seq<char>,
>
    decreases filters,
{
    if filters.len() == 0 {
        Seq::empty()
    } else if converted_all(info, filters.drop_last()) is Err {
        filter_warnings_all(info, filters.drop_last())
    } else {
        filter_warnings_all(info, filters.drop_last()) + filter_warnings(info, filters.last())
    }
}

/// Behind an error among the first filters, no warning is added.
pub proof fn lemma_filter_warnings_stop(info: LdapInfoView, filters: Seq<FilterView>, n: int)
    requires
        0 <= n <= filters.len(),
        converted_all(info, filters.take(n)) is Err,
    ensures
        filter_warnings_all(info, filters) == filter_warnings_all(info, filters.take(n)),
    decreases filters.len() - n,
{
    if n == filters.len() {
        assert(filters.take(n) =~= filters);
    } else {
        assert(filters.take(n + 1).drop_last() =~= filters.take(n));
        lemma_converted_all_error(info, filters.take(n + 1), n);
        assert(filters.take(n + 1).take(n) =~= filters.take(n));
        lemma_filter_warnings_stop(info, filters, n + 1);
    }
}

/// Converts the children of an `And` or an `Or`, in order, and stops at the
/// first that fails.
fn convert_filters(
    ldap_info: &LdapInfo,
    filters: &Vec<LdapFilter>,
    warnings: &mut Vec<String>,
) -> (r: LdapResult<Vec<UserRequestFilter>>)
    ensures
        all_agree(r, converted_all(ldap_info.deep_view(), filter_views(filters@))),
        final(warnings).deep_view() == old(warnings).deep_view() + filter_warnings_all(
            ldap_info.deep_view(),
            filter_views(filters@),
        ),
    decreases filters,
{
    let ghost info = ldap_info.deep_view();
    let ghost views = filter_views(filters@);
    let ghost initial = warnings.deep_view();
    let mut children: Vec<UserRequestFilter> = Vec::new();
    let mut i: usize = 0;
    proof {
        lemma_filter_views(filters@);
        assert(views.take(0) =~= Seq::<FilterView>::empty());
        assert(initial + Seq::<Seq<char>>::empty() =~= initial);
    }
    while i < filters.len()
        invariant
            i <= filters.len(),
            info == ldap_info.deep_view(),
            views == filter_views(filters@),
            views.len() == filters.len(),
            forall|j: int| 0 <= j < filters.len() ==> (#[trigger] views[j]) == filter_view(filters@[j]),
            converted_all(info, views.take(i as int)) == Ok::<Seq<UserFilterView>, LdapErrorView>(
                user_filter_views(children@),
            ),
            initial == old(warnings).deep_view(),
            warnings.deep_view() == initial + filter_warnings_all(info, views.take(i as int)),
        decreases filters.len() - i,
    {
        let ghost before_child = warnings.deep_view();
        proof {
            assert(views.take(i as int + 1).drop_last() =~= views.take(i as int));
            assert(views.take(i as int + 1).last() == filter_view(filters@[i as int]));
        }
        let outcome = convert_user_filter_with_warnings(ldap_info, &filters[i], warnings);
        proof {
            assert(warnings.deep_view() =~= initial + filter_warnings_all(
                info,
                views.take(i as int + 1),
            ));
        }
        match outcome {
            Err(e) => {
                proof {
                    lemma_converted_all_error(info, views, i as int + 1);
                    lemma_filter_warnings_stop(info, views, i as int + 1);
                }
                return Err(e);
            },
            Ok(child) => {
                let ghost before = children@;
                children.push(child);
                proof {
                    assert(children@.drop_last() =~= before);
                }
            },
        }
        i = i + 1;
    }
    proof {
        assert(views.take(views.len() as int) =~= views);
    }
    Ok(children)
}

/// Converts the filter of a search request as [`convert_user_filter`] does,
/// and adds to `warnings` the warnings that are due on the way.
pub fn convert_user_filter_with_warnings(
    ldap_info: &LdapInfo,
    filter: &LdapFilter,
    warnings: &mut Vec<String>,
) -> (r: LdapResult<UserRequestFilter>)
    ensures
        agrees(r, converted(ldap_info.deep_view(), filter.deep_view())),
        final(warnings).deep_view() == old(warnings).deep_view() + filter_warnings(
            ldap_info.deep_view(),
            filter.deep_view(),
        ),
    decreases filter,
{
    let ghost initial = warnings.deep_view();
    proof {
        assert(initial + Seq::<Seq<char>>::empty() =~= initial);
    }
    match filter {
        LdapFilter::And(filters) => match convert_filters(ldap_info, filters, warnings) {
            Ok(children) => Ok(UserRequestFilter::And(children)),
            Err(e) => Err(e),
        },
        LdapFilter::Or(filters) => match convert_filters(ldap_info, filters, warnings) {
            Ok(children) => Ok(UserRequestFilter::Or(children)),
            Err(e) => Err(e),
        },
        LdapFilter::Not(inner) => match convert_user_filter_with_warnings(
            ldap_info,
            inner,
            warnings,
        ) {
            Ok(child) => Ok(UserRequestFilter::Not(Box::new(child))),
            Err(e) => Err(e),
        },
        LdapFilter::Equality(field, value) => {
            match equality_filter_warning(ldap_info, field.as_str(), value.as_str()) {
                Some(warning) => {
                    let ghost added = warning@;
                    warnings.push(warning);
                    proof {
                        assert(warnings.deep_view() =~= initial + seq![added]);
                    }
                },
                None => {},
            }
            let field = to_ascii_lowercase(field.as_str());
            convert_equality(ldap_info, field.as_str(), value)
        },
        LdapFilter::Present(field) => {
            let field = to_ascii_lowercase(field.as_str());
            let name = field.as_str();
            let known = match map_user_field(name) {
                UserFieldType::NoMatch => false,
                _ => true,
            };
            Ok(
                UserRequestFilter::from(
                    same_text(name, "objectclass") || same_text(name, "dn") || same_text(
                        name,
                        "distinguishedname",
                    ) || known,
                ),
            )
        },
        LdapFilter::Substring(field, substring) => {
            let field = to_ascii_lowercase(field.as_str());
            convert_substring(field.as_str(), substring)
        },
        LdapFilter::GreaterOrEqual(field, value) => Err(
            make_unwilling(
                join_texts(
                    "Unsupported user filter: ",
                    describe_comparison("GreaterOrEqual", field.as_str(), value.as_str()).as_str(),
                ),
            ),
        ),
        LdapFilter::LessOrEqual(field, value) => Err(
            make_unwilling(
                join_texts(
                    "Unsupported user filter: ",
                    describe_comparison("LessOrEqual", field.as_str(), value.as_str()).as_str(),
                ),
            ),
        ),
        LdapFilter::Approx(field, value) => Err(
            make_unwilling(
                join_texts(
                    "Unsupported user filter: ",
                    describe_comparison("Approx", field.as_str(), value.as_str()).as_str(),
                ),
            ),
        ),
        LdapFilter::Extensible(assertion) => Err(
            make_unwilling(
                join_texts("Unsupported user filter: ", describe_assertion(assertion).as_str()),
            ),
        ),
    }
}

/// Converts the filter of a search request into the filter that the backend
/// evaluates, or refuses it: with `UnwillingToPerform` where the filter has no
/// sound conversion, with `InvalidDNSyntax` where `memberOf` is compared with
/// a text that names no group.
pub fn convert_user_filter(ldap_info: &LdapInfo, filter: &LdapFilter) -> (r: LdapResult<
    UserRequestFilter,
>)
    ensures
        agrees(r, converted(ldap_info.deep_view(), filter.deep_view())),
{
    let mut warnings: Vec<String> = Vec::new();
    convert_user_filter_with_warnings(ldap_info, filter, &mut warnings)
}

/// Field names are matched whatever the case of their letters: two names
/// that agree in lower case give the same conversion.
pub proof fn lemma_field_names_ignore_case(
    info: LdapInfoView,
    first: Seq<char>,
    second: Seq<char>,
    value: Seq<char>,
    substring: SubstringView,
)
    requires
        ascii_lowercase(first) == ascii_lowercase(second),
    ensures
        converted(info, FilterView::Equality(first, value)) == converted(
            info,
            FilterView::Equality(second, value),
        ),
        converted(info, FilterView::Present(first)) == converted(
            info,
            FilterView::Present(second),
        ),
        converted(info, FilterView::Substring(first, substring)) == converted(
            info,
            FilterView::Substring(second, substring),
        ),
{
}

/// An equality on the object class never fails: it matches every user where
/// the value is an object class of a user entry, and no user otherwise.
pub proof fn lemma_object_class_never_fails(info: LdapInfoView, field: Seq<char>, value: Seq<char>)
    requires
        ascii_lowercase(field) == "objectclass"@,
    ensures
        converted(info, FilterView::Equality(field, value)) == Ok::<UserFilterView, LdapErrorView>(
            constant(is_user_object_class(ascii_lowercase(value))),
        ),
{
    reveal_strlit("objectclass");
    reveal_strlit("memberof");
    assert("objectclass"@.len() == 11);
    assert("memberof"@.len() == 8);
}

/// An equality on the distinguished name never fails: it names a user, or
/// it matches nothing.
pub proof fn lemma_dn_equality_never_fails(info: LdapInfoView, field: Seq<char>, value: Seq<char>)
    requires
        ascii_lowercase(field) == "dn"@,
    ensures
        converted(info, FilterView::Equality(field, value)) == (match user_id_from_dn(
            ascii_lowercase(value),
            info.base_dn,
            info.base_dn_str,
        ) {
            Ok(id) => Ok::<UserFilterView, LdapErrorView>(UserFilterView::UserId(id)),
            Err(_) => Ok(UserFilterView::False),
        }),
{
    reveal_strlit("dn");
    reveal_strlit("objectclass");
    reveal_strlit("memberof");
    assert("dn"@.len() == 2);
    assert("objectclass"@.len() == 11);
    assert("memberof"@.len() == 8);
}

/// A presence test never fails.
pub proof fn lemma_presence_never_fails(info: LdapInfoView, field: Seq<char>)
    ensures
        converted(info, FilterView::Present(field)) is Ok,
{
}

/// A substring match on the user identifier always succeeds, under each of
/// its names and whatever the case of the letters.
pub proof fn lemma_substring_on_user_id_succeeds(
    info: LdapInfoView,
    field: Seq<char>,
    substring: SubstringView,
)
    requires
        ascii_lowercase(field) == "uid"@ || ascii_lowercase(field) == "user_id"@ || ascii_lowercase(
            field,
        ) == "id"@,
    ensures
        converted(info, FilterView::Substring(field, substring)) == Ok::<
            UserFilterView,
            LdapErrorView,
        >(UserFilterView::UserIdSubString(substring)),
{
}

/// A substring match is refused with `UnwillingToPerform` on every field but
/// the user identifier, the email and the display name: on the identifier
/// `uuid`, on the creation date, on every custom attribute and on every
/// unknown name.
pub proof fn lemma_substring_refused(info: LdapInfoView, field: Seq<char>, substring: SubstringView)
    requires
        field_type(ascii_lowercase(field)) != FieldTypeView::PrimaryField(UserColumn::UserId),
        field_type(ascii_lowercase(field)) != FieldTypeView::PrimaryField(UserColumn::Email),
        field_type(ascii_lowercase(field)) != FieldTypeView::PrimaryField(UserColumn::DisplayName),
    ensures
        converted(info, FilterView::Substring(field, substring)) matches Err(e) && e.code
            == LdapResultCode::UnwillingToPerform,
{
}

/// The name `uuid` is the unique identifier, on which no substring match is
/// defined, and so is `entryuuid`.
pub proof fn lemma_substring_on_uuid_refused(
    info: LdapInfoView,
    field: Seq<char>,
    substring: SubstringView,
)
    requires
        ascii_lowercase(field) == "uuid"@ || ascii_lowercase(field) == "entryuuid"@,
    ensures
        field_type(ascii_lowercase(field)) == FieldTypeView::PrimaryField(UserColumn::Uuid),
        converted(info, FilterView::Substring(field, substring)) matches Err(e) && e.code
            == LdapResultCode::UnwillingToPerform,
{
    reveal_strlit("uid");
    reveal_strlit("user_id");
    reveal_strlit("id");
    reveal_strlit("mail");
    reveal_strlit("rfc822mailbox");
    reveal_strlit("email");
    reveal_strlit("cn");
    reveal_strlit("displayname");
    reveal_strlit("display_name");
    reveal_strlit("givenname");
    reveal_strlit("first_name");
    reveal_strlit("firstname");
    reveal_strlit("sn");
    reveal_strlit("last_name");
    reveal_strlit("lastname");
    reveal_strlit("avatar");
    reveal_strlit("jpegphoto");
    reveal_strlit("creationdate");
    reveal_strlit("createtimestamp");
    reveal_strlit("modifytimestamp");
    reveal_strlit("creation_date");
    reveal_strlit("entryuuid");
    reveal_strlit("uuid");
    let name = ascii_lowercase(field);
    assert(name.len() == 4 || name.len() == 9);
    assert(name[0] == 'u' || name[0] == 'e');
    assert(name[1] == 'u' || name[1] == 'n');
}

/// A custom attribute has no substring match: the names of the first name,
/// the last name and the avatar are refused.
pub proof fn lemma_substring_on_attribute_refused(
    info: LdapInfoView,
    field: Seq<char>,
    substring: SubstringView,
)
    requires
        field_type(ascii_lowercase(field)) is Attribute,
    ensures
        converted(info, FilterView::Substring(field, substring)) matches Err(e) && e.code
            == LdapResultCode::UnwillingToPerform,
{
}

/// The warning that is due for an equality, if any: the field in lower case
/// is `dn` and the value names no user, or the field is unknown and the
/// deployment does not ignore it.
pub open spec fn equality_warning(info: LdapInfoView, field: Seq<char>, value: Seq<char>) -> Option<
    Seq<char>,
> {
    let name = ascii_lowercase(field);
    if name == "memberof"@ || name == "objectclass"@ {
        None
    } else if name == "dn"@ {
        if user_id_from_dn(ascii_lowercase(value), info.base_dn, info.base_dn_str) is Err {
            Some("Invalid dn filter on user: "@ + value)
        } else {
            None
        }
    } else if field_type(name) is NoMatch && !info.ignored_user_attributes.contains(name) {
        Some(
            "Ignoring unknown user attribute \""@ + name
                + "\" in filter. To disable this warning, add it to \"ignored_user_attributes\" in the config"@,
        )
    } else {
        None
    }
}

/// The warning that the conversion of an equality calls for, where it
/// answers an anomaly by a filter that matches nothing.
pub fn equality_filter_warning(ldap_info: &LdapInfo, field: &str, value: &str) -> (r: Option<String>)
    ensures
        r.deep_view() == equality_warning(ldap_info.deep_view(), field@, value@),
{
    let lower = to_ascii_lowercase(field);
    let name = lower.as_str();
    if same_text(name, "memberof") || same_text(name, "objectclass") {
        None
    } else if same_text(name, "dn") {
        let dn = to_ascii_lowercase(value);
        match get_user_id_from_distinguished_name(
            dn.as_str(),
            ldap_info.base_dn.as_slice(),
            ldap_info.base_dn_str.as_str(),
        ) {
            Ok(_) => None,
            Err(_) => Some(join_texts("Invalid dn filter on user: ", value)),
        }
    } else {
        let known = match map_user_field(name) {
            UserFieldType::NoMatch => false,
            _ => true,
        };
        if !known && !contains_text(ldap_info.ignored_user_attributes.as_slice(), name) {
            let mut message = String::from_str("Ignoring unknown user attribute \"");
            message.append(name);
            message.append(
                "\" in filter. To disable this warning, add it to \"ignored_user_attributes\" in the config",
            );
            Some(message)
        } else {
            None
        }
    }
}

} // verus!
