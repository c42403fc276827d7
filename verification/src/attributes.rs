//! Search results: which attributes a request asks for, and what a user
//! record shows for each of them.

use vstd::prelude::*;
use vstd::string::*;
use vstd::utf8::encode_utf8;
use crate::text::{ascii_lowercase, contains_text, same_text, to_ascii_lowercase};
use crate::time::rfc3339_utc_text;
use crate::types::{AttributeValue, AttributeValueView, GroupDetails, GroupDetailsView, LdapInfo,
    Schema, SchemaView, User, UserAndGroups, UserView};

verus! {

/// The attributes that `*` stands for, in the order in which an entry lists
/// them.
pub open spec fn all_user_attributes() -> Seq<Seq<char>> {
    seq![
        "objectclass"@,
        "uid"@,
        "mail"@,
        "givenname"@,
        "sn"@,
        "cn"@,
        "jpegPhoto"@,
        "createtimestamp"@,
        "entryuuid"@,
    ]
}

/// Whether a requested name is anything but the wildcard `*`.
pub open spec fn is_not_wildcard() -> spec_fn(Seq<char>) -> bool {
    |name: Seq<char>| name != "*"@
}

/// The attributes that a request asks for, once `*` is replaced: a list
/// without `*` is kept as it is; from a list with `*` every `*` is taken out,
/// and all the attributes that `*` stands for are added at the end.
pub open spec fn expanded(requested: Seq<Seq<char>>, all: Seq<Seq<char>>) -> Seq<Seq<char>> {
    if requested.contains("*"@) {
        requested.filter(is_not_wildcard()) + all
    } else {
        requested
    }
}

/// The bytes of a text.
pub fn text_bytes(s: &str) -> (r: Vec<u8>)
    ensures
        r.deep_view() == encode_utf8(s@),
        r@ == encode_utf8(s@),
{
    let bytes = s.as_bytes_vec();
    proof {
        assert(bytes.deep_view() =~= bytes@);
    }
    bytes
}

/// Replaces the wildcard `*` in a list of requested attributes by all the
/// attributes that it stands for.
pub fn expand_attribute_wildcards<'a>(
    ldap_attributes: &'a [String],
    all_attribute_keys: &[&'static str],
) -> (r: Vec<&'a str>)
    ensures
        r.deep_view() == expanded(ldap_attributes.deep_view(), all_attribute_keys.deep_view()),
{
    let ghost requested = ldap_attributes.deep_view();
    let ghost all = all_attribute_keys.deep_view();
    let mut has_wildcard = false;
    let mut i: usize = 0;
    while i < ldap_attributes.len()
        invariant
            i <= ldap_attributes.len(),
            requested == ldap_attributes.deep_view(),
            has_wildcard <==> exists|j: int| 0 <= j < i && requested[j] == "*"@,
        decreases ldap_attributes.len() - i,
    {
        if same_text(ldap_attributes[i].as_str(), "*") {
            assert(requested[i as int] == "*"@);
            has_wildcard = true;
        }
        i = i + 1;
    }
    let mut out: Vec<&'a str> = Vec::new();
    let mut i: usize = 0;
    proof {
        reveal(Seq::filter);
        assert(requested.take(0) =~= Seq::<Seq<char>>::empty());
        assert(out.deep_view() =~= Seq::<Seq<char>>::empty());
    }
    while i < ldap_attributes.len()
        invariant
            i <= ldap_attributes.len(),
            requested == ldap_attributes.deep_view(),
            has_wildcard ==> out.deep_view() == requested.take(i as int).filter(is_not_wildcard()),
            !has_wildcard ==> out.deep_view() == requested.take(i as int),
        decreases ldap_attributes.len() - i,
    {
        let name = ldap_attributes[i].as_str();
        let ghost before = out.deep_view();
        proof {
            reveal(Seq::filter);
            assert(requested.take(i as int + 1).drop_last() =~= requested.take(i as int));
            assert(requested.take(i as int + 1).last() == name@);
        }
        if !has_wildcard || !same_text(name, "*") {
            out.push(name);
            proof {
                assert(out.deep_view() =~= before.push(name@));
                assert(requested.take(i as int + 1) =~= requested.take(i as int).push(name@));
            }
        }
        i = i + 1;
    }
    proof {
        assert(requested.take(requested.len() as int) =~= requested);
    }
    if has_wildcard {
        let ghost kept = out.deep_view();
        let mut k: usize = 0;
        while k < all_attribute_keys.len()
            invariant
                k <= all_attribute_keys.len(),
                all == all_attribute_keys.deep_view(),
                out.deep_view() == kept + all.take(k as int),
            decreases all_attribute_keys.len() - k,
        {
            let ghost before = out.deep_view();
            out.push(all_attribute_keys[k]);
            proof {
                assert(out.deep_view() =~= before.push(all_attribute_keys@[k as int]@));
                assert(out.deep_view() =~= kept + all.take(k as int + 1));
            }
            k = k + 1;
        }
        proof {
            assert(all.take(all.len() as int) =~= all);
            assert(requested.contains("*"@));
        }
    }
    out
}

/// The attributes that `*` stands for in a search for users.
pub fn all_user_attribute_keys() -> (r: Vec<&'static str>)
    ensures
        r.deep_view() == all_user_attributes(),
{
    let keys = vec![
        "objectclass",
        "uid",
        "mail",
        "givenname",
        "sn",
        "cn",
        "jpegPhoto",
        "createtimestamp",
        "entryuuid",
    ];
    proof {
        assert(keys.deep_view() =~= all_user_attributes());
    }
    keys
}

/// Replaces the wildcard `*` in the attributes that a search for users asks
/// for.
pub fn expand_user_attribute_wildcards(attributes: &[String]) -> (r: Vec<&str>)
    ensures
        r.deep_view() == expanded(attributes.deep_view(), all_user_attributes()),
{
    let keys = all_user_attribute_keys();
    expand_attribute_wildcards(attributes, keys.as_slice())
}

/// The position of the first value with a name, or the number of values where
/// there is none.
pub open spec fn first_value(attributes: Seq<AttributeValueView>, name: Seq<char>) -> int
    decreases attributes.len(),
{
    if attributes.len() == 0 {
        0
    } else if attributes[0].name == name {
        0
    } else {
        1 + first_value(attributes.drop_first(), name)
    }
}

/// The values that a record holds for a custom attribute: none where the
/// schema does not declare the attribute, or where the record does not set it.
pub open spec fn custom_attribute(
    attributes: Seq<AttributeValueView>,
    name: Seq<char>,
    schema: SchemaView,
) -> Option<Seq<Seq<u8>>> {
    let i = first_value(attributes, name);
    if schema.attribute_type(name) is Some && i < attributes.len() {
        Some(attributes[i].values)
    } else {
        None
    }
}

/// The distinguished name of a user.
pub open spec fn user_dn(user_id: Seq<char>, base_dn_str: Seq<char>) -> Seq<char> {
    "uid="@ + user_id + ",ou=people,"@ + base_dn_str
}

/// The distinguished name of a group.
pub open spec fn group_dn(display_name: Seq<char>, base_dn_str: Seq<char>) -> Seq<char> {
    "cn="@ + display_name + ",ou=groups,"@ + base_dn_str
}

/// The distinguished names of the groups of a user, in the order in which the
/// backend gave the groups; none where it gave no list.
pub open spec fn group_values(groups: Option<Seq<GroupDetailsView>>, base_dn_str: Seq<char>) -> Seq<
    Seq<u8>,
> {
    match groups {
        Some(list) => Seq::new(
            list.len(),
            |i: int| encode_utf8(group_dn(list[i].display_name, base_dn_str)),
        ),
        None => Seq::empty(),
    }
}

/// The object classes of a user entry.
pub open spec fn user_object_classes() -> Seq<Seq<u8>> {
    seq![
        encode_utf8("inetOrgPerson"@),
        encode_utf8("posixAccount"@),
        encode_utf8("mailAccount"@),
        encode_utf8("person"@),
    ]
}

/// The values that a user shows for an attribute name in lower case, before
/// vacuous values are dropped. Several names stand for one attribute; the
/// distinguished name, the tokens `1.1` and `+` and every unknown name have no
/// value.
pub open spec fn resolved_values(
    user: UserView,
    name: Seq<char>,
    base_dn_str: Seq<char>,
    groups: Option<Seq<GroupDetailsView>>,
    schema: SchemaView,
) -> Option<Seq<Seq<u8>>> {
    if name == "objectclass"@ {
        Some(user_object_classes())
    } else if name == "dn"@ || name == "distinguishedname"@ {
        None
    } else if name == "uid"@ || name == "user_id"@ || name == "id"@ {
        Some(seq![encode_utf8(user.user_id)])
    } else if name == "entryuuid"@ || name == "uuid"@ {
        Some(seq![encode_utf8(user.uuid)])
    } else if name == "mail"@ || name == "email"@ {
        Some(seq![encode_utf8(user.email)])
    } else if name == "givenname"@ || name == "first_name"@ || name == "firstname"@ {
        custom_attribute(user.attributes, "first_name"@, schema)
    } else if name == "sn"@ || name == "last_name"@ || name == "lastname"@ {
        custom_attribute(user.attributes, "last_name"@, schema)
    } else if name == "jpegphoto"@ || name == "avatar"@ {
        custom_attribute(user.attributes, "avatar"@, schema)
    } else if name == "memberof"@ {
        Some(group_values(groups, base_dn_str))
    } else if name == "cn"@ || name == "displayname"@ {
        match user.display_name {
            Some(display_name) => Some(seq![encode_utf8(display_name)]),
            None => None,
        }
    } else if name == "creationdate"@ || name == "creation_date"@ || name == "createtimestamp"@
        || name == "modifytimestamp"@ {
        Some(seq![encode_utf8(rfc3339_utc_text(user.creation_date))])
    } else {
        None
    }
}

/// Whether a list of values says nothing: it is empty, or it is one empty
/// value.
pub open spec fn is_vacuous(values: Seq<Seq<u8>>) -> bool {
    values.len() == 0 || (values.len() == 1 && values[0].len() == 0)
}

/// The values that a user shows for a requested attribute, whatever the case
/// of its letters: the resolved values, unless they say nothing.
pub open spec fn user_attribute(
    user: UserView,
    attribute: Seq<char>,
    base_dn_str: Seq<char>,
    groups: Option<Seq<GroupDetailsView>>,
    schema: SchemaView,
) -> Option<Seq<Seq<u8>>> {
    match resolved_values(user, ascii_lowercase(attribute), base_dn_str, groups, schema) {
        Some(values) => if is_vacuous(values) {
            None
        } else {
            Some(values)
        },
        None => None,
    }
}

/// A first value is within the list, holds the name, and nothing before it
/// does; past the list, no value holds the name.
pub proof fn lemma_first_value(attributes: Seq<AttributeValueView>, name: Seq<char>)
    ensures
        0 <= first_value(attributes, name) <= attributes.len(),
        first_value(attributes, name) < attributes.len() ==> attributes[first_value(
            attributes,
            name,
        )].name == name,
        forall|j: int|
            0 <= j < first_value(attributes, name) ==> (#[trigger] attributes[j]).name != name,
    decreases attributes.len(),
{
    if attributes.len() > 0 && attributes[0].name != name {
        let rest = attributes.drop_first();
        lemma_first_value(rest, name);
        let k = first_value(rest, name);
        assert forall|j: int| 0 <= j < 1 + k implies (#[trigger] attributes[j]).name != name by {
            if j > 0 {
                assert(rest[j - 1].name != name);
            }
        }
    }
}

/// A copy of a list of values.
fn copy_values(values: &Vec<Vec<u8>>) -> (r: Vec<Vec<u8>>)
    ensures
        r.deep_view() == values.deep_view(),
{
    let mut out: Vec<Vec<u8>> = Vec::new();
    let mut i: usize = 0;
    while i < values.len()
        invariant
            i <= values.len(),
            out.deep_view() == values.deep_view().take(i as int),
        decreases values.len() - i,
    {
        let ghost before = out.deep_view();
        let value = values[i].clone();
        proof {
            assert(value.deep_view() =~= values@[i as int].deep_view());
        }
        out.push(value);
        proof {
            assert(out.deep_view() =~= before.push(values@[i as int].deep_view()));
            assert(out.deep_view() =~= values.deep_view().take(i as int + 1));
        }
        i = i + 1;
    }
    proof {
        assert(out.deep_view() =~= values.deep_view());
    }
    out
}

/// Looks up the values of a custom attribute of a record. An attribute that
/// the schema does not declare has none, whatever the record holds.
pub fn get_custom_attribute(attributes: &[AttributeValue], attribute_name: &str, schema: &Schema) -> (r:
    Option<Vec<Vec<u8>>>)
    ensures
        r.deep_view() == custom_attribute(
            attributes.deep_view(),
            attribute_name@,
            schema.deep_view(),
        ),
{
    if schema.get_attribute_type(attribute_name).is_none() {
        return None;
    }
    let ghost held = attributes.deep_view();
    let mut i: usize = 0;
    while i < attributes.len()
        invariant
            i <= attributes.len(),
            held == attributes.deep_view(),
            schema.deep_view().attribute_type(attribute_name@) is Some,
            forall|j: int| 0 <= j < i ==> (#[trigger] held[j]).name != attribute_name@,
        decreases attributes.len() - i,
    {
        if same_text(attributes[i].name.as_str(), attribute_name) {
            proof {
                lemma_first_value(held, attribute_name@);
                let first = first_value(held, attribute_name@);
                assert(held[i as int].name == attribute_name@);
                assert(first <= i);
                assert(held[first].name == attribute_name@);
                assert(first == i);
                assert(held[i as int].values == attributes@[i as int].values.deep_view());
            }
            return Some(copy_values(&attributes[i].values));
        }
        i = i + 1;
    }
    proof {
        lemma_first_value(held, attribute_name@);
    }
    None
}

/// The distinguished names of the groups of a user, as values.
fn get_group_values(groups: Option<&[GroupDetails]>, base_dn_str: &str) -> (r: Vec<Vec<u8>>)
    ensures
        r.deep_view() == group_values(groups.deep_view(), base_dn_str@),
{
    let mut out: Vec<Vec<u8>> = Vec::new();
    match groups {
        Some(list) => {
            let ghost expected = group_values(groups.deep_view(), base_dn_str@);
            let mut i: usize = 0;
            proof {
                assert(out.deep_view() =~= expected.take(0));
            }
            while i < list.len()
                invariant
                    i <= list.len(),
                    expected == group_values(Some(list.deep_view()), base_dn_str@),
                    out.deep_view() == expected.take(i as int),
                decreases list.len() - i,
            {
                let ghost before = out.deep_view();
                let mut dn = String::from_str("cn=");
                dn.append(list[i].display_name.as_str());
                dn.append(",ou=groups,");
                dn.append(base_dn_str);
                let value = text_bytes(dn.as_str());
                out.push(value);
                proof {
                    assert(out.deep_view() =~= before.push(expected[i as int]));
                    assert(out.deep_view() =~= expected.take(i as int + 1));
                }
                i = i + 1;
            }
            proof {
                assert(expected.take(expected.len() as int) =~= expected);
            }
        },
        None => {
            proof {
                assert(out.deep_view() =~= Seq::<Seq<u8>>::empty());
            }
        },
    }
    out
}

/// A list of one value.
fn single_value(value: Vec<u8>) -> (r: Vec<Vec<u8>>)
    ensures
        r.deep_view() == seq![value.deep_view()],
{
    let out = vec![value];
    proof {
        assert(out.deep_view() =~= seq![value.deep_view()]);
    }
    out
}

/// The values that a user shows for one requested attribute, or `None` where
/// it shows none. The wildcard `*` is no attribute: it is replaced before.
pub fn get_user_attribute(
    user: &User,
    attribute: &str,
    base_dn_str: &str,
    groups: Option<&[GroupDetails]>,
    schema: &Schema,
) -> (r: Option<Vec<Vec<u8>>>)
    requires
        attribute@ != "*"@,
    ensures
        r.deep_view() == user_attribute(
            user.deep_view(),
            attribute@,
            base_dn_str@,
            groups.deep_view(),
            schema.deep_view(),
        ),
{
    let lower = to_ascii_lowercase(attribute);
    let name = lower.as_str();
    let attribute_values: Vec<Vec<u8>> = if same_text(name, "objectclass") {
        let classes = vec![
            text_bytes("inetOrgPerson"),
            text_bytes("posixAccount"),
            text_bytes("mailAccount"),
            text_bytes("person"),
        ];
        proof {
            assert(classes.deep_view() =~= user_object_classes());
        }
        classes
    } else if same_text(name, "dn") || same_text(name, "distinguishedname") {
        return None;
    } else if same_text(name, "uid") || same_text(name, "user_id") || same_text(name, "id") {
        single_value(text_bytes(user.user_id.as_str()))
    } else if same_text(name, "entryuuid") || same_text(name, "uuid") {
        single_value(text_bytes(user.uuid.as_str()))
    } else if same_text(name, "mail") || same_text(name, "email") {
        single_value(text_bytes(user.email.as_str()))
    } else if same_text(name, "givenname") || same_text(name, "first_name") || same_text(
        name,
        "firstname",
    ) {
        match get_custom_attribute(user.attributes.as_slice(), "first_name", schema) {
            Some(values) => values,
            None => {
                return None;
            },
        }
    } else if same_text(name, "sn") || same_text(name, "last_name") || same_text(
        name,
        "lastname",
    ) {
        match get_custom_attribute(user.attributes.as_slice(), "last_name", schema) {
            Some(values) => values,
            None => {
                return None;
            },
        }
    } else if same_text(name, "jpegphoto") || same_text(name, "avatar") {
        match get_custom_attribute(user.attributes.as_slice(), "avatar", schema) {
            Some(values) => values,
            None => {
                return None;
            },
        }
    } else if same_text(name, "memberof") {
        get_group_values(groups, base_dn_str)
    } else if same_text(name, "cn") || same_text(name, "displayname") {
        match &user.display_name {
            Some(display_name) => single_value(text_bytes(display_name.as_str())),
            None => {
                return None;
            },
        }
    } else if same_text(name, "creationdate") || same_text(name, "creation_date") || same_text(
        name,
        "createtimestamp",
    ) || same_text(name, "modifytimestamp") {
        single_value(text_bytes(user.creation_date.to_rfc3339().as_str()))
    } else {
        return None;
    };
    proof {
        assert(attribute_values.deep_view().len() == attribute_values.len());
        if attribute_values.len() > 0 {
            assert(attribute_values.deep_view()[0].len() == attribute_values@[0].len());
        }
    }
    if attribute_values.len() == 0 || (attribute_values.len() == 1 && attribute_values[0].len()
        == 0) {
        None
    } else {
        Some(attribute_values)
    }
}

/// One attribute of an entry, as a contract sees it.
pub struct PartialAttributeView {
    pub atype: Seq<char>,
    pub vals: Seq<Seq<u8>>,
}

/// One attribute of an entry: its name as the request wrote it, and its
/// values.
#[derive(Clone, Debug, PartialEq, Eq)]
pub struct LdapPartialAttribute {
    pub atype: String,
    pub vals: Vec<Vec<u8>>,
}

impl DeepView for LdapPartialAttribute {
    type V = PartialAttributeView;

    open spec fn deep_view(&self) -> PartialAttributeView {
        PartialAttributeView { atype: self.atype@, vals: self.vals.deep_view() }
    }
}

/// An entry of a search result, as a contract sees it.
pub struct SearchResultEntryView {
    pub dn: Seq<char>,
    pub attributes: Seq<PartialAttributeView>,
}

/// An entry of a search result: the distinguished name of the user and the
/// attributes that the request asked for.
#[derive(Clone, Debug, PartialEq, Eq)]
pub struct LdapSearchResultEntry {
    pub dn: String,
    pub attributes: Vec<LdapPartialAttribute>,
}

impl DeepView for LdapSearchResultEntry {
    type V = SearchResultEntryView;

    open spec fn deep_view(&self) -> SearchResultEntryView {
        SearchResultEntryView { dn: self.dn@, attributes: self.attributes.deep_view() }
    }
}

/// An operation of a search result, as a contract sees it.
pub enum LdapOpView {
    SearchResultEntry(SearchResultEntryView),
}

/// An operation that answers a search request.
#[derive(Clone, Debug, PartialEq, Eq)]
pub enum LdapOp {
    SearchResultEntry(LdapSearchResultEntry),
}

impl DeepView for LdapOp {
    type V = LdapOpView;

    open spec fn deep_view(&self) -> LdapOpView {
        match self {
            LdapOp::SearchResultEntry(entry) => LdapOpView::SearchResultEntry(entry.deep_view()),
        }
    }
}

/// What an entry lists for a requested name: the name with the values that the
/// user shows for it, or nothing where the user shows none.
pub open spec fn projection(
    user: UserView,
    base_dn_str: Seq<char>,
    groups: Option<Seq<GroupDetailsView>>,
    schema: SchemaView,
) -> spec_fn(Seq<char>) -> Option<PartialAttributeView> {
    |name: Seq<char>|
        match user_attribute(user, name, base_dn_str, groups, schema) {
            Some(vals) => Some(PartialAttributeView { atype: name, vals }),
            None => None,
        }
}

/// The entry that answers a request for a user: its distinguished name, and
/// one attribute for each requested name for which the user shows a value, in
/// the order of the request once `*` is replaced.
pub open spec fn search_result_entry(
    user: UserView,
    base_dn_str: Seq<char>,
    requested: Seq<Seq<char>>,
    groups: Option<Seq<GroupDetailsView>>,
    schema: SchemaView,
) -> SearchResultEntryView {
    SearchResultEntryView {
        dn: user_dn(user.user_id, base_dn_str),
        attributes: expanded(requested, all_user_attributes()).filter_map(
            projection(user, base_dn_str, groups, schema),
        ),
    }
}

/// None of the attributes that `*` stands for is `*`.
pub proof fn lemma_all_user_attributes_named()
    ensures
        !all_user_attributes().contains("*"@),
{
    reveal_strlit("*");
    reveal_strlit("objectclass");
    reveal_strlit("uid");
    reveal_strlit("mail");
    reveal_strlit("givenname");
    reveal_strlit("sn");
    reveal_strlit("cn");
    reveal_strlit("jpegPhoto");
    reveal_strlit("createtimestamp");
    reveal_strlit("entryuuid");
    let all = all_user_attributes();
    assert forall|i: int| 0 <= i < all.len() implies all[i] != "*"@ by {
        assert(all[i].len() > 1);
    }
}

/// For every request that holds `*`: the expanded list holds no `*`, and it
/// holds a name exactly if `*` stands for the name or the request holds it.
pub proof fn lemma_wildcard_expansion(requested: Seq<Seq<char>>)
    requires
        requested.contains("*"@),
    ensures
        !expanded(requested, all_user_attributes()).contains("*"@),
        forall|name: Seq<char>| #[trigger]
            expanded(requested, all_user_attributes()).contains(name) <==> (
            all_user_attributes().contains(name) || (requested.contains(name) && name != "*"@)),
{
    let all = all_user_attributes();
    let kept = requested.filter(is_not_wildcard());
    let out = expanded(requested, all);
    lemma_all_user_attributes_named();
    assert forall|name: Seq<char>| #[trigger]
        out.contains(name) <==> (all.contains(name) || (requested.contains(name) && name
            != "*"@)) by {
        if out.contains(name) {
            let i = choose|i: int| 0 <= i < out.len() && out[i] == name;
            if i < kept.len() {
                assert(kept[i] == name);
                requested.lemma_filter_pred(is_not_wildcard(), i);
                assert(kept.contains(name));
                requested.lemma_filter_contains_rev(is_not_wildcard(), name);
            } else {
                assert(all[i - kept.len()] == name);
            }
        }
        if all.contains(name) {
            let i = choose|i: int| 0 <= i < all.len() && all[i] == name;
            assert(out[kept.len() + i] == name);
        }
        if requested.contains(name) && name != "*"@ {
            let i = choose|i: int| 0 <= i < requested.len() && requested[i] == name;
            requested.lemma_filter_contains(is_not_wildcard(), i);
            let k = choose|k: int| 0 <= k < kept.len() && kept[k] == name;
            assert(out[k] == name);
        }
    }
}

/// No request has `*` left once it is expanded.
pub proof fn lemma_expanded_has_no_wildcard(requested: Seq<Seq<char>>)
    ensures
        !expanded(requested, all_user_attributes()).contains("*"@),
{
    if requested.contains("*"@) {
        lemma_wildcard_expansion(requested);
    }
}

/// Builds the entry that answers a request for one user.
pub fn make_ldap_search_user_result_entry(
    user: &User,
    base_dn_str: &str,
    attributes: &[String],
    groups: Option<&[GroupDetails]>,
    schema: &Schema,
) -> (r: LdapSearchResultEntry)
    ensures
        r.deep_view() == search_result_entry(
            user.deep_view(),
            base_dn_str@,
            attributes.deep_view(),
            groups.deep_view(),
            schema.deep_view(),
        ),
{
    let expanded_attributes = expand_user_attribute_wildcards(attributes);
    let mut dn = String::from_str("uid=");
    dn.append(user.user_id.as_str());
    dn.append(",ou=people,");
    dn.append(base_dn_str);
    let ghost names = expanded_attributes.deep_view();
    let ghost shown = projection(
        user.deep_view(),
        base_dn_str@,
        groups.deep_view(),
        schema.deep_view(),
    );
    let mut listed: Vec<LdapPartialAttribute> = Vec::new();
    let mut i: usize = 0;
    proof {
        lemma_expanded_has_no_wildcard(attributes.deep_view());
        assert(names.take(0) =~= Seq::<Seq<char>>::empty());
        assert(listed.deep_view() =~= names.take(0).filter_map(shown));
    }
    while i < expanded_attributes.len()
        invariant
            i <= expanded_attributes.len(),
            names == expanded_attributes.deep_view(),
            !names.contains("*"@),
            shown == projection(
                user.deep_view(),
                base_dn_str@,
                groups.deep_view(),
                schema.deep_view(),
            ),
            listed.deep_view() == names.take(i as int).filter_map(shown),
        decreases expanded_attributes.len() - i,
    {
        let name = expanded_attributes[i];
        let ghost before = listed.deep_view();
        proof {
            assert(names[i as int] == name@);
            assert(names.contains(name@));
            names.lemma_filter_map_take_succ(shown, i as int);
        }
        match get_user_attribute(user, name, base_dn_str, groups, schema) {
            Some(values) => {
                let attribute = LdapPartialAttribute { atype: String::from_str(name), vals: values };
                let ghost added = attribute.deep_view();
                listed.push(attribute);
                proof {
                    assert(listed.deep_view() =~= before + seq![added]);
                }
            },
            None => {
                proof {
                    assert(before + Seq::<PartialAttributeView>::empty() =~= before);
                }
            },
        }
        i = i + 1;
    }
    proof {
        assert(names.take(names.len() as int) =~= names);
    }
    LdapSearchResultEntry { dn, attributes: listed }
}

/// The operation that answers a request for one user of a backend response.
pub open spec fn user_ldap_op(
    user: crate::types::UserAndGroupsView,
    requested: Seq<Seq<char>>,
    base_dn_str: Seq<char>,
    schema: SchemaView,
) -> LdapOpView {
    LdapOpView::SearchResultEntry(
        search_result_entry(user.user, base_dn_str, requested, user.groups, schema),
    )
}

/// Builds the operations that answer a search request: one entry for each
/// user that the backend gave, in the order of the backend.
pub fn convert_users_to_ldap_op(
    users: Vec<UserAndGroups>,
    attributes: &[String],
    ldap_info: &LdapInfo,
    schema: &Schema,
) -> (r: Vec<LdapOp>)
    ensures
        r.len() == users.len(),
        forall|i: int|
            0 <= i < users.len() ==> (#[trigger] r.deep_view()[i]) == user_ldap_op(
                users.deep_view()[i],
                attributes.deep_view(),
                ldap_info.base_dn_str@,
                schema.deep_view(),
            ),
{
    let mut ops: Vec<LdapOp> = Vec::new();
    let mut i: usize = 0;
    while i < users.len()
        invariant
            i <= users.len(),
            ops.len() == i,
            forall|j: int|
                0 <= j < i ==> (#[trigger] ops.deep_view()[j]) == user_ldap_op(
                    users.deep_view()[j],
                    attributes.deep_view(),
                    ldap_info.base_dn_str@,
                    schema.deep_view(),
                ),
        decreases users.len() - i,
    {
        let u = &users[i];
        let groups: Option<&[GroupDetails]> = match &u.groups {
            Some(list) => Some(list.as_slice()),
            None => None,
        };
        let ghost before = ops.deep_view();
        let entry = make_ldap_search_user_result_entry(
            &u.user,
            ldap_info.base_dn_str.as_str(),
            attributes,
            groups,
            schema,
        );
        let op = LdapOp::SearchResultEntry(entry);
        let ghost added = op.deep_view();
        ops.push(op);
        proof {
            assert(groups.deep_view() == u.groups.deep_view());
            assert(ops.deep_view() =~= before.push(added));
        }
        i = i + 1;
    }
    ops
}

/// The distinguished name is never listed among the attributes: whatever the
/// case of its letters, `dn` and `distinguishedName` have no value.
pub proof fn lemma_distinguished_name_has_no_value(
    user: UserView,
    attribute: Seq<char>,
    base_dn_str: Seq<char>,
    groups: Option<Seq<GroupDetailsView>>,
    schema: SchemaView,
)
    requires
        ascii_lowercase(attribute) == "dn"@ || ascii_lowercase(attribute) == "distinguishedname"@,
    ensures
        user_attribute(user, attribute, base_dn_str, groups, schema) is None,
{
    reveal_strlit("objectclass");
    reveal_strlit("dn");
    reveal_strlit("distinguishedname");
    let name = ascii_lowercase(attribute);
    assert(name.len() == 2 || name.len() == 17);
}

/// The token `1.1`, which asks for no attribute, has no value; neither has
/// `+`.
pub proof fn lemma_no_attribute_token_has_no_value(
    user: UserView,
    attribute: Seq<char>,
    base_dn_str: Seq<char>,
    groups: Option<Seq<GroupDetailsView>>,
    schema: SchemaView,
)
    requires
        attribute == "1.1"@ || attribute == "+"@,
    ensures
        user_attribute(user, attribute, base_dn_str, groups, schema) is None,
{
    reveal_strlit("1.1");
    reveal_strlit("+");
    reveal_strlit("objectclass");
    reveal_strlit("dn");
    reveal_strlit("distinguishedname");
    reveal_strlit("uid");
    reveal_strlit("user_id");
    reveal_strlit("id");
    reveal_strlit("entryuuid");
    reveal_strlit("uuid");
    reveal_strlit("mail");
    reveal_strlit("email");
    reveal_strlit("givenname");
    reveal_strlit("first_name");
    reveal_strlit("firstname");
    reveal_strlit("sn");
    reveal_strlit("last_name");
    reveal_strlit("lastname");
    reveal_strlit("jpegphoto");
    reveal_strlit("avatar");
    reveal_strlit("memberof");
    reveal_strlit("cn");
    reveal_strlit("displayname");
    reveal_strlit("creationdate");
    reveal_strlit("creation_date");
    reveal_strlit("createtimestamp");
    reveal_strlit("modifytimestamp");
    let name = ascii_lowercase(attribute);
    assert(name =~= attribute);
    assert(name[0] == '1' || name[0] == '+');
}

/// A text has no bytes exactly if it has no characters.
pub proof fn lemma_bytes_of_text(s: Seq<char>)
    ensures
        encode_utf8(s).len() == 0 <==> s.len() == 0,
{
    if s.len() > 0 {
        assert(encode_utf8(s) == vstd::utf8::encode_scalar(s[0] as u32) + encode_utf8(
            s.drop_first(),
        ));
    }
}

/// A user with groups shows for `memberOf`, whatever the case of its letters,
/// the distinguished name of each group, in the order of the groups.
pub proof fn lemma_member_of_lists_the_groups(
    user: UserView,
    attribute: Seq<char>,
    base_dn_str: Seq<char>,
    groups: Seq<GroupDetailsView>,
    schema: SchemaView,
)
    requires
        ascii_lowercase(attribute) == "memberof"@,
        groups.len() > 0,
    ensures
        user_attribute(user, attribute, base_dn_str, Some(groups), schema) == Some(
            Seq::new(
                groups.len(),
                |i: int| encode_utf8(group_dn(groups[i].display_name, base_dn_str)),
            ),
        ),
{
    reveal_strlit("objectclass");
    reveal_strlit("dn");
    reveal_strlit("distinguishedname");
    reveal_strlit("uid");
    reveal_strlit("user_id");
    reveal_strlit("id");
    reveal_strlit("entryuuid");
    reveal_strlit("uuid");
    reveal_strlit("mail");
    reveal_strlit("email");
    reveal_strlit("givenname");
    reveal_strlit("first_name");
    reveal_strlit("firstname");
    reveal_strlit("sn");
    reveal_strlit("last_name");
    reveal_strlit("lastname");
    reveal_strlit("jpegphoto");
    reveal_strlit("avatar");
    reveal_strlit("memberof");
    reveal_strlit("cn=");
    let name = ascii_lowercase(attribute);
    assert(name.len() == 8);
    assert(name[0] == 'm' && name[1] == 'e' && name[2] == 'm');
    let values = group_values(Some(groups), base_dn_str);
    let first = group_dn(groups[0].display_name, base_dn_str);
    assert(first.len() >= 3);
    lemma_bytes_of_text(first);
    assert(values[0] == encode_utf8(first));
}

/// A user without a display name shows no value for `cn` or `displayName`,
/// whatever the case of the letters.
pub proof fn lemma_unset_display_name_has_no_value(
    user: UserView,
    attribute: Seq<char>,
    base_dn_str: Seq<char>,
    groups: Option<Seq<GroupDetailsView>>,
    schema: SchemaView,
)
    requires
        user.display_name is None,
        ascii_lowercase(attribute) == "cn"@ || ascii_lowercase(attribute) == "displayname"@,
    ensures
        user_attribute(user, attribute, base_dn_str, groups, schema) is None,
{
    reveal_strlit("objectclass");
    reveal_strlit("dn");
    reveal_strlit("distinguishedname");
    reveal_strlit("uid");
    reveal_strlit("user_id");
    reveal_strlit("id");
    reveal_strlit("entryuuid");
    reveal_strlit("uuid");
    reveal_strlit("mail");
    reveal_strlit("email");
    reveal_strlit("givenname");
    reveal_strlit("first_name");
    reveal_strlit("firstname");
    reveal_strlit("sn");
    reveal_strlit("last_name");
    reveal_strlit("lastname");
    reveal_strlit("jpegphoto");
    reveal_strlit("avatar");
    reveal_strlit("memberof");
    reveal_strlit("cn");
    reveal_strlit("displayname");
    let name = ascii_lowercase(attribute);
    assert(name.len() == 2 || name.len() == 11);
    assert(name[0] == 'c' || name[1] == 'i');
}

/// Every attribute of an entry was asked for, carries the values that the user
/// shows for its name, carries at least one value, and is not the
/// distinguished name.
pub proof fn lemma_entry_attributes(
    user: UserView,
    base_dn_str: Seq<char>,
    requested: Seq<Seq<char>>,
    groups: Option<Seq<GroupDetailsView>>,
    schema: SchemaView,
)
    ensures
        forall|i: int|
            #![trigger search_result_entry(user, base_dn_str, requested, groups, schema).attributes[i]]
            0 <= i < search_result_entry(user, base_dn_str, requested, groups, schema).attributes.len()
                ==> {
                let listed = search_result_entry(
                    user,
                    base_dn_str,
                    requested,
                    groups,
                    schema,
                ).attributes[i];
                &&& expanded(requested, all_user_attributes()).contains(listed.atype)
                &&& user_attribute(user, listed.atype, base_dn_str, groups, schema) == Some(
                    listed.vals,
                )
                &&& listed.vals.len() > 0
                &&& ascii_lowercase(listed.atype) != "dn"@
                &&& ascii_lowercase(listed.atype) != "distinguishedname"@
            },
{
    let names = expanded(requested, all_user_attributes());
    let shown = projection(user, base_dn_str, groups, schema);
    let attributes = names.filter_map(shown);
    assert forall|i: int| 0 <= i < attributes.len() implies {
        let listed = #[trigger] attributes[i];
        &&& names.contains(listed.atype)
        &&& user_attribute(user, listed.atype, base_dn_str, groups, schema) == Some(listed.vals)
        &&& listed.vals.len() > 0
        &&& ascii_lowercase(listed.atype) != "dn"@
        &&& ascii_lowercase(listed.atype) != "distinguishedname"@
    } by {
        let listed = attributes[i];
        assert(attributes.contains(listed));
        names.lemma_filter_map_contains(shown, listed);
        let name = choose|name: Seq<char>| #[trigger] names.contains(name) && shown(name) == Some(listed);
        assert(listed.atype == name);
        if ascii_lowercase(name) == "dn"@ || ascii_lowercase(name) == "distinguishedname"@ {
            lemma_distinguished_name_has_no_value(user, name, base_dn_str, groups, schema);
        }
    }
}

/// A request for no attribute is answered by the distinguished name alone.
pub proof fn lemma_empty_request_lists_nothing(
    user: UserView,
    base_dn_str: Seq<char>,
    groups: Option<Seq<GroupDetailsView>>,
    schema: SchemaView,
)
    ensures
        search_result_entry(user, base_dn_str, Seq::empty(), groups, schema).attributes
            == Seq::<PartialAttributeView>::empty(),
{
    let requested = Seq::<Seq<char>>::empty();
    assert(!requested.contains("*"@));
    assert(expanded(requested, all_user_attributes()) == requested);
}

/// Whether a name in lower case is one that a request can ask for: the name
/// of an attribute, or one of the tokens `1.1`, `+` and `*`.
pub open spec fn is_recognized(name: Seq<char>) -> bool {
    name == "objectclass"@ || name == "dn"@ || name == "distinguishedname"@ || name == "uid"@
        || name == "user_id"@ || name == "id"@ || name == "entryuuid"@ || name == "uuid"@ || name
        == "mail"@ || name == "email"@ || name == "givenname"@ || name == "first_name"@ || name
        == "firstname"@ || name == "sn"@ || name == "last_name"@ || name == "lastname"@ || name
        == "jpegphoto"@ || name == "avatar"@ || name == "memberof"@ || name == "cn"@ || name
        == "displayname"@ || name == "creationdate"@ || name == "creation_date"@ || name
        == "createtimestamp"@ || name == "modifytimestamp"@ || name == "1.1"@ || name == "+"@
        || name == "*"@
}

/// The warning that is due for a requested attribute, if any: the name in
/// lower case is not recognized, and the deployment does not ignore it.
pub open spec fn attribute_warning(attribute: Seq<char>, ignored: Seq<Seq<char>>) -> Option<
    Seq<char>,
> {
    let name = ascii_lowercase(attribute);
    if is_recognized(name) || ignored.contains(name) {
        None
    } else {
        Some(
            "Ignoring unrecognized user attribute: "@ + name
                + ". To disable this warning, add it to \"ignored_user_attributes\" in the config."@,
        )
    }
}

/// The warning that a requested attribute calls for, where it has no value
/// because nothing is known under its name.
pub fn user_attribute_warning(attribute: &str, ignored_user_attributes: &[String]) -> (r: Option<
    String,
>)
    ensures
        r.deep_view() == attribute_warning(attribute@, ignored_user_attributes.deep_view()),
{
    let lower = to_ascii_lowercase(attribute);
    let name = lower.as_str();
    if same_text(name, "objectclass") || same_text(name, "dn") || same_text(
        name,
        "distinguishedname",
    ) || same_text(name, "uid") || same_text(name, "user_id") || same_text(name, "id")
        || same_text(name, "entryuuid") || same_text(name, "uuid") || same_text(name, "mail")
        || same_text(name, "email") || same_text(name, "givenname") || same_text(
        name,
        "first_name",
    ) || same_text(name, "firstname") || same_text(name, "sn") || same_text(name, "last_name")
        || same_text(name, "lastname") || same_text(name, "jpegphoto") || same_text(
        name,
        "avatar",
    ) || same_text(name, "memberof") || same_text(name, "cn") || same_text(name, "displayname")
        || same_text(name, "creationdate") || same_text(name, "creation_date") || same_text(
        name,
        "createtimestamp",
    ) || same_text(name, "modifytimestamp") || same_text(name, "1.1") || same_text(name, "+")
        || same_text(name, "*") {
        return None;
    }
    if contains_text(ignored_user_attributes, name) {
        return None;
    }
    let mut message = String::from_str("Ignoring unrecognized user attribute: ");
    message.append(name);
    message.append(
        ". To disable this warning, add it to \"ignored_user_attributes\" in the config.",
    );
    Some(message)
}

/// An attribute that is not recognized has no value.
pub proof fn lemma_unrecognized_has_no_value(
    user: UserView,
    attribute: Seq<char>,
    base_dn_str: Seq<char>,
    groups: Option<Seq<GroupDetailsView>>,
    schema: SchemaView,
)
    requires
        !is_recognized(ascii_lowercase(attribute)),
    ensures
        user_attribute(user, attribute, base_dn_str, groups, schema) is None,
{
}

} // verus!
