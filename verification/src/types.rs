//! The records that the backend hands over, the schema and the configuration.

use vstd::prelude::*;
use vstd::string::*;
use crate::text::{ascii_lowercase, lemma_lowercase_is_stable, same_text, to_ascii_lowercase};
use crate::time::{Timestamp, TimestampView};

verus! {

/// The stable identifier of a user. The case of its letters does not count:
/// an identifier is kept in ASCII lower case.
#[derive(Debug, PartialEq, Eq)]
pub struct UserId {
    id: String,
}

impl Clone for UserId {
    fn clone(&self) -> (r: UserId)
        ensures
            r == *self,
    {
        proof {
            use_type_invariant(self);
        }
        UserId { id: self.id.clone() }
    }
}

impl DeepView for UserId {
    type V = Seq<char>;

    closed spec fn deep_view(&self) -> Seq<char> {
        self.id@
    }
}

impl UserId {
    #[verifier::type_invariant]
    closed spec fn in_lower_case(self) -> bool {
        ascii_lowercase(self.id@) == self.id@
    }

    /// The identifier written as `user_id`, whatever the case of its letters.
    pub fn new(user_id: &str) -> (r: UserId)
        ensures
            r.deep_view() == ascii_lowercase(user_id@),
    {
        proof {
            lemma_lowercase_is_stable(user_id@);
        }
        UserId { id: to_ascii_lowercase(user_id) }
    }

    /// The identifier as text, in lower case.
    pub fn as_str(&self) -> (r: &str)
        ensures
            r@ == self.deep_view(),
            ascii_lowercase(r@) == r@,
    {
        proof {
            use_type_invariant(self);
        }
        self.id.as_str()
    }
}

/// The globally unique identifier of an entry, as text.
#[derive(Clone, Debug, PartialEq, Eq)]
pub struct Uuid {
    text: String,
}

impl DeepView for Uuid {
    type V = Seq<char>;

    closed spec fn deep_view(&self) -> Seq<char> {
        self.text@
    }
}

impl Uuid {
    /// The identifier with this text.
    pub fn new(text: &str) -> (r: Uuid)
        ensures
            r.deep_view() == text@,
    {
        Uuid { text: String::from_str(text) }
    }

    /// The identifier as text.
    pub fn as_str(&self) -> (r: &str)
        ensures
            r@ == self.deep_view(),
    {
        self.text.as_str()
    }
}

/// The values that a record holds for one custom attribute.
#[derive(Clone, Debug, PartialEq, Eq)]
pub struct AttributeValue {
    pub name: String,
    pub values: Vec<Vec<u8>>,
}

/// What a contract says of an [`AttributeValue`].
pub struct AttributeValueView {
    pub name: Seq<char>,
    pub values: Seq<Seq<u8>>,
}

impl DeepView for AttributeValue {
    type V = AttributeValueView;

    open spec fn deep_view(&self) -> AttributeValueView {
        AttributeValueView { name: self.name@, values: self.values.deep_view() }
    }
}

/// The kinds of value that the schema knows.
#[derive(Clone, Copy, Debug, PartialEq, Eq, Structural)]
pub enum AttributeType {
    String,
    Integer,
    JpegPhoto,
    DateTime,
}

/// The declaration of one custom attribute.
#[derive(Clone, Debug, PartialEq, Eq)]
pub struct AttributeSchema {
    pub name: String,
    pub attribute_type: AttributeType,
    pub is_list: bool,
}

/// What a contract says of an [`AttributeSchema`].
pub struct AttributeSchemaView {
    pub name: Seq<char>,
    pub attribute_type: AttributeType,
    pub is_list: bool,
}

impl DeepView for AttributeSchema {
    type V = AttributeSchemaView;

    open spec fn deep_view(&self) -> AttributeSchemaView {
        AttributeSchemaView {
            name: self.name@,
            attribute_type: self.attribute_type,
            is_list: self.is_list,
        }
    }
}

/// The registry of the custom attributes that user records may hold.
#[derive(Clone, Debug, PartialEq, Eq)]
pub struct Schema {
    pub user_attributes: Vec<AttributeSchema>,
}

/// What a contract says of a [`Schema`].
pub struct SchemaView {
    pub user_attributes: Seq<AttributeSchemaView>,
}

impl DeepView for Schema {
    type V = SchemaView;

    open spec fn deep_view(&self) -> SchemaView {
        SchemaView { user_attributes: self.user_attributes.deep_view() }
    }
}

/// The position of the first declaration of a name, or the number of
/// declarations where there is none.
pub open spec fn first_declaration(declared: Seq<AttributeSchemaView>, name: Seq<char>) -> int
    decreases declared.len(),
{
    if declared.len() == 0 {
        0
    } else if declared[0].name == name {
        0
    } else {
        1 + first_declaration(declared.drop_first(), name)
    }
}

impl SchemaView {
    /// The type and the list flag that the schema declares for a name: those of
    /// its first declaration.
    pub open spec fn attribute_type(self, name: Seq<char>) -> Option<(AttributeType, bool)> {
        let i = first_declaration(self.user_attributes, name);
        if i < self.user_attributes.len() {
            Some((self.user_attributes[i].attribute_type, self.user_attributes[i].is_list))
        } else {
            None
        }
    }
}

/// A first declaration is within the list, holds the name, and nothing before
/// it does; past the list, no declaration holds the name.
pub proof fn lemma_first_declaration(declared: Seq<AttributeSchemaView>, name: Seq<char>)
    ensures
        0 <= first_declaration(declared, name) <= declared.len(),
        first_declaration(declared, name) < declared.len() ==> declared[first_declaration(
            declared,
            name,
        )].name == name,
        forall|j: int|
            0 <= j < first_declaration(declared, name) ==> (#[trigger] declared[j]).name != name,
    decreases declared.len(),
{
    if declared.len() > 0 && declared[0].name != name {
        let rest = declared.drop_first();
        lemma_first_declaration(rest, name);
        let k = first_declaration(rest, name);
        assert forall|j: int| 0 <= j < 1 + k implies (#[trigger] declared[j]).name != name by {
            if j > 0 {
                assert(rest[j - 1].name != name);
            }
        }
    }
}

impl Schema {
    /// Looks a custom attribute up by its exact name.
    pub fn get_attribute_type(&self, name: &str) -> (r: Option<(AttributeType, bool)>)
        ensures
            r == self.deep_view().attribute_type(name@),
    {
        let ghost declared = self.user_attributes.deep_view();
        let mut i: usize = 0;
        while i < self.user_attributes.len()
            invariant
                i <= self.user_attributes.len(),
                declared == self.user_attributes.deep_view(),
                forall|j: int| 0 <= j < i ==> (#[trigger] declared[j]).name != name@,
            decreases self.user_attributes.len() - i,
        {
            if same_text(self.user_attributes[i].name.as_str(), name) {
                proof {
                    lemma_first_declaration(declared, name@);
                    assert(declared[i as int].name == name@);
                }
                return Some((self.user_attributes[i].attribute_type, self.user_attributes[i].is_list));
            }
            i = i + 1;
        }
        proof {
            lemma_first_declaration(declared, name@);
        }
        None
    }
}

/// A user as the backend stores it.
#[derive(Clone, Debug, PartialEq, Eq)]
pub struct User {
    pub user_id: UserId,
    pub email: String,
    pub display_name: Option<String>,
    pub creation_date: Timestamp,
    pub uuid: Uuid,
    pub attributes: Vec<AttributeValue>,
}

/// What a contract says of a [`User`].
pub struct UserView {
    pub user_id: Seq<char>,
    pub email: Seq<char>,
    pub display_name: Option<Seq<char>>,
    pub creation_date: TimestampView,
    pub uuid: Seq<char>,
    pub attributes: Seq<AttributeValueView>,
}

impl DeepView for User {
    type V = UserView;

    open spec fn deep_view(&self) -> UserView {
        UserView {
            user_id: self.user_id.deep_view(),
            email: self.email@,
            display_name: self.display_name.deep_view(),
            creation_date: self.creation_date@,
            uuid: self.uuid.deep_view(),
            attributes: self.attributes.deep_view(),
        }
    }
}

/// A group that a user belongs to.
#[derive(Clone, Debug, PartialEq, Eq)]
pub struct GroupDetails {
    pub group_id: i32,
    pub display_name: String,
}

/// What a contract says of a [`GroupDetails`].
pub struct GroupDetailsView {
    pub group_id: int,
    pub display_name: Seq<char>,
}

impl DeepView for GroupDetails {
    type V = GroupDetailsView;

    open spec fn deep_view(&self) -> GroupDetailsView {
        GroupDetailsView { group_id: self.group_id as int, display_name: self.display_name@ }
    }
}

/// A user with the groups it belongs to, where the request asked for them.
#[derive(Clone, Debug, PartialEq, Eq)]
pub struct UserAndGroups {
    pub user: User,
    pub groups: Option<Vec<GroupDetails>>,
}

/// What a contract says of a [`UserAndGroups`].
pub struct UserAndGroupsView {
    pub user: UserView,
    pub groups: Option<Seq<GroupDetailsView>>,
}

impl DeepView for UserAndGroups {
    type V = UserAndGroupsView;

    open spec fn deep_view(&self) -> UserAndGroupsView {
        UserAndGroupsView { user: self.user.deep_view(), groups: self.groups.deep_view() }
    }
}

/// The configuration of a deployment.
#[derive(Clone, Debug, PartialEq, Eq)]
pub struct LdapInfo {
    /// The base distinguished name, one pair of key and value per component.
    pub base_dn: Vec<(String, String)>,
    /// The base distinguished name as text.
    pub base_dn_str: String,
    /// The attribute names that are unknown on purpose.
    pub ignored_user_attributes: Vec<String>,
}

/// What a contract says of an [`LdapInfo`].
pub struct LdapInfoView {
    pub base_dn: Seq<(Seq<char>, Seq<char>)>,
    pub base_dn_str: Seq<char>,
    pub ignored_user_attributes: Seq<Seq<char>>,
}

impl DeepView for LdapInfo {
    type V = LdapInfoView;

    open spec fn deep_view(&self) -> LdapInfoView {
        LdapInfoView {
            base_dn: self.base_dn.deep_view(),
            base_dn_str: self.base_dn_str@,
            ignored_user_attributes: self.ignored_user_attributes.deep_view(),
        }
    }
}

} // verus!
