use ldap_users::attributes::{
    all_user_attribute_keys, convert_users_to_ldap_op, expand_attribute_wildcards,
    expand_user_attribute_wildcards, get_custom_attribute, get_user_attribute,
    make_ldap_search_user_result_entry, text_bytes, user_attribute_warning, LdapOp,
    LdapPartialAttribute, LdapSearchResultEntry,
};
use ldap_users::time::Timestamp;
use ldap_users::types::{
    AttributeSchema, AttributeType, AttributeValue, GroupDetails, LdapInfo, Schema, User,
    UserAndGroups, UserId, Uuid,
};

const BASE: &str = "dc=example,dc=com";

fn names(list: &[&str]) -> Vec<String> {
    list.iter().map(|s| s.to_string()).collect()
}

fn values(list: &[&str]) -> Vec<Vec<u8>> {
    list.iter().map(|s| s.as_bytes().to_vec()).collect()
}

fn schema() -> Schema {
    Schema {
        user_attributes: vec![
            AttributeSchema {
                name: "first_name".to_string(),
                attribute_type: AttributeType::String,
                is_list: false,
            },
            AttributeSchema {
                name: "last_name".to_string(),
                attribute_type: AttributeType::String,
                is_list: false,
            },
            AttributeSchema {
                name: "avatar".to_string(),
                attribute_type: AttributeType::JpegPhoto,
                is_list: false,
            },
        ],
    }
}

fn alice() -> User {
    User {
        user_id: UserId::new("alice"),
        email: "alice@example.com".to_string(),
        display_name: Some("Alice A".to_string()),
        creation_date: Timestamp::new(2014, 7, 8, 9, 10, 11, 0).unwrap(),
        uuid: Uuid::new("04ac75e0-2900-3e21-926c-2f732c26b3fc"),
        attributes: vec![
            AttributeValue { name: "first_name".to_string(), values: values(&["Alice"]) },
            AttributeValue { name: "last_name".to_string(), values: values(&[""]) },
            AttributeValue { name: "nickname".to_string(), values: values(&["Al"]) },
        ],
    }
}

fn groups() -> Vec<GroupDetails> {
    vec![
        GroupDetails { group_id: 1, display_name: "admins".to_string() },
        GroupDetails { group_id: 2, display_name: "devs".to_string() },
    ]
}

fn attribute(name: &str, vals: &[&str]) -> LdapPartialAttribute {
    LdapPartialAttribute { atype: name.to_string(), vals: values(vals) }
}

fn all_of_alice() -> Vec<LdapPartialAttribute> {
    vec![
        attribute("objectclass", &["inetOrgPerson", "posixAccount", "mailAccount", "person"]),
        attribute("uid", &["alice"]),
        attribute("mail", &["alice@example.com"]),
        attribute("givenname", &["Alice"]),
        attribute("cn", &["Alice A"]),
        attribute("createtimestamp", &["2014-07-08T09:10:11+00:00"]),
        attribute("entryuuid", &["04ac75e0-2900-3e21-926c-2f732c26b3fc"]),
    ]
}

#[test]
fn wildcard_is_replaced_by_all_attributes() {
    let requested = names(&["*"]);
    assert_eq!(
        expand_user_attribute_wildcards(&requested),
        vec![
            "objectclass",
            "uid",
            "mail",
            "givenname",
            "sn",
            "cn",
            "jpegPhoto",
            "createtimestamp",
            "entryuuid"
        ]
    );
}

#[test]
fn wildcard_keeps_the_other_names() {
    let requested = names(&["memberOf", "*", "UID", "*", "+"]);
    let expanded = expand_user_attribute_wildcards(&requested);
    assert_eq!(
        expanded,
        vec![
            "memberOf",
            "UID",
            "+",
            "objectclass",
            "uid",
            "mail",
            "givenname",
            "sn",
            "cn",
            "jpegPhoto",
            "createtimestamp",
            "entryuuid"
        ]
    );
    assert!(!expanded.contains(&"*"));
    let mut expected: Vec<&str> = all_user_attribute_keys();
    expected.extend(["memberOf", "UID", "+"]);
    let mut got = expanded.clone();
    expected.sort();
    got.sort();
    assert_eq!(got, expected);
}

#[test]
fn request_without_wildcard_is_kept() {
    let requested = names(&["cn", "1.1", "cn", "+"]);
    assert_eq!(expand_user_attribute_wildcards(&requested), vec!["cn", "1.1", "cn", "+"]);
    let requested = names(&[]);
    assert!(expand_user_attribute_wildcards(&requested).is_empty());
    let requested = names(&["**", " *"]);
    assert_eq!(expand_user_attribute_wildcards(&requested), vec!["**", " *"]);
}

#[test]
fn wildcard_with_other_keys() {
    let requested = names(&["a", "*"]);
    assert_eq!(expand_attribute_wildcards(&requested, &["x", "y"]), vec!["a", "x", "y"]);
    assert_eq!(expand_attribute_wildcards(&requested, &[]), vec!["a"]);
}

#[test]
fn distinguished_name_is_never_an_attribute() {
    let user = alice();
    let listed = groups();
    for name in ["dn", "DN", "distinguishedName", "DISTINGUISHEDNAME"] {
        assert_eq!(get_user_attribute(&user, name, BASE, Some(&listed), &schema()), None);
    }
    let entry = make_ldap_search_user_result_entry(
        &user,
        BASE,
        &names(&["dn", "*", "distinguishedName", "memberOf", "+"]),
        Some(&listed),
        &schema(),
    );
    for listed in &entry.attributes {
        let name = listed.atype.to_ascii_lowercase();
        assert!(name != "dn" && name != "distinguishedname");
        assert!(!listed.vals.is_empty());
    }
    assert_eq!(entry.attributes.len(), 8);
}

#[test]
fn entry_names_the_user() {
    let entry = make_ldap_search_user_result_entry(&alice(), BASE, &names(&["uid"]), None, &schema());
    assert_eq!(entry.dn, "uid=alice,ou=people,dc=example,dc=com");
    assert_eq!(entry.attributes, vec![attribute("uid", &["alice"])]);
}

#[test]
fn unset_display_name_has_no_value() {
    let mut user = alice();
    user.display_name = None;
    assert_eq!(get_user_attribute(&user, "cn", BASE, None, &schema()), None);
    assert_eq!(get_user_attribute(&user, "displayName", BASE, None, &schema()), None);
    let entry = make_ldap_search_user_result_entry(&user, BASE, &names(&["cn", "mail"]), None, &schema());
    assert_eq!(entry.attributes, vec![attribute("mail", &["alice@example.com"])]);
}

#[test]
fn empty_display_name_has_no_value() {
    let mut user = alice();
    user.display_name = Some(String::new());
    assert_eq!(get_user_attribute(&user, "cn", BASE, None, &schema()), None);
    user.email = String::new();
    assert_eq!(get_user_attribute(&user, "mail", BASE, None, &schema()), None);
}

#[test]
fn member_of_lists_the_groups_in_order() {
    let listed = groups();
    assert_eq!(
        get_user_attribute(&alice(), "memberOf", BASE, Some(&listed), &schema()),
        Some(values(&["cn=admins,ou=groups,dc=example,dc=com", "cn=devs,ou=groups,dc=example,dc=com"]))
    );
    assert_eq!(
        get_user_attribute(&alice(), "memberof", "dc=x", Some(&listed[1..]), &schema()),
        Some(values(&["cn=devs,ou=groups,dc=x"]))
    );
}

#[test]
fn member_of_without_groups_has_no_value() {
    assert_eq!(get_user_attribute(&alice(), "memberOf", BASE, None, &schema()), None);
    assert_eq!(get_user_attribute(&alice(), "memberOf", BASE, Some(&[]), &schema()), None);
}

#[test]
fn no_attribute_token_has_no_value() {
    let listed = groups();
    assert_eq!(get_user_attribute(&alice(), "1.1", BASE, Some(&listed), &schema()), None);
    assert_eq!(get_user_attribute(&alice(), "+", BASE, Some(&listed), &schema()), None);
    let entry =
        make_ldap_search_user_result_entry(&alice(), BASE, &names(&["1.1"]), Some(&listed), &schema());
    assert_eq!(
        entry,
        LdapSearchResultEntry {
            dn: "uid=alice,ou=people,dc=example,dc=com".to_string(),
            attributes: vec![]
        }
    );
}

#[test]
fn empty_request_lists_no_attribute() {
    let listed = groups();
    let entry = make_ldap_search_user_result_entry(&alice(), BASE, &[], Some(&listed), &schema());
    assert_eq!(
        entry,
        LdapSearchResultEntry {
            dn: "uid=alice,ou=people,dc=example,dc=com".to_string(),
            attributes: vec![]
        }
    );
}

#[test]
fn wildcard_lists_every_attribute_with_a_value() {
    let entry = make_ldap_search_user_result_entry(&alice(), BASE, &names(&["*"]), None, &schema());
    assert_eq!(entry.dn, "uid=alice,ou=people,dc=example,dc=com");
    assert_eq!(entry.attributes, all_of_alice());
}

#[test]
fn attribute_keeps_the_name_of_the_request() {
    let entry = make_ldap_search_user_result_entry(
        &alice(),
        BASE,
        &names(&["MAIL", "Uid", "unknown", "user_id"]),
        None,
        &schema(),
    );
    assert_eq!(
        entry.attributes,
        vec![
            attribute("MAIL", &["alice@example.com"]),
            attribute("Uid", &["alice"]),
            attribute("user_id", &["alice"]),
        ]
    );
}

#[test]
fn identity_attributes() {
    let user = alice();
    for name in ["uid", "user_id", "id", "UID"] {
        assert_eq!(get_user_attribute(&user, name, BASE, None, &schema()), Some(values(&["alice"])));
    }
    for name in ["entryuuid", "uuid", "entryUUID"] {
        assert_eq!(
            get_user_attribute(&user, name, BASE, None, &schema()),
            Some(values(&["04ac75e0-2900-3e21-926c-2f732c26b3fc"]))
        );
    }
    for name in ["mail", "email"] {
        assert_eq!(
            get_user_attribute(&user, name, BASE, None, &schema()),
            Some(values(&["alice@example.com"]))
        );
    }
    for name in ["cn", "displayName"] {
        assert_eq!(get_user_attribute(&user, name, BASE, None, &schema()), Some(values(&["Alice A"])));
    }
    assert_eq!(
        get_user_attribute(&user, "objectClass", BASE, None, &schema()),
        Some(values(&["inetOrgPerson", "posixAccount", "mailAccount", "person"]))
    );
}

#[test]
fn creation_date_is_rendered_as_utc() {
    let user = alice();
    for name in ["creationDate", "creation_date", "createTimestamp", "modifyTimestamp"] {
        assert_eq!(
            get_user_attribute(&user, name, BASE, None, &schema()),
            Some(values(&["2014-07-08T09:10:11+00:00"]))
        );
    }
}

#[test]
fn custom_attributes_go_through_the_schema() {
    let user = alice();
    for name in ["givenName", "first_name", "firstname"] {
        assert_eq!(get_user_attribute(&user, name, BASE, None, &schema()), Some(values(&["Alice"])));
    }
    // The last name is set to one empty value: it says nothing.
    for name in ["sn", "last_name", "lastname"] {
        assert_eq!(get_user_attribute(&user, name, BASE, None, &schema()), None);
    }
    // No avatar is set.
    for name in ["jpegPhoto", "avatar"] {
        assert_eq!(get_user_attribute(&user, name, BASE, None, &schema()), None);
    }
    // Without a declaration the value is not shown.
    let empty = Schema { user_attributes: vec![] };
    assert_eq!(get_user_attribute(&user, "givenName", BASE, None, &empty), None);
    assert_eq!(get_user_attribute(&user, "nickname", BASE, None, &schema()), None);
}

#[test]
fn custom_attribute_lookup() {
    let user = alice();
    assert_eq!(get_custom_attribute(&user.attributes, "first_name", &schema()), Some(values(&["Alice"])));
    assert_eq!(get_custom_attribute(&user.attributes, "last_name", &schema()), Some(values(&[""])));
    assert_eq!(get_custom_attribute(&user.attributes, "avatar", &schema()), None);
    assert_eq!(get_custom_attribute(&user.attributes, "nickname", &schema()), None);
    assert_eq!(get_custom_attribute(&user.attributes, "First_Name", &schema()), None);
    let twice = vec![
        AttributeValue { name: "avatar".to_string(), values: vec![vec![1u8, 2], vec![]] },
        AttributeValue { name: "avatar".to_string(), values: vec![vec![3u8]] },
    ];
    assert_eq!(get_custom_attribute(&twice, "avatar", &schema()), Some(vec![vec![1u8, 2], vec![]]));
    assert_eq!(
        schema().get_attribute_type("avatar"),
        Some((AttributeType::JpegPhoto, false))
    );
    assert_eq!(schema().get_attribute_type("nickname"), None);
}

#[test]
fn several_values_are_kept_even_if_empty() {
    let mut user = alice();
    user.attributes = vec![AttributeValue { name: "avatar".to_string(), values: vec![vec![], vec![]] }];
    assert_eq!(
        get_user_attribute(&user, "jpegPhoto", BASE, None, &schema()),
        Some(vec![vec![], vec![]])
    );
    user.attributes = vec![AttributeValue { name: "avatar".to_string(), values: vec![] }];
    assert_eq!(get_user_attribute(&user, "jpegPhoto", BASE, None, &schema()), None);
}

#[test]
fn users_become_entries_in_order() {
    let mut bob = alice();
    bob.user_id = UserId::new("Bob");
    bob.display_name = None;
    let users = vec![
        UserAndGroups { user: alice(), groups: Some(groups()) },
        UserAndGroups { user: bob, groups: None },
    ];
    let info = LdapInfo {
        base_dn: vec![
            ("dc".to_string(), "example".to_string()),
            ("dc".to_string(), "com".to_string()),
        ],
        base_dn_str: BASE.to_string(),
        ignored_user_attributes: vec![],
    };
    let ops = convert_users_to_ldap_op(users, &names(&["cn", "memberOf", "uid"]), &info, &schema());
    assert_eq!(
        ops,
        vec![
            LdapOp::SearchResultEntry(LdapSearchResultEntry {
                dn: "uid=alice,ou=people,dc=example,dc=com".to_string(),
                attributes: vec![
                    attribute("cn", &["Alice A"]),
                    attribute(
                        "memberOf",
                        &["cn=admins,ou=groups,dc=example,dc=com", "cn=devs,ou=groups,dc=example,dc=com"]
                    ),
                    attribute("uid", &["alice"]),
                ],
            }),
            LdapOp::SearchResultEntry(LdapSearchResultEntry {
                dn: "uid=bob,ou=people,dc=example,dc=com".to_string(),
                attributes: vec![attribute("uid", &["bob"])],
            }),
        ]
    );
    assert!(convert_users_to_ldap_op(vec![], &names(&["*"]), &info, &schema()).is_empty());
}

#[test]
fn text_bytes_are_utf8() {
    assert_eq!(text_bytes("a\u{e9}\u{20ac}"), "a\u{e9}\u{20ac}".as_bytes().to_vec());
    assert_eq!(text_bytes(""), Vec::<u8>::new());
}

#[test]
fn warnings_for_unrecognized_attributes() {
    let ignored = names(&["quiet"]);
    assert_eq!(
        user_attribute_warning("ShoeSize", &ignored),
        Some(
            "Ignoring unrecognized user attribute: shoesize. To disable this warning, add it to \"ignored_user_attributes\" in the config."
                .to_string()
        )
    );
    assert_eq!(user_attribute_warning("Quiet", &ignored), None);
    for name in ["objectClass", "dn", "uid", "memberOf", "cn", "modifyTimestamp", "1.1", "+", "*"] {
        assert_eq!(user_attribute_warning(name, &ignored), None);
    }
    assert_eq!(get_user_attribute(&alice(), "ShoeSize", BASE, None, &schema()), None);
}
