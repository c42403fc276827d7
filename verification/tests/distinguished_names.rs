use ldap_users::dn::{
    get_group_id_from_distinguished_name, get_user_id_from_distinguished_name, is_subtree,
    make_dn_pair, parse_distinguished_name, split, strip_marked, trimmed,
};
use ldap_users::error::{LdapError, LdapResultCode};
use ldap_users::types::UserId;

fn pair(key: &str, value: &str) -> (String, String) {
    (key.to_string(), value.to_string())
}

fn base() -> Vec<(String, String)> {
    vec![pair("dc", "example"), pair("dc", "com")]
}

fn chars(s: &str) -> Vec<char> {
    s.chars().collect()
}

fn syntax(message: &str) -> LdapError {
    LdapError { code: LdapResultCode::InvalidDNSyntax, message: message.to_string() }
}

#[test]
fn split_cuts_at_every_separator() {
    assert_eq!(split(&chars("a,b,c"), ','), vec![chars("a"), chars("b"), chars("c")]);
    assert_eq!(split(&chars(""), ','), vec![chars("")]);
    assert_eq!(split(&chars(","), ','), vec![chars(""), chars("")]);
    assert_eq!(split(&chars("a,,b,"), ','), vec![chars("a"), chars(""), chars("b"), chars("")]);
    assert_eq!(split(&chars("abc"), '='), vec![chars("abc")]);
}

#[test]
fn trimmed_removes_white_space_at_both_ends() {
    assert_eq!(trimmed(&chars("  a b \t\n")), chars("a b"));
    assert_eq!(trimmed(&chars("a")), chars("a"));
    assert_eq!(trimmed(&chars("   ")), chars(""));
    assert_eq!(trimmed(&chars("")), chars(""));
    assert_eq!(trimmed(&chars("\u{a0}x\u{2003}")), chars("x"));
    for text in ["", " ", " a", "a ", " a  b ", "\u{3000}a\u{85}", "_ a _"] {
        assert_eq!(trimmed(&chars(text)), chars(text.trim()));
    }
}

#[test]
fn dn_pair_has_one_equal_sign() {
    assert_eq!(make_dn_pair(&chars(" uid = bob ")), Ok(pair("uid", "bob")));
    assert_eq!(make_dn_pair(&chars("uid=")), Ok(pair("uid", "")));
    assert_eq!(make_dn_pair(&chars("uid")), Err(syntax("Missing DN value")));
    assert_eq!(make_dn_pair(&chars("")), Err(syntax("Missing DN value")));
    assert_eq!(
        make_dn_pair(&chars("a=b=c=d")),
        Err(syntax("Too many elements in distinguished name: \"\"a\"\", \"\"b\"\", \"\"c\"\""))
    );
}

#[test]
fn parse_reads_every_component() {
    assert_eq!(
        parse_distinguished_name("uid=bob, ou=people,dc=example,dc=com"),
        Ok(vec![pair("uid", "bob"), pair("ou", "people"), pair("dc", "example"), pair("dc", "com")])
    );
    assert_eq!(parse_distinguished_name("dc=com"), Ok(vec![pair("dc", "com")]));
    assert_eq!(parse_distinguished_name(""), Err(syntax("Missing DN value")));
    assert_eq!(parse_distinguished_name("uid=bob,,dc=com"), Err(syntax("Missing DN value")));
    assert_eq!(
        parse_distinguished_name("uid=bob,a=b=c,oops"),
        Err(syntax("Too many elements in distinguished name: \"\"a\"\", \"\"b\"\", \"\"c\"\""))
    );
}

#[test]
fn subtree_ends_with_the_base() {
    let name = vec![pair("uid", "bob"), pair("ou", "people"), pair("dc", "example"), pair("dc", "com")];
    assert!(is_subtree(&name, &base()));
    assert!(is_subtree(&base(), &base()));
    assert!(is_subtree(&name, &[]));
    assert!(!is_subtree(&base(), &name));
    assert!(!is_subtree(&name, &[pair("dc", "example")]));
    assert!(!is_subtree(&name, &[pair("dc", "example"), pair("dc", "org")]));
    assert!(!is_subtree(&name, &[pair("ou", "example"), pair("dc", "com")]));
}

#[test]
fn user_id_of_a_distinguished_name() {
    assert_eq!(
        get_user_id_from_distinguished_name(
            "uid=bob,ou=people,dc=example,dc=com",
            &base(),
            "dc=example,dc=com"
        ),
        Ok(UserId::new("bob"))
    );
    assert_eq!(
        get_user_id_from_distinguished_name(
            "cn=bob,ou=people,dc=example,dc=com",
            &base(),
            "dc=example,dc=com"
        ),
        Ok(UserId::new("bob"))
    );
    assert_eq!(
        get_user_id_from_distinguished_name(
            "uid=bob,ou=groups,dc=example,dc=com",
            &base(),
            "dc=example,dc=com"
        ),
        Err(syntax(
            "Invalid username: Unexpected DN format. Got \"uid=bob,ou=groups,dc=example,dc=com\", expected: \"uid=id,ou=people,dc=example,dc=com\""
        ))
    );
    assert_eq!(
        get_user_id_from_distinguished_name(
            "mail=bob,ou=people,dc=example,dc=com",
            &base(),
            "dc=example,dc=com"
        ),
        Err(syntax(
            "Invalid username: Unexpected DN format. Got \"mail=bob,ou=people,dc=example,dc=com\", expected: \"uid=id,ou=people,dc=example,dc=com\""
        ))
    );
    assert_eq!(
        get_user_id_from_distinguished_name(
            "uid=bob,ou=x,ou=people,dc=example,dc=com",
            &base(),
            "dc=example,dc=com"
        ),
        Err(syntax(
            "Invalid username: Unexpected DN format. Got \"uid=bob,ou=x,ou=people,dc=example,dc=com\", expected: \"uid=id,ou=people,dc=example,dc=com\""
        ))
    );
    assert_eq!(
        get_user_id_from_distinguished_name("dc=example,dc=com", &base(), "dc=example,dc=com"),
        Err(syntax(
            "Invalid username: Unexpected DN format. Got \"dc=example,dc=com\", expected: \"uid=id,ou=people,dc=example,dc=com\""
        ))
    );
    assert_eq!(
        get_user_id_from_distinguished_name("uid=bob,ou=people,dc=com", &base(), "dc=example,dc=com"),
        Err(syntax("Invalid username: Not a subtree of the base tree"))
    );
}

#[test]
fn group_id_of_a_distinguished_name() {
    assert_eq!(
        get_group_id_from_distinguished_name(
            "cn=admins,ou=groups,dc=example,dc=com",
            &base(),
            "dc=example,dc=com"
        ),
        Ok("admins".to_string())
    );
    assert_eq!(
        get_group_id_from_distinguished_name(
            "cn=admins,ou=people,dc=example,dc=com",
            &base(),
            "dc=example,dc=com"
        ),
        Err(syntax(
            "Invalid username: Unexpected DN format. Got \"cn=admins,ou=people,dc=example,dc=com\", expected: \"uid=id,ou=groups,dc=example,dc=com\""
        ))
    );
}

#[test]
fn strip_marked_cuts_at_both_ends() {
    assert_eq!(strip_marked(&chars("xxabxcx"), &vec![true, true, false, false, true, false, true]), chars("abxc"));
    assert_eq!(strip_marked(&chars("ab"), &vec![true, true]), chars(""));
    assert_eq!(strip_marked(&chars("ab"), &vec![false, false]), chars("ab"));
    assert_eq!(strip_marked(&chars("ab"), &vec![false, true]), chars("a"));
    assert_eq!(strip_marked(&chars("ab"), &vec![true, false]), chars("b"));
    assert_eq!(strip_marked(&chars(""), &vec![]), chars(""));
}
