use ldap_users::error::{LdapError, LdapResultCode};
use ldap_users::filter::{LdapFilter, UserColumn, UserRequestFilter};
use ldap_users::search::{get_user_list, user_list_result, UserListerBackendHandler};
use ldap_users::time::Timestamp;
use ldap_users::types::{GroupDetails, LdapInfo, User, UserAndGroups, UserId, Uuid};

struct Expecting {
    filters: Option<UserRequestFilter>,
    get_groups: bool,
    answer: Result<Vec<UserAndGroups>, String>,
}

impl UserListerBackendHandler for Expecting {
    fn list_users(
        &self,
        filters: Option<UserRequestFilter>,
        get_groups: bool,
    ) -> Result<Vec<UserAndGroups>, String> {
        assert_eq!(filters, self.filters);
        assert_eq!(get_groups, self.get_groups);
        self.answer.clone()
    }
}

struct Unreachable;

impl UserListerBackendHandler for Unreachable {
    fn list_users(
        &self,
        _filters: Option<UserRequestFilter>,
        _get_groups: bool,
    ) -> Result<Vec<UserAndGroups>, String> {
        panic!("the backend must not be asked")
    }
}

fn info() -> LdapInfo {
    LdapInfo {
        base_dn: vec![
            ("dc".to_string(), "example".to_string()),
            ("dc".to_string(), "com".to_string()),
        ],
        base_dn_str: "dc=example,dc=com".to_string(),
        ignored_user_attributes: vec![],
    }
}

fn bob() -> UserAndGroups {
    UserAndGroups {
        user: User {
            user_id: UserId::new("bob"),
            email: "bob@example.com".to_string(),
            display_name: None,
            creation_date: Timestamp::new(2020, 1, 2, 3, 4, 5, 0).unwrap(),
            uuid: Uuid::new("u-1"),
            attributes: vec![],
        },
        groups: Some(vec![GroupDetails { group_id: 7, display_name: "devs".to_string() }]),
    }
}

#[test]
fn search_hands_the_converted_filter_to_the_backend() {
    let backend = Expecting {
        filters: Some(UserRequestFilter::Equality(UserColumn::Email, "bob@example.com".to_string())),
        get_groups: true,
        answer: Ok(vec![bob()]),
    };
    let filter = LdapFilter::Equality("mail".to_string(), "bob@example.com".to_string());
    assert_eq!(get_user_list(&info(), &filter, true, "ou=people", &backend), Ok(vec![bob()]));
}

#[test]
fn search_reports_a_failure_of_the_backend() {
    let backend = Expecting {
        filters: Some(UserRequestFilter::True),
        get_groups: false,
        answer: Err("connection lost".to_string()),
    };
    let filter = LdapFilter::Present("uid".to_string());
    assert_eq!(
        get_user_list(&info(), &filter, false, "ou=people,dc=example,dc=com", &backend),
        Err(LdapError {
            code: LdapResultCode::Other,
            message: "Error while searching user \"ou=people,dc=example,dc=com\": connection lost"
                .to_string(),
        })
    );
}

#[test]
fn search_refuses_a_filter_without_conversion() {
    let filter = LdapFilter::Approx("uid".to_string(), "bob".to_string());
    assert_eq!(
        get_user_list(&info(), &filter, true, "base", &Unreachable),
        Err(LdapError {
            code: LdapResultCode::UnwillingToPerform,
            message: "Unsupported user filter: Approx(\"uid\", \"bob\")".to_string(),
        })
    );
}

#[test]
fn outcome_of_the_backend_becomes_the_answer() {
    assert_eq!(user_list_result("base", Ok(vec![bob(), bob()])), Ok(vec![bob(), bob()]));
    assert_eq!(user_list_result("base", Ok(vec![])), Ok(vec![]));
    assert_eq!(
        user_list_result("", Err(String::new())),
        Err(LdapError {
            code: LdapResultCode::Other,
            message: "Error while searching user \"\": ".to_string(),
        })
    );
}
