use stress_tester::auth::{login_outcome, login_request, AuthError, User};
use stress_tester::provision::{
    collect_identities, plan_identities, scheme_credentials, NamingScheme, ProvisionError,
};

#[test]
fn login_request_posts_credentials_as_json() {
    let admin = User::new("index", "index123");
    let plan = login_request(&admin);
    assert_eq!(plan.path, "/auth/login");
    assert_eq!(plan.body, "{\"user_id\":\"index\",\"password\":\"index123\"}");
    assert_eq!(plan.headers.len(), 2);
}

#[test]
fn successful_login_yields_bound_session() {
    let admin = User::new("index", "index123");
    let session = login_outcome(&admin, 200, "{\"token\":\"abc\"}", 7).unwrap();
    assert_eq!(session.bearer_token, "abc");
    assert_eq!(session.identifier, "index");
    assert_eq!(session.issued_at, 7);
}

#[test]
fn successful_login_token_is_never_empty() {
    let u = User::new("u1", "p1");
    let r = login_outcome(&u, 200, "{\"token\":\"\"}", 0);
    assert!(matches!(r, Err(AuthError::MalformedResponse)));
    for status in [200u16, 204, 299] {
        if let Ok(s) = login_outcome(&u, status, "{\"token\":\"t\"}", 0) {
            assert!(!s.bearer_token.is_empty());
        }
    }
}

#[test]
fn distinct_login_responses_give_distinct_tokens() {
    let u1 = User::new("u1", "p1");
    let u2 = User::new("u2", "p2");
    let s1 = login_outcome(&u1, 200, "{\"token\":\"t-one\"}", 0).unwrap();
    let s2 = login_outcome(&u2, 200, "{\"token\":\"t-two\"}", 0).unwrap();
    assert_ne!(s1.bearer_token, s2.bearer_token);
    assert_ne!(s1.identifier, s2.identifier);
}

#[test]
fn rejected_login_is_invalid_credentials() {
    let u = User::new("u1", "wrong");
    assert!(matches!(login_outcome(&u, 401, "", 0), Err(AuthError::InvalidCredentials)));
    assert!(matches!(login_outcome(&u, 500, "{\"token\":\"t\"}", 0), Err(
        AuthError::InvalidCredentials
    )));
}

#[test]
fn unparsable_login_body_is_malformed_response() {
    let u = User::new("u1", "p1");
    assert!(matches!(login_outcome(&u, 200, "oops", 0), Err(AuthError::MalformedResponse)));
    assert!(matches!(login_outcome(&u, 200, "{\"token\":42}", 0), Err(
        AuthError::MalformedResponse
    )));
}

#[test]
fn naming_scheme_numbers_identities() {
    let scheme = NamingScheme { prefix: "user".to_string(), password_suffix: "!pw".to_string() };
    let u = scheme_credentials(&scheme, 105);
    assert_eq!(u.user_id, "user105");
    assert_eq!(u.password, "user105!pw");
    let planned = plan_identities(&scheme, 3);
    assert_eq!(planned.len(), 3);
    assert_eq!(planned[0].user_id, "user0");
    assert_eq!(planned[2].user_id, "user2");
}

#[test]
fn partial_provisioning_keeps_only_created_identities() {
    let scheme = NamingScheme { prefix: "u".to_string(), password_suffix: "p".to_string() };
    let requested = plan_identities(&scheme, 3);
    let created = vec![true, false, true];
    let ids = collect_identities(&requested, &created).unwrap();
    assert_eq!(ids.len(), 2);
    assert_eq!(ids[0].credentials.user_id, "u0");
    assert_eq!(ids[1].credentials.user_id, "u2");
    assert!(ids.iter().all(|ti| ti.session.is_none()));
}

#[test]
fn provisioning_with_no_success_aborts() {
    let scheme = NamingScheme { prefix: "u".to_string(), password_suffix: "p".to_string() };
    let requested = plan_identities(&scheme, 3);
    let created = vec![false, false, false];
    let r = collect_identities(&requested, &created);
    assert!(matches!(r, Err(ProvisionError::NoIdentitiesCreated)));
}
