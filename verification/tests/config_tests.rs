use bitpet::{require_auth, AuthError, Config, UserInfo};

fn base_config() -> Config {
    let mut c = Config::empty();
    c.repos.push("/home/me/alpha".to_string());
    c.repos.push("/home/me/beta".to_string());
    c.repos.push("/home/me/gone".to_string());
    c
}

#[test]
fn pruning_keeps_only_the_valid_repositories() {
    let mut c = base_config();
    let normalised = vec![
        Some("/real/alpha".to_string()),
        None,
        Some("/real/gone".to_string()),
    ];
    let paths = c.get_valid_normalised_paths_and_save(&normalised);
    assert_eq!(c.repos, vec!["/home/me/alpha".to_string(), "/home/me/gone".to_string()]);
    let path_strings: Vec<String> = paths.iter().map(|p| p.path().clone()).collect();
    assert_eq!(path_strings, vec!["/real/alpha".to_string(), "/real/gone".to_string()]);
}

#[test]
fn add_repo_refuses_duplicates() {
    let mut c = base_config();
    assert!(!c.add_repo("/home/me/beta".to_string()));
    assert_eq!(c.repos.len(), 3);
    assert!(c.add_repo("/home/me/new".to_string()));
    assert_eq!(c.repos.len(), 4);
    assert_eq!(c.repos[3], "/home/me/new");
}

#[test]
fn remove_repo_takes_out_the_first_occurrence() {
    let mut c = base_config();
    assert!(c.remove_repo(&"/home/me/beta".to_string()));
    assert_eq!(c.repos, vec!["/home/me/alpha".to_string(), "/home/me/gone".to_string()]);
    assert!(!c.remove_repo(&"/home/me/beta".to_string()));
    assert_eq!(c.repos.len(), 2);
}

#[test]
fn login_and_logout_round_trip() {
    let mut c = Config::empty();
    assert!(c.user.is_none());
    c.record_login("jane".to_string(), "jane@example.com".to_string(), "tok".to_string());
    let u = c.user.as_ref().unwrap();
    assert_eq!((u.username.as_str(), u.email.as_str(), u.token.as_str()),
        ("jane", "jane@example.com", "tok"));
    c.record_logout();
    assert!(c.user.is_none());
}

#[test]
fn authentication_requires_a_logged_in_user() {
    let mut c = Config::empty();
    match require_auth(&c) {
        Err(AuthError::NotLoggedIn(_)) => {},
        _ => panic!("expected the not-logged-in error"),
    }
    c.user = Some(UserInfo {
        username: "jane".to_string(),
        email: "jane@example.com".to_string(),
        token: "tok".to_string(),
    });
    let u = require_auth(&c).unwrap();
    assert_eq!(u.username, "jane");
    assert_eq!(u.email, "jane@example.com");
    assert_eq!(u.token, "tok");
}
