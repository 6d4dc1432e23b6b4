use rpmoci::repo::{
    credential_variable, join_keys, repo_kwargs, Credential, Kwarg, RepoOptions,
};

fn text(key: &str, value: &str) -> Kwarg {
    Kwarg::Text { key: key.to_string(), value: value.to_string() }
}

fn options(list: &[(&str, &str)]) -> RepoOptions {
    let mut options = RepoOptions::new();
    for (k, v) in list {
        options = options.insert(k.to_string(), v.to_string());
    }
    options
}

fn keys(list: &[&str]) -> Vec<String> {
    list.iter().map(|s| s.to_string()).collect()
}

const URL: &str = "https://packages.microsoft.com/cbl-mariner/2.0/prod/base/x86_64";

#[test]
fn repository_without_options_gets_the_defaults() {
    let kwargs =
        repo_kwargs(URL, &RepoOptions::new(), &keys(&["https://k/1", "https://k/2"]), None, None);
    assert_eq!(
        kwargs,
        vec![
            Kwarg::List { key: "baseurl".to_string(), values: vec![URL.to_string()] },
            text("gpgcheck", "True"),
            text("sslverify", "True"),
            text("gpgkey", "https://k/1 https://k/2"),
        ]
    );
}

#[test]
fn options_replace_defaults_and_keys_are_merged() {
    let given = options(&[("gpgcheck", "False"), ("gpgkey", "https://own/key"), ("priority", "5")]);
    let kwargs = repo_kwargs(URL, &given, &keys(&["https://k/1"]), None, None);
    assert_eq!(
        kwargs,
        vec![
            Kwarg::List { key: "baseurl".to_string(), values: vec![URL.to_string()] },
            text("gpgcheck", "False"),
            text("gpgkey", "https://own/key https://k/1"),
            text("priority", "5"),
            text("sslverify", "True"),
        ]
    );
}

#[test]
fn credentials_come_last() {
    let kwargs = repo_kwargs(
        URL,
        &options(&[("sslverify", "False")]),
        &Vec::new(),
        Some("me".to_string()),
        Some("secret".to_string()),
    );
    assert_eq!(
        kwargs,
        vec![
            Kwarg::List { key: "baseurl".to_string(), values: vec![URL.to_string()] },
            text("sslverify", "False"),
            text("gpgcheck", "True"),
            text("gpgkey", ""),
            text("username", "me"),
            text("password", "secret"),
        ]
    );
    let only_password =
        repo_kwargs(URL, &RepoOptions::new(), &Vec::new(), None, Some("secret".to_string()));
    assert_eq!(only_password.last(), Some(&text("password", "secret")));
    assert_eq!(only_password.len(), 5);
}

#[test]
fn keys_are_joined_by_single_spaces() {
    assert_eq!(join_keys(&Vec::new()), "");
    assert_eq!(join_keys(&keys(&["a"])), "a");
    assert_eq!(join_keys(&keys(&["a", "b", "c"])), "a b c");
    assert_eq!(join_keys(&keys(&["", ""])), " ");
}

#[test]
fn option_is_found_by_its_name() {
    let given = options(&[("gpgcheck", "False"), ("x", "gpgkey")]);
    assert!(given.contains_key("gpgcheck"));
    assert!(!given.contains_key("gpgkey"));
    assert!(!RepoOptions::new().contains_key("gpgcheck"));
}

#[test]
fn credential_variables_are_named_after_the_repository() {
    assert_eq!(
        credential_variable("marinertest", Credential::Username),
        "RPMOCI_MARINERTEST_HTTP_USERNAME"
    );
    assert_eq!(
        credential_variable("my-Repo_2", Credential::Password),
        "RPMOCI_MY-REPO_2_HTTP_PASSWORD"
    );
    assert_eq!(credential_variable("", Credential::Username), "RPMOCI__HTTP_USERNAME");
    assert_eq!(credential_variable("é", Credential::Password), "RPMOCI_é_HTTP_PASSWORD");
}

#[test]
fn option_named_again_keeps_its_place_and_takes_the_new_value() {
    let given = options(&[("gpgcheck", "True"), ("priority", "5"), ("gpgcheck", "False")]);
    assert_eq!(given, options(&[("gpgcheck", "False"), ("priority", "5")]));
    let kwargs = repo_kwargs(URL, &given, &Vec::new(), None, None);
    assert_eq!(
        kwargs,
        vec![
            Kwarg::List { key: "baseurl".to_string(), values: vec![URL.to_string()] },
            text("gpgcheck", "False"),
            text("priority", "5"),
            text("sslverify", "True"),
            text("gpgkey", ""),
        ]
    );
    assert_eq!(given.clone(), given);
}
