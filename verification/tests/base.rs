use rpmoci::base::{setup_base, BaseStep, Repository, Source};
use rpmoci::repo::{Kwarg, RepoOptions};

fn text(key: &str, value: &str) -> Kwarg {
    Kwarg::Text { key: key.to_string(), value: value.to_string() }
}

fn system(id: &str) -> Repository {
    Repository { id: id.to_string(), source: Source::System, username: None, password: None }
}

fn at(id: &str, url: &str) -> Repository {
    Repository {
        id: id.to_string(),
        source: Source::Url { url: url.to_string() },
        username: None,
        password: None,
    }
}

#[test]
fn session_without_repositories() {
    assert_eq!(
        setup_base(&Vec::new(), &Vec::new()),
        vec![
            BaseStep::InitPlugins,
            BaseStep::PreConfigurePlugins,
            BaseStep::ConfigurePlugins,
            BaseStep::FillSack,
        ]
    );
}

#[test]
fn system_repositories_are_enabled_after_all_are_disabled() {
    let repositories = vec![system("base"), at("extra", "https://e/x"), system("updates")];
    let steps = setup_base(&repositories, &vec!["https://k/1".to_string()]);
    assert_eq!(
        steps,
        vec![
            BaseStep::InitPlugins,
            BaseStep::PreConfigurePlugins,
            BaseStep::ReadAllRepos,
            BaseStep::DisableAllRepos,
            BaseStep::EnableRepo { id: "base".to_string() },
            BaseStep::EnableRepo { id: "updates".to_string() },
            BaseStep::AddRepo {
                id: "extra".to_string(),
                kwargs: vec![
                    Kwarg::List {
                        key: "baseurl".to_string(),
                        values: vec!["https://e/x".to_string()],
                    },
                    text("gpgcheck", "True"),
                    text("sslverify", "True"),
                    text("gpgkey", "https://k/1"),
                ],
            },
            BaseStep::ConfigurePlugins,
            BaseStep::FillSack,
        ]
    );
}

#[test]
fn defined_repository_keeps_its_options_and_credentials() {
    let repository = Repository {
        id: "marinertest".to_string(),
        source: Source::Definition {
            url: "https://packages.microsoft.com/cbl-mariner/2.0/prod/base/x86_64".to_string(),
            options: RepoOptions::new()
                .insert("gpgcheck".to_string(), "True".to_string())
                .insert(
                    "gpgkey".to_string(),
                    "https://packages.microsoft.com/keys/microsoft.asc".to_string(),
                ),
        },
        username: Some("me".to_string()),
        password: None,
    };
    let steps = setup_base(&vec![repository], &Vec::new());
    assert_eq!(
        steps,
        vec![
            BaseStep::InitPlugins,
            BaseStep::PreConfigurePlugins,
            BaseStep::AddRepo {
                id: "marinertest".to_string(),
                kwargs: vec![
                    Kwarg::List {
                        key: "baseurl".to_string(),
                        values: vec![
                            "https://packages.microsoft.com/cbl-mariner/2.0/prod/base/x86_64"
                                .to_string()
                        ],
                    },
                    text("gpgcheck", "True"),
                    text("gpgkey", "https://packages.microsoft.com/keys/microsoft.asc "),
                    text("sslverify", "True"),
                    text("username", "me"),
                ],
            },
            BaseStep::ConfigurePlugins,
            BaseStep::FillSack,
        ]
    );
}
