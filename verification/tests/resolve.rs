use rpmoci::base::{setup_base, Repository, Source};
use rpmoci::repo::RepoOptions;
use rpmoci::resolve::{
    contains_text, local_rpm_specs, requirements, resolver_specs, select, Config, Lockfile, Pick,
    Request, ETC_OS_RELEASE,
};

fn list(items: &[&str]) -> Vec<String> {
    items.iter().map(|s| s.to_string()).collect()
}

#[test]
fn release_file_is_added_once() {
    assert_eq!(ETC_OS_RELEASE, "/etc/os-release");
    assert_eq!(
        resolver_specs(&list(&["pcre2-tools"]), true),
        list(&["pcre2-tools", "/etc/os-release"])
    );
    assert_eq!(
        resolver_specs(&list(&["/etc/os-release", "bash"]), true),
        list(&["/etc/os-release", "bash"])
    );
    assert_eq!(resolver_specs(&list(&["bash"]), false), list(&["bash"]));
    assert_eq!(resolver_specs(&Vec::new(), true), list(&["/etc/os-release"]));
    assert_eq!(resolver_specs(&Vec::new(), false), Vec::<String>::new());
}

#[test]
fn text_is_found_by_its_whole() {
    assert!(contains_text(&list(&["a", "bc"]), "bc"));
    assert!(!contains_text(&list(&["a", "bc"]), "b"));
    assert!(!contains_text(&Vec::new(), ""));
}

#[test]
fn package_files_are_told_by_their_ending() {
    let specs = list(&["bash", "./local/a.rpm", "b.rpm.sig", ".rpm", "rpm", "dir/*.rpm"]);
    assert_eq!(local_rpm_specs(&specs), list(&["./local/a.rpm", ".rpm", "dir/*.rpm"]));
    assert_eq!(select(&specs, Pick::RemoteSpecs), list(&["bash", "b.rpm.sig", "rpm"]));
}

#[test]
fn rules_pick_by_ending_and_beginning() {
    assert!(Pick::LocalRpms.test("a.rpm"));
    assert!(!Pick::LocalRpms.test("a.rpmx"));
    assert!(Pick::RemoteSpecs.test("bash"));
    assert!(!Pick::RemoteSpecs.test("a.rpm"));
    assert!(Pick::WithoutRpmlib.test("libc.so.6"));
    assert!(!Pick::WithoutRpmlib.test("rpmlib(CompressedFileNames) <= 3.0.4-1"));
    assert!(Pick::WithoutRpmlib.test("rpmlib"));
    assert!(Pick::WithoutRpmlib.test(" rpmlib(x)"));
}

#[test]
fn requirements_follow_an_earlier_resolution() {
    let specs = list(&["bash", "local/a.rpm", "rpmlib(odd)", "curl"]);
    let local = vec![
        list(&["libc.so.6", "rpmlib(PayloadIsZstd) <= 5.4.18-1"]),
        Vec::new(),
        list(&["/bin/sh", "tool.rpm"]),
    ];
    assert_eq!(
        requirements(&specs, &local),
        list(&["bash", "curl", "libc.so.6", "/bin/sh", "tool.rpm"])
    );
    assert_eq!(requirements(&Vec::new(), &Vec::new()), Vec::<String>::new());
}

fn config() -> Config {
    Config {
        repositories: vec![Repository {
            id: "marinertest".to_string(),
            source: Source::Url {
                url: "https://packages.microsoft.com/cbl-mariner/2.0/prod/base/x86_64".to_string(),
            },
            username: None,
            password: None,
        }],
        gpgkeys: list(&["https://packages.microsoft.com/keys/microsoft.asc"]),
        packages: list(&["pcre2-tools", "local/tool.rpm"]),
        os_release: true,
    }
}

#[test]
fn configuration_is_resolved_as_it_stands() {
    let cfg = config();
    let request = Lockfile::resolve_from_config(&cfg);
    assert_eq!(
        request,
        Request {
            steps: setup_base(&cfg.repositories, &cfg.gpgkeys),
            specs: list(&["pcre2-tools", "local/tool.rpm", "/etc/os-release"]),
            pkg_specs: list(&["pcre2-tools", "local/tool.rpm"]),
            keep_local_packages: false,
        }
    );
    assert_eq!(
        Lockfile::resolve(&cfg.packages, &cfg.repositories, &cfg.gpgkeys, cfg.os_release),
        request
    );
}

#[test]
fn package_files_of_a_configuration_are_named() {
    assert_eq!(Lockfile::read_local_rpm_deps(&config()), list(&["local/tool.rpm"]));
}

#[test]
fn earlier_outcome_is_brought_up_to_date() {
    let cfg = config();
    let previous = Lockfile {
        pkg_specs: list(&["old"]),
        local_requires: vec![list(&["libc.so.6", "rpmlib(PayloadIsZstd) <= 5.4.18-1"])],
    };
    assert_eq!(
        previous.resolve_from_previous(&cfg),
        Request {
            steps: setup_base(&cfg.repositories, &cfg.gpgkeys),
            specs: list(&["pcre2-tools", "libc.so.6", "/etc/os-release"]),
            pkg_specs: list(&["pcre2-tools", "local/tool.rpm"]),
            keep_local_packages: true,
        }
    );
}

#[test]
fn test_weak_deps() {
    // pcre2-tools in mariner recommends pcre2-doc: what is recommended is not asked for
    let options = RepoOptions::new()
        .insert("gpgcheck".to_string(), "True".to_string())
        .insert("gpgkey".to_string(), "https://raw.githubusercontent.com/microsoft/CBL-Mariner/2.0/SPECS/mariner-repos/MICROSOFT-RPM-GPG-KEY,https://packages.microsoft.com/keys/microsoft.asc".to_string());
    let mariner_repository = Repository {
        id: "marinertest".to_string(),
        source: Source::Definition {
            url: "https://packages.microsoft.com/cbl-mariner/2.0/prod/base/x86_64".to_string(),
            options,
        },
        username: None,
        password: None,
    };
    let repositories = vec![mariner_repository];

    let request = Lockfile::resolve(&vec!["pcre2-tools".to_string()], &repositories, &Vec::new(), true);
    assert!(!request.specs.iter().any(|p| p == "pcre2-doc"));
    assert_eq!(request.specs, list(&["pcre2-tools", "/etc/os-release"]));
    assert_eq!(request.pkg_specs, list(&["pcre2-tools"]));
    assert_eq!(request.steps, setup_base(&repositories, &Vec::new()));
}
