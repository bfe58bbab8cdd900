use iris_agentic_dev_core::manifest::resolve::{
    check_local_version, dep_to_source, github_tag_names, local_manifest_version, local_missing_error, prepare_dependency, resolution_order,
    select_github_version, unsupported_source_error, PackageLock, Resolve, ResolveLock,
    ResolvedPackage, ResolvedSource, SemReq, SemVersion,
};
use iris_agentic_dev_core::manifest::{DependencySpec, Manifest, PackageInfo};

fn dep(version: &str) -> DependencySpec {
    DependencySpec { version: version.to_string(), git: None, github: None, openexchange: None, repository: None }
}

#[test]
fn sources_in_order_of_preference() {
    let mut d = dep("^1");
    d.github = Some("owner/repo/extra".to_string());
    d.git = Some("https://g".to_string());
    match dep_to_source("x", &d).unwrap() {
        ResolvedSource::GitHub { owner, repo } => {
            assert_eq!(owner, "owner");
            assert_eq!(repo, "repo/extra");
        }
        _ => panic!("github first"),
    }
    d.github = Some("noslash".to_string());
    assert!(matches!(dep_to_source("x", &d).unwrap(), ResolvedSource::Git(_)));
    let e = dep_to_source("x", &dep("^1")).err().unwrap();
    assert_eq!(e, "dependency 'x' has no source (git, github, repository, or openexchange)");
}

#[test]
fn invalid_semver_is_reported_first() {
    let e = prepare_dependency("base", &dep("not-a-version")).err().unwrap();
    assert!(e.starts_with("invalid semver 'not-a-version' for dep 'base': "), "{e}");
}

#[test]
fn github_picks_greatest_matching_tag() {
    let req = SemReq::parse("^0.1").unwrap();
    let tags: Vec<String> = vec!["v0.1.0", "0.1.5", "v0.2.0", "junk", "v0.1.3"].into_iter().map(String::from).collect();
    let v = select_github_version(&req, &tags, "o", "r").unwrap();
    assert_eq!(v.to_text(), "0.1.5");
    let none = select_github_version(&SemReq::parse("^9").unwrap(), &tags, "o", "r").err().unwrap();
    assert_eq!(none, "no tags in o/r satisfy version requirement ^9");
}

#[test]
fn local_versions() {
    let req = SemReq::parse(">=1.0.0").unwrap();
    assert_eq!(check_local_version(&req, Some("1.2.0"), "p/x.toml").unwrap().to_text(), "1.2.0");
    assert_eq!(check_local_version(&req, Some("0.9.0"), "p").err().unwrap(), "local version 0.9.0 does not satisfy >=1.0.0");
    assert_eq!(check_local_version(&req, None, "p/x.toml").err().unwrap(), "no [package].version in \"p/x.toml\"");
    assert_eq!(local_missing_error("dir"), "local source \"dir\" has no iris-agentic-dev.toml");
    let e = unsupported_source_error(&req, &ResolvedSource::Git("u".to_string()));
    assert_eq!(e, "version resolution not yet implemented for source Git(\"u\") (requirement: >=1.0.0)");
}

#[test]
fn lock_file_escapes_strings() {
    let resolve = Resolve {
        packages: vec![ResolvedPackage {
            name: "a\"b".to_string(),
            version: SemVersion::parse("1.0.0").unwrap(),
            source: ResolvedSource::GitHub { owner: "o".to_string(), repo: "r".to_string() },
        }],
    };
    let lock = resolve.to_lock();
    assert_eq!(lock.packages[0].repository, "https://github.com/o/r");
    assert_eq!(
        lock.to_toml(),
        "[metadata]\nformat-version = 1\n\n[[package]]\nname = \"a\\\"b\"\nversion = \"1.0.0\"\nrepository = \"https://github.com/o/r\"\n\n"
    );
    let empty = ResolveLock { packages: Vec::<PackageLock>::new() };
    assert_eq!(empty.to_toml(), "[metadata]\nformat-version = 1\n\n");
}

fn manifest_with(deps: Vec<(&str, &str)>) -> Manifest {
    Manifest {
        package: PackageInfo {
            name: "standalone".to_string(),
            version: "1.0.0".to_string(),
            description: None,
            authors: vec![],
            license: None,
            repository: None,
        },
        provides: None,
        dependencies: deps.into_iter().map(|(n, v)| (n.to_string(), dep(v))).collect(),
    }
}

#[test]
fn resolution_visits_each_name_once() {
    assert!(resolution_order(&manifest_with(vec![])).is_empty());
    let m = manifest_with(vec![("a", "^1"), ("b", "^2"), ("a", "^3"), ("c", "^4"), ("b", "^5")]);
    assert_eq!(resolution_order(&m), vec![0, 1, 3]);
}

#[test]
fn local_manifest_versions() {
    assert_eq!(local_manifest_version("[package]\nname = \"x\"\nversion = \"1.2.3\"\n"), Ok(Some("1.2.3".to_string())));
    assert_eq!(local_manifest_version("[package]\nname = \"x\"\n"), Ok(None));
    assert_eq!(local_manifest_version("[package]\nversion = 5\n"), Ok(None));
    assert_eq!(local_manifest_version("version = \"1.0.0\"\n"), Ok(None));
    let e = local_manifest_version("[package\nversion = ").unwrap_err();
    assert!(!e.is_empty());
}

#[test]
fn github_tag_names_from_answer() {
    assert_eq!(
        github_tag_names(r#"[{"name":"v1.0.0"},{"x":1},{"name":2},{"name":"1.1.0"}]"#),
        Ok(vec!["v1.0.0".to_string(), "1.1.0".to_string()])
    );
    assert_eq!(github_tag_names("{}"), Err("unexpected GitHub tags response".to_string()));
    assert_eq!(github_tag_names("not json"), Err("error decoding response body".to_string()));
    assert_eq!(github_tag_names("[]"), Ok(vec![]));
}
