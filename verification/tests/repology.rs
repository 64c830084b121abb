use nursery::ecosystem::Ecosystem;
use nursery::repology::{
    ecosystem_to_repo, parse_packages, process_packages, repo_to_ecosystem, Lookup, PackageInfo,
    RepologyClient, RepologyError, RepologyPackage, ToolInfo,
};
use nursery::strmap::StrMap;

fn package(repo: &str, visiblename: Option<&str>, binname: Option<&str>, version: Option<&str>, status: Option<&str>) -> RepologyPackage {
    RepologyPackage {
        repo: repo.to_string(),
        visiblename: visiblename.map(String::from),
        binname: binname.map(String::from),
        srcname: None,
        version: version.map(String::from),
        status: status.map(String::from),
        summary: None,
    }
}

#[test]
fn repo_mapping() {
    assert_eq!(repo_to_ecosystem("arch"), Some(Ecosystem::Pacman));
    assert_eq!(repo_to_ecosystem("debian_12"), Some(Ecosystem::Apt));
    assert_eq!(repo_to_ecosystem("ubuntu_24_04"), Some(Ecosystem::Apt));
    assert_eq!(repo_to_ecosystem("fedora_40"), Some(Ecosystem::Dnf));
    assert_eq!(repo_to_ecosystem("alpine_edge"), Some(Ecosystem::Apk));
    assert_eq!(repo_to_ecosystem("homebrew"), Some(Ecosystem::Brew));
    assert_eq!(repo_to_ecosystem("nix_unstable"), Some(Ecosystem::Nix));
    assert_eq!(repo_to_ecosystem("scoop"), Some(Ecosystem::Scoop));
    assert_eq!(repo_to_ecosystem("winget"), Some(Ecosystem::Winget));
    assert_eq!(repo_to_ecosystem("crates_io"), Some(Ecosystem::Cargo));
    assert_eq!(repo_to_ecosystem("unknown_repo"), None);
}

#[test]
fn ecosystem_to_repo_mapping() {
    assert_eq!(ecosystem_to_repo(Ecosystem::Pacman), "arch");
    assert_eq!(ecosystem_to_repo(Ecosystem::Apt), "debian_12");
}

#[test]
fn cache_roundtrip() {
    let mut packages = StrMap::new();
    packages.insert(
        Ecosystem::Pacman.id().to_string(),
        PackageInfo { name: "ripgrep".to_string(), version: "14.1.0".to_string() },
    );
    let info = ToolInfo { packages, binname: Some("rg".to_string()) };

    let cached = info.to_cache();
    let roundtrip = ToolInfo::from_cache(&cached).unwrap();

    assert_eq!(roundtrip.binname, Some("rg".to_string()));
    assert!(roundtrip.package_for(Ecosystem::Pacman).is_some());
}

#[test]
fn cache_entries_are_written_and_read() {
    let mut packages = StrMap::new();
    packages.insert("pacman".to_string(), PackageInfo { name: "ripgrep".to_string(), version: "14.1.0".to_string() });
    packages.insert("guix".to_string(), PackageInfo { name: "rg".to_string(), version: "1".to_string() });
    let info = ToolInfo { packages, binname: None };
    let text = info.cache_text().unwrap();
    assert_eq!(
        text,
        "{\n  \"binname\": null,\n  \"packages\": {\n    \"guix\": {\n      \"name\": \"rg\",\n      \"version\": \"1\"\n    },\n    \"pacman\": {\n      \"name\": \"ripgrep\",\n      \"version\": \"14.1.0\"\n    }\n  }\n}"
    );
    let back = ToolInfo::parse_cache(&text).unwrap();
    assert_eq!(back.packages.len(), 1);
    assert_eq!(back.package_for(Ecosystem::Pacman).unwrap().version, "14.1.0");
    assert_eq!(back.binname, None);

    let read = ToolInfo::parse_cache(r#"{"packages": {}, "binname": "rg", "more": 1}"#).unwrap();
    assert_eq!(read.binname, Some("rg".to_string()));
    assert_eq!(ToolInfo::parse_cache(r#"{"packages": {}}"#).unwrap().binname, None);
    for bad in [
        "not json",
        "[]",
        r#"{"binname": "rg"}"#,
        r#"{"packages": [], "binname": null}"#,
        r#"{"packages": {}, "binname": 3}"#,
        r#"{"packages": {"apt": 3}}"#,
        r#"{"packages": {"apt": {"name": "a"}}}"#,
        r#"{"packages": {"guix": {"name": "a", "version": 3}}}"#,
    ] {
        assert!(matches!(ToolInfo::parse_cache(bad), Err(RepologyError::Parse(_))), "{bad}");
    }
}

#[test]
fn answers_of_the_service_are_read() {
    let body = r#"[
        {"repo": "arch", "visiblename": "ripgrep", "binname": "rg", "version": "14.1.0", "status": "newest", "extra": [1]},
        {"repo": "debian_12", "visiblename": null, "srcname": "rust-ripgrep"}
    ]"#;
    let packages = parse_packages(body).unwrap();
    assert_eq!(packages.len(), 2);
    assert_eq!(packages[0].repo, "arch");
    assert_eq!(packages[0].visiblename, Some("ripgrep".to_string()));
    assert_eq!(packages[0].status, Some("newest".to_string()));
    assert_eq!(packages[0].summary, None);
    assert_eq!(packages[1].visiblename, None);
    assert_eq!(packages[1].srcname, Some("rust-ripgrep".to_string()));
    assert_eq!(process_packages(&packages).package_for(Ecosystem::Pacman).unwrap().name, "ripgrep");
    assert!(parse_packages("[]").unwrap().is_empty());
    for bad in ["{", "{}", r#"[{"visiblename": "x"}]"#, r#"[{"repo": 3}]"#, r#"[{"repo": "arch", "version": 14}]"#, "[3]"] {
        assert!(matches!(parse_packages(bad), Err(RepologyError::Parse(_))), "{bad}");
    }
}

#[test]
fn cached_packages_of_unknown_ecosystems_are_dropped() {
    let mut packages = StrMap::new();
    packages.insert("apt".to_string(), PackageInfo { name: "a".to_string(), version: "1".to_string() });
    packages.insert("guix".to_string(), PackageInfo { name: "b".to_string(), version: "2".to_string() });
    let info = ToolInfo::from_cached(&packages, None);
    assert_eq!(info.packages.len(), 1);
    assert_eq!(info.package_for(Ecosystem::Apt).unwrap().name, "a");
    assert!(info.package_for(Ecosystem::Nix).is_none());
    assert_eq!(info.binname, None);
}

#[test]
fn every_preferred_repo_maps_back() {
    for e in nursery::ecosystem::candidates() {
        assert_eq!(repo_to_ecosystem(ecosystem_to_repo(e)), Some(e));
    }
    assert_eq!(repo_to_ecosystem("aur"), Some(Ecosystem::Pacman));
    assert_eq!(repo_to_ecosystem("centos_8"), Some(Ecosystem::Dnf));
    assert_eq!(repo_to_ecosystem("epel_9"), Some(Ecosystem::Dnf));
    assert_eq!(repo_to_ecosystem("homebrew_casks"), Some(Ecosystem::Brew));
    assert_eq!(repo_to_ecosystem("homebrew_other"), None);
    assert_eq!(repo_to_ecosystem("archlinux"), None);
    assert_eq!(repo_to_ecosystem(""), None);
}

#[test]
fn auxiliary_packages_are_passed_over() {
    let listing = vec![
        package("arch", Some("ripgrep-doc"), Some("rg"), Some("1"), Some("newest")),
        package("arch", Some("ripgrep-bash-completion"), None, Some("1"), Some("newest")),
        package("arch", Some("ripgrep-debuginfo"), None, Some("1"), Some("newest")),
        package("arch", Some("ripgrep-git"), None, Some("1"), Some("newest")),
        package("arch", Some("ripgrep"), Some("rg"), Some("14.1.0"), Some("outdated")),
    ];
    let info = process_packages(&listing);
    let arch = info.package_for(Ecosystem::Pacman).unwrap();
    assert_eq!(arch.name, "ripgrep");
    assert_eq!(arch.version, "14.1.0");
    assert_eq!(info.binname, Some("rg".to_string()));
    assert_eq!(info.packages.len(), 1);
}

#[test]
fn newest_and_shorter_names_win() {
    let listing = vec![
        package("debian_12", Some("rust-ripgrep"), None, Some("13"), Some("outdated")),
        package("debian_12", Some("ripgrep"), None, Some("13.1"), Some("outdated")),
        package("debian_12", Some("ripgrep-longer"), None, Some("13.2"), Some("outdated")),
        package("fedora_40", Some("rg"), None, Some("14"), Some("newest")),
        package("fedora_40", Some("r"), None, Some("12"), Some("outdated")),
        package("nix_unstable", Some("zzz"), None, Some("1"), Some("outdated")),
        package("nix_unstable", Some("zzzzzz"), None, None, Some("newest")),
        package("gentoo", Some("sys-apps/ripgrep"), Some("rg"), Some("14"), Some("newest")),
    ];
    let info = process_packages(&listing);
    assert_eq!(info.package_for(Ecosystem::Apt).unwrap().name, "ripgrep");
    assert_eq!(info.package_for(Ecosystem::Apt).unwrap().version, "13.1");
    assert_eq!(info.package_for(Ecosystem::Dnf).unwrap().name, "rg");
    assert_eq!(info.package_for(Ecosystem::Nix).unwrap().name, "zzzzzz");
    assert_eq!(info.package_for(Ecosystem::Nix).unwrap().version, "");
    assert!(info.package_for(Ecosystem::Pacman).is_none());
    // The repository that belongs to no ecosystem gives no binary name either.
    assert_eq!(info.binname, None);
}

#[test]
fn later_repositories_of_an_ecosystem_replace_earlier_ones() {
    let listing = vec![
        package("debian_12", Some("from-debian"), Some("tool-completion"), Some("1"), None),
        package("ubuntu_24_04", None, Some("from-ubuntu"), Some("2"), None),
        package("alpine_edge", None, None, Some("3"), None),
    ];
    let info = RepologyClient::with_cache_dir("/c".to_string()).process_packages(listing);
    assert_eq!(info.package_for(Ecosystem::Apt).unwrap().name, "from-ubuntu");
    assert_eq!(info.package_for(Ecosystem::Apt).unwrap().version, "2");
    assert!(info.package_for(Ecosystem::Apk).is_none());
    assert_eq!(info.binname, Some("from-ubuntu".to_string()));
    assert!(process_packages(&Vec::new()).packages.len() == 0);
}

#[test]
fn client_paths_and_decisions() {
    let client = RepologyClient::with_cache_dir("/cache/repology".to_string());
    assert_eq!(client.cache_dir(), "/cache/repology");
    assert_eq!(client.cache_path("ripgrep"), "/cache/repology/ripgrep.json");
    assert_eq!(RepologyClient::project_url("ripgrep"), "https://repology.org/api/v1/project/ripgrep");
    assert_eq!(RepologyClient::cache_dir_in(Some("/home/me/.cache".to_string())), "/home/me/.cache/nursery/repology");
    assert_eq!(RepologyClient::cache_dir_in(None), ".cache/nursery/repology");
    assert!(client.cache_is_fresh(Some((0, 0))));
    assert!(client.cache_is_fresh(Some((86399, 999_999_999))));
    assert!(client.cache_is_fresh(Some((86400, 0))));
    assert!(!client.cache_is_fresh(Some((86400, 1))));
    assert!(!client.cache_is_fresh(Some((86401, 0))));
    assert!(!client.cache_is_fresh(None));
    assert!(RepologyClient::check_status(200, "x").is_ok());
    match RepologyClient::check_status(404, "x") {
        Err(RepologyError::NotFound(p)) => assert_eq!(p, "x"),
        _ => panic!("a project that is not known is an error"),
    }
    match client.lookup("ripgrep", None) {
        Lookup::Fetch { url, cache_path } => {
            assert_eq!(url, "https://repology.org/api/v1/project/ripgrep");
            assert_eq!(cache_path, "/cache/repology/ripgrep.json");
        }
        Lookup::Cached(_) => panic!("nothing was cached"),
    }
    let cached = ToolInfo { packages: StrMap::new(), binname: Some("rg".to_string()) };
    match client.lookup("ripgrep", Some(cached)) {
        Lookup::Cached(info) => assert_eq!(info.binname, Some("rg".to_string())),
        Lookup::Fetch { .. } => panic!("the cache had the answer"),
    }
    let _ = RepologyClient::new();
}
