use nursery::config::{parse_tool_source, ToolSource, UserConfig};
use nursery::ecosystem::{detect_ecosystems, detect_primary_ecosystem, Ecosystem};

#[test]
fn ecosystem_id_roundtrip() {
    let ecosystems = [
        Ecosystem::Pacman,
        Ecosystem::Apt,
        Ecosystem::Dnf,
        Ecosystem::Brew,
        Ecosystem::Nix,
        Ecosystem::Cargo,
    ];

    for eco in ecosystems {
        assert_eq!(Ecosystem::from_id(eco.id()), Some(eco));
    }
}

#[test]
fn install_cmd_display() {
    assert_eq!(
        Ecosystem::Pacman.install_cmd_display(&["ripgrep", "fd"]),
        "sudo pacman -S ripgrep fd"
    );
    assert_eq!(
        Ecosystem::Brew.install_cmd_display(&["ripgrep"]),
        "brew install ripgrep"
    );
    assert_eq!(
        Ecosystem::Nix.install_cmd_display(&["ripgrep"]),
        "nix-env -iA nixpkgs.ripgrep"
    );
}

#[test]
fn every_ecosystem_is_found_by_its_id() {
    for eco in nursery::ecosystem::candidates() {
        assert_eq!(Ecosystem::from_id(eco.id()), Some(eco));
    }
    assert_eq!(Ecosystem::from_id("nix-env"), None);
    assert_eq!(Ecosystem::from_id(""), None);
    assert_eq!(Ecosystem::from_id("Pacman"), None);
}

#[test]
fn install_commands() {
    assert_eq!(
        Ecosystem::Pacman.install_cmd(&["ripgrep", "fd"]),
        vec!["sudo", "pacman", "-S", "--noconfirm", "ripgrep", "fd"]
    );
    assert_eq!(Ecosystem::Apt.install_cmd(&["jq"]), vec!["sudo", "apt", "install", "-y", "jq"]);
    assert_eq!(Ecosystem::Dnf.install_cmd(&["jq"]), vec!["sudo", "dnf", "install", "-y", "jq"]);
    assert_eq!(Ecosystem::Apk.install_cmd(&["jq"]), vec!["sudo", "apk", "add", "jq"]);
    assert_eq!(Ecosystem::Brew.install_cmd(&[]), vec!["brew", "install"]);
    assert_eq!(
        Ecosystem::Nix.install_cmd(&["a", "b"]),
        vec!["nix-env", "-iA", "nixpkgs.a", "nixpkgs.b"]
    );
    assert_eq!(Ecosystem::Scoop.install_cmd(&["jq"]), vec!["scoop", "install", "jq"]);
    assert_eq!(Ecosystem::Winget.install_cmd(&["jq"]), vec!["winget", "install", "jq"]);
    assert_eq!(Ecosystem::Cargo.install_cmd(&["jq"]), vec!["cargo", "install", "jq"]);
    assert_eq!(Ecosystem::Nix.install_cmd_display(&["a", "b"]), "nix-env -iA nixpkgs.a nixpkgs.b");
    assert_eq!(Ecosystem::Apk.install_cmd_display(&[]), "sudo apk add ");
}

#[test]
fn check_commands() {
    assert_eq!(Ecosystem::Pacman.check_installed_cmd("rg"), vec!["pacman", "-Q", "rg"]);
    assert_eq!(Ecosystem::Apt.check_installed_cmd("rg"), vec!["dpkg", "-s", "rg"]);
    assert_eq!(Ecosystem::Dnf.check_installed_cmd("rg"), vec!["rpm", "-q", "rg"]);
    assert_eq!(Ecosystem::Apk.check_installed_cmd("rg"), vec!["apk", "info", "-e", "rg"]);
    assert_eq!(Ecosystem::Brew.check_installed_cmd("rg"), vec!["brew", "list", "rg"]);
    assert_eq!(Ecosystem::Nix.check_installed_cmd("rg"), vec!["nix-env", "-q", "rg"]);
    assert_eq!(Ecosystem::Scoop.check_installed_cmd("rg"), vec!["scoop", "list", "rg"]);
    assert_eq!(Ecosystem::Winget.check_installed_cmd("rg"), vec!["winget", "list", "--id", "rg"]);
    assert_eq!(Ecosystem::Cargo.check_installed_cmd("rg"), vec!["cargo", "install", "--list"]);
}

#[test]
fn sudo_is_for_system_package_managers() {
    assert!(Ecosystem::Pacman.needs_sudo());
    assert!(Ecosystem::Apt.needs_sudo());
    assert!(Ecosystem::Dnf.needs_sudo());
    assert!(Ecosystem::Apk.needs_sudo());
    assert!(!Ecosystem::Brew.needs_sudo());
    assert!(!Ecosystem::Nix.needs_sudo());
    assert!(!Ecosystem::Cargo.needs_sudo());
}

#[test]
fn detection_goes_by_the_programs_found() {
    let commands = vec!["cargo".to_string(), "nix-env".to_string(), "apt".to_string(), "ls".to_string()];
    let found = detect_ecosystems(&commands);
    assert_eq!(found, vec![Ecosystem::Apt, Ecosystem::Nix, Ecosystem::Cargo]);
    assert_eq!(detect_primary_ecosystem(&found), Some(Ecosystem::Apt));
    assert_eq!(detect_ecosystems(&vec!["nix".to_string()]), Vec::new());
    assert_eq!(detect_primary_ecosystem(&vec![Ecosystem::Cargo]), None);
    assert_eq!(detect_primary_ecosystem(&vec![Ecosystem::Brew, Ecosystem::Nix]), Some(Ecosystem::Nix));
    assert_eq!(detect_primary_ecosystem(&Vec::new()), None);
    assert_eq!(Ecosystem::Nix.binary(), "nix-env");
    assert_eq!(Ecosystem::Brew.binary(), "brew");
}

#[test]
fn default_config() {
    let config = UserConfig::default();
    assert_eq!(config.tools.source, ToolSource::PreferSystem);
}

#[test]
fn parse_all_sources() {
    for (s, expected) in [
        ("system", ToolSource::System),
        ("store", ToolSource::Store),
        ("prefer-system", ToolSource::PreferSystem),
        ("prefer-store", ToolSource::PreferStore),
    ] {
        let toml = format!("[tools]\nsource = \"{s}\"");
        let config = UserConfig::parse(&toml).unwrap();
        assert_eq!(config.tools.source, expected);
    }
}

#[test]
fn sources_by_name() {
    for (s, expected) in [
        ("system", ToolSource::System),
        ("store", ToolSource::Store),
        ("prefer-system", ToolSource::PreferSystem),
        ("prefer-store", ToolSource::PreferStore),
    ] {
        assert_eq!(parse_tool_source(s), Some(expected));
        assert_eq!(UserConfig::from_source(Some(s)).tools.source, expected);
        assert_eq!(expected.name(), s);
    }
    assert_eq!(parse_tool_source("anything"), None);
    assert_eq!(UserConfig::from_source(None).tools.source, ToolSource::PreferSystem);
    assert_eq!(UserConfig::load(None).tools.source, ToolSource::PreferSystem);
    assert_eq!(UserConfig::path_in("/cfg"), "/cfg/nursery/config.toml");
}

#[test]
fn user_configuration_lies_in_the_configuration_directory() {
    assert_eq!(
        UserConfig::default_path_in(Some("/home/me/.config".to_string())),
        Some("/home/me/.config/nursery/config.toml".to_string())
    );
    assert_eq!(UserConfig::default_path_in(None), None);
    if let Some(path) = UserConfig::default_path() {
        assert!(path.ends_with("/nursery/config.toml"));
    }
}
