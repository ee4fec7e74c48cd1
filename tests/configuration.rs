use nixpkgs_using::detect_configuration;
use nixpkgs_using::nix::{
    common_extra_packages, configuration_attribute, is_common_extra, nix_eval_arguments,
    nix_packages_expression, package_names, remove_common_extras, ConfigError,
};
use nixpkgs_using::repository::split_repository;

#[test]
fn configuration_kind_per_system() {
    assert_eq!(detect_configuration("linux", true).unwrap(), "nixosConfigurations");
    assert_eq!(detect_configuration("linux", false).unwrap(), "homeConfigurations");
    assert_eq!(detect_configuration("macos", false).unwrap(), "darwinConfigurations");
    assert_eq!(detect_configuration("windows", false), Err(ConfigError::UnsupportedOperatingSystem));
}

#[test]
fn attribute_joins_kind_and_host() {
    assert_eq!(configuration_attribute("nixosConfigurations", "laptop"), "nixosConfigurations.laptop");
}

#[test]
fn expression_with_both_package_sources() {
    assert_eq!(
        nix_packages_expression("/etc/nixos", "nixosConfigurations.laptop", "alice", true, true),
        "(builtins.getFlake \"/etc/nixos\").nixosConfigurations.laptop.config.environment.systemPackages ++ (builtins.getFlake \"/etc/nixos\").nixosConfigurations.laptop.config.home-manager.users.alice.home.packages"
    );
}

#[test]
fn expression_with_one_source_or_none() {
    assert_eq!(
        nix_packages_expression("f", "c", "u", true, false),
        "(builtins.getFlake \"f\").c.config.environment.systemPackages"
    );
    assert_eq!(
        nix_packages_expression("f", "c", "u", false, true),
        "[] ++ (builtins.getFlake \"f\").c.config.home-manager.users.u.home.packages"
    );
    assert_eq!(nix_packages_expression("f", "c", "u", false, false), "[]");
}

#[test]
fn evaluation_arguments() {
    assert_eq!(
        nix_eval_arguments("[]"),
        vec!["eval", "--impure", "--json", "--expr", "[]", "--apply", "map (pkg: (builtins.parseDrvName pkg.name).name)"]
    );
}

#[test]
fn common_extras_are_recognised() {
    assert_eq!(common_extra_packages().len(), 13);
    assert!(is_common_extra("nix"));
    assert!(is_common_extra("darwin-help"));
    assert!(is_common_extra("hm-session-vars.sh"));
    assert!(!is_common_extra("nixfmt"));
    assert!(!is_common_extra(""));
}

#[test]
fn removing_extras_keeps_order() {
    let mut names: Vec<String> = ["git", "nix", "zsh", "dummy-fc-dir1", "firefox"].iter().map(|s| s.to_string()).collect();
    remove_common_extras(&mut names);
    assert_eq!(names, vec!["git", "zsh", "firefox"]);
}

#[test]
fn package_names_from_evaluator_output() {
    assert_eq!(package_names("[\"firefox\",\"nix\",\"git\"]").unwrap(), vec!["firefox", "git"]);
    assert_eq!(package_names(" [] ").unwrap(), Vec::<String>::new());
}

#[test]
fn package_names_reject_other_json() {
    assert_eq!(package_names("[1, 2]"), Err(ConfigError::InvalidPackageList));
    assert_eq!(package_names("{\"a\": \"b\"}"), Err(ConfigError::InvalidPackageList));
    assert_eq!(package_names("not json"), Err(ConfigError::InvalidPackageList));
}

#[test]
fn repository_splits_at_its_slash() {
    assert_eq!(split_repository("nixos/nixpkgs").unwrap(), ("nixos".to_string(), "nixpkgs".to_string()));
    assert_eq!(split_repository("/x").unwrap(), (String::new(), "x".to_string()));
}

#[test]
fn repository_needs_exactly_one_slash() {
    assert_eq!(split_repository("nixpkgs"), Err(ConfigError::InvalidRepository));
    assert_eq!(split_repository("a/b/c"), Err(ConfigError::InvalidRepository));
    assert_eq!(split_repository(""), Err(ConfigError::InvalidRepository));
}
