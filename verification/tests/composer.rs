use cargo_flow::cargo::{Cargo, ConfigError, Metadata, Package};
use cargo_flow::cli::Cli;
use cargo_flow::command::Command;

fn cli() -> Cli {
    Cli {
        path: None,
        clean: false,
        lints: false,
        no_tests: false,
        package: None,
        no_default_features: false,
        features: Vec::new(),
        subcommand: None,
    }
}

fn package(name: &str, features: &[&str]) -> Package {
    Package {
        name: name.to_string(),
        features: features.iter().map(|f| f.to_string()).collect(),
    }
}

fn metadata(packages: Vec<Package>) -> Metadata {
    let workspace_members = packages.iter().map(|p| p.name.clone()).collect();
    Metadata { packages, workspace_members }
}

fn cargo(cli: Cli, metadata: Metadata) -> Cargo {
    Cargo::new(cli, "/work".to_string(), Ok(metadata)).unwrap()
}

fn lines(cargo: &Cargo) -> Vec<String> {
    let mut commands = cargo.commands();
    let mut out = Vec::new();
    for i in 0..commands.len() {
        out.push(commands.get(i).to_string());
    }
    assert_eq!(commands.len(), out.len());
    let _ = &mut commands;
    out
}

#[test]
fn single_package_without_features() {
    let cargo = cargo(cli(), metadata(vec![package("solo", &[])]));
    assert_eq!(
        lines(&cargo),
        vec![
            "cargo check",
            "cargo build",
            "cargo test",
            "cargo fmt --all -- --check",
            "cargo clippy --tests -- -D warnings",
        ]
    );
}

#[test]
fn workspace_with_features_carries_scope_and_all_features() {
    let cargo = cargo(cli(), metadata(vec![package("a", &["extra"]), package("b", &[])]));
    assert!(cargo.has_features());
    assert!(cargo.has_workspace());
    assert_eq!(
        lines(&cargo),
        vec![
            "cargo check --all-features --workspace",
            "cargo build --all-features --workspace",
            "cargo test --all-features --workspace",
            "cargo fmt --all -- --check",
            "cargo clippy --all-features --workspace --tests -- -D warnings",
        ]
    );
}

#[test]
fn package_filter_replaces_workspace_scope() {
    let mut config = cli();
    config.package = Some("a".to_string());
    let cargo = cargo(config, metadata(vec![package("a", &[]), package("b", &[])]));
    for command in [cargo.check(), cargo.build(), cargo.test(), cargo.clippy()] {
        let args = command.arguments();
        assert_eq!(args[1], "--package");
        assert_eq!(args[2], "a");
        assert!(!args.iter().any(|a| a == "--workspace"));
    }
    assert_eq!(cargo.check().to_string(), "cargo check --package a");
}

#[test]
fn format_check_follows_the_package_filter_and_never_the_features() {
    let mut config = cli();
    config.package = Some("a".to_string());
    config.features = vec!["x".to_string()];
    let cargo = cargo(config, metadata(vec![package("a", &["x"]), package("b", &[])]));
    assert_eq!(cargo.fmt().to_string(), "cargo fmt --package a -- --check");
    assert!(!cargo.fmt().arguments().iter().any(|a| a == "--all"));
    assert_eq!(
        lines(&cargo),
        vec![
            "cargo check --package a --features x",
            "cargo build --package a --features x",
            "cargo test --package a --features x",
            "cargo fmt --package a -- --check",
            "cargo clippy --package a --features x --tests -- -D warnings",
        ]
    );

    let mut config = cli();
    config.no_default_features = true;
    let unfiltered = self::cargo(config, metadata(vec![package("a", &["x"]), package("b", &[])]));
    assert_eq!(unfiltered.fmt().to_string(), "cargo fmt --all -- --check");
}

#[test]
fn feature_selection_follows_precedence() {
    let declared = || metadata(vec![package("a", &["extra"])]);

    let mut config = cli();
    config.no_default_features = true;
    config.features = vec!["x".to_string()];
    assert_eq!(cargo(config, declared()).build().to_string(), "cargo build --no-default-features");

    let mut config = cli();
    config.features = vec!["x".to_string(), "y".to_string()];
    assert_eq!(cargo(config, declared()).build().to_string(), "cargo build --features x,y");

    assert_eq!(cargo(cli(), declared()).build().to_string(), "cargo build --all-features");

    let plain = metadata(vec![package("a", &[])]);
    assert_eq!(cargo(cli(), plain).build().to_string(), "cargo build");
}

#[test]
fn at_most_one_feature_argument_per_stage() {
    let flags = ["--no-default-features", "--features", "--all-features"];
    for no_default in [false, true] {
        for named in [false, true] {
            for declared in [false, true] {
                let mut config = cli();
                config.no_default_features = no_default;
                if named {
                    config.features = vec!["x".to_string()];
                }
                let features: &[&str] = if declared { &["extra"] } else { &[] };
                let cargo = cargo(config, metadata(vec![package("a", features)]));
                for command in [cargo.check(), cargo.build(), cargo.test(), cargo.clippy()] {
                    let count = command
                        .arguments()
                        .iter()
                        .filter(|a| flags.contains(&a.as_str()))
                        .count();
                    assert!(count <= 1);
                    if !no_default && !named && !declared {
                        assert_eq!(count, 0);
                    }
                }
            }
        }
    }
}

#[test]
fn clean_comes_first_and_tests_can_be_left_out() {
    let mut config = cli();
    config.clean = true;
    config.no_tests = true;
    let cargo = cargo(config, metadata(vec![package("solo", &[])]));
    assert_eq!(
        lines(&cargo),
        vec![
            "cargo clean",
            "cargo check",
            "cargo build",
            "cargo fmt --all -- --check",
            "cargo clippy -- -D warnings",
        ]
    );
}

#[test]
fn relaxed_linting_allows_the_strict_groups() {
    let mut config = cli();
    config.lints = true;
    let cargo = cargo(config, metadata(vec![package("solo", &[])]));
    assert_eq!(
        cargo.clippy().to_string(),
        "cargo clippy --tests -- -A clippy::pedantic -A clippy::restriction -A clippy::cargo -D warnings"
    );
}

#[test]
fn commands_run_in_the_working_directory() {
    let cargo = cargo(cli(), metadata(vec![package("solo", &[])]));
    assert_eq!(cargo.working_dir(), "/work");
    assert_eq!(cargo.clean().current_dir(), "/work");
    assert_eq!(cargo.clean().program(), "cargo");
    assert_eq!(cargo.fmt().arguments().len(), 4);
}

#[test]
fn command_collects_its_arguments_in_order() {
    let mut command = Command::new(".");
    assert_eq!(command.to_string(), "cargo");
    command.arg("doc");
    command.args(&["--no-deps", "--open"]);
    assert_eq!(command.to_string(), "cargo doc --no-deps --open");
    assert_eq!(command.arguments().len(), 3);
}

#[test]
fn metadata_failure_is_a_configuration_error() {
    let failed = Cargo::new(cli(), "/nowhere".to_string(), Err("no Cargo.toml".to_string()));
    match failed {
        Err(error) => {
            assert!(matches!(error, ConfigError::Metadata { .. }));
            assert_eq!(
                error.to_string(),
                "failed to parse metadata of the project at /nowhere: no Cargo.toml"
            );
        }
        Ok(_) => panic!("a failed metadata query must not give a composer"),
    }
}

#[test]
fn working_directory_prefers_the_configured_path() {
    let mut config = cli();
    config.path = Some("/given".to_string());
    assert_eq!(config.working_dir(Some("/current".to_string())).unwrap(), "/given");
    assert_eq!(cli().working_dir(Some("/current".to_string())).unwrap(), "/current");
    let missing = cli().working_dir(None).unwrap_err();
    assert!(matches!(missing, ConfigError::WorkingDir));
    assert_eq!(missing.to_string(), "failed to determine working directory");
}

#[test]
fn workspace_needs_more_than_one_member() {
    assert!(!metadata(vec![package("solo", &["f"])]).has_workspace());
    assert!(metadata(vec![package("a", &[]), package("b", &[])]).has_workspace());
    assert!(!metadata(vec![package("a", &[]), package("b", &[])]).has_features());
    assert!(metadata(vec![package("a", &[]), package("b", &["f"])]).has_features());
    assert!(!metadata(Vec::new()).has_features());
}
