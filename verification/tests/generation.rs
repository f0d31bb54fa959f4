use cargo_flow::cargo::{Cargo, Metadata, Package};
use cargo_flow::cli::{Cli, SubCommand};
use cargo_flow::generate::{Generate, GenerateError, Plan, Stored};
use cargo_flow::parse::DocumentError;
use cargo_flow::workflow::{Task, With};

fn cargo(clean: bool) -> Cargo {
    let cli = Cli {
        path: None,
        clean,
        lints: false,
        no_tests: false,
        package: None,
        no_default_features: false,
        features: Vec::new(),
        subcommand: None,
    };
    let metadata = Metadata {
        packages: vec![Package { name: "solo".to_string(), features: Vec::new() }],
        workspace_members: vec!["solo".to_string()],
    };
    Cargo::new(cli, "/work".to_string(), Ok(metadata)).unwrap()
}

fn options() -> Generate {
    Generate {
        name: None,
        no_push: false,
        push: None,
        pull_request: None,
        runs_on: None,
        no_cache: false,
        execute: false,
    }
}

const PRETTY: &str = "name: rust\n\non:\n  push:\n    branches:\n    - main\n\njobs:\n  checks:\n    runs-on: ubuntu-latest\n    steps:\n    - name: Checkout source\n      uses: Actions/checkout@v3\n\n    - uses: Swatinem/rust-cache@v2\n      with:\n        cache_on_failure: true\n\n    - name: check\n      run: cargo check\n\n    - name: build\n      run: cargo build\n\n    - name: test\n      run: cargo test\n\n    - name: fmt\n      run: cargo fmt --all -- --check\n\n    - name: clippy\n      run: cargo clippy --tests -- -D warnings";

#[test]
fn defaults_give_the_conventional_workflow() {
    let workflow = options().to_workflow("/work", &cargo(false)).unwrap();
    assert_eq!(workflow.path, "/work/.github/workflows/rust.yml");
    assert_eq!(workflow.name, "rust");
    assert_eq!(workflow.on.push.branches, vec!["main"]);
    assert!(workflow.on.pull_request.branches.is_empty());
    assert_eq!(workflow.jobs.checks.runs_on, "ubuntu-latest");
    let steps = &workflow.jobs.checks.steps;
    assert_eq!(steps.len(), 7);
    assert_eq!(steps[0].name.as_deref(), Some("Checkout source"));
    assert_eq!(steps[0].task, Task::Uses("Actions/checkout@v3".to_string()));
    assert_eq!(steps[1].name, None);
    assert_eq!(steps[1].task, Task::Uses("Swatinem/rust-cache@v2".to_string()));
    assert_eq!(steps[1].with, Some(With { cache_on_failure: true }));
    assert_eq!(steps[5].name.as_deref(), Some("fmt"));
    assert_eq!(steps[5].task, Task::Run("cargo fmt --all -- --check".to_string()));
    assert_eq!(steps[5].with, None);
    assert_eq!(workflow.serialize_pretty().unwrap(), PRETTY);
}

#[test]
fn options_shape_the_workflow() {
    let mut generate = options();
    generate.name = Some("ci".to_string());
    generate.push = Some("main dev".to_string());
    generate.pull_request = Some("main".to_string());
    generate.runs_on = Some("macos-latest".to_string());
    generate.no_cache = true;
    assert_eq!(generate.workflow_name(), "ci");
    assert_eq!(generate.workflow_path("proj"), "proj/.github/workflows/ci.yml");
    assert_eq!(generate.workflow_path("proj/"), "proj/.github/workflows/ci.yml");
    assert_eq!(generate.workflow_path("/"), "/.github/workflows/ci.yml");
    assert_eq!(generate.workflow_path(""), ".github/workflows/ci.yml");
    let workflow = generate.to_workflow("proj", &cargo(true)).unwrap();
    assert_eq!(workflow.path, "proj/.github/workflows/ci.yml");
    assert_eq!(workflow.name, "ci");
    assert_eq!(workflow.on.push.branches, vec!["main", "dev"]);
    assert_eq!(workflow.on.pull_request.branches, vec!["main"]);
    assert_eq!(workflow.jobs.checks.runs_on, "macos-latest");
    let steps = &workflow.jobs.checks.steps;
    assert_eq!(steps.len(), 7);
    assert_eq!(steps[1].name.as_deref(), Some("clean"));
    assert_eq!(steps[1].task, Task::Run("cargo clean".to_string()));
}

#[test]
fn pull_request_branches_do_not_follow_the_push_branches() {
    let mut generate = options();
    generate.push = Some("release".to_string());
    let workflow = generate.to_workflow("/work", &cargo(false)).unwrap();
    assert_eq!(workflow.on.push.branches, vec!["release"]);
    assert!(workflow.on.pull_request.branches.is_empty());

    let mut generate = options();
    generate.no_push = true;
    generate.pull_request = Some("main".to_string());
    let workflow = generate.to_workflow("/work", &cargo(false)).unwrap();
    assert!(workflow.on.push.branches.is_empty());
    assert_eq!(workflow.on.pull_request.branches, vec!["main"]);
}

#[test]
fn several_platforms_are_refused() {
    let mut generate = options();
    generate.runs_on = Some("ubuntu-latest macos-latest".to_string());
    assert_eq!(
        generate.to_workflow("/work", &cargo(false)).unwrap_err(),
        GenerateError::MultiplePlatforms
    );
}

#[test]
fn a_persisted_document_is_up_to_date_when_rebuilt() {
    let mut generate = options();
    generate.execute = true;
    let fresh = generate.to_workflow("/work", &cargo(false)).unwrap();
    let written = match generate.generate(&fresh, &Stored::Missing).unwrap() {
        Plan::Create(text) => text,
        other => panic!("expected a creation, got {:?}", other),
    };
    let again = generate.to_workflow("/work", &cargo(false)).unwrap();
    let plan = generate.generate(&again, &Stored::Text(written)).unwrap();
    assert!(matches!(plan, Plan::UpToDate));
    assert_eq!(plan.message(&fresh.path), "Workflow is up to date");
}

#[test]
fn a_stale_document_is_replaced_only_on_request() {
    let mut generate = options();
    let fresh = generate.to_workflow("/work", &cargo(false)).unwrap();
    let stale = generate.to_workflow("/work", &cargo(true)).unwrap();
    let stored = Stored::Text(stale.serialize_pretty().unwrap());

    let plan = generate.generate(&fresh, &stored).unwrap();
    assert!(matches!(plan, Plan::CanBeUpdated));
    assert_eq!(plan.message(&fresh.path), "Workflow can be updated");

    generate.execute = true;
    let plan = generate.generate(&fresh, &stored).unwrap();
    assert_eq!(plan.message(&fresh.path), "Workflow updated at /work/.github/workflows/rust.yml");
    match plan {
        Plan::Update(text) => assert_eq!(text, PRETTY),
        other => panic!("expected an update, got {:?}", other),
    }
}

#[test]
fn a_missing_document_is_created_only_on_request() {
    let mut generate = options();
    let fresh = generate.to_workflow("/work", &cargo(false)).unwrap();

    let plan = generate.generate(&fresh, &Stored::Missing).unwrap();
    assert!(matches!(plan, Plan::Missing));
    assert_eq!(plan.message(&fresh.path), "Workflow file doesn't exist");

    generate.execute = true;
    let plan = generate.generate(&fresh, &Stored::Missing).unwrap();
    assert_eq!(plan.message(&fresh.path), "Workflow created at /work/.github/workflows/rust.yml");
    match plan {
        Plan::Create(text) => assert_eq!(text, PRETTY),
        other => panic!("expected a creation, got {:?}", other),
    }
}

#[test]
fn a_document_that_cannot_be_used_is_an_error() {
    let mut generate = options();
    generate.execute = true;
    let fresh = generate.to_workflow("/work", &cargo(false)).unwrap();

    let unreadable = Stored::Unreadable("permission denied".to_string());
    let error = generate.generate(&fresh, &unreadable).unwrap_err();
    assert_eq!(
        error,
        GenerateError::Document(DocumentError::Unreadable("permission denied".to_string()))
    );
    assert_eq!(error.to_string(), "failed to read workflow file: permission denied");

    let malformed = Stored::Text("name: rust\nsteps: 3\n".to_string());
    let error = generate.generate(&fresh, &malformed).unwrap_err();
    assert_eq!(
        error,
        GenerateError::Document(DocumentError::Malformed {
            line: Some(2),
            cause: "expected `on:`".to_string(),
        })
    );
    assert_eq!(
        error.to_string(),
        "failed to deserialize workflow file: line 2: expected `on:`"
    );

    let broken = Stored::Text("name: [".to_string());
    match generate.generate(&fresh, &broken).unwrap_err() {
        GenerateError::Document(DocumentError::Malformed { line, cause }) => {
            assert_eq!(line, Some(1));
            assert!(!cause.is_empty());
        }
        other => panic!("expected a malformed text, got {:?}", other),
    }
    generate.execute = false;
    assert!(generate.generate(&fresh, &broken).is_err());

    assert_eq!(
        GenerateError::MultiplePlatforms.to_string(),
        "multiple platforms are not supported"
    );
    assert_eq!(GenerateError::NotSerializable.to_string(), "failed to serialize workflow");
}

#[test]
fn a_document_that_would_not_read_back_is_not_written() {
    let mut generate = options();
    generate.name = Some("two\nlines".to_string());
    let fresh = generate.to_workflow("/work", &cargo(false)).unwrap();
    assert!(!fresh.round_trips());

    let plan = generate.generate(&fresh, &Stored::Missing).unwrap();
    assert!(matches!(plan, Plan::Missing));

    generate.execute = true;
    let error = generate.generate(&fresh, &Stored::Missing).unwrap_err();
    assert_eq!(error, GenerateError::NotSerializable);

    let stale = options().to_workflow("/work", &cargo(false)).unwrap();
    let stored = Stored::Text(stale.serialize_pretty().unwrap());
    let error = generate.generate(&fresh, &stored).unwrap_err();
    assert_eq!(error, GenerateError::NotSerializable);
}

#[test]
fn the_generation_mode_is_a_subcommand() {
    let cli = Cli {
        path: Some("/work".to_string()),
        clean: false,
        lints: false,
        no_tests: false,
        package: None,
        no_default_features: false,
        features: Vec::new(),
        subcommand: Some(SubCommand::Generate(options())),
    };
    match cli.subcommand {
        Some(SubCommand::Generate(generate)) => assert!(!generate.execute),
        None => panic!("the subcommand was set"),
    }
}
