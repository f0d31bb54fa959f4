use cargo_flow::parse::DocumentError;
use cargo_flow::pretty::{lines, prettify, space_out};
use cargo_flow::roundtrip::survives;
use cargo_flow::text::{join_with, split_on, to_decimal};
use cargo_flow::workflow::{Branches, Checks, Jobs, On, Step, Task, With, Workflow};

fn run(name: &str, line: &str) -> Step {
    Step { name: Some(name.to_string()), task: Task::Run(line.to_string()), with: None }
}

fn branches(names: &[&str]) -> Branches {
    Branches { branches: names.iter().map(|b| b.to_string()).collect() }
}

fn rust_workflow() -> Workflow {
    Workflow {
        path: ".github/workflows/rust.yml".to_string(),
        name: "rust".to_string(),
        on: On { push: branches(&["main"]), pull_request: branches(&[]) },
        jobs: Jobs {
            checks: Checks {
                runs_on: "ubuntu-latest".to_string(),
                steps: vec![
                    Step {
                        name: Some("Checkout source".to_string()),
                        task: Task::Uses("Actions/checkout@v3".to_string()),
                        with: None,
                    },
                    Step {
                        name: None,
                        task: Task::Uses("Swatinem/rust-cache@v2".to_string()),
                        with: Some(With { cache_on_failure: true }),
                    },
                    run("check", "cargo check"),
                    run("build", "cargo build"),
                    run("test", "cargo test"),
                    run("fmt", "cargo fmt --all -- --check"),
                    run("clippy", "cargo clippy --tests -- -D warnings"),
                ],
            },
        },
    }
}

#[test]
fn serialize_pretty() {
    let workflow = rust_workflow();
    assert_eq!(workflow.serialize_pretty().unwrap(), "name: rust\n\non:\n  push:\n    branches:\n    - main\n\njobs:\n  checks:\n    runs-on: ubuntu-latest\n    steps:\n    - name: Checkout source\n      uses: Actions/checkout@v3\n\n    - uses: Swatinem/rust-cache@v2\n      with:\n        cache_on_failure: true\n\n    - name: check\n      run: cargo check\n\n    - name: build\n      run: cargo build\n\n    - name: test\n      run: cargo test\n\n    - name: fmt\n      run: cargo fmt --all -- --check\n\n    - name: clippy\n      run: cargo clippy --tests -- -D warnings");
}

#[test]
fn plain_text_has_no_blank_line() {
    let text = rust_workflow().to_yaml().unwrap();
    assert!(text.starts_with("name: rust\non:\n  push:\n    branches:\n    - main\njobs:\n  checks:\n    runs-on: ubuntu-latest\n    steps:\n    - name: Checkout source\n      uses: Actions/checkout@v3\n    - uses: Swatinem/rust-cache@v2\n      with:\n        cache_on_failure: true\n    - name: check\n      run: cargo check\n"));
    assert!(text.ends_with("    - name: clippy\n      run: cargo clippy --tests -- -D warnings\n"));
    assert!(!text.contains("\n\n"));
}

#[test]
fn strings_that_yaml_would_misread_are_quoted() {
    let mut workflow = rust_workflow();
    workflow.name = "true".to_string();
    workflow.jobs.checks.runs_on = "a: b".to_string();
    let text = workflow.to_yaml().unwrap();
    assert!(text.starts_with("name: 'true'\n"));
    assert!(text.contains("\n    runs-on: 'a: b'\n"));
}

#[test]
fn every_branch_after_the_first_is_set_apart() {
    let mut workflow = rust_workflow();
    workflow.on = On { push: branches(&["main", "dev"]), pull_request: branches(&["main"]) };
    workflow.jobs.checks.steps.truncate(1);
    assert_eq!(
        workflow.on.to_yaml().unwrap(),
        "push:\n  branches:\n  - main\n  - dev\npull_request:\n  branches:\n  - main\n"
    );
    assert_eq!(
        workflow.serialize_pretty().unwrap(),
        "name: rust\n\non:\n  push:\n    branches:\n    - main\n\n    - dev\n  pull_request:\n    branches:\n\n    - main\n\njobs:\n  checks:\n    runs-on: ubuntu-latest\n    steps:\n    - name: Checkout source\n      uses: Actions/checkout@v3"
    );
}

#[test]
fn empty_parts_are_written_as_empty_collections() {
    let mut workflow = rust_workflow();
    workflow.on = On { push: branches(&[]), pull_request: branches(&[]) };
    workflow.jobs.checks.steps.clear();
    assert!(workflow.on.push.is_empty());
    assert_eq!(workflow.on.push.to_yaml().unwrap(), "");
    assert_eq!(workflow.on.to_yaml().unwrap(), "");
    assert_eq!(
        workflow.to_yaml().unwrap(),
        "name: rust\non: {}\njobs:\n  checks:\n    runs-on: ubuntu-latest\n    steps: []\n"
    );
    let step = Step {
        name: None,
        task: Task::Run("make".to_string()),
        with: Some(With { cache_on_failure: false }),
    };
    assert_eq!(step.to_yaml().unwrap(), "- run: make\n  with: {}\n");
}

#[test]
fn parts_render_on_their_own() {
    let workflow = rust_workflow();
    assert!(!workflow.on.push.is_empty());
    assert_eq!(workflow.on.push.to_yaml().unwrap(), "branches:\n- main\n");
    assert_eq!(
        workflow.jobs.checks.steps[1].to_yaml().unwrap(),
        "- uses: Swatinem/rust-cache@v2\n  with:\n    cache_on_failure: true\n"
    );
    let jobs = workflow.jobs.to_yaml().unwrap();
    assert!(jobs.starts_with("checks:\n  runs-on: ubuntu-latest\n  steps:\n  - name: Checkout source\n"));
    let checks = workflow.jobs.checks.to_yaml().unwrap();
    assert!(checks.starts_with("runs-on: ubuntu-latest\nsteps:\n- name: Checkout source\n  uses: Actions/checkout@v3\n"));
}

#[test]
fn a_command_of_several_lines_keeps_its_lines_inside_the_step() {
    let step = run("script", "echo one\necho two");
    assert_eq!(step.to_yaml().unwrap(), "- name: script\n  run: |-\n    echo one\n    echo two\n");
}

#[test]
fn documents_compare_field_by_field() {
    let a = rust_workflow();
    let mut b = rust_workflow();
    assert!(a.same_as(&b));
    assert_eq!(a, b);
    b.path = "elsewhere.yml".to_string();
    assert!(!a.same_as(&b));
    let mut c = rust_workflow();
    c.jobs.checks.steps[2] = run("check", "cargo check --workspace");
    assert!(!a.same_as(&c));
    assert!(!a.jobs.checks.steps[2].same_as(&c.jobs.checks.steps[2]));
    let mut d = rust_workflow();
    d.on.pull_request = branches(&["main"]);
    assert!(!a.same_as(&d));
    let mut e = rust_workflow();
    e.jobs.checks.steps[1].with = Some(With { cache_on_failure: false });
    assert!(!a.jobs.checks.same_as(&e.jobs.checks));
}

#[test]
fn blank_line_before_each_top_level_line_after_text() {
    assert_eq!(prettify("a: 1\nb: 2\nc:\n  d: 3\ne: 4\n"), "a: 1\n\nb: 2\n\nc:\n  d: 3\n\ne: 4");
}

#[test]
fn blank_line_between_items_but_not_before_the_first() {
    assert_eq!(prettify("list:\n  - a\n  - b\n  - c\n"), "list:\n  - a\n\n  - b\n\n  - c");
}

#[test]
fn the_list_flag_survives_indented_lines_and_ends_at_top_level() {
    assert_eq!(
        prettify("x:\n  - a\n  y:\n  - b\nz:\n  - c\n"),
        "x:\n  - a\n  y:\n\n  - b\n\nz:\n  - c"
    );
}

#[test]
fn the_first_line_never_opens_a_list() {
    assert_eq!(prettify("- a\n- b\n- c"), "- a\n\n- b\n\n\n- c");
}

#[test]
fn a_dash_without_text_after_it_is_no_item() {
    let spaced = space_out(&vec!["k:".to_string(), "  - a".to_string(), "  - ".to_string(), "  -b".to_string()]);
    assert_eq!(spaced, vec!["k:", "  - a", "  - ", "  -b"]);
    let spaced = space_out(&vec!["k:".to_string(), "\t- a".to_string(), "\u{a0}- b".to_string()]);
    assert_eq!(spaced, vec!["k:", "", "\t- a", "", "", "\u{a0}- b"]);
}

#[test]
fn short_texts_pass_unchanged() {
    assert_eq!(prettify(""), "");
    assert_eq!(prettify("one"), "one");
    assert_eq!(prettify("one\n"), "one");
    assert!(space_out(&Vec::new()).is_empty());
}

#[test]
fn lines_end_at_line_feeds() {
    assert_eq!(lines("a\nb\n"), vec!["a", "b"]);
    assert_eq!(lines("a\nb"), vec!["a", "b"]);
    assert_eq!(lines("a\n\n"), vec!["a", ""]);
    assert!(lines("").is_empty());
}

#[test]
fn split_and_join_are_inverse_on_the_separator() {
    assert_eq!(split_on("main dev", ' '), vec!["main", "dev"]);
    assert_eq!(split_on("", ' '), vec![""]);
    assert_eq!(split_on(" a  b ", ' '), vec!["", "a", "", "b", ""]);
    assert_eq!(split_on("héllo wörld", ' '), vec!["héllo", "wörld"]);
    let parts = split_on("x,y,,z", ',');
    assert_eq!(join_with(&parts, ","), "x,y,,z");
    assert_eq!(join_with(&Vec::new(), ","), "");
    assert_eq!(join_with(&vec!["solo".to_string()], ", "), "solo");
}

#[test]
fn the_pretty_text_reads_back_as_the_document() {
    let workflow = rust_workflow();
    let text = workflow.serialize_pretty().unwrap();
    let read = Workflow::parse(&text, ".github/workflows/rust.yml").unwrap();
    assert_eq!(read, workflow);
    assert_eq!(read.serialize_pretty().unwrap(), text);
}

#[test]
fn the_plain_text_reads_back_as_the_document() {
    let mut workflow = rust_workflow();
    workflow.on = On { push: branches(&["main", "dev"]), pull_request: branches(&["main"]) };
    workflow.jobs.checks.steps[1].with = Some(With { cache_on_failure: false });
    let text = workflow.to_yaml().unwrap();
    let read = Workflow::parse(&text, &workflow.path).unwrap();
    assert_eq!(read, workflow);
}

#[test]
fn quoted_strings_read_back_as_they_were() {
    let mut workflow = rust_workflow();
    workflow.name = "true".to_string();
    workflow.jobs.checks.runs_on = "a: b".to_string();
    workflow.on.push = branches(&["- odd", "1.0"]);
    workflow.jobs.checks.steps[2] = run("it's", "echo \"#\" && exit");
    let text = workflow.serialize_pretty().unwrap();
    let read = Workflow::parse(&text, &workflow.path).unwrap();
    assert_eq!(read, workflow);
    assert_eq!(read.serialize_pretty().unwrap(), text);
}

#[test]
fn empty_parts_read_back_as_empty() {
    let mut workflow = rust_workflow();
    workflow.on = On { push: branches(&[]), pull_request: branches(&[]) };
    workflow.jobs.checks.steps.clear();
    let text = workflow.serialize_pretty().unwrap();
    assert_eq!(text, "name: rust\n\non: {}\n\njobs:\n  checks:\n    runs-on: ubuntu-latest\n    steps: []");
    assert_eq!(Workflow::parse(&text, &workflow.path).unwrap(), workflow);

    workflow.on.pull_request = branches(&["main"]);
    let text = workflow.serialize_pretty().unwrap();
    assert_eq!(Workflow::parse(&text, &workflow.path).unwrap(), workflow);
}

#[test]
fn the_path_comes_from_the_caller() {
    let text = rust_workflow().serialize_pretty().unwrap();
    let read = Workflow::parse(&text, "/elsewhere/ci.yml").unwrap();
    assert_eq!(read.path, "/elsewhere/ci.yml");
    assert!(!read.same_as(&rust_workflow()));
}

fn fault(text: &str) -> (Option<usize>, String) {
    match Workflow::parse(text, "p") {
        Err(DocumentError::Malformed { line, cause }) => (line, cause),
        other => panic!("expected a malformed text, got {:?} for {:?}", other, text),
    }
}

#[test]
fn other_layouts_are_malformed() {
    let expect = |text: &str, line: Option<usize>, cause: &str| {
        assert_eq!(fault(text), (line, cause.to_string()), "{:?}", text)
    };
    expect("", None, "expected `name: `");
    expect("\n\n", None, "expected `name: `");
    expect("name: rust\n", None, "expected `on:`");
    expect("name: rust\non: {}\n", None, "expected `jobs:`");
    expect("name: rust\nsteps: 3\n", Some(2), "expected `on:`");
    expect(
        "on: {}\nname: rust\njobs:\n  checks:\n    runs-on: x\n    steps: []\n",
        Some(1),
        "expected `name: `",
    );
    expect(
        "name: rust\non: {}\njobs:\n  checks:\n    runs-on: x\n",
        None,
        "expected `steps:`",
    );
    expect(
        "name: rust\non: {}\njobs:\n  checks:\n    runs-on: x\n    steps: []\nextra: 1\n",
        Some(7),
        "unexpected line",
    );
    expect(
        "name: rust\non: {}\njobs:\n  checks:\n    steps: []\n    runs-on: x\n",
        Some(5),
        "expected `runs-on: `",
    );
    expect(
        "name: rust\non:\n  push:\n    branches: [main]\njobs:\n  checks:\n    runs-on: x\n    steps: []\n",
        Some(4),
        "expected `branches:`",
    );
    expect(
        "name: rust\non:\n  push:\n    branches:\n    - main\n    main\njobs:\n  checks:\n    runs-on: x\n    steps: []\n",
        Some(6),
        "expected `- `",
    );
    expect(
        "name: rust\non:\n  pull_request:\n    branches:\n    - main\n  push:\n    branches:\n    - main\njobs:\n  checks:\n    runs-on: x\n    steps: []\n",
        Some(6),
        "unexpected line",
    );
    expect(
        "name: rust\non: {}\njobs:\n  checks:\n    runs-on: x\n    steps:\n    - name: only a name\n",
        None,
        "expected `uses: ` or `run: `",
    );
    expect(
        "name: rust\non: {}\njobs:\n  checks:\n    runs-on: x\n    steps:\n    - name: a\n      with: {}\n",
        Some(8),
        "expected `uses: ` or `run: `",
    );
    expect(
        "name: rust\non: {}\njobs:\n  checks:\n    runs-on: x\n    steps:\n    - uses: a\n      run: b\n",
        Some(8),
        "expected `with:`",
    );
    expect(
        "name: rust\non: {}\njobs:\n  checks:\n    runs-on: x\n    steps:\n    - run: a\n    run: b\n",
        Some(8),
        "expected `- `",
    );
    expect(
        "name: rust\non: {}\njobs:\n  checks:\n    runs-on: x\n    steps:\n    - run: b\n      with: {}\n      more: 1\n",
        Some(9),
        "unexpected line",
    );
    expect(
        "name: rust\non: {}\njobs:\n  build:\n    runs-on: x\n    steps: []\n",
        Some(4),
        "expected `checks:`",
    );
}

#[test]
fn the_line_of_a_fault_counts_the_blank_lines() {
    let text = "name: rust\n\non: {}\n\njobs:\n  checks:\n    runs-on: x\n    steps:\n    - run: b\n      with:\n        cache_on_failure: false\n";
    assert_eq!(fault(text), (Some(11), "expected `  cache_on_failure: true`".to_string()));
    let error = Workflow::parse(text, "p").unwrap_err();
    assert_eq!(
        error.to_string(),
        "failed to deserialize workflow file: line 11: expected `  cache_on_failure: true`"
    );
    let early = Workflow::parse("name: rust\n", "p").unwrap_err();
    assert_eq!(
        early.to_string(),
        "failed to deserialize workflow file: end of text: expected `on:`"
    );
}

#[test]
fn a_value_that_is_no_string_keeps_the_cause_of_the_yaml_reader() {
    let (line, cause) = fault("name: [a, b]\non: {}\njobs:\n  checks:\n    runs-on: x\n    steps: []\n");
    assert_eq!(line, Some(1));
    assert!(cause.contains("expected a string"), "{:?}", cause);
    let (line, cause) = fault("name: rust\non: {}\njobs:\n  checks:\n    runs-on: 'x\n    steps: []\n");
    assert_eq!(line, Some(5));
    assert!(!cause.is_empty());
    assert_eq!(
        DocumentError::Unreadable("gone".to_string()).to_string(),
        "failed to read workflow file: gone"
    );
}

#[test]
fn line_numbers_are_written_in_decimal() {
    assert_eq!(to_decimal(0), "0");
    assert_eq!(to_decimal(7), "7");
    assert_eq!(to_decimal(10), "10");
    assert_eq!(to_decimal(120), "120");
    assert_eq!(to_decimal(9876543210), "9876543210");
}

#[test]
fn strings_of_one_line_survive() {
    for s in ["main", "true", "a: b", "- odd", "", " padded ", "it's", "\"quoted\"", "#", "1.0", "~", "ünïcödé"] {
        assert!(survives(s), "{:?}", s);
    }
}

#[test]
fn strings_of_several_lines_do_not_survive() {
    assert!(!survives("one\ntwo"));
    assert!(!survives("trailing\n"));
}

#[test]
fn a_document_survives_when_all_its_strings_do() {
    let workflow = rust_workflow();
    assert!(workflow.round_trips());
    assert!(workflow.jobs.checks.steps[0].round_trips());

    let mut script = rust_workflow();
    script.jobs.checks.steps[2] = run("check", "cargo check\ncargo doc");
    assert!(!script.round_trips());
    assert!(!script.jobs.checks.steps[2].round_trips());
    assert!(script.to_yaml().is_some());
    assert_eq!(script.serialize_pretty(), None);

    let mut branch = rust_workflow();
    branch.on.pull_request = branches(&["main", "a\nb"]);
    assert!(!branch.round_trips());

    let mut named = rust_workflow();
    named.jobs.checks.steps[0].name = Some("two\nlines".to_string());
    assert!(!named.round_trips());
}

#[test]
fn whatever_survives_reads_back() {
    let mut workflow = rust_workflow();
    workflow.name = "release: nightly".to_string();
    workflow.on = On { push: branches(&["main", "v1.0", "'q'"]), pull_request: branches(&["*"]) };
    workflow.jobs.checks.runs_on = "[self-hosted]".to_string();
    workflow.jobs.checks.steps.push(Step {
        name: Some("- tricky".to_string()),
        task: Task::Run("  echo {} # not a comment".to_string()),
        with: Some(With { cache_on_failure: false }),
    });
    assert!(workflow.round_trips());
    for text in [workflow.to_yaml().unwrap(), workflow.serialize_pretty().unwrap()] {
        let read = Workflow::parse(&text, &workflow.path).unwrap();
        assert_eq!(read, workflow);
        assert_eq!(read.serialize_pretty(), workflow.serialize_pretty());
    }
}
