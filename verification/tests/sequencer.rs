use cargo_flow::command::{Action, Command, Commands, Outcome};

fn pipeline(n: usize) -> Commands {
    let mut commands = Commands::new();
    for i in 0..n {
        let mut command = Command::new(".");
        command.arg(&format!("stage{}", i + 1));
        commands.push(command);
    }
    commands
}

/// Runs `commands` as a caller would, with the executor answering from `script`.
fn drive(mut commands: Commands, script: &[fn() -> Outcome]) -> (Vec<String>, Action) {
    let mut ran = Vec::new();
    let mut last = None;
    loop {
        match commands.status(last) {
            Action::Run(command) => {
                let outcome = script[ran.len()]();
                ran.push(command.to_string());
                last = Some(outcome);
            }
            end => {
                assert_eq!(commands.len(), 0);
                return (ran, end);
            }
        }
    }
}

fn ok() -> Outcome {
    Outcome::Success
}

fn fail() -> Outcome {
    Outcome::Failure
}

fn missing() -> Outcome {
    Outcome::SpawnError("No such file or directory".to_string())
}

#[test]
fn all_successes_run_every_invocation() {
    let (ran, end) = drive(pipeline(3), &[ok, ok, ok]);
    assert_eq!(ran, vec!["cargo stage1", "cargo stage2", "cargo stage3"]);
    assert!(matches!(end, Action::Finish));
}

#[test]
fn failure_of_the_third_of_five_halts_after_three() {
    let (ran, end) = drive(pipeline(5), &[ok, ok, fail, ok, ok]);
    assert_eq!(ran, vec!["cargo stage1", "cargo stage2", "cargo stage3"]);
    assert!(matches!(end, Action::Halt));
}

#[test]
fn spawn_failure_of_the_first_is_fatal_and_nothing_else_runs() {
    let (ran, end) = drive(pipeline(5), &[missing, ok, ok, ok, ok]);
    assert_eq!(ran, vec!["cargo stage1"]);
    match end {
        Action::Abort(message) => {
            assert_eq!(message, "failed to run command: No such file or directory")
        }
        other => panic!("expected a fatal error, got {:?}", other),
    }
}

#[test]
fn empty_pipeline_finishes_at_once() {
    let (ran, end) = drive(pipeline(0), &[]);
    assert!(ran.is_empty());
    assert!(matches!(end, Action::Finish));
}

#[test]
fn a_stopped_pipeline_stays_empty() {
    let mut commands = pipeline(4);
    assert!(matches!(commands.status(None), Action::Run(_)));
    assert_eq!(commands.len(), 3);
    assert!(matches!(commands.status(Some(Outcome::Failure)), Action::Halt));
    assert_eq!(commands.len(), 0);
    assert!(matches!(commands.status(None), Action::Finish));
}

#[test]
fn each_invocation_is_announced_by_its_command_line() {
    let mut command = Command::new(".");
    command.args(&["fmt", "--all", "--", "--check"]);
    assert_eq!(command.announcement(), "Running cargo fmt --all -- --check");
}
