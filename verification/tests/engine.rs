use fern::{
    parse, run_leaves, Depth, Directive, ExecOptions, Failure, Found, Operation, Options, Outcome,
    WalkEntry,
};

/// A tree for a run: the task files that a walk comes upon, with their
/// contents, and what each command line does when it is run.
struct World {
    files: Vec<(String, String)>,
    failing: Vec<(String, Outcome)>,
}

struct Report {
    read: Vec<String>,
    spawned: Vec<(String, String)>,
    result: Result<(), Failure>,
}

fn walk_of(world: &World) -> Vec<WalkEntry> {
    world
        .files
        .iter()
        .map(|(path, _)| WalkEntry::Entry {
            path: path.clone(),
            file_name: "fern.yaml".to_string(),
            is_file: true,
        })
        .collect()
}

fn read_in(world: &World, path: &str) -> Found {
    match world.files.iter().find(|(at, _)| at == path) {
        Some((_, text)) => Found::Contents { bytes: text.as_bytes().to_vec() },
        None => Found::Missing,
    }
}

fn outcome_in(world: &World, line: &str) -> Outcome {
    match world.failing.iter().find(|(failing, _)| failing == line) {
        Some((_, outcome)) => outcome.clone(),
        None => Outcome::Exited { code: Some(0) },
    }
}

/// Does what each directive asks for, in the world, until the run is over.
fn drive(world: &World, operation: &str, depth: Depth, quiet: bool) -> Report {
    let mut report = Report { read: Vec::new(), spawned: Vec::new(), result: Ok(()) };
    let mut directive = run_leaves(Operation(operation.to_string()), ExecOptions { depth, quiet });
    loop {
        directive = match directive {
            Directive::Discover(state) => state.found(&walk_of(world)),
            Directive::Read(state) => {
                let path = state.path().clone();
                report.read.push(path.clone());
                state.contents(&read_in(world, &path))
            }
            Directive::Spawn(state) => {
                let line = state.line().clone();
                report.spawned.push((state.cwd().clone(), line.clone()));
                state.outcome(outcome_in(world, &line))
            }
            Directive::Finish(result) => {
                report.result = result;
                return report;
            }
        };
    }
}

fn exec_of(line: &str) -> (String, ExecOptions) {
    let args = line.split(' ').skip(1).map(|word| word.to_string()).collect();
    match parse(args) {
        Options::Exec(Operation(name), options) => (name, options),
        other => panic!("no operation asked for: {:?}", other),
    }
}

fn drive_line(world: &World, line: &str) -> Report {
    let (name, options) = exec_of(line);
    drive(world, &name, options.depth, options.quiet)
}

fn three_files() -> World {
    World {
        files: vec![
            ("./foo/batz/fern.yaml".to_string(), "fmt: echo one\n".to_string()),
            ("./bar/batz/fern.yaml".to_string(), "fmt: echo two\n".to_string()),
            ("./bar/fern.yaml".to_string(), "fmt: echo three\nbuild: make\n".to_string()),
        ],
        failing: vec![],
    }
}

fn empty_world() -> World {
    World { files: vec![], failing: vec![] }
}

fn pair(cwd: &str, line: &str) -> (String, String) {
    (cwd.to_string(), line.to_string())
}

#[test]
fn fmt_runs_in_every_file_in_discovery_order() {
    let report = drive_line(&three_files(), "fern fmt");
    assert_eq!(
        report.spawned,
        vec![
            pair("./foo/batz", "echo one"),
            pair("./bar/batz", "echo two"),
            pair("./bar", "echo three")
        ]
    );
    assert_eq!(
        report.read,
        vec![
            "./foo/batz/fern.yaml".to_string(),
            "./bar/batz/fern.yaml".to_string(),
            "./bar/fern.yaml".to_string()
        ]
    );
    assert_eq!(report.result, Ok(()));
}

#[test]
fn files_without_the_operation_are_passed_over() {
    let report = drive_line(&three_files(), "fern build");
    assert_eq!(report.spawned, vec![pair("./bar", "make")]);
    assert_eq!(report.read.len(), 3);
    assert_eq!(report.result, Ok(()));
}

#[test]
fn an_unknown_operation_runs_nothing_and_succeeds() {
    let report = drive_line(&three_files(), "fern deploy");
    assert!(report.spawned.is_empty());
    assert_eq!(report.result, Ok(()));
}

#[test]
fn here_reads_only_the_file_of_the_current_directory() {
    let world = World {
        files: vec![
            ("./fern.yaml".to_string(), "fmt:\n  - echo The first\n  - echo The second\n".to_string()),
            ("./sub/fern.yaml".to_string(), "fmt: echo below\n".to_string()),
        ],
        failing: vec![],
    };
    let report = drive_line(&world, "fern fmt here");
    assert_eq!(report.read, vec!["./fern.yaml".to_string()]);
    assert_eq!(report.spawned, vec![pair(".", "echo The first"), pair(".", "echo The second")]);
    assert_eq!(report.result, Ok(()));
}

#[test]
fn it_warns_if_there_are_no_fern_files_anywhere() {
    let report = drive_line(&empty_world(), "fern fmt");
    let failure = report.result.unwrap_err();
    assert_eq!(failure, Failure::NoFilesFoundAnywhere);
    assert!(failure.message().contains("Did not find any fern.yaml file"));
    assert!(report.read.is_empty());
}

#[test]
fn no_files_anywhere_is_success_when_quiet() {
    let report = drive_line(&empty_world(), "fern fmt -q");
    assert_eq!(report.result, Ok(()));
    assert!(report.spawned.is_empty());
}

#[test]
fn it_warns_if_there_is_no_fern_file_here() {
    let report = drive_line(&empty_world(), "fern fmt here");
    let failure = report.result.unwrap_err();
    assert_eq!(failure, Failure::NoFileFoundHere);
    assert!(failure.message().contains("Did not find a fern.yaml file in here"));
    assert_eq!(report.read, vec!["./fern.yaml".to_string()]);
}

#[test]
fn it_allows_the_user_to_suppress_the_missing_file_warning() {
    let report = drive_line(&empty_world(), "fern fmt here -q");
    assert_eq!(report.result, Ok(()));
    assert!(report.spawned.is_empty());
}

#[test]
fn it_reports_when_commands_fail() {
    let world = World {
        files: vec![("./fern.yaml".to_string(), "check: does not exist\n".to_string())],
        failing: vec![("does not exist".to_string(), Outcome::Exited { code: Some(127) })],
    };
    let report = drive_line(&world, "fern check here");
    let failure = report.result.unwrap_err();
    assert_eq!(failure.message(), "Failed to execute command 'does not exist': exit code 127");
    assert_eq!(report.spawned, vec![pair(".", "does not exist")]);
}

#[test]
fn a_failing_command_is_hidden_when_quiet() {
    let world = World {
        files: vec![("./fern.yaml".to_string(), "check: does not exist\n".to_string())],
        failing: vec![("does not exist".to_string(), Outcome::Exited { code: Some(127) })],
    };
    let report = drive_line(&world, "fern check here --quiet");
    assert_eq!(report.result, Ok(()));
    assert_eq!(report.spawned, vec![pair(".", "does not exist")]);
}

#[test]
fn a_failure_in_one_file_stops_the_files_after_it() {
    let mut world = three_files();
    world.failing = vec![("echo two".to_string(), Outcome::Exited { code: Some(2) })];
    let report = drive_line(&world, "fern fmt");
    assert_eq!(report.spawned, vec![pair("./foo/batz", "echo one"), pair("./bar/batz", "echo two")]);
    assert_eq!(
        report.read,
        vec!["./foo/batz/fern.yaml".to_string(), "./bar/batz/fern.yaml".to_string()]
    );
    assert_eq!(
        report.result,
        Err(Failure::CommandExitFailure { command: "echo two".to_string(), code: 2 })
    );
}

#[test]
fn a_file_that_does_not_parse_stops_the_run_where_it_stands() {
    let mut world = three_files();
    world.files[1].1 = "fmt: 12\n".to_string();
    let report = drive_line(&world, "fern fmt");
    assert_eq!(report.spawned, vec![pair("./foo/batz", "echo one")]);
    assert_eq!(report.result.unwrap_err().message(), "There was an error when reading the file");
    let quiet = drive_line(&world, "fern fmt -q");
    assert_eq!(quiet.result, Ok(()));
    assert_eq!(quiet.spawned, vec![pair("./foo/batz", "echo one")]);
}

#[test]
fn a_shell_that_cannot_start_names_the_command() {
    let world = World {
        files: vec![("./fern.yaml".to_string(), "fmt: cargo fmt\n".to_string())],
        failing: vec![(
            "cargo fmt".to_string(),
            Outcome::SpawnFailed { cause: "No such file or directory (os error 2)".to_string() },
        )],
    };
    let report = drive(&world, "fmt", Depth::Here, false);
    let failure = report.result.unwrap_err();
    assert_eq!(failure.message(), "Did not find cargo fmt");
    assert_eq!(failure.cause(), Some("No such file or directory (os error 2)".to_string()));
}

#[test]
fn quietly_turns_a_failure_into_success_only_when_quiet() {
    let quiet = ExecOptions { depth: Depth::Here, quiet: true };
    let loud = ExecOptions { depth: Depth::Here, quiet: false };
    assert_eq!(quiet.quietly(Failure::NoFileFoundHere), Ok(()));
    assert_eq!(loud.quietly(Failure::NoFileFoundHere), Err(Failure::NoFileFoundHere));
}

fn example() -> World {
    World {
        files: vec![
            (
                "./fern.yaml".to_string(),
                "fmt:\n  - echo The first\n  - echo The second\nbuild: echo Fooooo\n".to_string(),
            ),
            (
                "./foo/batz/fern.yaml".to_string(),
                "fmt: echo Running fmt from within foo/batz\n".to_string(),
            ),
            (
                "./bar/batz/fern.yaml".to_string(),
                "fmt: echo Running fmt from within batz\n".to_string(),
            ),
            ("./bar/fern.yaml".to_string(), "fmt: echo Running fmt from within bar\n".to_string()),
        ],
        failing: vec![],
    }
}

fn lines_of(report: &Report) -> Vec<String> {
    report.spawned.iter().map(|(_, line)| line.clone()).collect()
}

#[test]
fn it_runs_fmt_for_the_entire_directory() {
    let report = drive_line(&example(), "fern fmt");
    assert_eq!(report.result, Ok(()));
    let lines = lines_of(&report);
    assert!(lines.contains(&"echo Running fmt from within foo/batz".to_string()));
    assert!(lines.contains(&"echo Running fmt from within batz".to_string()));
    assert!(lines.contains(&"echo Running fmt from within bar".to_string()));
}

#[test]
fn it_runs_build_for_the_current_folder() {
    let report = drive_line(&example(), "fern build here");
    assert_eq!(report.result, Ok(()));
    assert_eq!(report.spawned, vec![pair(".", "echo Fooooo")]);
}

#[test]
fn runs_multiple_tests_from_the_fern_file() {
    let report = drive_line(&example(), "fern fmt here");
    assert_eq!(report.result, Ok(()));
    assert_eq!(report.spawned, vec![pair(".", "echo The first"), pair(".", "echo The second")]);
}

#[test]
fn it_can_run_custom_commands() {
    let world = World {
        files: vec![("./fern.yaml".to_string(), "run: echo this is non-standard!\n".to_string())],
        failing: vec![],
    };
    let report = drive_line(&world, "fern run --here");
    assert_eq!(report.result, Ok(()));
    assert_eq!(lines_of(&report), vec!["echo this is non-standard!".to_string()]);
}
