use fern::{
    find_fern_files, find_here, Failure, Found, FoundFile, Leaf, Operation, RawDocument, RawEntry, RawItem,
    RawValue, Step, WalkEntry,
};

fn text_entry(key: &str, value: &str) -> RawEntry {
    RawEntry { key: RawItem::Text(key.to_string()), value: RawValue::Text(value.to_string()) }
}

fn bytes_of(text: &str) -> Found {
    Found::Contents { bytes: text.as_bytes().to_vec() }
}

fn op(name: &str) -> Operation {
    Operation(name.to_string())
}

fn file_entry(path: &str, file_name: &str) -> WalkEntry {
    WalkEntry::Entry { path: path.to_string(), file_name: file_name.to_string(), is_file: true }
}

fn sorted(mut names: Vec<String>) -> Vec<String> {
    names.sort();
    names
}

#[test]
fn it_parses_a_correct_yaml_file() {
    let yaml = r#"
       fmt: Something
       build: Fancy
       "#;

    let folder = Leaf::from_yaml(yaml.as_bytes()).unwrap();

    let possible_operations = folder.operations();

    assert!(possible_operations.contains(&"fmt".to_string()));
    assert!(possible_operations.contains(&"build".to_string()));
}

#[test]
fn it_reports_adequate_errors() {
    let yaml = r#"fmt: Something
        has no value:
       "#;

    let error = Leaf::from_yaml(yaml.as_bytes()).unwrap_err().message();

    assert_eq!("There was an error when reading the file", error)
}

#[test]
fn it_reports_errors_for_known_keys() {
    let yaml = "fmt: 12";

    let error = Leaf::from_yaml(yaml.as_bytes()).unwrap_err().message();

    assert_eq!("There was an error when reading the file", error)
}

#[test]
fn a_scalar_and_a_sequence_are_both_read() {
    let yaml = "fmt: \"prettier --write .\"\ntest:\n  - \"unit-test-runner\"\n  - \"integration-test-runner\"\n";
    let leaf = Leaf::from_yaml(yaml.as_bytes()).unwrap();
    assert_eq!(leaf.resolve(&op("fmt")).values, vec!["prettier --write .".to_string()]);
    assert_eq!(
        leaf.resolve(&op("test")).values,
        vec!["unit-test-runner".to_string(), "integration-test-runner".to_string()]
    );
    assert_eq!(leaf.path(), "");
}

#[test]
fn a_value_that_is_no_text_names_its_key() {
    let failure = Leaf::from_yaml(b"fmt: 12").unwrap_err();
    assert_eq!(
        failure,
        Failure::ParseFailure {
            detail: "fmt: expected either single string or sequence of strings".to_string()
        }
    );
}

#[test]
fn a_sequence_with_a_number_is_refused() {
    let failure = Leaf::from_yaml(b"fmt:\n  - a\n  - 12\n").unwrap_err();
    assert_eq!(
        failure.cause(),
        Some("fmt: expected either single string or sequence of strings".to_string())
    );
}

#[test]
fn a_key_that_is_no_text_is_refused() {
    let failure = Leaf::from_yaml(b"12: echo").unwrap_err();
    assert_eq!(
        failure,
        Failure::ParseFailure { detail: "expected every key to be a string".to_string() }
    );
}

#[test]
fn a_document_that_is_no_mapping_is_refused() {
    let failure = Leaf::from_yaml(b"- a\n- b\n").unwrap_err();
    assert_eq!(
        failure,
        Failure::ParseFailure { detail: "expected a mapping from operation names to steps".to_string() }
    );
}

#[test]
fn bytes_that_are_no_yaml_keep_the_readers_words() {
    let failure = Leaf::from_yaml(b"fmt: [a, b").unwrap_err();
    assert_eq!(failure.message(), "There was an error when reading the file");
    let cause = failure.cause().unwrap();
    assert!(cause.contains("line"));
    assert!(cause.contains("column"));
}

#[test]
fn a_quoted_number_is_text() {
    let leaf = Leaf::from_yaml(b"fmt: \"12\"").unwrap();
    assert_eq!(leaf.resolve(&op("fmt")).values, vec!["12".to_string()]);
}

#[test]
fn a_value_without_text_is_refused() {
    for yaml in ["fmt: true", "fmt: ~", "fmt: 1.5", "fmt: {a: b}", "fmt:"] {
        let failure = Leaf::from_yaml(yaml.as_bytes()).unwrap_err();
        assert_eq!(
            failure,
            Failure::ParseFailure {
                detail: "fmt: expected either single string or sequence of strings".to_string()
            },
            "{:?}",
            yaml
        );
    }
}

#[test]
fn an_empty_file_is_refused_by_the_reader() {
    let failure = Leaf::from_yaml(b"").unwrap_err();
    assert_eq!(failure.message(), "There was an error when reading the file");
    assert!(matches!(failure, Failure::ParseFailure { .. }));
}

#[test]
fn a_key_that_is_written_twice_keeps_its_last_value() {
    let leaf = Leaf::from_yaml(b"fmt: a\nbuild: c\nfmt: b\n").unwrap();
    assert_eq!(leaf.resolve(&op("fmt")).values, vec!["b".to_string()]);
    assert_eq!(sorted(leaf.operations()), vec!["build".to_string(), "fmt".to_string()]);
}

#[test]
fn an_empty_mapping_defines_nothing() {
    let leaf = Leaf::from_yaml(b"{}").unwrap();
    assert!(leaf.operations().is_empty());
}

#[test]
fn a_document_is_decoded_entry_by_entry() {
    let document = RawDocument::Table(vec![
        text_entry("fmt", "cargo fmt"),
        RawEntry {
            key: RawItem::Text("test".to_string()),
            value: RawValue::List(vec![
                RawItem::Text("cargo test".to_string()),
                RawItem::Text("cargo doc".to_string()),
            ]),
        },
    ]);
    let leaf = Leaf::from_document(document).unwrap();
    assert_eq!(leaf.resolve(&op("fmt")).values, vec!["cargo fmt".to_string()]);
    assert_eq!(
        leaf.resolve(&op("test")).values,
        vec!["cargo test".to_string(), "cargo doc".to_string()]
    );
}

#[test]
fn a_later_entry_replaces_an_earlier_one() {
    let document =
        RawDocument::Table(vec![text_entry("fmt", "first"), text_entry("fmt", "second")]);
    let leaf = Leaf::from_document(document).unwrap();
    assert_eq!(leaf.resolve(&op("fmt")).values, vec!["second".to_string()]);
    assert_eq!(leaf.operations(), vec!["fmt".to_string()]);
}

#[test]
fn the_first_faulty_entry_decides_the_failure() {
    let document = RawDocument::Table(vec![
        text_entry("fmt", "fine"),
        RawEntry { key: RawItem::Text("build".to_string()), value: RawValue::Other },
        RawEntry { key: RawItem::Other, value: RawValue::Other },
    ]);
    assert_eq!(
        Leaf::from_document(document).unwrap_err(),
        Failure::ParseFailure {
            detail: "build: expected either single string or sequence of strings".to_string()
        }
    );
    assert_eq!(
        Leaf::from_document(RawDocument::Other).unwrap_err(),
        Failure::ParseFailure { detail: "expected a mapping from operation names to steps".to_string() }
    );
}

#[test]
fn an_absent_operation_resolves_to_no_steps() {
    let leaf = Leaf::from_yaml(b"fmt: echo").unwrap();
    let steps = leaf.resolve(&op("deploy"));
    assert!(steps.values.is_empty());
    assert!(!steps.any());
    let empty = Leaf::from_document(RawDocument::Table(vec![])).unwrap();
    assert!(empty.resolve(&op("fmt")).values.is_empty());
}

#[test]
fn operations_leave_out_what_has_no_steps() {
    let leaf = Leaf::from_yaml(b"fmt: echo\nbuild: []\ntest:\n  - one\n  - two\n").unwrap();
    assert_eq!(sorted(leaf.operations()), vec!["fmt".to_string(), "test".to_string()]);
}

#[test]
fn a_missing_file_is_no_file_here() {
    assert_eq!(
        Leaf::from_file("./fern.yaml".to_string(), &Found::Missing).unwrap_err(),
        Failure::NoFileFoundHere
    );
    assert_eq!(Leaf::here(&Found::Missing).unwrap_err(), Failure::NoFileFoundHere);
}

#[test]
fn an_empty_location_finds_no_file() {
    assert_eq!(
        Leaf::from_file(String::new(), &bytes_of("fmt: echo")).unwrap_err(),
        Failure::NoFileFoundHere
    );
}

#[test]
fn an_unreadable_file_keeps_the_cause() {
    let found = Found::Unreadable { cause: "Permission denied".to_string() };
    assert_eq!(
        Leaf::from_file("./a/fern.yaml".to_string(), &found).unwrap_err(),
        Failure::Unreadable { cause: "Permission denied".to_string() }
    );
}

#[test]
fn a_file_knows_where_it_was_found() {
    let leaf = Leaf::from_file("./foo/batz/fern.yaml".to_string(), &bytes_of("fmt: echo")).unwrap();
    assert_eq!(leaf.path(), "./foo/batz/fern.yaml");
    let here = Leaf::here(&bytes_of("fmt: echo")).unwrap();
    assert_eq!(here.path(), "./fern.yaml");
}

#[test]
fn steps_run_in_the_directory_of_the_file() {
    let leaf = Leaf::from_file("./foo/batz/fern.yaml".to_string(), &bytes_of("fmt: echo hi")).unwrap();
    match leaf.run(&op("fmt")) {
        Step::Spawn(run) => {
            assert_eq!(run.cwd(), "./foo/batz");
            assert_eq!(run.line(), "echo hi");
        }
        Step::Finish(result) => panic!("finished with {:?}", result),
    }
    let here = Leaf::here(&bytes_of("fmt: echo hi")).unwrap();
    match here.run(&op("fmt")) {
        Step::Spawn(run) => assert_eq!(run.cwd(), "."),
        Step::Finish(result) => panic!("finished with {:?}", result),
    }
}

#[test]
fn an_operation_without_steps_finishes_at_once() {
    let leaf = Leaf::here(&bytes_of("fmt: echo hi")).unwrap();
    assert!(matches!(leaf.run(&op("build")), Step::Finish(Ok(()))));
}

#[test]
fn a_location_without_a_parent_cannot_run() {
    let leaf = Leaf::from_yaml(b"fmt: echo hi").unwrap();
    assert!(matches!(leaf.run(&op("fmt")), Step::Finish(Err(Failure::NoParentDirectory))));
    let root = Leaf::from_file("/".to_string(), &bytes_of("fmt: echo hi")).unwrap();
    assert!(matches!(root.run(&op("fmt")), Step::Finish(Err(Failure::NoParentDirectory))));
}

#[test]
fn all_leaves_keep_the_order_of_the_files() {
    let files = vec![
        FoundFile { path: "./a/fern.yaml".to_string(), found: bytes_of("fmt: a") },
        FoundFile { path: "./b/fern.yaml".to_string(), found: bytes_of("fmt: b") },
    ];
    let leaves = Leaf::all_leaves(&files).unwrap();
    assert_eq!(leaves.len(), 2);
    assert_eq!(leaves[0].path(), "./a/fern.yaml");
    assert_eq!(leaves[1].path(), "./b/fern.yaml");
    assert_eq!(leaves[1].resolve(&op("fmt")).values, vec!["b".to_string()]);
}

#[test]
fn no_files_at_all_is_a_failure_of_its_own() {
    assert_eq!(Leaf::all_leaves(&vec![]).unwrap_err(), Failure::NoFilesFoundAnywhere);
}

#[test]
fn the_first_file_that_fails_decides() {
    let files = vec![
        FoundFile { path: "./a/fern.yaml".to_string(), found: bytes_of("fmt: a") },
        FoundFile { path: "./b/fern.yaml".to_string(), found: Found::Missing },
        FoundFile { path: "./c/fern.yaml".to_string(), found: bytes_of("fmt: 12") },
    ];
    assert_eq!(Leaf::all_leaves(&files).unwrap_err(), Failure::NoFileFoundHere);
}

#[test]
fn only_regular_files_with_the_exact_name_are_selected() {
    let entries = vec![
        WalkEntry::Entry { path: "./".to_string(), file_name: "".to_string(), is_file: false },
        file_entry("./fern.yaml", "fern.yaml"),
        file_entry("./fern.yml", "fern.yml"),
        file_entry("./foo/Fern.yaml", "Fern.yaml"),
        WalkEntry::Entry {
            path: "./dir/fern.yaml".to_string(),
            file_name: "fern.yaml".to_string(),
            is_file: false,
        },
        file_entry("./foo/batz/fern.yaml", "fern.yaml"),
        file_entry("./bar/my-fern.yaml", "my-fern.yaml"),
    ];
    assert_eq!(
        find_fern_files(&entries),
        vec!["./fern.yaml".to_string(), "./foo/batz/fern.yaml".to_string()]
    );
    assert!(find_fern_files(&vec![]).is_empty());
}

#[test]
fn here_is_the_task_file_of_the_current_directory() {
    assert_eq!(find_here(), "./fern.yaml");
}

#[test]
fn a_failed_walk_ends_the_selection() {
    let entries = vec![
        file_entry("./a/fern.yaml", "fern.yaml"),
        WalkEntry::Failed,
        file_entry("./b/fern.yaml", "fern.yaml"),
    ];
    assert_eq!(find_fern_files(&entries), vec!["./a/fern.yaml".to_string()]);
}
