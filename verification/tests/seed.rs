use fern::{folder, Config, Seed, SeedFailure, SeedStep};

fn rust_and_go() -> Config {
    Config::Seeds(vec![
        Seed {
            language: "rust".to_string(),
            yaml: "---\nfmt: \"echo \\\"cargo fmt\\\"\"\n".to_string(),
        },
        Seed { language: "go".to_string(), yaml: "---\nfmt: go fmt\n".to_string() },
    ])
}

fn seed_with(language: &str, config: &Config) -> SeedStep {
    match folder(Some(language.to_string())) {
        SeedStep::ReadConfig(seeding) => {
            assert_eq!(seeding.language(), language);
            seeding.config(config)
        }
        _ => panic!("the configuration is read first"),
    }
}

fn failure_of(step: SeedStep) -> SeedFailure {
    match step {
        SeedStep::Fail(failure) => failure,
        _ => panic!("no failure"),
    }
}

#[test]
fn it_can_seed_a_project_based_on_config() {
    match seed_with("rust", &rust_and_go()) {
        SeedStep::Write { contents, notice } => {
            assert_eq!(contents, "---\nfmt: \"echo \\\"cargo fmt\\\"\"\n");
            assert_eq!(notice, "Created new fern.yaml file for rust");
        }
        _ => panic!("nothing to write"),
    }
}

#[test]
fn the_seed_of_the_language_is_the_one_written() {
    match seed_with("go", &rust_and_go()) {
        SeedStep::Write { contents, .. } => assert_eq!(contents, "---\nfmt: go fmt\n"),
        _ => panic!("nothing to write"),
    }
}

#[test]
fn it_doesnt_seed_an_unknown_language() {
    let failure = failure_of(seed_with("node", &rust_and_go()));
    assert_eq!(failure, SeedFailure::UnknownLanguage { language: "node".to_string() });
    assert_eq!(failure.message(), "Did not find node in config");
    let empty = failure_of(seed_with("node", &Config::Seeds(vec![])));
    assert_eq!(empty.message(), "Did not find node in config");
}

#[test]
fn it_tells_the_user_if_the_config_can_not_parsed() {
    let config = Config::Invalid {
        shown: "\"fern/example/not-really.yaml\"".to_string(),
        cause: "missing field `seeds`".to_string(),
    };
    let failure = failure_of(seed_with("node", &config));
    let message = failure.message();
    assert!(message.contains("Unable to read configuration"));
    assert!(message.contains("fern/example/not-really.yaml"));
}

#[test]
fn without_a_language_nothing_is_read() {
    let failure = failure_of(folder(None));
    assert_eq!(failure, SeedFailure::NoLanguage);
    assert_eq!(failure.message(), "No langauge defiend to seed the fern.yaml file with.");
}

#[test]
fn a_missing_configuration_names_its_location() {
    let config = Config::Missing { shown: "\"/home/me/.fern.config.yaml\"".to_string() };
    let failure = failure_of(seed_with("rust", &config));
    assert_eq!(
        failure.message(),
        "Config file at \"/home/me/.fern.config.yaml\" does not exist"
    );
}

#[test]
fn a_configuration_that_cannot_be_opened_keeps_the_cause() {
    let config = Config::Unreadable { cause: "Permission denied (os error 13)".to_string() };
    let failure = failure_of(seed_with("rust", &config));
    assert_eq!(failure.message(), "Permission denied (os error 13)");
}
