//! Seeding: a new task file for the current directory, taken from the
//! user's configuration, which holds a ready-made task file for each
//! language it knows.
//!
//! As with a run, the work on the outside world is the caller's: `folder`
//! says what is to be done first, and the answer decides the rest.

use vstd::prelude::*;

verus! {

/// One seed of the configuration: the task file that a language starts
/// with, as YAML text.
#[derive(Debug, Clone, PartialEq, Eq)]
pub struct Seed {
    pub language: String,
    pub yaml: String,
}

/// A `Seed` with its texts as sequences of characters.
pub struct SeedView {
    pub language: Seq<char>,
    pub yaml: Seq<char>,
}

impl View for Seed {
    type V = SeedView;

    open spec fn view(&self) -> SeedView {
        SeedView { language: self.language@, yaml: self.yaml@ }
    }
}

/// The views of a sequence of seeds.
pub open spec fn seed_views(seeds: Seq<Seed>) -> Seq<SeedView> {
    seeds.map_values(|seed: Seed| seed@)
}

/// What came of looking for the configuration and reading it. A location
/// is given as it is to be shown to the user.
#[derive(Debug, Clone, PartialEq, Eq)]
pub enum Config {
    /// There is no file at the location of the configuration.
    Missing { shown: String },
    /// The file is there but could not be opened; `cause` is what the
    /// system said.
    Unreadable { cause: String },
    /// The file was read but is no configuration; `cause` is what the
    /// reader said.
    Invalid { shown: String, cause: String },
    /// The seeds of the configuration.
    Seeds(Vec<Seed>),
}

/// A `Config` by the views of its parts.
pub enum ConfigView {
    Missing { shown: Seq<char> },
    Unreadable { cause: Seq<char> },
    Invalid { shown: Seq<char>, cause: Seq<char> },
    Seeds(Seq<SeedView>),
}

impl View for Config {
    type V = ConfigView;

    open spec fn view(&self) -> ConfigView {
        match *self {
            Config::Missing { shown } => ConfigView::Missing { shown: shown@ },
            Config::Unreadable { cause } => ConfigView::Unreadable { cause: cause@ },
            Config::Invalid { shown, cause } => ConfigView::Invalid {
                shown: shown@,
                cause: cause@,
            },
            Config::Seeds(seeds) => ConfigView::Seeds(seed_views(seeds@)),
        }
    }
}

/// Why nothing was seeded.
#[derive(Debug, Clone, PartialEq, Eq)]
pub enum SeedFailure {
    /// No language was named.
    NoLanguage,
    /// There is no configuration.
    NoConfig { shown: String },
    /// The configuration could not be opened.
    ConfigUnreadable { cause: String },
    /// The configuration could not be understood.
    ConfigInvalid { shown: String, cause: String },
    /// The configuration has no seed for the language.
    UnknownLanguage { language: String },
}

/// A `SeedFailure` with its texts as sequences of characters.
pub enum SeedFailureView {
    NoLanguage,
    NoConfig { shown: Seq<char> },
    ConfigUnreadable { cause: Seq<char> },
    ConfigInvalid { shown: Seq<char>, cause: Seq<char> },
    UnknownLanguage { language: Seq<char> },
}

impl View for SeedFailure {
    type V = SeedFailureView;

    open spec fn view(&self) -> SeedFailureView {
        match *self {
            SeedFailure::NoLanguage => SeedFailureView::NoLanguage,
            SeedFailure::NoConfig { shown } => SeedFailureView::NoConfig { shown: shown@ },
            SeedFailure::ConfigUnreadable { cause } => SeedFailureView::ConfigUnreadable {
                cause: cause@,
            },
            SeedFailure::ConfigInvalid { shown, cause } => SeedFailureView::ConfigInvalid {
                shown: shown@,
                cause: cause@,
            },
            SeedFailure::UnknownLanguage { language } => SeedFailureView::UnknownLanguage {
                language: language@,
            },
        }
    }
}

/// A seeding that waits for the configuration.
pub struct Seeding {
    language: String,
}

/// What the caller has to do next for a seeding.
pub enum SeedStep {
    /// Look for the configuration, read it, and answer by
    /// `Seeding::config`.
    ReadConfig(Seeding),
    /// Write `contents` to a new `fern.yaml` in the current directory and
    /// print `notice`.
    Write { contents: String, notice: String },
    /// Nothing: there is nothing to seed, for this reason.
    Fail(SeedFailure),
}

/// A `SeedStep` by the views of its parts.
pub enum SeedStepView {
    ReadConfig { language: Seq<char> },
    Write { contents: Seq<char>, notice: Seq<char> },
    Fail(SeedFailureView),
}

impl View for Seeding {
    type V = Seq<char>;

    closed spec fn view(&self) -> Seq<char> {
        self.language@
    }
}

impl View for SeedStep {
    type V = SeedStepView;

    open spec fn view(&self) -> SeedStepView {
        match *self {
            SeedStep::ReadConfig(seeding) => SeedStepView::ReadConfig { language: seeding@ },
            SeedStep::Write { contents, notice } => SeedStepView::Write {
                contents: contents@,
                notice: notice@,
            },
            SeedStep::Fail(failure) => SeedStepView::Fail(failure@),
        }
    }
}

/// What is printed when the new task file is written. The line is the
/// same whatever the language.
pub open spec fn seeded_notice() -> Seq<char> {
    "Created new fern.yaml file for rust"@
}

/// The task file that the seeds hold for a language: that of the first
/// seed for it, if there is one.
pub open spec fn seed_for(seeds: Seq<SeedView>, language: Seq<char>) -> Option<Seq<char>>
    decreases seeds.len(),
{
    if seeds.len() == 0 {
        None
    } else if seeds[0].language == language {
        Some(seeds[0].yaml)
    } else {
        seed_for(seeds.skip(1), language)
    }
}

/// The first step of a seeding: without a language there is nothing to
/// do, with one the configuration is to be read.
pub open spec fn seed_start(lang: Option<Seq<char>>) -> SeedStepView {
    match lang {
        None => SeedStepView::Fail(SeedFailureView::NoLanguage),
        Some(language) => SeedStepView::ReadConfig { language },
    }
}

/// The step after the configuration was looked for: the seed of the
/// language is to be written, or the reason why there is none.
pub open spec fn seed_after(language: Seq<char>, config: ConfigView) -> SeedStepView {
    match config {
        ConfigView::Missing { shown } => SeedStepView::Fail(SeedFailureView::NoConfig { shown }),
        ConfigView::Unreadable { cause } => SeedStepView::Fail(
            SeedFailureView::ConfigUnreadable { cause },
        ),
        ConfigView::Invalid { shown, cause } => SeedStepView::Fail(
            SeedFailureView::ConfigInvalid { shown, cause },
        ),
        ConfigView::Seeds(seeds) => match seed_for(seeds, language) {
            Some(contents) => SeedStepView::Write { contents, notice: seeded_notice() },
            None => SeedStepView::Fail(SeedFailureView::UnknownLanguage { language }),
        },
    }
}

/// What is said of a failed seeding in one line.
pub open spec fn seed_message_of(failure: SeedFailureView) -> Seq<char> {
    match failure {
        SeedFailureView::NoLanguage => "No langauge defiend to seed the fern.yaml file with."@,
        SeedFailureView::NoConfig { shown } => "Config file at "@ + shown + " does not exist"@,
        SeedFailureView::ConfigUnreadable { cause } => cause,
        SeedFailureView::ConfigInvalid { shown, cause } => "Unable to read configuration "@
            + shown,
        SeedFailureView::UnknownLanguage { language } => "Did not find "@ + language
            + " in config"@,
    }
}

/// Starts seeding the current directory for a language.
pub fn folder(lang: Option<String>) -> (step: SeedStep)
    ensures
        step@ == seed_start(
            match lang {
                Some(language) => Some(language@),
                None => None,
            },
        ),
{
    match lang {
        Some(language) => SeedStep::ReadConfig(Seeding { language }),
        None => SeedStep::Fail(SeedFailure::NoLanguage),
    }
}

impl Seeding {
    /// The language that is seeded for.
    pub fn language(&self) -> (language: &String)
        ensures
            language@ == self@,
    {
        &self.language
    }

    /// Takes what looking for the configuration gave. Where it holds a
    /// seed for the language, that seed is to be written; everything else
    /// is a failure of its own.
    pub fn config(self, config: &Config) -> (step: SeedStep)
        ensures
            step@ == seed_after(self@, config@),
    {
        match config {
            Config::Missing { shown } => SeedStep::Fail(
                SeedFailure::NoConfig { shown: shown.clone() },
            ),
            Config::Unreadable { cause } => SeedStep::Fail(
                SeedFailure::ConfigUnreadable { cause: cause.clone() },
            ),
            Config::Invalid { shown, cause } => SeedStep::Fail(
                SeedFailure::ConfigInvalid { shown: shown.clone(), cause: cause.clone() },
            ),
            Config::Seeds(seeds) => {
                let ghost views = seed_views(seeds@);
                let mut i: usize = 0;
                assert(views.skip(0) =~= views);
                while i < seeds.len()
                    invariant
                        views == seed_views(seeds@),
                        config@ == ConfigView::Seeds(views),
                        i <= seeds.len(),
                        seed_for(views, self@) == seed_for(views.skip(i as int), self@),
                    decreases seeds.len() - i,
                {
                    proof {
                        assert(views.skip(i as int)[0] == seeds@[i as int]@);
                        assert(views.skip(i as int).skip(1) =~= views.skip(i + 1));
                    }
                    if seeds[i].language == self.language {
                        return SeedStep::Write {
                            contents: seeds[i].yaml.clone(),
                            notice: "Created new fern.yaml file for rust".to_owned(),
                        };
                    }
                    i += 1;
                }
                SeedStep::Fail(SeedFailure::UnknownLanguage { language: self.language })
            },
        }
    }
}

impl SeedFailure {
    /// What is said of the failure in one line.
    pub fn message(&self) -> (text: String)
        ensures
            text@ == seed_message_of(self@),
    {
        match self {
            SeedFailure::NoLanguage => {
                "No langauge defiend to seed the fern.yaml file with.".to_owned()
            },
            SeedFailure::NoConfig { shown } => "Config file at ".to_owned().concat(
                shown.as_str(),
            ).concat(" does not exist"),
            SeedFailure::ConfigUnreadable { cause } => cause.clone(),
            SeedFailure::ConfigInvalid { shown, cause: _ } => {
                "Unable to read configuration ".to_owned().concat(shown.as_str())
            },
            SeedFailure::UnknownLanguage { language } => "Did not find ".to_owned().concat(
                language.as_str(),
            ).concat(" in config"),
        }
    }
}

} // verus!
