use areweguiyet_cli::cache::LookupCache;
use areweguiyet_cli::ecosystem::PackageDeclaration;
use areweguiyet_cli::errors::{FatalError, Field, Source, ValidationError};
use areweguiyet_cli::newsfeed::{Newsfeed, NewsfeedCommon, NewsfeedPost};
use areweguiyet_cli::publish::{
    abort_merging, assemble_sources, compile_sources, Aborted, Phase, Run, Sources,
};
use areweguiyet_cli::registry::{FetchError, RegistryRecord};
use areweguiyet_cli::tags::{TagDictionary, TagEntry};

fn unused(tag: &str) -> ValidationError {
    ValidationError::UnusedTag { tag: tag.to_string() }
}

fn redundant(package: &str) -> ValidationError {
    ValidationError::RedundantOverride { package: package.to_string(), field: Field::Description }
}

fn course(run: &mut Run, outcomes: Vec<Result<Vec<ValidationError>, FatalError>>) -> Vec<Phase> {
    let mut phases = vec![run.phase()];
    for outcome in outcomes {
        run.advance(outcome);
        phases.push(run.phase());
    }
    phases
}

#[test]
fn run_starts_with_loading() {
    let run = Run::start(false);
    assert_eq!(run.phase(), Phase::Loading);
    assert!(!run.verify_only());
    assert!(run.errors().is_empty());
    assert_eq!(run.failure(), &None);
    assert!(!run.succeeded());
    assert!(Run::start(true).verify_only());
}

#[test]
fn clean_run_renders_writes_and_is_done() {
    let mut run = Run::start(false);
    let phases =
        course(&mut run, vec![Ok(vec![]), Ok(vec![]), Ok(vec![]), Ok(vec![]), Ok(vec![])]);
    assert_eq!(
        phases,
        vec![
            Phase::Loading,
            Phase::Merging,
            Phase::Validating,
            Phase::Rendering,
            Phase::Writing,
            Phase::Done,
        ]
    );
    assert!(run.succeeded());
}

#[test]
fn verify_only_run_without_errors_writes_nothing_and_is_done() {
    let mut run = Run::start(true);
    let phases = course(&mut run, vec![Ok(vec![]), Ok(vec![]), Ok(vec![])]);
    assert_eq!(
        phases,
        vec![Phase::Loading, Phase::Merging, Phase::Validating, Phase::Done]
    );
    assert!(run.succeeded());
}

#[test]
fn error_found_while_merging_fails_the_run_after_validation() {
    let mut run = Run::start(false);
    let phases = course(
        &mut run,
        vec![Ok(vec![]), Ok(vec![redundant("iced")]), Ok(vec![]), Ok(vec![])],
    );
    assert_eq!(
        phases,
        vec![Phase::Loading, Phase::Merging, Phase::Validating, Phase::Failed, Phase::Done]
    );
    assert!(!run.succeeded());
    assert_eq!(run.errors(), &vec![redundant("iced")]);
    assert_eq!(run.failure(), &None);
}

#[test]
fn errors_of_all_phases_are_collected_in_order() {
    let mut run = Run::start(false);
    let phases = course(
        &mut run,
        vec![
            Ok(vec![]),
            Ok(vec![redundant("iced"), redundant("druid")]),
            Ok(vec![unused("qt")]),
            Ok(vec![]),
        ],
    );
    assert_eq!(phases[3], Phase::Failed);
    assert_eq!(phases[4], Phase::Done);
    assert_eq!(run.errors(), &vec![redundant("iced"), redundant("druid"), unused("qt")]);
    assert!(!run.succeeded());
}

#[test]
fn verify_only_run_with_errors_fails_too() {
    let mut run = Run::start(true);
    let phases = course(&mut run, vec![Ok(vec![]), Ok(vec![]), Ok(vec![unused("qt")]), Ok(vec![])]);
    assert_eq!(
        phases,
        vec![Phase::Loading, Phase::Merging, Phase::Validating, Phase::Failed, Phase::Done]
    );
    assert!(!run.succeeded());
}

#[test]
fn unreadable_source_ends_the_run_at_once() {
    let mut run = Run::start(false);
    let fatal = FatalError::SourceUnreadable { source: Source::Declarations };
    let phases = course(&mut run, vec![Err(fatal), Ok(vec![])]);
    assert_eq!(phases, vec![Phase::Loading, Phase::Failed, Phase::Done]);
    assert_eq!(
        run.failure(),
        &Some(FatalError::SourceUnreadable { source: Source::Declarations })
    );
    assert!(!run.succeeded());
}

#[test]
fn unreachable_registry_ends_the_run_and_the_cache_is_still_saved() {
    let mut run = Run::start(false);
    let fatal =
        FatalError::LookupFailed { identifier: "iced".to_string(), cause: FetchError::Unreachable };
    let phases = course(&mut run, vec![Ok(vec![]), Err(fatal), Ok(vec![])]);
    assert_eq!(phases, vec![Phase::Loading, Phase::Merging, Phase::Failed, Phase::Done]);
    assert!(!run.succeeded());
}

#[test]
fn first_fatal_error_is_kept() {
    let mut run = Run::start(false);
    run.advance(Err(FatalError::CacheNotRemoved));
    run.advance(Err(FatalError::SourceUnreadable { source: Source::Newsfeed }));
    assert_eq!(run.phase(), Phase::Done);
    assert_eq!(run.failure(), &Some(FatalError::CacheNotRemoved));
}

#[test]
fn failed_writing_fails_the_run() {
    let mut run = Run::start(false);
    let phases = course(
        &mut run,
        vec![
            Ok(vec![]),
            Ok(vec![]),
            Ok(vec![]),
            Ok(vec![]),
            Err(FatalError::OutputNotWritten),
            Ok(vec![]),
        ],
    );
    assert_eq!(phases[4], Phase::Writing);
    assert_eq!(phases[5], Phase::Failed);
    assert_eq!(phases[6], Phase::Done);
    assert!(!run.succeeded());
}

#[test]
fn done_run_stays_done() {
    let mut run = Run::start(true);
    course(&mut run, vec![Ok(vec![]), Ok(vec![]), Ok(vec![])]);
    assert_eq!(run.phase(), Phase::Done);
    run.advance(Ok(vec![unused("late")]));
    run.advance(Err(FatalError::CacheNotRemoved));
    assert_eq!(run.phase(), Phase::Done);
    assert!(run.errors().is_empty());
    assert_eq!(run.failure(), &None);
    assert!(run.succeeded());
}

#[test]
fn unsaved_cache_is_only_a_warning() {
    let mut run = Run::start(true);
    course(&mut run, vec![Ok(vec![]), Ok(vec![]), Ok(vec![])]);
    run.cache_saved(false);
    assert!(run.succeeded());
    assert_eq!(run.phase(), Phase::Done);

    let mut failed = Run::start(false);
    course(&mut failed, vec![Err(FatalError::CacheNotRemoved), Ok(vec![])]);
    failed.cache_saved(true);
    assert!(!failed.succeeded());
}

fn package(identifier: &str, description: Option<&str>) -> PackageDeclaration {
    PackageDeclaration {
        identifier: identifier.to_string(),
        name: None,
        repository: None,
        description: description.map(|d| d.to_string()),
        documentation: None,
        tags: Vec::new(),
        skip_remote_lookup: false,
    }
}

fn tag(name: &str) -> TagEntry {
    TagEntry { name: name.to_string(), description: None }
}

fn empty_feed() -> Newsfeed {
    Newsfeed { links: Vec::new(), posts: Vec::new() }
}

fn one_post() -> Newsfeed {
    Newsfeed {
        links: Vec::new(),
        posts: vec![NewsfeedPost {
            file_name: "a.md".to_string(),
            common: NewsfeedCommon {
                title: "A".to_string(),
                author: "somebody".to_string(),
                order: 1,
            },
        }],
    }
}

#[test]
fn sources_are_assembled_as_they_were_read() {
    let sources = assemble_sources(
        Some(vec![package("iced", None)]),
        Some(vec![tag("gtk"), tag("qt")]),
        Some(one_post()),
    )
    .unwrap();
    assert_eq!(sources.declarations, vec![package("iced", None)]);
    assert_eq!(sources.dictionary.entries(), &vec![tag("gtk"), tag("qt")]);
    assert_eq!(sources.newsfeed, one_post());
}

#[test]
fn missing_declarations_are_reported_first() {
    let missing = assemble_sources(None, None, None).unwrap_err();
    assert_eq!(missing, FatalError::SourceUnreadable { source: Source::Declarations });
    let missing = assemble_sources(None, Some(Vec::new()), Some(empty_feed())).unwrap_err();
    assert_eq!(missing, FatalError::SourceUnreadable { source: Source::Declarations });
}

#[test]
fn missing_tag_descriptions_end_the_run() {
    let missing = assemble_sources(Some(Vec::new()), None, None).unwrap_err();
    assert_eq!(missing, FatalError::SourceUnreadable { source: Source::TagDescriptions });
    let twice =
        assemble_sources(Some(Vec::new()), Some(vec![tag("gtk"), tag("gtk")]), Some(empty_feed()))
            .unwrap_err();
    assert_eq!(twice, FatalError::SourceUnreadable { source: Source::TagDescriptions });
}

#[test]
fn missing_newsfeed_ends_the_run() {
    let missing = assemble_sources(Some(Vec::new()), Some(Vec::new()), None).unwrap_err();
    assert_eq!(missing, FatalError::SourceUnreadable { source: Source::Newsfeed });
}

fn sources(declarations: Vec<PackageDeclaration>, newsfeed: Newsfeed) -> Sources {
    Sources { declarations, dictionary: TagDictionary::new(), newsfeed }
}

#[test]
fn merging_compiles_packages_and_newsfeed() {
    let mut cache = LookupCache::new();
    cache.store(
        "iced",
        Some(RegistryRecord {
            description: Some("a GUI library".to_string()),
            repository: None,
            documentation: None,
        }),
    );
    let read = sources(vec![package("iced", Some("a GUI library"))], one_post());
    let compiled = compile_sources(&read, &cache, "/newsfeed/", &vec!["text".to_string()]).unwrap();
    assert_eq!(compiled.ecosystem.packages.len(), 1);
    assert_eq!(compiled.ecosystem.errors, vec![redundant("iced")]);
    assert_eq!(compiled.newsfeed.entries.len(), 1);
    assert_eq!(compiled.newsfeed.entries[0].link, "/newsfeed/a.html");
    assert_eq!(compiled.newsfeed.pages[0].body, "<p>text</p>\n");
}

#[test]
fn merging_reports_the_packages_before_the_newsfeed() {
    let read = sources(vec![package("iced", None)], one_post());
    assert_eq!(
        compile_sources(&read, &LookupCache::new(), "/newsfeed/", &Vec::new()),
        Err(Aborted {
            fatal: FatalError::LookupMissing { identifier: "iced".to_string() },
            errors: Vec::new(),
        })
    );
    let mut cache = LookupCache::new();
    cache.store("iced", None);
    assert_eq!(
        compile_sources(&read, &cache, "/newsfeed/", &Vec::new()),
        Err(Aborted { fatal: FatalError::PostSourcesMismatch, errors: Vec::new() })
    );
}

fn described() -> RegistryRecord {
    RegistryRecord {
        description: Some("a GUI library".to_string()),
        repository: None,
        documentation: None,
    }
}

#[test]
fn fatal_error_does_not_hide_the_errors_at_hand() {
    let read = sources(
        vec![
            package("iced", Some("a GUI library")),
            package("unasked", Some("a GUI library")),
            package("druid", Some("a GUI library")),
        ],
        empty_feed(),
    );
    let mut cache = LookupCache::new();
    cache.store("iced", Some(described()));
    cache.store("druid", Some(described()));
    let fatal = FatalError::LookupFailed {
        identifier: "unasked".to_string(),
        cause: FetchError::Unreachable,
    };
    let aborted = abort_merging(&read, &cache, fatal);
    assert_eq!(aborted.errors, vec![redundant("iced"), redundant("druid")]);
    assert_eq!(
        aborted.fatal,
        FatalError::LookupFailed {
            identifier: "unasked".to_string(),
            cause: FetchError::Unreachable
        }
    );
    assert_eq!(
        compile_sources(&read, &cache, "/newsfeed/", &Vec::new()),
        Err(Aborted {
            fatal: FatalError::LookupMissing { identifier: "unasked".to_string() },
            errors: vec![redundant("iced"), redundant("druid")],
        })
    );
}

#[test]
fn collision_does_not_hide_the_errors_at_hand() {
    let read = sources(
        vec![package("iced", Some("a GUI library")), package("iced", None)],
        one_post(),
    );
    let mut cache = LookupCache::new();
    cache.store("iced", Some(described()));
    assert_eq!(
        compile_sources(&read, &cache, "/newsfeed/", &vec!["text".to_string()]),
        Err(Aborted {
            fatal: FatalError::DisplayNameCollision { name: "iced".to_string() },
            errors: vec![redundant("iced")],
        })
    );
}

#[test]
fn aborted_phase_hands_its_errors_to_the_run() {
    let mut run = Run::start(false);
    run.advance(Ok(vec![]));
    run.abort(
        vec![redundant("iced"), redundant("druid")],
        FatalError::LookupFailed { identifier: "azul".to_string(), cause: FetchError::Malformed },
    );
    assert_eq!(run.phase(), Phase::Failed);
    assert_eq!(run.errors(), &vec![redundant("iced"), redundant("druid")]);
    assert_eq!(
        run.failure(),
        &Some(FatalError::LookupFailed {
            identifier: "azul".to_string(),
            cause: FetchError::Malformed
        })
    );
    run.advance(Ok(vec![]));
    assert_eq!(run.phase(), Phase::Done);
    assert!(!run.succeeded());
}
