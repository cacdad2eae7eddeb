use areweguiyet_cli::cache::LookupCache;
use areweguiyet_cli::ecosystem::{
    answer_lookup, check_compiled_crate, compile_ecosystem, compile_package, next_lookup,
    overrides_at_hand, CompiledPackage, PackageDeclaration,
};
use areweguiyet_cli::errors::{FatalError, Field, ValidationError};
use areweguiyet_cli::registry::{FetchError, RegistryRecord, RegistryReply};

fn bare(identifier: &str) -> PackageDeclaration {
    PackageDeclaration {
        identifier: identifier.to_string(),
        name: None,
        repository: None,
        description: None,
        documentation: None,
        tags: Vec::new(),
        skip_remote_lookup: false,
    }
}

fn text(s: &str) -> Option<String> {
    Some(s.to_string())
}

fn registry_record() -> RegistryRecord {
    RegistryRecord {
        description: text("from the registry"),
        repository: text("https://example.org/registry-repo"),
        documentation: text("https://docs.rs/pkg"),
    }
}

fn redundant(package: &str, field: Field) -> ValidationError {
    ValidationError::RedundantOverride { package: package.to_string(), field }
}

#[test]
fn registry_fills_what_the_declaration_leaves_out() {
    let (package, errors) = compile_package(&bare("pkg"), &Some(registry_record()));
    assert_eq!(
        package,
        CompiledPackage {
            registry_url: text("https://crates.io/crates/pkg"),
            repository: text("https://example.org/registry-repo"),
            description: text("from the registry"),
            documentation: text("https://docs.rs/pkg"),
            tags: Vec::new(),
        }
    );
    assert!(errors.is_empty());
}

#[test]
fn declared_values_win() {
    let mut decl = bare("pkg");
    decl.repository = text("https://example.org/own-repo");
    decl.description = text("declared");
    decl.documentation = text("https://example.org/own-docs");
    decl.tags = vec!["bindings".to_string(), "gtk".to_string()];
    let (package, errors) = compile_package(&decl, &Some(registry_record()));
    assert_eq!(
        package,
        CompiledPackage {
            registry_url: text("https://crates.io/crates/pkg"),
            repository: text("https://example.org/own-repo"),
            description: text("declared"),
            documentation: text("https://example.org/own-docs"),
            tags: vec!["bindings".to_string(), "gtk".to_string()],
        }
    );
    assert!(errors.is_empty());
}

#[test]
fn confirmed_absence_gives_no_profile() {
    let mut decl = bare("pkg");
    decl.description = text("declared");
    let (package, errors) = compile_package(&decl, &None);
    assert_eq!(package.registry_url, None);
    assert_eq!(package.description, text("declared"));
    assert_eq!(package.repository, None);
    assert_eq!(package.documentation, None);
    assert!(errors.is_empty());
}

#[test]
fn skipped_package_has_no_profile() {
    let mut decl = bare("pkg");
    decl.skip_remote_lookup = true;
    decl.description = text("from the registry");
    // even with an answer at hand, the registry is not consulted
    let (package, errors) = compile_package(&decl, &Some(registry_record()));
    assert_eq!(package.registry_url, None);
    assert_eq!(package.description, text("from the registry"));
    assert_eq!(package.repository, None);
    assert_eq!(package.documentation, None);
    assert!(errors.is_empty());
}

#[test]
fn repeated_description_is_an_error() {
    let mut decl = bare("pkg");
    decl.description = text("from the registry");
    let (package, errors) = compile_package(&decl, &Some(registry_record()));
    assert_eq!(errors, vec![redundant("pkg", Field::Description)]);
    // the package is compiled all the same
    assert_eq!(package.description, text("from the registry"));
    assert_eq!(package.registry_url, text("https://crates.io/crates/pkg"));
}

#[test]
fn description_left_out_compiles_cleanly() {
    let (package, errors) = compile_package(&bare("pkg"), &Some(registry_record()));
    assert!(errors.is_empty());
    assert_eq!(package.description, text("from the registry"));
}

#[test]
fn each_field_is_checked_on_its_own() {
    let mut decl = bare("pkg");
    decl.repository = text("https://example.org/registry-repo");
    decl.description = text("something else");
    decl.documentation = text("https://docs.rs/pkg");
    let errors = check_compiled_crate(&decl, &Some(registry_record()));
    assert_eq!(
        errors,
        vec![redundant("pkg", Field::Repository), redundant("pkg", Field::Documentation)]
    );

    decl.description = text("from the registry");
    let errors = check_compiled_crate(&decl, &Some(registry_record()));
    assert_eq!(
        errors,
        vec![
            redundant("pkg", Field::Repository),
            redundant("pkg", Field::Description),
            redundant("pkg", Field::Documentation),
        ]
    );
}

#[test]
fn absent_on_both_sides_is_no_error() {
    let record = RegistryRecord { description: None, repository: None, documentation: None };
    assert!(check_compiled_crate(&bare("pkg"), &Some(record)).is_empty());
    assert!(check_compiled_crate(&bare("pkg"), &None).is_empty());
}

#[test]
fn error_names_the_identifier_not_the_display_name() {
    let mut decl = bare("pkg-rs");
    decl.name = text("Pkg");
    decl.repository = text("https://example.org/registry-repo");
    assert_eq!(
        check_compiled_crate(&decl, &Some(registry_record())),
        vec![redundant("pkg-rs", Field::Repository)]
    );
}

#[test]
fn next_lookup_skips_what_is_known_or_ruled_out() {
    let mut skipped = bare("local-only");
    skipped.skip_remote_lookup = true;
    let decls = vec![skipped, bare("iced"), bare("druid")];
    let mut cache = LookupCache::new();
    assert_eq!(next_lookup(&decls, &cache), Some(1));
    cache.store("iced", None);
    assert_eq!(next_lookup(&decls, &cache), Some(2));
    cache.store("druid", Some(registry_record()));
    assert_eq!(next_lookup(&decls, &cache), None);
    assert_eq!(next_lookup(&Vec::new(), &cache), None);
}

#[test]
fn next_lookup_never_asks_for_a_skipped_package() {
    let mut skipped = bare("local-only");
    skipped.skip_remote_lookup = true;
    let decls = vec![skipped];
    assert_eq!(next_lookup(&decls, &LookupCache::new()), None);
}

#[test]
fn answer_lookup_stores_an_answer() {
    let mut cache = LookupCache::new();
    assert_eq!(answer_lookup(&mut cache, "iced", RegistryReply::NotFound), Ok(()));
    assert!(cache.contains("iced"));
    assert_eq!(
        answer_lookup(&mut cache, "druid", RegistryReply::Found(registry_record())),
        Ok(())
    );
    assert!(cache.contains("druid"));
}

#[test]
fn answer_lookup_makes_a_failure_fatal() {
    let mut cache = LookupCache::new();
    assert_eq!(
        answer_lookup(&mut cache, "iced", RegistryReply::Unreachable),
        Err(FatalError::LookupFailed {
            identifier: "iced".to_string(),
            cause: FetchError::Unreachable
        })
    );
    assert!(!cache.contains("iced"));
    assert_eq!(
        answer_lookup(&mut cache, "iced", RegistryReply::Refused { status: 429 }),
        Err(FatalError::LookupFailed {
            identifier: "iced".to_string(),
            cause: FetchError::Refused { status: 429 }
        })
    );
}

#[test]
fn ecosystem_is_ordered_by_name() {
    let mut druid = bare("druid");
    druid.name = text("Zebra");
    let mut local = bare("local-only");
    local.skip_remote_lookup = true;
    local.description = text("kept at home");
    let decls = vec![bare("iced"), druid, local, bare("azul")];
    let mut cache = LookupCache::new();
    cache.store("iced", Some(registry_record()));
    cache.store("druid", None);
    cache.store("azul", None);
    let compiled = compile_ecosystem(&decls, &cache).unwrap();
    let names: Vec<&str> = compiled.packages.iter().map(|e| e.name.as_str()).collect();
    assert_eq!(names, vec!["Zebra", "azul", "iced", "local-only"]);
    assert!(compiled.errors.is_empty());
    assert_eq!(compiled.packages[2].package.registry_url, text("https://crates.io/crates/iced"));
    assert_eq!(compiled.packages[2].package.description, text("from the registry"));
    assert_eq!(compiled.packages[0].package.registry_url, None);
    assert_eq!(compiled.packages[3].package.registry_url, None);
    assert_eq!(compiled.packages[3].package.description, text("kept at home"));
}

#[test]
fn ecosystem_output_does_not_depend_on_the_order_of_declarations() {
    let mut cache = LookupCache::new();
    for id in ["a", "b", "c"] {
        cache.store(id, None);
    }
    let forward = compile_ecosystem(&vec![bare("a"), bare("b"), bare("c")], &cache).unwrap();
    let backward = compile_ecosystem(&vec![bare("c"), bare("b"), bare("a")], &cache).unwrap();
    assert_eq!(forward.packages, backward.packages);
}

#[test]
fn ecosystem_collects_errors_in_declaration_order() {
    let mut second = bare("second");
    second.description = text("from the registry");
    let mut first = bare("first");
    first.repository = text("https://example.org/registry-repo");
    first.documentation = text("https://docs.rs/pkg");
    let decls = vec![second, bare("clean"), first];
    let mut cache = LookupCache::new();
    cache.store("second", Some(registry_record()));
    cache.store("clean", Some(registry_record()));
    cache.store("first", Some(registry_record()));
    let compiled = compile_ecosystem(&decls, &cache).unwrap();
    assert_eq!(
        compiled.errors,
        vec![
            redundant("second", Field::Description),
            redundant("first", Field::Repository),
            redundant("first", Field::Documentation),
        ]
    );
    assert_eq!(compiled.packages.len(), 3);
}

#[test]
fn ecosystem_of_nothing_is_empty() {
    let compiled = compile_ecosystem(&Vec::new(), &LookupCache::new()).unwrap();
    assert!(compiled.packages.is_empty());
    assert!(compiled.errors.is_empty());
}

#[test]
fn ecosystem_names_the_first_missing_lookup() {
    let decls = vec![bare("iced"), bare("druid"), bare("azul")];
    let mut cache = LookupCache::new();
    cache.store("iced", None);
    assert_eq!(
        compile_ecosystem(&decls, &cache),
        Err(FatalError::LookupMissing { identifier: "druid".to_string() })
    );
}

#[test]
fn ecosystem_refuses_two_packages_of_one_name() {
    let mut renamed = bare("iced-fork");
    renamed.name = text("iced");
    let decls = vec![bare("druid"), bare("iced"), renamed];
    let mut cache = LookupCache::new();
    for id in ["druid", "iced", "iced-fork"] {
        cache.store(id, None);
    }
    assert_eq!(
        compile_ecosystem(&decls, &cache),
        Err(FatalError::DisplayNameCollision { name: "iced".to_string() })
    );
}

#[test]
fn ecosystem_reports_a_missing_lookup_before_a_collision() {
    let decls = vec![bare("iced"), bare("iced"), bare("druid")];
    let mut cache = LookupCache::new();
    cache.store("iced", None);
    assert_eq!(
        compile_ecosystem(&decls, &cache),
        Err(FatalError::LookupMissing { identifier: "druid".to_string() })
    );
}

#[test]
fn ecosystem_keys_are_the_display_names() {
    let mut a = bare("crate-a");
    a.name = text("Alpha");
    let mut b = bare("crate-b");
    b.skip_remote_lookup = true;
    let decls = vec![a, b, bare("crate-c")];
    let mut cache = LookupCache::new();
    cache.store("crate-a", None);
    cache.store("crate-c", None);
    let compiled = compile_ecosystem(&decls, &cache).unwrap();
    let mut names: Vec<String> = compiled.packages.iter().map(|e| e.name.clone()).collect();
    names.sort();
    assert_eq!(names, vec!["Alpha", "crate-b", "crate-c"]);
    assert_eq!(compiled.packages.len(), decls.len());
}

#[test]
fn overrides_at_hand_skip_what_is_not_known() {
    let mut known = bare("known");
    known.repository = text("https://example.org/registry-repo");
    let mut unknown = bare("unknown");
    unknown.repository = text("https://example.org/registry-repo");
    let mut skipped = bare("skipped");
    skipped.repository = text("https://example.org/registry-repo");
    skipped.skip_remote_lookup = true;
    let mut late = bare("late");
    late.documentation = text("https://docs.rs/pkg");
    let decls = vec![known, unknown, skipped, late];
    let mut cache = LookupCache::new();
    cache.store("known", Some(registry_record()));
    cache.store("late", Some(registry_record()));
    cache.store("skipped", Some(registry_record()));
    assert_eq!(
        overrides_at_hand(&decls, &cache),
        vec![redundant("known", Field::Repository), redundant("late", Field::Documentation)]
    );
    assert!(overrides_at_hand(&decls, &LookupCache::new()).is_empty());
}
