use areweguiyet_cli::ecosystem::PackageDeclaration;
use areweguiyet_cli::errors::ValidationError;
use areweguiyet_cli::tags::{tag_is_used, validate_tags, TagDictionary, TagEntry};

fn package(identifier: &str, tags: &[&str]) -> PackageDeclaration {
    PackageDeclaration {
        identifier: identifier.to_string(),
        name: None,
        repository: None,
        description: None,
        documentation: None,
        tags: tags.iter().map(|t| t.to_string()).collect(),
        skip_remote_lookup: false,
    }
}

fn tag(name: &str, description: Option<&str>) -> TagEntry {
    TagEntry { name: name.to_string(), description: description.map(|d| d.to_string()) }
}

fn unused(name: &str) -> ValidationError {
    ValidationError::UnusedTag { tag: name.to_string() }
}

#[test]
fn new_dictionary_is_empty() {
    let dictionary = TagDictionary::new();
    assert!(dictionary.entries().is_empty());
    assert!(!dictionary.contains("gtk"));
}

#[test]
fn from_entries_keeps_the_entries_in_order() {
    let dictionary =
        TagDictionary::from_entries(vec![tag("gtk", Some("GTK")), tag("bindings", None)]).unwrap();
    assert_eq!(dictionary.entries(), &vec![tag("gtk", Some("GTK")), tag("bindings", None)]);
    assert!(dictionary.contains("gtk"));
    assert!(dictionary.contains("bindings"));
    assert!(!dictionary.contains("GTK"));
}

#[test]
fn from_entries_refuses_a_tag_given_twice() {
    assert!(TagDictionary::from_entries(vec![
        tag("gtk", Some("GTK")),
        tag("bindings", None),
        tag("gtk", None),
    ])
    .is_none());
}

#[test]
fn tag_is_used_looks_through_all_packages() {
    let decls = vec![package("a", &[]), package("b", &["gtk", "bindings"])];
    assert!(tag_is_used(&decls, "bindings"));
    assert!(tag_is_used(&decls, "gtk"));
    assert!(!tag_is_used(&decls, "qt"));
    assert!(!tag_is_used(&Vec::new(), "gtk"));
}

#[test]
fn unused_tag_gives_exactly_one_error() {
    let decls = vec![package("a", &["gtk"]), package("b", &["gtk"])];
    let mut dictionary =
        TagDictionary::from_entries(vec![tag("gtk", Some("GTK")), tag("qt", Some("Qt"))]).unwrap();
    let errors = validate_tags(&decls, &mut dictionary);
    assert_eq!(errors, vec![unused("qt")]);
    // the unused entry stays
    assert_eq!(dictionary.entries(), &vec![tag("gtk", Some("GTK")), tag("qt", Some("Qt"))]);
}

#[test]
fn used_tag_without_entry_is_inserted_without_error() {
    let decls = vec![package("a", &["gtk"])];
    let mut dictionary = TagDictionary::new();
    let errors = validate_tags(&decls, &mut dictionary);
    assert!(errors.is_empty());
    assert_eq!(dictionary.entries(), &vec![tag("gtk", None)]);
}

#[test]
fn tags_are_inserted_in_the_order_of_first_use() {
    let decls = vec![
        package("a", &["web", "gtk"]),
        package("b", &["gtk", "native"]),
        package("c", &["web", "described"]),
    ];
    let mut dictionary =
        TagDictionary::from_entries(vec![tag("described", Some("has a text"))]).unwrap();
    let errors = validate_tags(&decls, &mut dictionary);
    assert!(errors.is_empty());
    assert_eq!(
        dictionary.entries(),
        &vec![
            tag("described", Some("has a text")),
            tag("web", None),
            tag("gtk", None),
            tag("native", None),
        ]
    );
}

#[test]
fn dictionary_is_completed_even_where_there_are_errors() {
    let decls = vec![package("a", &["gtk"])];
    let mut dictionary =
        TagDictionary::from_entries(vec![tag("qt", None), tag("tk", Some("Tk"))]).unwrap();
    let errors = validate_tags(&decls, &mut dictionary);
    assert_eq!(errors, vec![unused("qt"), unused("tk")]);
    assert_eq!(
        dictionary.entries(),
        &vec![tag("qt", None), tag("tk", Some("Tk")), tag("gtk", None)]
    );
}

#[test]
fn without_packages_every_entry_is_unused() {
    let mut dictionary =
        TagDictionary::from_entries(vec![tag("b", None), tag("a", None)]).unwrap();
    let errors = validate_tags(&Vec::new(), &mut dictionary);
    assert_eq!(errors, vec![unused("b"), unused("a")]);
    assert_eq!(dictionary.entries().len(), 2);
}

#[test]
fn second_validation_changes_nothing() {
    let decls = vec![package("a", &["gtk", "web"])];
    let mut dictionary = TagDictionary::new();
    validate_tags(&decls, &mut dictionary);
    let errors = validate_tags(&decls, &mut dictionary);
    assert!(errors.is_empty());
    assert_eq!(dictionary.entries(), &vec![tag("gtk", None), tag("web", None)]);
}
