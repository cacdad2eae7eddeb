use areweguiyet_cli::registry::{
    copy_opt_record, lookup, profile_url, FetchError, RegistryRecord, RegistryReply,
};

fn record() -> RegistryRecord {
    RegistryRecord {
        description: Some("A GUI library".to_string()),
        repository: Some("https://github.com/iced-rs/iced".to_string()),
        documentation: None,
    }
}

#[test]
fn lookup_found_is_a_record() {
    assert_eq!(lookup(RegistryReply::Found(record())), Ok(Some(record())));
}

#[test]
fn lookup_not_found_is_a_confirmed_absence() {
    assert_eq!(lookup(RegistryReply::NotFound), Ok(None));
}

#[test]
fn lookup_refused_is_an_error() {
    assert_eq!(
        lookup(RegistryReply::Refused { status: 503 }),
        Err(FetchError::Refused { status: 503 })
    );
}

#[test]
fn lookup_malformed_is_an_error() {
    assert_eq!(lookup(RegistryReply::Malformed), Err(FetchError::Malformed));
}

#[test]
fn lookup_unreachable_is_an_error() {
    assert_eq!(lookup(RegistryReply::Unreachable), Err(FetchError::Unreachable));
}

#[test]
fn profile_url_is_the_root_and_the_identifier() {
    assert_eq!(profile_url("iced"), "https://crates.io/crates/iced");
    assert_eq!(profile_url(""), "https://crates.io/crates/");
}

#[test]
fn record_copy_is_equal() {
    assert_eq!(record().copy(), record());
    assert_eq!(copy_opt_record(&Some(record())), Some(record()));
    assert_eq!(copy_opt_record(&None), None);
}
