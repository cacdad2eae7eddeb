use areweguiyet_cli::cache::{CacheEntry, CacheLookup, LookupCache, Removal};
use areweguiyet_cli::errors::FatalError;
use areweguiyet_cli::registry::{FetchError, RegistryRecord, RegistryReply};

fn record(description: &str) -> RegistryRecord {
    RegistryRecord {
        description: Some(description.to_string()),
        repository: None,
        documentation: Some(format!("https://docs.rs/{description}")),
    }
}

fn entry(identifier: &str, record: Option<RegistryRecord>) -> CacheEntry {
    CacheEntry { identifier: identifier.to_string(), record }
}

fn stored(cache: &LookupCache, identifier: &str) -> Option<Option<RegistryRecord>> {
    match cache.find(identifier) {
        CacheLookup::Hit(answer) => Some(answer.as_ref().map(|r| r.copy())),
        CacheLookup::Miss => None,
    }
}

#[test]
fn new_cache_knows_nothing() {
    let cache = LookupCache::new();
    assert_eq!(cache.len(), 0);
    assert!(!cache.contains("iced"));
    assert!(matches!(cache.find("iced"), CacheLookup::Miss));
    assert!(cache.entries().is_empty());
}

#[test]
fn stored_answer_is_a_hit() {
    let mut cache = LookupCache::new();
    cache.store("iced", Some(record("iced")));
    assert!(cache.contains("iced"));
    assert_eq!(stored(&cache, "iced"), Some(Some(record("iced"))));
    assert_eq!(stored(&cache, "druid"), None);
    assert_eq!(cache.len(), 1);
}

#[test]
fn confirmed_absence_is_a_hit_too() {
    let mut cache = LookupCache::new();
    cache.store("gone", None);
    assert!(cache.contains("gone"));
    assert_eq!(stored(&cache, "gone"), Some(None));
}

#[test]
fn store_replaces_an_earlier_answer() {
    let mut cache = LookupCache::new();
    cache.store("iced", None);
    cache.store("druid", Some(record("druid")));
    cache.store("iced", Some(record("iced")));
    assert_eq!(cache.len(), 2);
    assert_eq!(stored(&cache, "iced"), Some(Some(record("iced"))));
    assert_eq!(stored(&cache, "druid"), Some(Some(record("druid"))));
}

#[test]
fn store_reply_stores_a_record() {
    let mut cache = LookupCache::new();
    let answer = cache.store_reply("iced", RegistryReply::Found(record("iced")));
    assert_eq!(answer, Ok(Some(record("iced"))));
    assert_eq!(stored(&cache, "iced"), Some(Some(record("iced"))));
}

#[test]
fn store_reply_stores_a_confirmed_absence() {
    let mut cache = LookupCache::new();
    assert_eq!(cache.store_reply("gone", RegistryReply::NotFound), Ok(None));
    assert_eq!(stored(&cache, "gone"), Some(None));
}

#[test]
fn store_reply_does_not_store_a_failure() {
    let mut cache = LookupCache::new();
    cache.store("druid", None);
    assert_eq!(
        cache.store_reply("iced", RegistryReply::Unreachable),
        Err(FetchError::Unreachable)
    );
    assert_eq!(
        cache.store_reply("iced", RegistryReply::Refused { status: 500 }),
        Err(FetchError::Refused { status: 500 })
    );
    assert_eq!(cache.store_reply("iced", RegistryReply::Malformed), Err(FetchError::Malformed));
    assert!(!cache.contains("iced"));
    assert_eq!(cache.len(), 1);
    // the next reply is taken in as if nothing had happened
    assert_eq!(
        cache.store_reply("iced", RegistryReply::Found(record("iced"))),
        Ok(Some(record("iced")))
    );
}

#[test]
fn second_lookup_needs_no_request() {
    let mut cache = LookupCache::new();
    assert!(matches!(cache.find("iced"), CacheLookup::Miss));
    cache.store_reply("iced", RegistryReply::Found(record("first"))).unwrap();
    assert!(matches!(cache.find("iced"), CacheLookup::Hit(_)));
    // a further reply, whatever it says, changes nothing
    assert_eq!(
        cache.store_reply("iced", RegistryReply::Found(record("second"))),
        Ok(Some(record("first")))
    );
    assert_eq!(cache.store_reply("iced", RegistryReply::Unreachable), Ok(Some(record("first"))));
    assert_eq!(stored(&cache, "iced"), Some(Some(record("first"))));
    assert_eq!(cache.len(), 1);
}

#[test]
fn invalidate_all_forgets_everything() {
    let mut cache = LookupCache::new();
    cache.store("iced", Some(record("iced")));
    cache.store("gone", None);
    cache.invalidate_all();
    assert_eq!(cache.len(), 0);
    assert!(!cache.contains("iced"));
    assert!(!cache.contains("gone"));
}

#[test]
fn clean_accepts_a_missing_file() {
    let mut cache = LookupCache::new();
    cache.store("iced", None);
    assert_eq!(cache.clean(Removal::Missing), Ok(()));
    assert_eq!(cache.len(), 0);
}

#[test]
fn clean_accepts_a_removed_file() {
    let mut cache = LookupCache::new();
    cache.store("iced", None);
    assert_eq!(cache.clean(Removal::Removed), Ok(()));
    assert_eq!(cache.len(), 0);
}

#[test]
fn clean_fails_where_the_file_stays() {
    let mut cache = LookupCache::new();
    cache.store("iced", None);
    assert_eq!(cache.clean(Removal::Failed), Err(FatalError::CacheNotRemoved));
    assert_eq!(cache.len(), 0);
}

#[test]
fn load_of_nothing_is_empty() {
    let cache = LookupCache::load(None);
    assert_eq!(cache.len(), 0);
    let cache = LookupCache::load(Some(Vec::new()));
    assert_eq!(cache.len(), 0);
}

#[test]
fn load_takes_every_entry() {
    let cache = LookupCache::load(Some(vec![
        entry("iced", Some(record("iced"))),
        entry("gone", None),
        entry("druid", Some(record("druid"))),
    ]));
    assert_eq!(cache.len(), 3);
    assert_eq!(stored(&cache, "iced"), Some(Some(record("iced"))));
    assert_eq!(stored(&cache, "gone"), Some(None));
    assert_eq!(stored(&cache, "druid"), Some(Some(record("druid"))));
}

#[test]
fn load_lets_the_later_entry_count() {
    let cache = LookupCache::load(Some(vec![
        entry("iced", Some(record("old"))),
        entry("iced", None),
    ]));
    assert_eq!(cache.len(), 1);
    assert_eq!(stored(&cache, "iced"), Some(None));
}

#[test]
fn persisted_entries_read_back_as_the_same_cache() {
    let mut cache = LookupCache::new();
    cache.store("iced", Some(record("iced")));
    cache.store("gone", None);
    cache.store("druid", Some(record("druid")));
    let persisted = cache.entries();
    assert_eq!(persisted.len(), 3);
    let again = LookupCache::load(Some(persisted));
    assert_eq!(again.len(), 3);
    for identifier in ["iced", "gone", "druid", "never-asked"] {
        assert_eq!(stored(&again, identifier), stored(&cache, identifier));
    }
    assert_eq!(again.entries(), cache.entries());
}

#[test]
fn entries_stand_in_ascending_order_of_the_identifiers() {
    let mut cache = LookupCache::new();
    for identifier in ["iced", "azul", "slint", "Druid", "egui", "azul-core"] {
        cache.store(identifier, None);
    }
    let identifiers: Vec<String> = cache.entries().into_iter().map(|e| e.identifier).collect();
    assert_eq!(identifiers, vec!["Druid", "azul", "azul-core", "egui", "iced", "slint"]);
}

#[test]
fn entries_do_not_depend_on_the_order_of_storing() {
    let answers = [
        ("iced", Some(record("iced"))),
        ("gone", None),
        ("druid", Some(record("druid"))),
        ("azul", None),
    ];
    let mut forward = LookupCache::new();
    for (identifier, answer) in &answers {
        forward.store(identifier, answer.as_ref().map(|r| r.copy()));
    }
    let mut backward = LookupCache::new();
    for (identifier, answer) in answers.iter().rev() {
        backward.store(identifier, answer.as_ref().map(|r| r.copy()));
    }
    assert_eq!(forward.entries(), backward.entries());
    assert_eq!(forward.entries().len(), 4);
}

#[test]
fn replaced_answer_keeps_its_place() {
    let mut cache = LookupCache::new();
    cache.store("b", None);
    cache.store("a", None);
    cache.store("c", None);
    cache.store("b", Some(record("b")));
    assert_eq!(
        cache.entries(),
        vec![entry("a", None), entry("b", Some(record("b"))), entry("c", None)]
    );
}

#[test]
fn load_puts_the_entries_in_order() {
    let cache = LookupCache::load(Some(vec![entry("z", None), entry("m", None), entry("a", None)]));
    assert_eq!(cache.entries(), vec![entry("a", None), entry("m", None), entry("z", None)]);
}
