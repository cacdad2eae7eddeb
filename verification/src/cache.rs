//! The lookup cache: what the registry has answered so far, by package
//! identifier. A stored `None` is a confirmed absence, which is an answer
//! like any other; an identifier without an entry was never looked up.
//!
//! The entries are kept in ascending order of the identifiers, so what is
//! persisted of a cache does not depend on the order in which the answers
//! came.

use vstd::prelude::*;
use crate::errors::FatalError;
use crate::registry::{
    copy_opt_record, lookup, lookup_text, opt_record, reply_meaning, FetchError, RecordText,
    RegistryRecord, RegistryReply,
};
use crate::text::{
    lemma_precedes_asymmetric, lemma_precedes_irreflexive, lemma_precedes_transitive, order_of,
    precedes, same_text, TextOrder,
};

verus! {

/// One persisted answer of the registry.
#[derive(Debug, PartialEq, Eq)]
pub struct CacheEntry {
    pub identifier: String,
    pub record: Option<RegistryRecord>,
}

/// The mapping that a list of entries stands for; where an identifier occurs
/// more than once, the later entry counts.
pub open spec fn entries_map(es: Seq<CacheEntry>) -> Map<Seq<char>, Option<RecordText>>
    decreases es.len(),
{
    if es.len() == 0 {
        Map::empty()
    } else {
        entries_map(es.drop_last()).insert(es.last().identifier@, opt_record(es.last().record))
    }
}

/// No identifier occurs twice in the list.
pub open spec fn distinct_ids(es: Seq<CacheEntry>) -> bool {
    forall|i: int, j: int| 0 <= i < j < es.len() ==> es[i].identifier@ != es[j].identifier@
}

/// The identifiers of the map are those of the entries.
pub proof fn lemma_entries_map_keys(es: Seq<CacheEntry>, key: Seq<char>)
    ensures
        entries_map(es).contains_key(key) <==> exists|i: int|
            0 <= i < es.len() && es[i].identifier@ == key,
    decreases es.len(),
{
    if es.len() > 0 {
        let front = es.drop_last();
        lemma_entries_map_keys(front, key);
        if entries_map(es).contains_key(key) {
            if es.last().identifier@ == key {
                assert(es[es.len() - 1].identifier@ == key);
            } else {
                let i = choose|i: int| 0 <= i < front.len() && front[i].identifier@ == key;
                assert(es[i].identifier@ == key);
            }
        } else {
            if exists|i: int| 0 <= i < es.len() && es[i].identifier@ == key {
                let i = choose|i: int| 0 <= i < es.len() && es[i].identifier@ == key;
                if i < es.len() - 1 {
                    assert(front[i].identifier@ == key);
                }
            }
        }
    }
}

/// The identifiers stand in strictly ascending dictionary order.
pub open spec fn ids_ascending(es: Seq<CacheEntry>) -> bool {
    forall|i: int, j: int|
        0 <= i < j < es.len() ==> precedes(
            #[trigger] es[i].identifier@,
            #[trigger] es[j].identifier@,
        )
}

/// Identifiers in ascending order are distinct.
pub proof fn lemma_ascending_is_distinct(es: Seq<CacheEntry>)
    requires
        ids_ascending(es),
    ensures
        distinct_ids(es),
{
    assert forall|i: int, j: int| 0 <= i < j < es.len() implies es[i].identifier@
        != es[j].identifier@ by {
        assert(precedes(es[i].identifier@, es[j].identifier@));
        lemma_precedes_irreflexive(es[i].identifier@);
    }
}

/// What holds of the identifiers of a list holds of the list without its
/// last entry, and the identifier of the last entry is not among them.
pub proof fn lemma_front(es: Seq<CacheEntry>)
    requires
        es.len() > 0,
    ensures
        distinct_ids(es) ==> distinct_ids(es.drop_last()),
        ids_ascending(es) ==> ids_ascending(es.drop_last()),
        distinct_ids(es) ==> !entries_map(es.drop_last()).contains_key(es.last().identifier@),
{
    let front = es.drop_last();
    if distinct_ids(es) {
        assert forall|a: int, b: int| 0 <= a < b < front.len() implies front[a].identifier@
            != front[b].identifier@ by {
            assert(front[a] == es[a] && front[b] == es[b]);
        }
        lemma_entries_map_keys(front, es.last().identifier@);
        if entries_map(front).contains_key(es.last().identifier@) {
            let i = choose|i: int|
                0 <= i < front.len() && front[i].identifier@ == es.last().identifier@;
            assert(front[i] == es[i]);
        }
    }
    if ids_ascending(es) {
        assert forall|a: int, b: int| 0 <= a < b < front.len() implies precedes(
            #[trigger] front[a].identifier@,
            #[trigger] front[b].identifier@,
        ) by {
            assert(front[a] == es[a] && front[b] == es[b]);
        }
    }
}

/// In a list without repeated identifiers, each entry is what the map holds
/// for its identifier.
pub proof fn lemma_entries_map_value(es: Seq<CacheEntry>, i: int)
    requires
        distinct_ids(es),
        0 <= i < es.len(),
    ensures
        entries_map(es).contains_key(es[i].identifier@),
        entries_map(es)[es[i].identifier@] == opt_record(es[i].record),
    decreases es.len(),
{
    if i < es.len() - 1 {
        let front = es.drop_last();
        lemma_front(es);
        lemma_entries_map_value(front, i);
        assert(front[i] == es[i]);
    }
}

/// Replacing the record of one entry, in a list without repeated
/// identifiers, is an insertion under that entry's identifier. The
/// identifiers stay what they were.
pub proof fn lemma_entries_map_update(es: Seq<CacheEntry>, i: int, e: CacheEntry)
    requires
        distinct_ids(es),
        0 <= i < es.len(),
        e.identifier@ == es[i].identifier@,
    ensures
        distinct_ids(es.update(i, e)),
        ids_ascending(es) ==> ids_ascending(es.update(i, e)),
        entries_map(es.update(i, e)) == entries_map(es).insert(
            e.identifier@,
            opt_record(e.record),
        ),
    decreases es.len(),
{
    let after = es.update(i, e);
    assert forall|a: int| 0 <= a < after.len() implies (#[trigger] after[a]).identifier@
        == es[a].identifier@ by {}
    assert(distinct_ids(after)) by {
        assert forall|a: int, b: int| 0 <= a < b < after.len() implies after[a].identifier@
            != after[b].identifier@ by {
            assert(after[a].identifier@ == es[a].identifier@);
            assert(after[b].identifier@ == es[b].identifier@);
        }
    }
    if ids_ascending(es) {
        assert forall|a: int, b: int| 0 <= a < b < after.len() implies precedes(
            #[trigger] after[a].identifier@,
            #[trigger] after[b].identifier@,
        ) by {
            assert(after[a].identifier@ == es[a].identifier@);
            assert(after[b].identifier@ == es[b].identifier@);
            assert(precedes(es[a].identifier@, es[b].identifier@));
        }
    }
    let front = es.drop_last();
    if i == es.len() - 1 {
        assert(after.drop_last() =~= front);
        assert(entries_map(after) =~= entries_map(es).insert(
            e.identifier@,
            opt_record(e.record),
        ));
    } else {
        lemma_front(es);
        lemma_entries_map_update(front, i, e);
        assert(after.drop_last() =~= front.update(i, e));
        assert(after.last() == es.last());
        assert(es[i].identifier@ != es[es.len() - 1].identifier@);
        assert(entries_map(after) =~= entries_map(es).insert(
            e.identifier@,
            opt_record(e.record),
        ));
    }
}

/// An entry with a new identifier, put anywhere into a list without
/// repeated identifiers, is an insertion under its identifier.
pub proof fn lemma_entries_map_insert(es: Seq<CacheEntry>, p: int, e: CacheEntry)
    requires
        distinct_ids(es),
        0 <= p <= es.len(),
        forall|i: int| 0 <= i < es.len() ==> es[i].identifier@ != e.identifier@,
    ensures
        entries_map(es.insert(p, e)) == entries_map(es).insert(
            e.identifier@,
            opt_record(e.record),
        ),
    decreases es.len(),
{
    let after = es.insert(p, e);
    if p == es.len() {
        assert(after.drop_last() =~= es);
    } else {
        let front = es.drop_last();
        lemma_front(es);
        assert forall|i: int| 0 <= i < front.len() implies front[i].identifier@
            != e.identifier@ by {
            assert(front[i] == es[i]);
        }
        lemma_entries_map_insert(front, p, e);
        assert(after.drop_last() =~= front.insert(p, e));
        assert(after.last() == es.last());
        assert(es[es.len() - 1].identifier@ != e.identifier@);
        assert(entries_map(after) =~= entries_map(es).insert(
            e.identifier@,
            opt_record(e.record),
        ));
    }
}

/// An entry put between the identifiers that precede its own and those
/// that its own precedes keeps the identifiers in ascending order.
pub proof fn lemma_insert_keeps_ascending(es: Seq<CacheEntry>, p: int, e: CacheEntry)
    requires
        ids_ascending(es),
        0 <= p <= es.len(),
        forall|j: int| 0 <= j < p ==> precedes(#[trigger] es[j].identifier@, e.identifier@),
        forall|j: int| p <= j < es.len() ==> precedes(e.identifier@, #[trigger] es[j].identifier@),
    ensures
        ids_ascending(es.insert(p, e)),
{
    let after = es.insert(p, e);
    assert forall|a: int, b: int| 0 <= a < b < after.len() implies precedes(
        #[trigger] after[a].identifier@,
        #[trigger] after[b].identifier@,
    ) by {
        let x = if a < p {
            a
        } else {
            a - 1
        };
        let y = if b < p {
            b
        } else {
            b - 1
        };
        if a != p {
            assert(after[a] == es[x]);
        }
        if b != p {
            assert(after[b] == es[y]);
        }
    }
}

/// Lists that agree entry by entry, in identifier and record texts, stand
/// for the same mapping, and are in ascending order together.
pub proof fn lemma_entries_map_by_text(a: Seq<CacheEntry>, b: Seq<CacheEntry>)
    requires
        a.len() == b.len(),
        forall|i: int|
            0 <= i < a.len() ==> a[i].identifier@ == b[i].identifier@ && opt_record(a[i].record)
                == opt_record(b[i].record),
    ensures
        entries_map(a) == entries_map(b),
        ids_ascending(a) == ids_ascending(b),
    decreases a.len(),
{
    if a.len() > 0 {
        let fa = a.drop_last();
        let fb = b.drop_last();
        assert forall|i: int| 0 <= i < fa.len() implies fa[i].identifier@ == fb[i].identifier@
            && opt_record(fa[i].record) == opt_record(fb[i].record) by {
            assert(fa[i] == a[i] && fb[i] == b[i]);
        }
        lemma_entries_map_by_text(fa, fb);
    }
    if ids_ascending(a) {
        assert forall|i: int, j: int| 0 <= i < j < b.len() implies precedes(
            #[trigger] b[i].identifier@,
            #[trigger] b[j].identifier@,
        ) by {
            assert(precedes(a[i].identifier@, a[j].identifier@));
        }
    }
    if ids_ascending(b) {
        assert forall|i: int, j: int| 0 <= i < j < a.len() implies precedes(
            #[trigger] a[i].identifier@,
            #[trigger] a[j].identifier@,
        ) by {
            assert(precedes(b[i].identifier@, b[j].identifier@));
        }
    }
}

/// The entries persist the mapping: together they stand for it, one
/// entry for each identifier, in ascending order of the identifiers. So
/// what is persisted depends on the mapping alone, not on the order in
/// which the answers came.
pub open spec fn persists(es: Seq<CacheEntry>, cache: Map<Seq<char>, Option<RecordText>>) -> bool {
    ids_ascending(es) && entries_map(es) == cache
}

/// The mapping that is read back from what was persisted; nothing
/// persisted, or nothing readable, reads back as the empty mapping.
pub open spec fn loaded(persisted: Option<Seq<CacheEntry>>) -> Map<Seq<char>, Option<RecordText>> {
    match persisted {
        Some(es) => entries_map(es),
        None => Map::empty(),
    }
}

/// How the removal of the cache file went.
#[derive(Clone, Copy, Debug, PartialEq, Eq, Structural)]
pub enum Removal {
    /// The file is gone.
    Removed,
    /// There was no file.
    Missing,
    /// The file is there and could not be removed.
    Failed,
}

/// What the cache knows about one identifier.
#[derive(Debug)]
pub enum CacheLookup<'a> {
    /// The registry's answer is stored: no request is needed.
    Hit(&'a Option<RegistryRecord>),
    /// Nothing is stored: the registry has to be asked.
    Miss,
}

/// The answers of the registry observed so far, by package identifier.
#[derive(Debug)]
pub struct LookupCache {
    entries: Vec<CacheEntry>,
}

impl View for LookupCache {
    type V = Map<Seq<char>, Option<RecordText>>;

    closed spec fn view(&self) -> Map<Seq<char>, Option<RecordText>> {
        entries_map(self.entries@)
    }
}

/// The cache after a reply for `identifier` has been taken in: an answer
/// is stored unless one was stored already; a failure leaves the cache as
/// it was.
pub open spec fn after_reply(
    cache: Map<Seq<char>, Option<RecordText>>,
    identifier: Seq<char>,
    reply: RegistryReply,
) -> Map<Seq<char>, Option<RecordText>> {
    if cache.contains_key(identifier) {
        cache
    } else {
        match reply_meaning(reply) {
            Ok(answer) => cache.insert(identifier, answer),
            Err(_) => cache,
        }
    }
}

/// What a lookup of `identifier` returns once a reply has been taken in.
pub open spec fn answer_after_reply(
    cache: Map<Seq<char>, Option<RecordText>>,
    identifier: Seq<char>,
    reply: RegistryReply,
) -> Result<Option<RecordText>, FetchError> {
    if cache.contains_key(identifier) {
        Ok(cache[identifier])
    } else {
        reply_meaning(reply)
    }
}

impl LookupCache {
    /// The cache holds its entries in ascending order of the identifiers,
    /// and so at most one for each identifier.
    pub closed spec fn wf(&self) -> bool {
        ids_ascending(self.entries@)
    }

    /// Where `identifier` belongs among the entries: the index of the first
    /// entry whose identifier does not precede it, and whether that entry
    /// is the one of `identifier`.
    fn slot(&self, identifier: &str) -> (r: (usize, bool))
        requires
            self.wf(),
        ensures
            r.0 <= self.entries@.len(),
            forall|j: int|
                0 <= j < r.0 ==> precedes(#[trigger] self.entries@[j].identifier@, identifier@),
            r.1 ==> r.0 < self.entries@.len() && self.entries@[r.0 as int].identifier@
                == identifier@,
            !r.1 ==> forall|j: int|
                r.0 <= j < self.entries@.len() ==> precedes(
                    identifier@,
                    #[trigger] self.entries@[j].identifier@,
                ),
    {
        let mut p: usize = 0;
        while p < self.entries.len()
            invariant
                p <= self.entries@.len(),
                ids_ascending(self.entries@),
                forall|j: int|
                    0 <= j < p ==> precedes(#[trigger] self.entries@[j].identifier@, identifier@),
            decreases self.entries@.len() - p,
        {
            match order_of(self.entries[p].identifier.as_str(), identifier) {
                TextOrder::Before => {
                    p = p + 1;
                },
                TextOrder::Same => {
                    return (p, true);
                },
                TextOrder::After => {
                    assert forall|j: int| p <= j < self.entries@.len() implies precedes(
                        identifier@,
                        #[trigger] self.entries@[j].identifier@,
                    ) by {
                        if j > p {
                            lemma_precedes_transitive(
                                identifier@,
                                self.entries@[p as int].identifier@,
                                self.entries@[j].identifier@,
                            );
                        }
                    }
                    return (p, false);
                },
            }
        }
        (p, false)
    }

    /// A cache without entries.
    pub fn new() -> (cache: LookupCache)
        ensures
            cache.wf(),
            cache@ == Map::<Seq<char>, Option<RecordText>>::empty(),
    {
        LookupCache { entries: Vec::new() }
    }

    fn position(&self, identifier: &str) -> (found: Option<usize>)
        ensures
            match found {
                Some(i) => i < self.entries@.len() && self.entries@[i as int].identifier@
                    == identifier@,
                None => forall|j: int|
                    0 <= j < self.entries@.len() ==> self.entries@[j].identifier@ != identifier@,
            },
    {
        let mut i: usize = 0;
        while i < self.entries.len()
            invariant
                i <= self.entries@.len(),
                forall|j: int| 0 <= j < i ==> self.entries@[j].identifier@ != identifier@,
            decreases self.entries@.len() - i,
        {
            if same_text(self.entries[i].identifier.as_str(), identifier) {
                return Some(i);
            }
            i = i + 1;
        }
        None
    }

    /// Whether an answer is stored for `identifier`.
    pub fn contains(&self, identifier: &str) -> (known: bool)
        ensures
            known == self@.contains_key(identifier@),
    {
        proof {
            lemma_entries_map_keys(self.entries@, identifier@);
        }
        self.position(identifier).is_some()
    }

    /// Looks `identifier` up without any request: a hit hands out the stored
    /// answer, a miss says that the registry has to be asked.
    pub fn find(&self, identifier: &str) -> (found: CacheLookup<'_>)
        requires
            self.wf(),
        ensures
            match found {
                CacheLookup::Hit(answer) => self@.contains_key(identifier@) && opt_record(*answer)
                    == self@[identifier@],
                CacheLookup::Miss => !self@.contains_key(identifier@),
            },
    {
        proof {
            lemma_ascending_is_distinct(self.entries@);
            lemma_entries_map_keys(self.entries@, identifier@);
        }
        match self.position(identifier) {
            Some(i) => {
                proof {
                    lemma_entries_map_value(self.entries@, i as int);
                }
                CacheLookup::Hit(&self.entries[i].record)
            },
            None => CacheLookup::Miss,
        }
    }

    /// Stores `answer` for `identifier`, in place of an earlier answer if
    /// there is one.
    pub fn store(&mut self, identifier: &str, answer: Option<RegistryRecord>)
        requires
            old(self).wf(),
        ensures
            final(self).wf(),
            final(self)@ == old(self)@.insert(identifier@, opt_record(answer)),
    {
        let entry = CacheEntry { identifier: String::from_str(identifier), record: answer };
        let (p, taken) = self.slot(identifier);
        proof {
            lemma_ascending_is_distinct(self.entries@);
            if taken {
                lemma_entries_map_update(self.entries@, p as int, entry);
            } else {
                assert forall|i: int| 0 <= i < self.entries@.len() implies self.entries@[i].identifier@
                    != entry.identifier@ by {
                    lemma_precedes_irreflexive(identifier@);
                    if i < p {
                        assert(precedes(self.entries@[i].identifier@, identifier@));
                    } else {
                        assert(precedes(identifier@, self.entries@[i].identifier@));
                    }
                }
                lemma_entries_map_insert(self.entries@, p as int, entry);
                lemma_insert_keeps_ascending(self.entries@, p as int, entry);
            }
        }
        if taken {
            self.entries.set(p, entry);
        } else {
            self.entries.insert(p, entry);
        }
    }

    /// Takes in the registry's reply to a request for `identifier`. An
    /// answer (a record, or a confirmed absence) is stored and returned. A
    /// failure is returned and nothing is stored, so that a later run asks
    /// again. Where an answer was stored already, it stays and is returned.
    pub fn store_reply(&mut self, identifier: &str, reply: RegistryReply) -> (r: Result<
        Option<RegistryRecord>,
        FetchError,
    >)
        requires
            old(self).wf(),
        ensures
            final(self).wf(),
            final(self)@ == after_reply(old(self)@, identifier@, reply),
            lookup_text(r) == answer_after_reply(old(self)@, identifier@, reply),
    {
        match self.find(identifier) {
            CacheLookup::Hit(answer) => {
                return Ok(copy_opt_record(answer));
            },
            CacheLookup::Miss => {},
        }
        match lookup(reply) {
            Ok(answer) => {
                let stored = copy_opt_record(&answer);
                self.store(identifier, stored);
                Ok(answer)
            },
            Err(e) => Err(e),
        }
    }

    /// The number of identifiers with an answer.
    pub fn len(&self) -> (n: usize)
        requires
            self.wf(),
        ensures
            self@.dom().finite(),
            n == self@.dom().len(),
    {
        proof {
            lemma_ascending_is_distinct(self.entries@);
            lemma_entries_map_len(self.entries@);
        }
        self.entries.len()
    }

    /// Forgets every entry.
    pub fn invalidate_all(&mut self)
        ensures
            final(self).wf(),
            final(self)@ == Map::<Seq<char>, Option<RecordText>>::empty(),
    {
        self.entries = Vec::new();
    }

    /// Empties the cache for a run that starts afresh, and judges how the
    /// removal of the cache file went, which is a step of its own: a file
    /// that was not there is no error, a file that could not be removed
    /// ends the run.
    pub fn clean(&mut self, removal: Removal) -> (r: Result<(), FatalError>)
        ensures
            final(self).wf(),
            final(self)@ == Map::<Seq<char>, Option<RecordText>>::empty(),
            match r {
                Ok(_) => removal != Removal::Failed,
                Err(e) => removal == Removal::Failed && e == FatalError::CacheNotRemoved,
            },
    {
        self.invalidate_all();
        match removal {
            Removal::Failed => Err(FatalError::CacheNotRemoved),
            _ => Ok(()),
        }
    }

    /// The cache that a persisted list of entries stands for. Nothing
    /// persisted, or nothing readable, is an empty cache.
    pub fn load(persisted: Option<Vec<CacheEntry>>) -> (cache: LookupCache)
        ensures
            cache.wf(),
            cache@ == match persisted {
                Some(es) => loaded(Some(es@)),
                None => loaded(None),
            },
    {
        let mut cache = LookupCache::new();
        match persisted {
            Some(es) => {
                let mut i: usize = 0;
                while i < es.len()
                    invariant
                        i <= es.len(),
                        cache.wf(),
                        cache@ == entries_map(es@.subrange(0, i as int)),
                    decreases es.len() - i,
                {
                    let answer = copy_opt_record(&es[i].record);
                    cache.store(es[i].identifier.as_str(), answer);
                    assert(es@.subrange(0, i + 1).drop_last() =~= es@.subrange(0, i as int));
                    i = i + 1;
                }
                assert(es@.subrange(0, i as int) =~= es@);
            },
            None => {},
        }
        cache
    }

    /// The entries to persist: one for each identifier, in ascending order
    /// of the identifiers, and together they stand for this cache.
    pub fn entries(&self) -> (es: Vec<CacheEntry>)
        requires
            self.wf(),
        ensures
            persists(es@, self@),
    {
        let mut es: Vec<CacheEntry> = Vec::new();
        let mut i: usize = 0;
        while i < self.entries.len()
            invariant
                i <= self.entries@.len(),
                es@.len() == i,
                forall|j: int|
                    0 <= j < i ==> es@[j].identifier@ == self.entries@[j].identifier@
                        && opt_record(es@[j].record) == opt_record(self.entries@[j].record),
            decreases self.entries@.len() - i,
        {
            es.push(
                CacheEntry {
                    identifier: self.entries[i].identifier.clone(),
                    record: copy_opt_record(&self.entries[i].record),
                },
            );
            i = i + 1;
        }
        proof {
            lemma_entries_map_by_text(es@, self.entries@);
        }
        es
    }
}

/// Once the registry has answered for an identifier, the cache holds the
/// answer: a second lookup is a hit, and a further reply changes nothing.
pub proof fn law_one_request_per_identifier(
    cache: Map<Seq<char>, Option<RecordText>>,
    identifier: Seq<char>,
    first: RegistryReply,
    second: RegistryReply,
)
    requires
        reply_meaning(first) is Ok,
    ensures
        after_reply(cache, identifier, first).contains_key(identifier),
        after_reply(after_reply(cache, identifier, first), identifier, second) == after_reply(
            cache,
            identifier,
            first,
        ),
        answer_after_reply(after_reply(cache, identifier, first), identifier, second)
            == answer_after_reply(cache, identifier, first),
{
}

/// A reply that is no answer leaves the cache as it was.
pub proof fn law_failure_is_not_stored(
    cache: Map<Seq<char>, Option<RecordText>>,
    identifier: Seq<char>,
    reply: RegistryReply,
)
    requires
        reply_meaning(reply) is Err,
    ensures
        after_reply(cache, identifier, reply) == cache,
{
}

/// The number of entries of a list without repeated identifiers is the
/// number of identifiers of its mapping.
pub proof fn lemma_entries_map_len(es: Seq<CacheEntry>)
    requires
        distinct_ids(es),
    ensures
        entries_map(es).dom().finite(),
        entries_map(es).dom().len() == es.len(),
    decreases es.len(),
{
    if es.len() > 0 {
        let front = es.drop_last();
        lemma_front(es);
        lemma_entries_map_len(front);
        assert(entries_map(es).dom() =~= entries_map(front).dom().insert(es.last().identifier@));
    } else {
        assert(entries_map(es).dom() =~= Set::<Seq<char>>::empty());
    }
}

/// What is read back from the persisted entries of a cache is the cache
/// that was persisted: as many identifiers as entries, each with its
/// answer, the confirmed absences among them.
pub proof fn law_persisted_cache_reads_back(
    cache: Map<Seq<char>, Option<RecordText>>,
    persisted: Seq<CacheEntry>,
)
    requires
        persists(persisted, cache),
    ensures
        loaded(Some(persisted)) == cache,
        cache.dom().finite(),
        cache.dom().len() == persisted.len(),
        forall|i: int|
            0 <= i < persisted.len() ==> cache.contains_key(#[trigger] persisted[i].identifier@)
                && cache[persisted[i].identifier@] == opt_record(persisted[i].record),
{
    lemma_ascending_is_distinct(persisted);
    lemma_entries_map_len(persisted);
    assert forall|i: int| 0 <= i < persisted.len() implies cache.contains_key(
        #[trigger] persisted[i].identifier@,
    ) && cache[persisted[i].identifier@] == opt_record(persisted[i].record) by {
        lemma_entries_map_value(persisted, i);
    }
}

/// The last of the entries that persist a mapping has the greatest
/// identifier of the mapping, so two lists that persist one mapping end
/// with the same identifier.
proof fn lemma_same_last(a: Seq<CacheEntry>, b: Seq<CacheEntry>)
    requires
        ids_ascending(a),
        ids_ascending(b),
        entries_map(a) == entries_map(b),
        a.len() > 0,
        b.len() > 0,
    ensures
        a.last().identifier@ == b.last().identifier@,
{
    let la = a.last().identifier@;
    let lb = b.last().identifier@;
    lemma_entries_map_keys(a, la);
    lemma_entries_map_keys(b, la);
    lemma_entries_map_keys(a, lb);
    lemma_entries_map_keys(b, lb);
    assert(a[a.len() - 1].identifier@ == la);
    assert(b[b.len() - 1].identifier@ == lb);
    let j = choose|j: int| 0 <= j < b.len() && b[j].identifier@ == la;
    let i = choose|i: int| 0 <= i < a.len() && a[i].identifier@ == lb;
    if la != lb {
        assert(j < b.len() - 1);
        assert(i < a.len() - 1);
        assert(precedes(b[j].identifier@, b[b.len() - 1].identifier@));
        assert(precedes(a[i].identifier@, a[a.len() - 1].identifier@));
        lemma_precedes_asymmetric(la, lb);
    }
}

/// What is persisted of a cache depends on its mapping alone: two lists
/// of entries that persist one mapping have the same identifiers with the
/// same answers at the same places, whatever the order in which the
/// answers were stored.
pub proof fn law_persisted_entries_are_determined(
    cache: Map<Seq<char>, Option<RecordText>>,
    a: Seq<CacheEntry>,
    b: Seq<CacheEntry>,
)
    requires
        persists(a, cache),
        persists(b, cache),
    ensures
        a.len() == b.len(),
        forall|i: int|
            0 <= i < a.len() ==> (#[trigger] a[i]).identifier@ == b[i].identifier@ && opt_record(
                a[i].record,
            ) == opt_record(b[i].record),
    decreases a.len(),
{
    lemma_ascending_is_distinct(a);
    lemma_ascending_is_distinct(b);
    lemma_entries_map_len(a);
    lemma_entries_map_len(b);
    if a.len() > 0 {
        let n = a.len() - 1;
        let fa = a.drop_last();
        let fb = b.drop_last();
        lemma_same_last(a, b);
        lemma_front(a);
        lemma_front(b);
        lemma_entries_map_value(a, n);
        lemma_entries_map_value(b, n);
        let rest = cache.remove(a.last().identifier@);
        assert(entries_map(fa) =~= rest);
        assert(entries_map(fb) =~= rest);
        law_persisted_entries_are_determined(rest, fa, fb);
        assert forall|i: int| 0 <= i < a.len() implies (#[trigger] a[i]).identifier@
            == b[i].identifier@ && opt_record(a[i].record) == opt_record(b[i].record) by {
            if i < n {
                assert(fa[i] == a[i] && fb[i] == b[i]);
            }
        }
    }
}

} // verus!
