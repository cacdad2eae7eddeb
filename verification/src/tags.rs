//! The tag dictionary and its check against the tags that packages carry.

use vstd::prelude::*;
use crate::ecosystem::PackageDeclaration;
use crate::errors::{error_texts, ErrorText, ValidationError};
use crate::text::{opt_text, same_text};

verus! {

/// A tag and what it means, if anybody wrote that down.
#[derive(Debug, PartialEq, Eq)]
pub struct TagEntry {
    pub name: String,
    pub description: Option<String>,
}

/// The texts of a [`TagEntry`].
pub ghost struct TagText {
    pub name: Seq<char>,
    pub description: Option<Seq<char>>,
}

impl View for TagEntry {
    type V = TagText;

    open spec fn view(&self) -> TagText {
        TagText { name: self.name@, description: opt_text(self.description) }
    }
}

/// The texts of a list of tag entries, in order.
pub open spec fn tag_texts(entries: Seq<TagEntry>) -> Seq<TagText> {
    Seq::new(entries.len(), |i: int| entries[i]@)
}

/// The entries have an entry for `name`.
pub open spec fn has_name(entries: Seq<TagText>, name: Seq<char>) -> bool {
    exists|i: int| 0 <= i < entries.len() && (#[trigger] entries[i]).name == name
}

/// No tag has two entries.
pub open spec fn distinct_names(entries: Seq<TagText>) -> bool {
    forall|i: int, j: int|
        0 <= i < j < entries.len() ==> (#[trigger] entries[i]).name != (#[trigger] entries[j]).name
}

/// Some declaration carries `tag`.
pub open spec fn is_used(decls: Seq<PackageDeclaration>, tag: Seq<char>) -> bool {
    exists|i: int, k: int|
        0 <= i < decls.len() && 0 <= k < decls[i]@.tags.len() && #[trigger] decls[i]@.tags[k]
            == tag
}

/// The tags of all declarations, one declaration after the other.
pub open spec fn all_tags(decls: Seq<PackageDeclaration>) -> Seq<Seq<char>>
    decreases decls.len(),
{
    if decls.len() == 0 {
        Seq::empty()
    } else {
        all_tags(decls.drop_last()) + decls.last()@.tags
    }
}

/// The entries after each tag of `tags` that had none has been given one
/// without a description, in the order in which the tags come.
pub open spec fn completed(entries: Seq<TagText>, tags: Seq<Seq<char>>) -> Seq<TagText>
    decreases tags.len(),
{
    if tags.len() == 0 {
        entries
    } else {
        let sofar = completed(entries, tags.drop_last());
        if has_name(sofar, tags.last()) {
            sofar
        } else {
            sofar.push(TagText { name: tags.last(), description: None })
        }
    }
}

/// One error for each entry whose tag no declaration carries, in the order
/// of the entries.
pub open spec fn unused_errors(entries: Seq<TagText>, decls: Seq<PackageDeclaration>) -> Seq<
    ErrorText,
>
    decreases entries.len(),
{
    if entries.len() == 0 {
        Seq::empty()
    } else {
        let sofar = unused_errors(entries.drop_last(), decls);
        if is_used(decls, entries.last().name) {
            sofar
        } else {
            sofar.push(ErrorText::UnusedTag { tag: entries.last().name })
        }
    }
}

/// How often `e` occurs among `errors`.
pub open spec fn occurrences(errors: Seq<ErrorText>, e: ErrorText) -> nat
    decreases errors.len(),
{
    if errors.len() == 0 {
        0
    } else {
        occurrences(errors.drop_last(), e) + if errors.last() == e {
            1nat
        } else {
            0nat
        }
    }
}

/// The tags that packages may carry, each with an optional description.
/// No tag has two entries.
#[derive(Debug)]
pub struct TagDictionary {
    entries: Vec<TagEntry>,
}

impl View for TagDictionary {
    type V = Seq<TagText>;

    closed spec fn view(&self) -> Seq<TagText> {
        tag_texts(self.entries@)
    }
}

impl TagDictionary {
    /// No tag has two entries.
    pub open spec fn wf(&self) -> bool {
        distinct_names(self@)
    }

    /// A dictionary without entries.
    pub fn new() -> (dictionary: TagDictionary)
        ensures
            dictionary.wf(),
            dictionary@ == Seq::<TagText>::empty(),
    {
        let dictionary = TagDictionary { entries: Vec::new() };
        assert(dictionary@ =~= Seq::<TagText>::empty());
        dictionary
    }

    fn position(&self, name: &str) -> (found: Option<usize>)
        ensures
            match found {
                Some(i) => i < self@.len() && self@[i as int].name == name@,
                None => !has_name(self@, name@),
            },
    {
        let mut i: usize = 0;
        while i < self.entries.len()
            invariant
                i <= self.entries@.len(),
                self@.len() == self.entries@.len(),
                forall|j: int| 0 <= j < i ==> (#[trigger] self@[j]).name != name@,
            decreases self.entries@.len() - i,
        {
            if same_text(self.entries[i].name.as_str(), name) {
                return Some(i);
            }
            i = i + 1;
        }
        None
    }

    /// Whether the dictionary has an entry for `name`.
    pub fn contains(&self, name: &str) -> (known: bool)
        ensures
            known == has_name(self@, name@),
    {
        self.position(name).is_some()
    }

    /// The dictionary of the given entries, in their order. Entries that
    /// give one tag twice make no dictionary.
    pub fn from_entries(entries: Vec<TagEntry>) -> (made: Option<TagDictionary>)
        ensures
            match made {
                Some(dictionary) => dictionary.wf() && dictionary@ == tag_texts(entries@),
                None => !distinct_names(tag_texts(entries@)),
            },
    {
        let mut i: usize = 0;
        while i < entries.len()
            invariant
                i <= entries@.len(),
                distinct_names(tag_texts(entries@).subrange(0, i as int)),
            decreases entries@.len() - i,
        {
            let mut j: usize = 0;
            while j < i
                invariant
                    j <= i,
                    i < entries@.len(),
                    forall|k: int| 0 <= k < j ==> entries@[k].name@ != entries@[i as int].name@,
                decreases i - j,
            {
                if same_text(entries[j].name.as_str(), entries[i].name.as_str()) {
                    proof {
                        let all = tag_texts(entries@);
                        assert(all[j as int].name == all[i as int].name);
                    }
                    return None;
                }
                j = j + 1;
            }
            proof {
                let all = tag_texts(entries@);
                let short = all.subrange(0, i as int);
                let long = all.subrange(0, i + 1);
                assert forall|a: int, b: int| 0 <= a < b < long.len() implies (
                #[trigger] long[a]).name != (#[trigger] long[b]).name by {
                    assert(long[a] == short[a]);
                    if b < i {
                        assert(long[b] == short[b]);
                    } else {
                        assert(entries@[a].name@ != entries@[i as int].name@);
                    }
                }
            }
            i = i + 1;
        }
        assert(tag_texts(entries@).subrange(0, i as int) =~= tag_texts(entries@));
        Some(TagDictionary { entries })
    }

    /// The entries, in order.
    pub fn entries(&self) -> (entries: &Vec<TagEntry>)
        ensures
            tag_texts(entries@) == self@,
    {
        &self.entries
    }
}

/// Whether some declaration carries `tag`.
pub fn tag_is_used(decls: &Vec<PackageDeclaration>, tag: &str) -> (used: bool)
    ensures
        used == is_used(decls@, tag@),
{
    let mut i: usize = 0;
    while i < decls.len()
        invariant
            i <= decls@.len(),
            forall|a: int, k: int|
                0 <= a < i && 0 <= k < decls@[a]@.tags.len() ==> #[trigger] decls@[a]@.tags[k]
                    != tag@,
        decreases decls@.len() - i,
    {
        let tags = &decls[i].tags;
        let mut k: usize = 0;
        while k < tags.len()
            invariant
                k <= tags@.len(),
                i < decls@.len(),
                tags@ == decls@[i as int].tags@,
                forall|b: int| 0 <= b < k ==> #[trigger] decls@[i as int]@.tags[b] != tag@,
            decreases tags@.len() - k,
        {
            if same_text(tags[k].as_str(), tag) {
                assert(decls@[i as int]@.tags[k as int] == tag@);
                return true;
            }
            k = k + 1;
        }
        i = i + 1;
    }
    false
}

/// Checks the dictionary against the tags in use.
///
/// Each entry whose tag no declaration carries gives one error; the entry
/// stays. Each tag that a declaration carries and the dictionary lacks gets
/// an entry without a description, whether or not there are errors.
pub fn validate_tags(decls: &Vec<PackageDeclaration>, dictionary: &mut TagDictionary) -> (errors:
    Vec<ValidationError>)
    requires
        old(dictionary).wf(),
    ensures
        final(dictionary).wf(),
        final(dictionary)@ == completed(old(dictionary)@, all_tags(decls@)),
        error_texts(errors@) == unused_errors(old(dictionary)@, decls@),
{
    let mut errors: Vec<ValidationError> = Vec::new();
    let mut e: usize = 0;
    assert(error_texts(errors@) =~= unused_errors(dictionary@.subrange(0, 0), decls@));
    while e < dictionary.entries.len()
        invariant
            e <= dictionary.entries@.len(),
            dictionary@.len() == dictionary.entries@.len(),
            *dictionary == *old(dictionary),
            error_texts(errors@) == unused_errors(dictionary@.subrange(0, e as int), decls@),
        decreases dictionary.entries@.len() - e,
    {
        let ghost before = errors@;
        proof {
            let long = dictionary@.subrange(0, e + 1);
            assert(long.drop_last() =~= dictionary@.subrange(0, e as int));
            assert(long.last() == dictionary@[e as int]);
        }
        if !tag_is_used(decls, dictionary.entries[e].name.as_str()) {
            errors.push(ValidationError::UnusedTag { tag: dictionary.entries[e].name.clone() });
            assert(error_texts(errors@) =~= error_texts(before).push(
                ErrorText::UnusedTag { tag: dictionary@[e as int].name },
            ));
        }
        e = e + 1;
    }
    assert(dictionary@.subrange(0, e as int) =~= dictionary@);

    let mut i: usize = 0;
    assert(decls@.subrange(0, 0) =~= Seq::<PackageDeclaration>::empty());
    while i < decls.len()
        invariant
            i <= decls@.len(),
            dictionary.wf(),
            dictionary@ == completed(old(dictionary)@, all_tags(decls@.subrange(0, i as int))),
        decreases decls@.len() - i,
    {
        let tags = &decls[i].tags;
        let ghost done = all_tags(decls@.subrange(0, i as int));
        let mut k: usize = 0;
        assert(done + decls@[i as int]@.tags.subrange(0, 0) =~= done);
        while k < tags.len()
            invariant
                k <= tags@.len(),
                i < decls@.len(),
                tags@ == decls@[i as int].tags@,
                dictionary.wf(),
                dictionary@ == completed(
                    old(dictionary)@,
                    done + decls@[i as int]@.tags.subrange(0, k as int),
                ),
            decreases tags@.len() - k,
        {
            proof {
                let stream = done + decls@[i as int]@.tags.subrange(0, k + 1);
                assert(stream.drop_last() =~= done + decls@[i as int]@.tags.subrange(
                    0,
                    k as int,
                ));
                assert(stream.last() == tags@[k as int]@);
            }
            if !dictionary.contains(tags[k].as_str()) {
                let ghost before = dictionary@;
                dictionary.entries.push(TagEntry { name: tags[k].clone(), description: None });
                assert(dictionary@ =~= before.push(
                    TagText { name: tags@[k as int]@, description: None },
                ));
                assert forall|a: int, b: int| 0 <= a < b < dictionary@.len() implies (
                #[trigger] dictionary@[a]).name != (#[trigger] dictionary@[b]).name by {
                    assert(dictionary@[a] == before[a]);
                    if b < before.len() {
                        assert(dictionary@[b] == before[b]);
                    }
                }
            }
            k = k + 1;
        }
        proof {
            let long = decls@.subrange(0, i + 1);
            assert(long.drop_last() =~= decls@.subrange(0, i as int));
            assert(long.last() == decls@[i as int]);
            assert(decls@[i as int]@.tags.subrange(0, k as int) =~= decls@[i as int]@.tags);
        }
        i = i + 1;
    }
    assert(decls@.subrange(0, i as int) =~= decls@);
    errors
}

/// An entry is reported at most where its tag is its own.
proof fn lemma_no_error_for_others(
    entries: Seq<TagText>,
    decls: Seq<PackageDeclaration>,
    tag: Seq<char>,
)
    requires
        !has_name(entries, tag) || is_used(decls, tag),
    ensures
        occurrences(unused_errors(entries, decls), ErrorText::UnusedTag { tag }) == 0,
    decreases entries.len(),
{
    if entries.len() > 0 {
        let front = entries.drop_last();
        if !has_name(entries, tag) {
            assert forall|i: int| 0 <= i < front.len() implies (#[trigger] front[i]).name
                != tag by {
                assert(entries[i] == front[i]);
            }
            assert(entries[entries.len() - 1].name != tag);
        }
        lemma_no_error_for_others(front, decls, tag);
        let sofar = unused_errors(front, decls);
        if !is_used(decls, entries.last().name) {
            let all = sofar.push(ErrorText::UnusedTag { tag: entries.last().name });
            assert(all.drop_last() =~= sofar);
        }
    }
}

/// A described tag that no package carries is reported exactly once.
pub proof fn law_unused_tag_reported_once(
    entries: Seq<TagText>,
    decls: Seq<PackageDeclaration>,
    tag: Seq<char>,
)
    requires
        distinct_names(entries),
        has_name(entries, tag),
        !is_used(decls, tag),
    ensures
        occurrences(unused_errors(entries, decls), ErrorText::UnusedTag { tag }) == 1,
    decreases entries.len(),
{
    let front = entries.drop_last();
    let sofar = unused_errors(front, decls);
    let i = choose|i: int| 0 <= i < entries.len() && (#[trigger] entries[i]).name == tag;
    if i == entries.len() - 1 {
        assert(!has_name(front, tag)) by {
            if has_name(front, tag) {
                let j = choose|j: int| 0 <= j < front.len() && (#[trigger] front[j]).name == tag;
                assert(entries[j] == front[j]);
            }
        }
        lemma_no_error_for_others(front, decls, tag);
        let all = sofar.push(ErrorText::UnusedTag { tag });
        assert(all.drop_last() =~= sofar);
    } else {
        assert(front[i] == entries[i]);
        assert(distinct_names(front)) by {
            assert forall|a: int, b: int| 0 <= a < b < front.len() implies (
            #[trigger] front[a]).name != (#[trigger] front[b]).name by {
                assert(front[a] == entries[a] && front[b] == entries[b]);
            }
        }
        law_unused_tag_reported_once(front, decls, tag);
        assert(entries.last().name != tag);
        if !is_used(decls, entries.last().name) {
            let all = sofar.push(ErrorText::UnusedTag { tag: entries.last().name });
            assert(all.drop_last() =~= sofar);
        }
    }
}

/// A tag that some package carries is never reported, described or not.
pub proof fn law_used_tag_not_reported(
    entries: Seq<TagText>,
    decls: Seq<PackageDeclaration>,
    tag: Seq<char>,
)
    requires
        is_used(decls, tag),
    ensures
        occurrences(unused_errors(entries, decls), ErrorText::UnusedTag { tag }) == 0,
{
    lemma_no_error_for_others(entries, decls, tag);
}

/// Each tag of each declaration is among the tags taken together.
proof fn lemma_tag_is_among_all(decls: Seq<PackageDeclaration>, i: int, k: int)
    requires
        0 <= i < decls.len(),
        0 <= k < decls[i]@.tags.len(),
    ensures
        all_tags(decls).contains(decls[i]@.tags[k]),
    decreases decls.len(),
{
    let front = decls.drop_last();
    let own = decls.last()@.tags;
    let all = all_tags(decls);
    assert(all == all_tags(front) + own);
    if i < decls.len() - 1 {
        assert(front[i] == decls[i]);
        lemma_tag_is_among_all(front, i, k);
        let x = choose|x: int|
            0 <= x < all_tags(front).len() && all_tags(front)[x] == front[i]@.tags[k];
        assert(all[x] == decls[i]@.tags[k]);
    } else {
        assert(all[all_tags(front).len() + k] == own[k]);
    }
}

/// Each of the tags taken together is a tag of some declaration.
proof fn lemma_among_all_is_used(decls: Seq<PackageDeclaration>, x: int)
    requires
        0 <= x < all_tags(decls).len(),
    ensures
        is_used(decls, all_tags(decls)[x]),
    decreases decls.len(),
{
    if decls.len() > 0 {
        let front = decls.drop_last();
        let own = decls.last()@.tags;
        let all = all_tags(decls);
        let tag = all[x];
        assert(all == all_tags(front) + own);
        if x < all_tags(front).len() {
            assert(all_tags(front)[x] == tag);
            lemma_among_all_is_used(front, x);
            let (i, k) = choose|i: int, k: int|
                0 <= i < front.len() && 0 <= k < front[i]@.tags.len()
                    && #[trigger] front[i]@.tags[k] == tag;
            assert(decls[i] == front[i]);
            assert(0 <= i < decls.len() && 0 <= k < decls[i]@.tags.len() && decls[i]@.tags[k]
                == tag);
        } else {
            let i = decls.len() - 1;
            let k = x - all_tags(front).len();
            assert(0 <= i < decls.len() && 0 <= k < decls[i]@.tags.len() && decls[i]@.tags[k]
                == tag);
        }
    }
}

/// The tags in use are the tags of the declarations taken together.
pub proof fn lemma_all_tags_are_used(decls: Seq<PackageDeclaration>, tag: Seq<char>)
    ensures
        all_tags(decls).contains(tag) <==> is_used(decls, tag),
{
    if all_tags(decls).contains(tag) {
        let x = choose|x: int| 0 <= x < all_tags(decls).len() && all_tags(decls)[x] == tag;
        lemma_among_all_is_used(decls, x);
    }
    if is_used(decls, tag) {
        let (i, k) = choose|i: int, k: int|
            0 <= i < decls.len() && 0 <= k < decls[i]@.tags.len()
                && #[trigger] decls[i]@.tags[k] == tag;
        lemma_tag_is_among_all(decls, i, k);
    }
}

/// Completing a dictionary keeps its entries where they were, adds only
/// entries without a description, keeps the names distinct, and ends with
/// an entry for every tag that came.
pub proof fn lemma_completed(entries: Seq<TagText>, tags: Seq<Seq<char>>)
    ensures
        completed(entries, tags).len() >= entries.len(),
        completed(entries, tags).subrange(0, entries.len() as int) == entries,
        forall|i: int|
            entries.len() <= i < completed(entries, tags).len() ==> (#[trigger] completed(
                entries,
                tags,
            )[i]).description is None && tags.contains(completed(entries, tags)[i].name),
        distinct_names(entries) ==> distinct_names(completed(entries, tags)),
        forall|t: Seq<char>| #[trigger]
            tags.contains(t) ==> has_name(completed(entries, tags), t),
    decreases tags.len(),
{
    let all = completed(entries, tags);
    if tags.len() == 0 {
        assert(all.subrange(0, entries.len() as int) =~= entries);
    } else {
        let front = tags.drop_last();
        let sofar = completed(entries, front);
        lemma_completed(entries, front);
        assert(all.subrange(0, entries.len() as int) =~= sofar.subrange(
            0,
            entries.len() as int,
        ));
        assert forall|i: int| entries.len() <= i < all.len() implies (#[trigger] all[i]).description
            is None && tags.contains(all[i].name) by {
            if i < sofar.len() {
                assert(all[i] == sofar[i]);
                let x = choose|x: int| 0 <= x < front.len() && front[x] == sofar[i].name;
                assert(tags[x] == sofar[i].name);
            } else {
                assert(tags[tags.len() - 1] == all[i].name);
            }
        }
        if distinct_names(entries) {
            assert forall|a: int, b: int| 0 <= a < b < all.len() implies (#[trigger] all[a]).name
                != (#[trigger] all[b]).name by {
                assert(all[a] == sofar[a]);
                if b < sofar.len() {
                    assert(all[b] == sofar[b]);
                }
            }
        }
        assert forall|t: Seq<char>| #[trigger] tags.contains(t) implies has_name(all, t) by {
            let x = choose|x: int| 0 <= x < tags.len() && tags[x] == t;
            if x < front.len() {
                assert(front[x] == t);
                assert(front.contains(t));
                let j = choose|j: int| 0 <= j < sofar.len() && (#[trigger] sofar[j]).name == t;
                assert(all[j] == sofar[j]);
            } else if has_name(sofar, t) {
            } else {
                assert(all[all.len() - 1].name == t);
            }
        }
    }
}

/// A tag that some package carries and the dictionary does not describe
/// gets an entry without a description, behind the entries that were
/// there.
pub proof fn law_used_tag_gets_entry(
    entries: Seq<TagText>,
    decls: Seq<PackageDeclaration>,
    tag: Seq<char>,
)
    requires
        is_used(decls, tag),
        !has_name(entries, tag),
    ensures
        exists|i: int|
            entries.len() <= i < completed(entries, all_tags(decls)).len() && #[trigger] completed(
                entries,
                all_tags(decls),
            )[i] == (TagText { name: tag, description: None }),
{
    let all = completed(entries, all_tags(decls));
    lemma_all_tags_are_used(decls, tag);
    lemma_completed(entries, all_tags(decls));
    assert(all_tags(decls).contains(tag));
    let j = choose|j: int| 0 <= j < all.len() && (#[trigger] all[j]).name == tag;
    if j < entries.len() {
        assert(all.subrange(0, entries.len() as int)[j] == all[j]);
        assert(entries[j].name == tag);
    }
    assert(all[j].description is None);
    assert(all[j] == (TagText { name: tag, description: None }));
}

} // verus!
