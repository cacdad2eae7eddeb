//! Merging what a package declares with what the registry says about it,
//! for one package and for a whole list of declarations.

use vstd::prelude::*;
use crate::cache::{after_reply, CacheLookup, LookupCache};
use crate::errors::{error_texts, ErrorText, FatalError, FatalText, Field, ValidationError};
use crate::registry::{
    copy_opt_record, opt_record, profile_root, profile_url, reply_meaning, RecordText,
    RegistryRecord, RegistryReply,
};
use crate::text::{
    copy_opt, copy_texts, lemma_precedes_irreflexive, lemma_precedes_transitive, opt_text,
    order_of, precedes, same_opt_text, texts, TextOrder,
};

verus! {

/// One package as its maintainers declare it.
#[derive(Debug, PartialEq, Eq)]
pub struct PackageDeclaration {
    /// The key under which the registry knows the package.
    pub identifier: String,
    /// The name to show, where it differs from the identifier.
    pub name: Option<String>,
    pub repository: Option<String>,
    pub description: Option<String>,
    pub documentation: Option<String>,
    pub tags: Vec<String>,
    /// The package is not on the registry: it is never looked up.
    pub skip_remote_lookup: bool,
}

/// The texts of a [`PackageDeclaration`].
pub ghost struct DeclarationText {
    pub identifier: Seq<char>,
    pub name: Option<Seq<char>>,
    pub repository: Option<Seq<char>>,
    pub description: Option<Seq<char>>,
    pub documentation: Option<Seq<char>>,
    pub tags: Seq<Seq<char>>,
    pub skip_remote_lookup: bool,
}

impl View for PackageDeclaration {
    type V = DeclarationText;

    open spec fn view(&self) -> DeclarationText {
        DeclarationText {
            identifier: self.identifier@,
            name: opt_text(self.name),
            repository: opt_text(self.repository),
            description: opt_text(self.description),
            documentation: opt_text(self.documentation),
            tags: texts(self.tags@),
            skip_remote_lookup: self.skip_remote_lookup,
        }
    }
}

/// One package as it is handed to rendering.
#[derive(Debug, PartialEq, Eq)]
pub struct CompiledPackage {
    /// The package's profile on the registry, where the registry knows it.
    pub registry_url: Option<String>,
    pub repository: Option<String>,
    pub description: Option<String>,
    pub documentation: Option<String>,
    pub tags: Vec<String>,
}

/// The texts of a [`CompiledPackage`].
pub ghost struct PackageText {
    pub registry_url: Option<Seq<char>>,
    pub repository: Option<Seq<char>>,
    pub description: Option<Seq<char>>,
    pub documentation: Option<Seq<char>>,
    pub tags: Seq<Seq<char>>,
}

impl View for CompiledPackage {
    type V = PackageText;

    open spec fn view(&self) -> PackageText {
        PackageText {
            registry_url: opt_text(self.registry_url),
            repository: opt_text(self.repository),
            description: opt_text(self.description),
            documentation: opt_text(self.documentation),
            tags: texts(self.tags@),
        }
    }
}

/// The name under which a package appears in the output: the declared
/// name, or else the identifier.
pub open spec fn display_name(decl: DeclarationText) -> Seq<char> {
    match decl.name {
        Some(n) => n,
        None => decl.identifier,
    }
}

/// What the registry contributes to a package: nothing where the
/// declaration rules the lookup out, else the answer given.
pub open spec fn consulted(decl: DeclarationText, answer: Option<RecordText>) -> Option<
    RecordText,
> {
    if decl.skip_remote_lookup {
        None
    } else {
        answer
    }
}

/// The value that the declaration gives a field.
pub open spec fn declared_field(decl: DeclarationText, field: Field) -> Option<Seq<char>> {
    match field {
        Field::Repository => decl.repository,
        Field::Description => decl.description,
        Field::Documentation => decl.documentation,
    }
}

/// The value that the registry gives a field.
pub open spec fn registry_field(record: Option<RecordText>, field: Field) -> Option<Seq<char>> {
    match record {
        Some(r) => match field {
            Field::Repository => r.repository,
            Field::Description => r.description,
            Field::Documentation => r.documentation,
        },
        None => None,
    }
}

/// Precedence: the declared value where there is one, else the registry's.
pub open spec fn resolved(local: Option<Seq<char>>, remote: Option<Seq<char>>) -> Option<
    Seq<char>,
> {
    if local is Some {
        local
    } else {
        remote
    }
}

/// A declared value that repeats what the registry supplies.
pub open spec fn is_redundant(local: Option<Seq<char>>, remote: Option<Seq<char>>) -> bool {
    local is Some && local == remote
}

/// The compiled form of a declaration, given the registry's answer.
pub open spec fn merged(decl: DeclarationText, answer: Option<RecordText>) -> PackageText {
    let record = consulted(decl, answer);
    PackageText {
        registry_url: if record is Some {
            Some(profile_root() + decl.identifier)
        } else {
            None
        },
        repository: resolved(decl.repository, registry_field(record, Field::Repository)),
        description: resolved(decl.description, registry_field(record, Field::Description)),
        documentation: resolved(
            decl.documentation,
            registry_field(record, Field::Documentation),
        ),
        tags: decl.tags,
    }
}

/// The error that one field of a declaration gives rise to, if any.
pub open spec fn field_errors(
    decl: DeclarationText,
    answer: Option<RecordText>,
    field: Field,
) -> Seq<ErrorText> {
    if is_redundant(declared_field(decl, field), registry_field(consulted(decl, answer), field)) {
        seq![ErrorText::RedundantOverride { package: decl.identifier, field }]
    } else {
        Seq::empty()
    }
}

/// The errors of one declaration: each field is checked on its own, in the
/// order repository, description, documentation.
pub open spec fn redundant_overrides(decl: DeclarationText, answer: Option<RecordText>) -> Seq<
    ErrorText,
> {
    field_errors(decl, answer, Field::Repository) + field_errors(decl, answer, Field::Description)
        + field_errors(decl, answer, Field::Documentation)
}

fn resolve(local: &Option<String>, remote: &Option<String>) -> (r: Option<String>)
    ensures
        opt_text(r) == resolved(opt_text(*local), opt_text(*remote)),
{
    match local {
        Some(_) => copy_opt(local),
        None => copy_opt(remote),
    }
}

fn check_field(
    decl: &PackageDeclaration,
    local: &Option<String>,
    remote: &Option<String>,
    field: Field,
    errors: &mut Vec<ValidationError>,
)
    ensures
        error_texts(final(errors)@) == error_texts(old(errors)@) + (if is_redundant(
            opt_text(*local),
            opt_text(*remote),
        ) {
            seq![ErrorText::RedundantOverride { package: decl.identifier@, field }]
        } else {
            Seq::empty()
        }),
{
    if local.is_some() && same_opt_text(local, remote) {
        errors.push(
            ValidationError::RedundantOverride { package: decl.identifier.clone(), field },
        );
        assert(error_texts(errors@) =~= error_texts(old(errors)@) + seq![
            ErrorText::RedundantOverride { package: decl.identifier@, field },
        ]);
    } else {
        assert(error_texts(errors@) =~= error_texts(old(errors)@) + Seq::<ErrorText>::empty());
    }
}

/// Finds the declared values that repeat what the registry supplies. Such
/// a value should be left out of the declaration, so that a later change on
/// the registry shows.
pub fn check_compiled_crate(decl: &PackageDeclaration, answer: &Option<RegistryRecord>) -> (errors:
    Vec<ValidationError>)
    ensures
        error_texts(errors@) == redundant_overrides(decl@, opt_record(*answer)),
{
    let mut errors: Vec<ValidationError> = Vec::new();
    assert(error_texts(errors@) =~= Seq::<ErrorText>::empty());
    if decl.skip_remote_lookup {
        assert(redundant_overrides(decl@, opt_record(*answer)) =~= Seq::<ErrorText>::empty());
        return errors;
    }
    match answer {
        Some(record) => {
            check_field(decl, &decl.repository, &record.repository, Field::Repository, &mut errors);
            check_field(
                decl,
                &decl.description,
                &record.description,
                Field::Description,
                &mut errors,
            );
            check_field(
                decl,
                &decl.documentation,
                &record.documentation,
                Field::Documentation,
                &mut errors,
            );
            assert(error_texts(errors@) =~= redundant_overrides(decl@, opt_record(*answer)));
        },
        None => {
            assert(redundant_overrides(decl@, opt_record(*answer)) =~= Seq::<ErrorText>::empty());
        },
    }
    errors
}

/// Compiles one declaration. A declared value wins over the registry's;
/// the registry profile is given exactly where the registry was consulted
/// and knows the package. Redundant declared values are reported beside
/// the compiled package, which is produced all the same.
pub fn compile_package(decl: &PackageDeclaration, answer: &Option<RegistryRecord>) -> (r: (
    CompiledPackage,
    Vec<ValidationError>,
))
    ensures
        r.0@ == merged(decl@, opt_record(*answer)),
        error_texts(r.1@) == redundant_overrides(decl@, opt_record(*answer)),
        decl.skip_remote_lookup ==> r.0.registry_url is None && r.1@.len() == 0,
{
    let errors = check_compiled_crate(decl, answer);
    assert(decl.skip_remote_lookup ==> redundant_overrides(decl@, opt_record(*answer)).len()
        == 0);
    let nothing: Option<String> = None;
    let package = match answer {
        Some(record) if !decl.skip_remote_lookup => CompiledPackage {
            registry_url: Some(profile_url(decl.identifier.as_str())),
            repository: resolve(&decl.repository, &record.repository),
            description: resolve(&decl.description, &record.description),
            documentation: resolve(&decl.documentation, &record.documentation),
            tags: copy_texts(&decl.tags),
        },
        _ => CompiledPackage {
            registry_url: None,
            repository: resolve(&decl.repository, &nothing),
            description: resolve(&decl.description, &nothing),
            documentation: resolve(&decl.documentation, &nothing),
            tags: copy_texts(&decl.tags),
        },
    };
    (package, errors)
}

/// A package that rules the lookup out is never looked up, whatever the
/// cache holds, and compiles without a registry profile and without
/// errors, whatever answer is at hand.
pub proof fn law_skipped_package(
    decl: DeclarationText,
    cache: Map<Seq<char>, Option<RecordText>>,
    answer: Option<RecordText>,
)
    requires
        decl.skip_remote_lookup,
    ensures
        !needs_lookup(decl, cache),
        merged(decl, answer).registry_url is None,
        redundant_overrides(decl, answer) == Seq::<ErrorText>::empty(),
{
    assert(redundant_overrides(decl, answer) =~= Seq::<ErrorText>::empty());
}

/// The declaration without its description.
pub open spec fn without_description(decl: DeclarationText) -> DeclarationText {
    DeclarationText { description: None, ..decl }
}

/// A declared description that equals the registry's is an error. The
/// same declaration without its description takes the registry's
/// description, and its description gives no error.
pub proof fn law_repeated_description_is_an_error(decl: DeclarationText, record: RecordText)
    requires
        !decl.skip_remote_lookup,
        decl.description is Some,
        decl.description == record.description,
    ensures
        redundant_overrides(decl, Some(record)).contains(
            ErrorText::RedundantOverride { package: decl.identifier, field: Field::Description },
        ),
        merged(without_description(decl), Some(record)).description == decl.description,
        field_errors(without_description(decl), Some(record), Field::Description) == Seq::<
            ErrorText,
        >::empty(),
{
    let errors = redundant_overrides(decl, Some(record));
    let before = field_errors(decl, Some(record), Field::Repository);
    let own = field_errors(decl, Some(record), Field::Description);
    assert(own[0] == ErrorText::RedundantOverride {
        package: decl.identifier,
        field: Field::Description,
    });
    assert(errors[before.len() as int] == own[0]);
    assert(field_errors(without_description(decl), Some(record), Field::Description) =~= Seq::<
        ErrorText,
    >::empty());
}

/// Where the description is the one declared value that repeats the
/// registry's, the declaration without it compiles with no error at all.
pub proof fn law_description_left_out(decl: DeclarationText, record: RecordText)
    requires
        !decl.skip_remote_lookup,
        !is_redundant(decl.repository, record.repository),
        !is_redundant(decl.documentation, record.documentation),
    ensures
        redundant_overrides(without_description(decl), Some(record)) == Seq::<ErrorText>::empty(),
        merged(without_description(decl), Some(record)).description == record.description,
{
    assert(redundant_overrides(without_description(decl), Some(record)) =~= Seq::<
        ErrorText,
    >::empty());
}

/// A package under its output name.
#[derive(Debug, PartialEq, Eq)]
pub struct CompiledEntry {
    pub name: String,
    pub package: CompiledPackage,
}

/// The compiled packages, in ascending order of their names, and the
/// validation errors found on the way, in the order of the declarations.
#[derive(Debug, PartialEq, Eq)]
pub struct CompiledEcosystem {
    pub packages: Vec<CompiledEntry>,
    pub errors: Vec<ValidationError>,
}

/// The registry has to be asked about this package: the declaration does
/// not rule the lookup out, and the cache holds no answer.
pub open spec fn needs_lookup(
    decl: DeclarationText,
    cache: Map<Seq<char>, Option<RecordText>>,
) -> bool {
    !decl.skip_remote_lookup && !cache.contains_key(decl.identifier)
}

/// The declaration at `i` is the first about which the registry has to be
/// asked.
pub open spec fn first_pending(
    decls: Seq<PackageDeclaration>,
    cache: Map<Seq<char>, Option<RecordText>>,
    i: int,
) -> bool {
    &&& 0 <= i < decls.len()
    &&& needs_lookup(decls[i]@, cache)
    &&& forall|j: int| 0 <= j < i ==> !needs_lookup(#[trigger] decls[j]@, cache)
}

/// No declaration is left about which the registry has to be asked.
pub open spec fn all_known(
    decls: Seq<PackageDeclaration>,
    cache: Map<Seq<char>, Option<RecordText>>,
) -> bool {
    forall|i: int| 0 <= i < decls.len() ==> !needs_lookup(#[trigger] decls[i]@, cache)
}

/// The answer that the cache holds for a declaration; none where the
/// lookup is ruled out.
pub open spec fn answer_for(
    decl: DeclarationText,
    cache: Map<Seq<char>, Option<RecordText>>,
) -> Option<RecordText> {
    if !decl.skip_remote_lookup && cache.contains_key(decl.identifier) {
        cache[decl.identifier]
    } else {
        None
    }
}

/// The validation errors of a list of declarations, declaration by
/// declaration.
pub open spec fn all_overrides(
    decls: Seq<PackageDeclaration>,
    cache: Map<Seq<char>, Option<RecordText>>,
) -> Seq<ErrorText>
    decreases decls.len(),
{
    if decls.len() == 0 {
        Seq::empty()
    } else {
        all_overrides(decls.drop_last(), cache) + redundant_overrides(
            decls.last()@,
            answer_for(decls.last()@, cache),
        )
    }
}

/// No two declarations share an output name.
pub open spec fn names_distinct(decls: Seq<PackageDeclaration>) -> bool {
    forall|i: int, j: int|
        0 <= i < j < decls.len() ==> display_name(#[trigger] decls[i]@) != display_name(
            #[trigger] decls[j]@,
        )
}

/// The declaration at `i` is the first whose output name an earlier
/// declaration has taken.
pub open spec fn first_collision(decls: Seq<PackageDeclaration>, i: int) -> bool {
    &&& 0 <= i < decls.len()
    &&& names_distinct(decls.subrange(0, i))
    &&& exists|j: int| 0 <= j < i && display_name(#[trigger] decls[j]@) == display_name(decls[i]@)
}

/// The packages stand in strictly ascending order of their names.
pub open spec fn names_ascending(packages: Seq<CompiledEntry>) -> bool {
    forall|a: int, b: int|
        0 <= a < b < packages.len() ==> precedes(
            #[trigger] packages[a].name@,
            #[trigger] packages[b].name@,
        )
}

/// The output holds `package` under `name`.
pub open spec fn holds(packages: Seq<CompiledEntry>, name: Seq<char>, package: PackageText) -> bool {
    exists|j: int|
        0 <= j < packages.len() && (#[trigger] packages[j]).name@ == name && packages[j].package@
            == package
}

/// The names under which the output holds a package.
pub open spec fn output_names(packages: Seq<CompiledEntry>) -> Set<Seq<char>> {
    Set::new(|n: Seq<char>| exists|j: int| 0 <= j < packages.len() && (#[trigger] packages[j]).name@ == n)
}

/// The output names of the declarations.
pub open spec fn declared_names(decls: Seq<PackageDeclaration>) -> Set<Seq<char>> {
    Set::new(|n: Seq<char>| exists|i: int| 0 <= i < decls.len() && display_name((#[trigger] decls[i])@) == n)
}

/// The declarations can be compiled: every answer is at hand, and no two
/// declarations share an output name.
pub open spec fn is_compilable(
    decls: Seq<PackageDeclaration>,
    cache: Map<Seq<char>, Option<RecordText>>,
) -> bool {
    all_known(decls, cache) && names_distinct(decls)
}

/// `c` is what the declarations compile to: one entry for each
/// declaration, under its output name and with its merged fields, the
/// entries in ascending order of the names; and the errors of all
/// declarations, in the order of the declarations.
pub open spec fn compiles_to(
    decls: Seq<PackageDeclaration>,
    cache: Map<Seq<char>, Option<RecordText>>,
    c: CompiledEcosystem,
) -> bool {
    &&& is_compilable(decls, cache)
    &&& c.packages@.len() == decls.len()
    &&& names_ascending(c.packages@)
    &&& forall|i: int|
        0 <= i < decls.len() ==> holds(
            c.packages@,
            display_name(#[trigger] decls[i]@),
            merged(decls[i]@, answer_for(decls[i]@, cache)),
        )
    &&& output_names(c.packages@) == declared_names(decls)
    &&& error_texts(c.errors@) == all_overrides(decls, cache)
}

/// `e` is the error with which the compilation of the declarations ends:
/// the first declaration that still needs the registry's answer, or else
/// the first declaration whose output name is taken.
pub open spec fn fails_with(
    decls: Seq<PackageDeclaration>,
    cache: Map<Seq<char>, Option<RecordText>>,
    e: FatalError,
) -> bool {
    match e@ {
        FatalText::LookupMissing { identifier } => exists|i: int|
            first_pending(decls, cache, i) && identifier == (#[trigger] decls[i]).identifier@,
        FatalText::DisplayNameCollision { name } => all_known(decls, cache) && exists|i: int|
            first_collision(decls, i) && name == display_name((#[trigger] decls[i])@),
        _ => false,
    }
}

/// The first declaration about which the registry has to be asked before
/// the list can be compiled, if there is one. A declaration that rules the
/// lookup out, or whose identifier has an answer in the cache, never gives
/// rise to a request.
pub fn next_lookup(decls: &Vec<PackageDeclaration>, cache: &LookupCache) -> (next: Option<usize>)
    requires
        cache.wf(),
    ensures
        match next {
            Some(i) => first_pending(decls@, cache@, i as int) && !decls@[i as int].skip_remote_lookup
                && !cache@.contains_key(decls@[i as int].identifier@),
            None => all_known(decls@, cache@),
        },
{
    let mut i: usize = 0;
    while i < decls.len()
        invariant
            i <= decls@.len(),
            cache.wf(),
            forall|j: int| 0 <= j < i ==> !needs_lookup(#[trigger] decls@[j]@, cache@),
        decreases decls@.len() - i,
    {
        if !decls[i].skip_remote_lookup && !cache.contains(decls[i].identifier.as_str()) {
            return Some(i);
        }
        i = i + 1;
    }
    None
}

/// Takes in the registry's reply to the request for `identifier`. An
/// answer goes into the cache. A failure ends the run: the registry is
/// taken to be reachable, and nothing is compiled without its answer;
/// the cache stays as it was, so that the next run asks again.
pub fn answer_lookup(cache: &mut LookupCache, identifier: &str, reply: RegistryReply) -> (r: Result<
    (),
    FatalError,
>)
    requires
        old(cache).wf(),
    ensures
        final(cache).wf(),
        final(cache)@ == after_reply(old(cache)@, identifier@, reply),
        match r {
            Ok(_) => final(cache)@.contains_key(identifier@),
            Err(e) => {
                &&& !old(cache)@.contains_key(identifier@)
                &&& final(cache)@ == old(cache)@
                &&& reply_meaning(reply) matches Err(cause)
                &&& e@ == (FatalText::LookupFailed { identifier: identifier@, cause })
            },
        },
{
    match cache.store_reply(identifier, reply) {
        Ok(_) => Ok(()),
        Err(cause) => Err(
            FatalError::LookupFailed { identifier: String::from_str(identifier), cause },
        ),
    }
}

fn answer_of(decl: &PackageDeclaration, cache: &LookupCache) -> (answer: Option<RegistryRecord>)
    requires
        cache.wf(),
    ensures
        opt_record(answer) == answer_for(decl@, cache@),
{
    if decl.skip_remote_lookup {
        return None;
    }
    match cache.find(decl.identifier.as_str()) {
        CacheLookup::Hit(answer) => copy_opt_record(answer),
        CacheLookup::Miss => None,
    }
}

fn output_name(decl: &PackageDeclaration) -> (name: String)
    ensures
        name@ == display_name(decl@),
{
    match &decl.name {
        Some(n) => n.clone(),
        None => decl.identifier.clone(),
    }
}

/// Where `name` belongs among names in ascending order: the index of the
/// first name that does not precede it, and whether that name is `name`
/// itself.
fn slot_for(packages: &Vec<CompiledEntry>, name: &str) -> (r: (usize, bool))
    requires
        names_ascending(packages@),
    ensures
        r.0 <= packages@.len(),
        forall|j: int| 0 <= j < r.0 ==> precedes(#[trigger] packages@[j].name@, name@),
        r.1 ==> r.0 < packages@.len() && packages@[r.0 as int].name@ == name@,
        !r.1 ==> forall|j: int|
            r.0 <= j < packages@.len() ==> precedes(name@, #[trigger] packages@[j].name@),
{
    let mut p: usize = 0;
    while p < packages.len()
        invariant
            p <= packages@.len(),
            names_ascending(packages@),
            forall|j: int| 0 <= j < p ==> precedes(#[trigger] packages@[j].name@, name@),
        decreases packages@.len() - p,
    {
        match order_of(packages[p].name.as_str(), name) {
            TextOrder::Before => {
                p = p + 1;
            },
            TextOrder::Same => {
                return (p, true);
            },
            TextOrder::After => {
                assert forall|j: int| p <= j < packages@.len() implies precedes(
                    name@,
                    #[trigger] packages@[j].name@,
                ) by {
                    if j > p {
                        lemma_precedes_transitive(
                            name@,
                            packages@[p as int].name@,
                            packages@[j].name@,
                        );
                    }
                }
                return (p, false);
            },
        }
    }
    (p, false)
}

/// An entry put at its place keeps the names in ascending order.
proof fn lemma_insert_ascending(before: Seq<CompiledEntry>, p: int, entry: CompiledEntry)
    requires
        names_ascending(before),
        0 <= p <= before.len(),
        forall|j: int| 0 <= j < p ==> precedes(#[trigger] before[j].name@, entry.name@),
        forall|j: int| p <= j < before.len() ==> precedes(entry.name@, #[trigger] before[j].name@),
    ensures
        names_ascending(before.insert(p, entry)),
{
    let after = before.insert(p, entry);
    assert forall|a: int, b: int| 0 <= a < b < after.len() implies precedes(
        #[trigger] after[a].name@,
        #[trigger] after[b].name@,
    ) by {
        let x = if a < p {
            a
        } else {
            a - 1
        };
        let y = if b < p {
            b
        } else {
            b - 1
        };
        if a != p {
            assert(after[a] == before[x]);
        }
        if b != p {
            assert(after[b] == before[y]);
        }
    }
}

/// What the output held before an insertion, it holds after it.
proof fn lemma_insert_keeps(
    before: Seq<CompiledEntry>,
    p: int,
    entry: CompiledEntry,
    name: Seq<char>,
    package: PackageText,
)
    requires
        0 <= p <= before.len(),
        holds(before, name, package),
    ensures
        holds(before.insert(p, entry), name, package),
{
    let j = choose|j: int|
        0 <= j < before.len() && (#[trigger] before[j]).name@ == name && before[j].package@
            == package;
    let k = if j < p {
        j
    } else {
        j + 1
    };
    assert(before.insert(p, entry)[k] == before[j]);
}

/// An insertion adds the entry's name to the names of the output, and
/// nothing else.
proof fn lemma_insert_names(before: Seq<CompiledEntry>, p: int, entry: CompiledEntry)
    requires
        0 <= p <= before.len(),
    ensures
        holds(before.insert(p, entry), entry.name@, entry.package@),
        output_names(before.insert(p, entry)) == output_names(before).insert(entry.name@),
{
    let after = before.insert(p, entry);
    assert(after[p] == entry);
    assert forall|n: Seq<char>| output_names(after).contains(n) implies output_names(
        before,
    ).insert(entry.name@).contains(n) by {
        let j = choose|j: int| 0 <= j < after.len() && (#[trigger] after[j]).name@ == n;
        if j != p {
            let k = if j < p {
                j
            } else {
                j - 1
            };
            assert(after[j] == before[k]);
        }
    }
    assert forall|n: Seq<char>| output_names(before).insert(entry.name@).contains(
        n,
    ) implies output_names(after).contains(n) by {
        if n != entry.name@ {
            let j = choose|j: int| 0 <= j < before.len() && (#[trigger] before[j]).name@ == n;
            let k = if j < p {
                j
            } else {
                j + 1
            };
            assert(after[k] == before[j]);
        }
    }
    assert(output_names(after) =~= output_names(before).insert(entry.name@));
}

/// One more declaration adds its output name to the declared names, and
/// keeps the names distinct if its name is new.
proof fn lemma_declared_names_step(decls: Seq<PackageDeclaration>, i: int)
    requires
        0 <= i < decls.len(),
    ensures
        declared_names(decls.subrange(0, i + 1)) == declared_names(decls.subrange(0, i)).insert(
            display_name(decls[i]@),
        ),
        names_distinct(decls.subrange(0, i)) && !declared_names(decls.subrange(0, i)).contains(
            display_name(decls[i]@),
        ) ==> names_distinct(decls.subrange(0, i + 1)),
{
    let short = decls.subrange(0, i);
    let long = decls.subrange(0, i + 1);
    let name = display_name(decls[i]@);
    assert(long[i] == decls[i]);
    assert forall|n: Seq<char>| declared_names(long).contains(n) implies declared_names(
        short,
    ).insert(name).contains(n) by {
        let d = choose|d: int| 0 <= d < long.len() && display_name((#[trigger] long[d])@) == n;
        if d < i {
            assert(short[d] == long[d]);
        }
    }
    assert forall|n: Seq<char>| declared_names(short).insert(name).contains(
        n,
    ) implies declared_names(long).contains(n) by {
        if n != name {
            let d = choose|d: int|
                0 <= d < short.len() && display_name((#[trigger] short[d])@) == n;
            assert(long[d] == short[d]);
        }
    }
    assert(declared_names(long) =~= declared_names(short).insert(name));
    if names_distinct(short) && !declared_names(short).contains(name) {
        assert forall|a: int, b: int| 0 <= a < b < long.len() implies display_name(
            #[trigger] long[a]@,
        ) != display_name(#[trigger] long[b]@) by {
            assert(long[a] == short[a]);
            if b < i {
                assert(long[b] == short[b]);
            } else {
                assert(declared_names(short).contains(display_name(short[a]@)));
            }
        }
    }
}

/// A name that an earlier declaration has taken makes a collision.
proof fn lemma_collision(decls: Seq<PackageDeclaration>, i: int)
    requires
        0 <= i < decls.len(),
        names_distinct(decls.subrange(0, i)),
        declared_names(decls.subrange(0, i)).contains(display_name(decls[i]@)),
    ensures
        first_collision(decls, i),
{
    let short = decls.subrange(0, i);
    let d = choose|d: int|
        0 <= d < short.len() && display_name((#[trigger] short[d])@) == display_name(decls[i]@);
    assert(short[d] == decls[d]);
    assert(display_name(decls[d]@) == display_name(decls[i]@));
}

/// A name between its neighbours is none of the output's names.
proof fn lemma_free_slot(packages: Seq<CompiledEntry>, p: int, name: Seq<char>)
    requires
        0 <= p <= packages.len(),
        forall|j: int| 0 <= j < p ==> precedes(#[trigger] packages[j].name@, name),
        forall|j: int| p <= j < packages.len() ==> precedes(name, #[trigger] packages[j].name@),
    ensures
        !output_names(packages).contains(name),
{
    lemma_precedes_irreflexive(name);
    if output_names(packages).contains(name) {
        let j = choose|j: int| 0 <= j < packages.len() && (#[trigger] packages[j]).name@ == name;
        if j < p {
            assert(precedes(packages[j].name@, name));
        } else {
            assert(precedes(name, packages[j].name@));
        }
    }
}

/// The errors of a list that grows by one declaration.
proof fn lemma_all_overrides_step(
    decls: Seq<PackageDeclaration>,
    cache: Map<Seq<char>, Option<RecordText>>,
    i: int,
)
    requires
        0 <= i < decls.len(),
    ensures
        all_overrides(decls.subrange(0, i + 1), cache) == all_overrides(
            decls.subrange(0, i),
            cache,
        ) + redundant_overrides(decls[i]@, answer_for(decls[i]@, cache)),
{
    let long = decls.subrange(0, i + 1);
    assert(long.drop_last() =~= decls.subrange(0, i));
    assert(long.last() == decls[i]);
}

/// The validation errors of the declarations for the answers at hand:
/// each declaration whose answer is in the cache is checked, and one whose
/// answer is still missing gives no error. So what is known to be wrong is
/// known whether or not the list can be compiled.
pub fn overrides_at_hand(decls: &Vec<PackageDeclaration>, cache: &LookupCache) -> (errors: Vec<
    ValidationError,
>)
    requires
        cache.wf(),
    ensures
        error_texts(errors@) == all_overrides(decls@, cache@),
{
    let mut errors: Vec<ValidationError> = Vec::new();
    let mut i: usize = 0;
    assert(error_texts(errors@) =~= all_overrides(decls@.subrange(0, 0), cache@));
    while i < decls.len()
        invariant
            i <= decls@.len(),
            cache.wf(),
            error_texts(errors@) == all_overrides(decls@.subrange(0, i as int), cache@),
        decreases decls@.len() - i,
    {
        let answer = answer_of(&decls[i], cache);
        let mut found = check_compiled_crate(&decls[i], &answer);
        let ghost before = errors@;
        let ghost found_texts = error_texts(found@);
        proof {
            lemma_all_overrides_step(decls@, cache@, i as int);
            assert(redundant_overrides(decls@[i as int]@, opt_record(answer))
                == redundant_overrides(
                decls@[i as int]@,
                answer_for(decls@[i as int]@, cache@),
            ));
        }
        errors.append(&mut found);
        assert(error_texts(errors@) =~= error_texts(before) + found_texts);
        i = i + 1;
    }
    assert(decls@.subrange(0, i as int) =~= decls@);
    errors
}

/// Compiles a list of declarations against the answers in the cache.
///
/// Every declaration must have its answer first: where the registry still
/// has to be asked about one, the first such declaration is named in
/// `LookupMissing`. Two declarations with one output name are not merged
/// into one entry: the first declaration that repeats an earlier name is
/// named in `DisplayNameCollision`. Otherwise the output holds one entry
/// for each declaration, in ascending order of the names, and the errors
/// of all declarations in the order of the declarations.
pub fn compile_ecosystem(decls: &Vec<PackageDeclaration>, cache: &LookupCache) -> (r: Result<
    CompiledEcosystem,
    FatalError,
>)
    requires
        cache.wf(),
    ensures
        match r {
            Ok(c) => compiles_to(decls@, cache@, c),
            Err(e) => fails_with(decls@, cache@, e),
        },
{
    match next_lookup(decls, cache) {
        Some(i) => {
            return Err(FatalError::LookupMissing { identifier: decls[i].identifier.clone() });
        },
        None => {},
    }
    let mut packages: Vec<CompiledEntry> = Vec::new();
    let mut errors: Vec<ValidationError> = Vec::new();
    let mut i: usize = 0;
    proof {
        assert(error_texts(errors@) =~= all_overrides(decls@.subrange(0, 0), cache@));
        assert(output_names(packages@) =~= declared_names(decls@.subrange(0, 0)));
    }
    while i < decls.len()
        invariant
            i <= decls@.len(),
            cache.wf(),
            all_known(decls@, cache@),
            packages@.len() == i,
            names_ascending(packages@),
            names_distinct(decls@.subrange(0, i as int)),
            output_names(packages@) == declared_names(decls@.subrange(0, i as int)),
            forall|d: int|
                0 <= d < i ==> holds(
                    packages@,
                    display_name(#[trigger] decls@[d]@),
                    merged(decls@[d]@, answer_for(decls@[d]@, cache@)),
                ),
            error_texts(errors@) == all_overrides(decls@.subrange(0, i as int), cache@),
        decreases decls@.len() - i,
    {
        let decl = &decls[i];
        let name = output_name(decl);
        let (p, taken) = slot_for(&packages, name.as_str());
        if taken {
            proof {
                assert(output_names(packages@).contains(packages@[p as int].name@));
                lemma_collision(decls@, i as int);
            }
            return Err(FatalError::DisplayNameCollision { name });
        }
        let answer = answer_of(decl, cache);
        let (package, mut found) = compile_package(decl, &answer);
        let ghost before = packages@;
        let ghost errors_before = errors@;
        let ghost found_texts = error_texts(found@);
        let entry = CompiledEntry { name, package };
        proof {
            lemma_free_slot(before, p as int, entry.name@);
            lemma_insert_ascending(before, p as int, entry);
            lemma_insert_names(before, p as int, entry);
            lemma_declared_names_step(decls@, i as int);
            lemma_all_overrides_step(decls@, cache@, i as int);
            assert forall|d: int| 0 <= d < i implies holds(
                before.insert(p as int, entry),
                display_name(#[trigger] decls@[d]@),
                merged(decls@[d]@, answer_for(decls@[d]@, cache@)),
            ) by {
                lemma_insert_keeps(
                    before,
                    p as int,
                    entry,
                    display_name(decls@[d]@),
                    merged(decls@[d]@, answer_for(decls@[d]@, cache@)),
                );
            }
        }
        packages.insert(p, entry);
        errors.append(&mut found);
        assert(error_texts(errors@) =~= error_texts(errors_before) + found_texts);
        i = i + 1;
    }
    assert(decls@.subrange(0, i as int) =~= decls@);
    Ok(CompiledEcosystem { packages, errors })
}

/// The output of a compilation has a package under each declared output
/// name and under no other, as many packages as there are declarations,
/// and no name twice: no declaration is lost.
pub proof fn law_output_names_are_the_declared_names(
    decls: Seq<PackageDeclaration>,
    cache: Map<Seq<char>, Option<RecordText>>,
    c: CompiledEcosystem,
)
    requires
        compiles_to(decls, cache, c),
    ensures
        output_names(c.packages@) == declared_names(decls),
        c.packages@.len() == decls.len(),
        forall|a: int, b: int|
            0 <= a < b < c.packages@.len() ==> (#[trigger] c.packages@[a]).name@ != (
            #[trigger] c.packages@[b]).name@,
{
    assert forall|a: int, b: int| 0 <= a < b < c.packages@.len() implies (
    #[trigger] c.packages@[a]).name@ != (#[trigger] c.packages@[b]).name@ by {
        assert(precedes(c.packages@[a].name@, c.packages@[b].name@));
        lemma_precedes_irreflexive(c.packages@[a].name@);
    }
}

} // verus!
