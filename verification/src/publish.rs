//! The course of one run, as a state machine. The surroundings do the work
//! of each phase (reading, asking the registry, rendering, writing) and
//! report how it went; the machine collects the validation errors and
//! decides what comes next.

use vstd::prelude::*;
use crate::cache::LookupCache;
use crate::ecosystem::{
    all_overrides, compile_ecosystem, overrides_at_hand, CompiledEcosystem, PackageDeclaration,
};
use crate::errors::{error_texts, ErrorText, FatalError, FatalText, Source, ValidationError};
use crate::newsfeed::{compile_newsfeed, CompiledNewsfeed, Newsfeed};
use crate::tags::{distinct_names, tag_texts, TagDictionary, TagEntry};

verus! {

/// Where a run stands.
#[derive(Clone, Copy, Debug, PartialEq, Eq, Structural)]
pub enum Phase {
    /// The declarations, the tag descriptions, the newsfeed and the cache
    /// are being read.
    Loading,
    /// The packages and the newsfeed are being compiled.
    Merging,
    /// The tags are being checked.
    Validating,
    /// The run has failed: everything collected is reported, nothing is
    /// written.
    Failed,
    /// The compiled data is being rendered.
    Rendering,
    /// The rendered output is being written.
    Writing,
    /// The cache is saved, whatever came before, and the run ends.
    Done,
}

/// The phase that follows `phase`, once its work has been reported:
/// `errors` validation errors have been collected up to now, and `fatal`
/// says whether the work ended in a fatal error.
pub open spec fn next_phase(phase: Phase, errors: nat, verify_only: bool, fatal: bool) -> Phase {
    match phase {
        Phase::Loading => if fatal {
            Phase::Failed
        } else {
            Phase::Merging
        },
        Phase::Merging => if fatal {
            Phase::Failed
        } else {
            Phase::Validating
        },
        Phase::Validating => if fatal || errors > 0 {
            Phase::Failed
        } else if verify_only {
            Phase::Done
        } else {
            Phase::Rendering
        },
        Phase::Rendering => if fatal || errors > 0 {
            Phase::Failed
        } else {
            Phase::Writing
        },
        Phase::Writing => if fatal {
            Phase::Failed
        } else {
            Phase::Done
        },
        Phase::Failed => Phase::Done,
        Phase::Done => Phase::Done,
    }
}

/// A run as the contracts see it.
pub ghost struct RunState {
    /// The phase in which the run stands.
    pub phase: Phase,
    /// Whether the run only verifies the declarations.
    pub verify_only: bool,
    /// The validation errors collected so far.
    pub errors: Seq<ErrorText>,
    /// The fatal error that the run met, if any: the first one.
    pub failure: Option<FatalText>,
    /// Whether saving the cache has been reported, and how it went.
    pub cache_persisted: Option<bool>,
}

/// What the work of a phase reports: the validation errors that it found,
/// and the fatal error that ended it, if one did.
pub ghost struct Outcome {
    pub errors: Seq<ErrorText>,
    pub fatal: Option<FatalText>,
}

/// The texts of what a phase's work reports, where it reports either
/// validation errors or a fatal error.
pub open spec fn outcome_text(outcome: Result<Vec<ValidationError>, FatalError>) -> Outcome {
    match outcome {
        Ok(found) => Outcome { errors: error_texts(found@), fatal: None },
        Err(e) => Outcome { errors: Seq::empty(), fatal: Some(e@) },
    }
}

/// A run at its beginning.
pub open spec fn initial_state(verify_only: bool) -> RunState {
    RunState {
        phase: Phase::Loading,
        verify_only,
        errors: Seq::empty(),
        failure: None,
        cache_persisted: None,
    }
}

/// The run after the work of its current phase has been reported.
/// Validation errors are added to those collected, also where the work
/// ended in a fatal error. A fatal error is kept, unless the run has met
/// one before. A run that is done stays as it is.
pub open spec fn step(state: RunState, outcome: Outcome) -> RunState {
    if state.phase == Phase::Done {
        state
    } else {
        let errors = state.errors + outcome.errors;
        RunState {
            phase: next_phase(
                state.phase,
                errors.len(),
                state.verify_only,
                outcome.fatal is Some,
            ),
            errors,
            failure: if state.failure is None {
                outcome.fatal
            } else {
                state.failure
            },
            ..state
        }
    }
}

/// The run has ended well: it is done, with no validation error and no
/// fatal error. Whether the cache could be saved plays no part.
pub open spec fn has_succeeded(state: RunState) -> bool {
    state.phase == Phase::Done && state.errors.len() == 0 && state.failure is None
}

/// A run in progress.
#[derive(Debug)]
pub struct Run {
    phase: Phase,
    verify_only: bool,
    errors: Vec<ValidationError>,
    failure: Option<FatalError>,
    cache_persisted: Option<bool>,
}

impl View for Run {
    type V = RunState;

    closed spec fn view(&self) -> RunState {
        RunState {
            phase: self.phase,
            verify_only: self.verify_only,
            errors: error_texts(self.errors@),
            failure: match self.failure {
                Some(e) => Some(e@),
                None => None,
            },
            cache_persisted: self.cache_persisted,
        }
    }
}

impl Run {
    /// A run at its beginning.
    pub fn start(verify_only: bool) -> (run: Run)
        ensures
            run@ == initial_state(verify_only),
    {
        let run = Run {
            phase: Phase::Loading,
            verify_only,
            errors: Vec::new(),
            failure: None,
            cache_persisted: None,
        };
        assert(run@.errors =~= Seq::<ErrorText>::empty());
        run
    }

    /// The phase in which the run stands.
    pub fn phase(&self) -> (phase: Phase)
        ensures
            phase == self@.phase,
    {
        self.phase
    }

    /// Whether the run only verifies the declarations.
    pub fn verify_only(&self) -> (yes: bool)
        ensures
            yes == self@.verify_only,
    {
        self.verify_only
    }

    /// The validation errors collected so far, in the order in which they
    /// were reported.
    pub fn errors(&self) -> (errors: &Vec<ValidationError>)
        ensures
            error_texts(errors@) == self@.errors,
    {
        &self.errors
    }

    /// The fatal error that the run met, if any.
    pub fn failure(&self) -> (failure: &Option<FatalError>)
        ensures
            match *failure {
                Some(e) => self@.failure == Some(e@),
                None => self@.failure is None,
            },
    {
        &self.failure
    }

    /// Whether the run has ended well.
    pub fn succeeded(&self) -> (yes: bool)
        ensures
            yes == has_succeeded(self@),
    {
        assert(self@.errors.len() == self.errors@.len());
        match self.phase {
            Phase::Done => self.errors.len() == 0 && self.failure.is_none(),
            _ => false,
        }
    }

    fn take(&mut self, found: Vec<ValidationError>, fatal: Option<FatalError>)
        ensures
            final(self)@ == step(
                old(self)@,
                Outcome {
                    errors: error_texts(found@),
                    fatal: match fatal {
                        Some(e) => Some(e@),
                        None => None,
                    },
                },
            ),
    {
        match self.phase {
            Phase::Done => {
                return ;
            },
            _ => {},
        }
        let ghost before = self.errors@;
        let ghost added = found@;
        let mut found = found;
        self.errors.append(&mut found);
        assert(error_texts(self.errors@) =~= error_texts(before) + error_texts(added));
        let ended = fatal.is_some();
        match fatal {
            Some(e) => {
                if self.failure.is_none() {
                    self.failure = Some(e);
                }
            },
            None => {},
        }
        let blocked = ended || self.errors.len() > 0;
        assert(self@.errors.len() == self.errors@.len());
        self.phase = match self.phase {
            Phase::Loading => if ended {
                Phase::Failed
            } else {
                Phase::Merging
            },
            Phase::Merging => if ended {
                Phase::Failed
            } else {
                Phase::Validating
            },
            Phase::Validating => if blocked {
                Phase::Failed
            } else if self.verify_only {
                Phase::Done
            } else {
                Phase::Rendering
            },
            Phase::Rendering => if blocked {
                Phase::Failed
            } else {
                Phase::Writing
            },
            Phase::Writing => if ended {
                Phase::Failed
            } else {
                Phase::Done
            },
            Phase::Failed => Phase::Done,
            Phase::Done => Phase::Done,
        };
    }

    /// Takes in how the work of the current phase went, and moves on.
    ///
    /// Validation errors are added to those collected; they never end a
    /// phase early. A fatal error is kept (the first one counts) and leads
    /// to `Failed`. After validation the run fails if any error has been
    /// collected; otherwise it goes on to render and write, unless it only
    /// verifies. A run that is done stays done.
    pub fn advance(&mut self, outcome: Result<Vec<ValidationError>, FatalError>)
        ensures
            final(self)@ == step(old(self)@, outcome_text(outcome)),
    {
        match outcome {
            Ok(found) => self.take(found, None),
            Err(e) => {
                let nothing: Vec<ValidationError> = Vec::new();
                assert(error_texts(nothing@) =~= Seq::<ErrorText>::empty());
                self.take(nothing, Some(e))
            },
        }
    }

    /// Takes in that the work of the current phase ended in the fatal
    /// error `fatal`, after it had found the validation errors `found`.
    /// The errors are added to those collected, so that they are reported
    /// with the fatal error; the run moves on as after any fatal error.
    pub fn abort(&mut self, found: Vec<ValidationError>, fatal: FatalError)
        ensures
            final(self)@ == step(
                old(self)@,
                Outcome { errors: error_texts(found@), fatal: Some(fatal@) },
            ),
    {
        self.take(found, Some(fatal))
    }

    /// Takes in whether the cache could be saved at the end of the run. A
    /// cache that could not be saved is worth a warning and no more: the
    /// run is as successful as it was.
    pub fn cache_saved(&mut self, persisted: bool)
        ensures
            final(self)@ == (RunState { cache_persisted: Some(persisted), ..old(self)@ }),
            has_succeeded(final(self)@) == has_succeeded(old(self)@),
    {
        self.cache_persisted = Some(persisted);
    }
}

/// What a run reads before it compiles anything.
#[derive(Debug)]
pub struct Sources {
    pub declarations: Vec<PackageDeclaration>,
    pub dictionary: TagDictionary,
    pub newsfeed: Newsfeed,
}

/// What the merging phase hands on: the compiled packages with their
/// validation errors, and the compiled newsfeed.
#[derive(Debug, PartialEq, Eq)]
pub struct Compiled {
    pub ecosystem: CompiledEcosystem,
    pub newsfeed: CompiledNewsfeed,
}

/// The first of the required sources that is missing, in the order
/// declarations, tag descriptions, newsfeed. Tag descriptions that give
/// one tag twice count as missing.
pub open spec fn first_unreadable(
    declarations: Option<Vec<PackageDeclaration>>,
    tags: Option<Vec<TagEntry>>,
    newsfeed: Option<Newsfeed>,
) -> Option<Source> {
    if declarations is None {
        Some(Source::Declarations)
    } else if tags is None || !distinct_names(tag_texts(tags->0@)) {
        Some(Source::TagDescriptions)
    } else if newsfeed is None {
        Some(Source::Newsfeed)
    } else {
        None
    }
}

/// Puts together what was read. Each argument is what a source held, or
/// nothing where the source could not be read or parsed. One source that
/// is missing ends the run: nothing is compiled from a part of the
/// sources.
pub fn assemble_sources(
    declarations: Option<Vec<PackageDeclaration>>,
    tags: Option<Vec<TagEntry>>,
    newsfeed: Option<Newsfeed>,
) -> (r: Result<Sources, FatalError>)
    ensures
        match r {
            Ok(sources) => {
                &&& first_unreadable(declarations, tags, newsfeed) is None
                &&& Some(sources.declarations) == declarations
                &&& sources.dictionary.wf()
                &&& sources.dictionary@ == tag_texts(tags->0@)
                &&& Some(sources.newsfeed) == newsfeed
            },
            Err(e) => first_unreadable(declarations, tags, newsfeed) matches Some(source) && e
                == (FatalError::SourceUnreadable { source }),
        },
{
    let declarations = match declarations {
        Some(declarations) => declarations,
        None => {
            return Err(FatalError::SourceUnreadable { source: Source::Declarations });
        },
    };
    let dictionary = match tags {
        Some(entries) => match TagDictionary::from_entries(entries) {
            Some(dictionary) => dictionary,
            None => {
                return Err(FatalError::SourceUnreadable { source: Source::TagDescriptions });
            },
        },
        None => {
            return Err(FatalError::SourceUnreadable { source: Source::TagDescriptions });
        },
    };
    let newsfeed = match newsfeed {
        Some(newsfeed) => newsfeed,
        None => {
            return Err(FatalError::SourceUnreadable { source: Source::Newsfeed });
        },
    };
    Ok(Sources { declarations, dictionary, newsfeed })
}

/// How the merging phase ends where it cannot hand on compiled data: the
/// fatal error, and the validation errors that the answers at hand show,
/// which are reported with it.
#[derive(Debug, PartialEq, Eq)]
pub struct Aborted {
    pub fatal: FatalError,
    pub errors: Vec<ValidationError>,
}

/// Ends the merging phase with `fatal`: the validation errors of the
/// declarations for the answers at hand go with it.
pub fn abort_merging(sources: &Sources, cache: &LookupCache, fatal: FatalError) -> (aborted:
    Aborted)
    requires
        cache.wf(),
    ensures
        aborted.fatal == fatal,
        error_texts(aborted.errors@) == all_overrides(sources.declarations@, cache@),
{
    Aborted { fatal, errors: overrides_at_hand(&sources.declarations, cache) }
}

/// The work of the merging phase: the packages are compiled against the
/// cache, then the newsfeed with the texts of its posts. A fatal error of
/// the packages comes before one of the newsfeed. Validation errors end
/// nothing: they come out with the compiled packages, and where a fatal
/// error ends the phase, those that the answers at hand show come out
/// with the fatal error.
pub fn compile_sources(
    sources: &Sources,
    cache: &LookupCache,
    route_root: &str,
    post_texts: &Vec<String>,
) -> (r: Result<Compiled, Aborted>)
    requires
        cache.wf(),
    ensures
        match r {
            Ok(compiled) => {
                &&& crate::ecosystem::compiles_to(sources.declarations@, cache@, compiled.ecosystem)
                &&& crate::newsfeed::compiles_to(
                    sources.newsfeed,
                    route_root@,
                    post_texts@,
                    compiled.newsfeed,
                )
            },
            Err(aborted) => {
                &&& crate::ecosystem::fails_with(sources.declarations@, cache@, aborted.fatal) || (
                crate::ecosystem::is_compilable(sources.declarations@, cache@) && aborted.fatal
                    == FatalError::PostSourcesMismatch && post_texts@.len()
                    != sources.newsfeed.posts@.len())
                &&& error_texts(aborted.errors@) == all_overrides(sources.declarations@, cache@)
            },
        },
{
    let ecosystem = match compile_ecosystem(&sources.declarations, cache) {
        Ok(ecosystem) => ecosystem,
        Err(fatal) => {
            return Err(abort_merging(sources, cache, fatal));
        },
    };
    let newsfeed = match compile_newsfeed(&sources.newsfeed, route_root, post_texts) {
        Ok(newsfeed) => newsfeed,
        Err(fatal) => {
            return Err(Aborted { fatal, errors: ecosystem.errors });
        },
    };
    Ok(Compiled { ecosystem, newsfeed })
}

/// A course that a run can take: it begins with `Loading`, and each
/// phase follows from the one before. `errors[i]` is the number of
/// validation errors collected once the work of phase `i` is reported, so
/// it never falls; `fatal[i]` says whether that work ended in a fatal
/// error.
pub open spec fn is_course(
    course: Seq<Phase>,
    errors: Seq<nat>,
    fatal: Seq<bool>,
    verify_only: bool,
) -> bool {
    &&& course.len() == errors.len() + 1
    &&& fatal.len() == errors.len()
    &&& course[0] == Phase::Loading
    &&& forall|i: int|
        #![trigger errors[i]]
        0 <= i < errors.len() ==> course[i + 1] == next_phase(
            course[i],
            errors[i],
            verify_only,
            fatal[i],
        )
    &&& forall|i: int, j: int| 0 <= i <= j < errors.len() ==> errors[i] <= errors[j]
}

/// How many phases can still follow `phase`.
pub open spec fn phases_left(phase: Phase) -> nat {
    match phase {
        Phase::Loading => 6,
        Phase::Merging => 5,
        Phase::Validating => 4,
        Phase::Rendering => 3,
        Phase::Writing => 2,
        Phase::Failed => 1,
        Phase::Done => 0,
    }
}

/// Each step of a course brings it nearer to its end.
proof fn lemma_course_shortens(
    course: Seq<Phase>,
    errors: Seq<nat>,
    fatal: Seq<bool>,
    verify_only: bool,
    i: int,
)
    requires
        is_course(course, errors, fatal, verify_only),
        0 <= i < course.len(),
    ensures
        phases_left(course[i]) + i <= 6 || course[i] == Phase::Done,
    decreases i,
{
    if i > 0 {
        lemma_course_shortens(course, errors, fatal, verify_only, i - 1);
        assert(course[i] == next_phase(course[i - 1], errors[i - 1], verify_only, fatal[i - 1]));
    }
}

/// Every run comes to `Done`, where the cache is saved, after six steps at
/// most, and stays there: a clean run, a run that only verifies, a run
/// with validation errors and a run that met a fatal error alike.
pub proof fn law_every_run_saves_the_cache(
    course: Seq<Phase>,
    errors: Seq<nat>,
    fatal: Seq<bool>,
    verify_only: bool,
    i: int,
)
    requires
        is_course(course, errors, fatal, verify_only),
        6 <= i < course.len(),
    ensures
        course[i] == Phase::Done,
{
    lemma_course_shortens(course, errors, fatal, verify_only, i);
}

/// A run without validation errors and without a fatal error, which does
/// not only verify, renders and writes its output and is done.
pub proof fn law_clean_run_writes(course: Seq<Phase>, errors: Seq<nat>, fatal: Seq<bool>)
    requires
        is_course(course, errors, fatal, false),
        course.len() >= 6,
        forall|i: int| 0 <= i < errors.len() ==> errors[i] == 0 && !fatal[i],
    ensures
        course[1] == Phase::Merging,
        course[2] == Phase::Validating,
        course[3] == Phase::Rendering,
        course[4] == Phase::Writing,
        course[5] == Phase::Done,
{
    assert(course[1] == next_phase(course[0], errors[0], false, fatal[0]));
    assert(course[2] == next_phase(course[1], errors[1], false, fatal[1]));
    assert(course[3] == next_phase(course[2], errors[2], false, fatal[2]));
    assert(course[4] == next_phase(course[3], errors[3], false, fatal[3]));
    assert(course[5] == next_phase(course[4], errors[4], false, fatal[4]));
}

/// A run that only verifies never renders and never writes.
pub proof fn law_verify_only_writes_nothing(
    course: Seq<Phase>,
    errors: Seq<nat>,
    fatal: Seq<bool>,
    i: int,
)
    requires
        is_course(course, errors, fatal, true),
        0 <= i < course.len(),
    ensures
        course[i] != Phase::Rendering,
        course[i] != Phase::Writing,
    decreases i,
{
    if i > 0 {
        law_verify_only_writes_nothing(course, errors, fatal, i - 1);
        assert(course[i] == next_phase(course[i - 1], errors[i - 1], true, fatal[i - 1]));
    }
}

/// A run that only verifies and finds nothing wrong is done right after
/// validation.
pub proof fn law_verify_only_clean_run(course: Seq<Phase>, errors: Seq<nat>, fatal: Seq<bool>)
    requires
        is_course(course, errors, fatal, true),
        course.len() >= 4,
        forall|i: int| 0 <= i < errors.len() ==> errors[i] == 0 && !fatal[i],
    ensures
        course[1] == Phase::Merging,
        course[2] == Phase::Validating,
        course[3] == Phase::Done,
{
    assert(course[1] == next_phase(course[0], errors[0], true, fatal[0]));
    assert(course[2] == next_phase(course[1], errors[1], true, fatal[1]));
    assert(course[3] == next_phase(course[2], errors[2], true, fatal[2]));
}

/// Once a validation error is collected, the run neither begins to render
/// nor begins to write, whether or not it only verifies.
pub proof fn law_errors_block_output(
    course: Seq<Phase>,
    errors: Seq<nat>,
    fatal: Seq<bool>,
    verify_only: bool,
    k: int,
    i: int,
)
    requires
        is_course(course, errors, fatal, verify_only),
        0 <= k < errors.len(),
        errors[k] >= 1,
        k < i < course.len(),
    ensures
        course[i] != Phase::Rendering,
        course[i] != Phase::Writing,
{
    assert(errors[k] <= errors[i - 1]);
    assert(course[i] == next_phase(course[i - 1], errors[i - 1], verify_only, fatal[i - 1]));
}

/// A validation error found while the packages are compiled or the tags
/// are checked keeps the whole run from rendering and from writing, and
/// the run goes through `Failed`, where the errors are reported.
pub proof fn law_validation_error_fails_the_run(
    course: Seq<Phase>,
    errors: Seq<nat>,
    fatal: Seq<bool>,
    verify_only: bool,
    i: int,
)
    requires
        is_course(course, errors, fatal, verify_only),
        errors.len() >= 3,
        errors[2] >= 1,
        0 <= i < course.len(),
    ensures
        course[i] != Phase::Rendering,
        course[i] != Phase::Writing,
        course[1] == Phase::Failed || course[2] == Phase::Failed || course[3] == Phase::Failed,
{
    assert(course[1] == next_phase(course[0], errors[0], verify_only, fatal[0]));
    assert(course[2] == next_phase(course[1], errors[1], verify_only, fatal[1]));
    assert(course[3] == next_phase(course[2], errors[2], verify_only, fatal[2]));
    if i > 2 {
        law_errors_block_output(course, errors, fatal, verify_only, 2, i);
    }
}

/// A run with a validation error or a fatal error has not succeeded.
pub proof fn law_failed_run_reports_failure(state: RunState)
    requires
        state.errors.len() >= 1 || state.failure is Some,
    ensures
        !has_succeeded(state),
{
}

/// The run after each of `outcomes` has been reported, one after the
/// other.
pub open spec fn run_after(start: RunState, outcomes: Seq<Outcome>) -> RunState
    decreases outcomes.len(),
{
    if outcomes.len() == 0 {
        start
    } else {
        step(run_after(start, outcomes.drop_last()), outcomes.last())
    }
}

/// The phases through which a run goes while `outcomes` are reported.
pub open spec fn phases_of(verify_only: bool, outcomes: Seq<Outcome>) -> Seq<Phase> {
    Seq::new(
        outcomes.len() + 1,
        |i: int| run_after(initial_state(verify_only), outcomes.take(i)).phase,
    )
}

/// The number of validation errors collected after each report.
pub open spec fn error_counts_of(verify_only: bool, outcomes: Seq<Outcome>) -> Seq<nat> {
    Seq::new(
        outcomes.len(),
        |i: int| run_after(initial_state(verify_only), outcomes.take(i + 1)).errors.len(),
    )
}

/// Whether each report was that of a fatal error.
pub open spec fn fatal_flags_of(outcomes: Seq<Outcome>) -> Seq<bool> {
    Seq::new(outcomes.len(), |i: int| outcomes[i].fatal is Some)
}

/// A report never takes a validation error away, and keeps the mode of
/// the run.
proof fn lemma_run_after_grows(start: RunState, outcomes: Seq<Outcome>, i: int, j: int)
    requires
        0 <= i <= j <= outcomes.len(),
    ensures
        run_after(start, outcomes.take(i)).errors.len() <= run_after(
            start,
            outcomes.take(j),
        ).errors.len(),
        run_after(start, outcomes.take(j)).verify_only == start.verify_only,
    decreases j,
{
    if j > 0 {
        assert(outcomes.take(j).drop_last() =~= outcomes.take(j - 1));
        if i < j {
            lemma_run_after_grows(start, outcomes, i, j - 1);
        } else {
            lemma_run_after_grows(start, outcomes, j - 1, j - 1);
        }
    }
}

/// Whatever is reported to a run, from its beginning on, the run follows
/// a course: what holds of every course holds of every run.
pub proof fn law_runs_follow_a_course(verify_only: bool, outcomes: Seq<Outcome>)
    ensures
        is_course(
            phases_of(verify_only, outcomes),
            error_counts_of(verify_only, outcomes),
            fatal_flags_of(outcomes),
            verify_only,
        ),
{
    let start = initial_state(verify_only);
    let course = phases_of(verify_only, outcomes);
    let errors = error_counts_of(verify_only, outcomes);
    let fatal = fatal_flags_of(outcomes);
    assert(outcomes.take(0) =~= Seq::<Outcome>::empty());
    assert forall|i: int| #![trigger errors[i]] 0 <= i < errors.len() implies course[i + 1]
        == next_phase(course[i], errors[i], verify_only, fatal[i]) by {
        assert(outcomes.take(i + 1).drop_last() =~= outcomes.take(i));
        assert(outcomes.take(i + 1).last() == outcomes[i]);
        lemma_run_after_grows(start, outcomes, i, i);
    }
    assert forall|i: int, j: int| 0 <= i <= j < errors.len() implies errors[i] <= errors[j] by {
        lemma_run_after_grows(start, outcomes, i + 1, j + 1);
    }
}

/// A fatal error hides no validation error: where the work of a phase
/// ends in a fatal error after it has found validation errors, these are
/// collected with the others, and the run fails.
pub proof fn law_abort_keeps_the_errors(state: RunState, found: Seq<ErrorText>, fatal: FatalText)
    requires
        state.phase != Phase::Done,
        state.phase != Phase::Failed,
    ensures
        step(state, Outcome { errors: found, fatal: Some(fatal) }).errors == state.errors + found,
        step(state, Outcome { errors: found, fatal: Some(fatal) }).phase == Phase::Failed,
        step(state, Outcome { errors: found, fatal: Some(fatal) }).failure is Some,
{
}

} // verus!
