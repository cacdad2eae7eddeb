//! The two kinds of failure that a run knows. A validation error is found
//! in the declarations, collected with the others and reported at the end;
//! a fatal error ends the run where it occurs.

use vstd::prelude::*;
use crate::registry::FetchError;
use crate::text::join;

verus! {

/// A field of a declaration that the registry can also supply.
#[derive(Clone, Copy, Debug, PartialEq, Eq, Structural)]
pub enum Field {
    Repository,
    Description,
    Documentation,
}

/// The key under which a declaration spells a field.
pub open spec fn field_key(field: Field) -> Seq<char> {
    match field {
        Field::Repository => "repo"@,
        Field::Description => "description"@,
        Field::Documentation => "docs"@,
    }
}

impl Field {
    /// The key under which a declaration spells this field.
    pub fn key(&self) -> (k: &'static str)
        ensures
            k@ == field_key(*self),
    {
        match self {
            Field::Repository => "repo",
            Field::Description => "description",
            Field::Documentation => "docs",
        }
    }
}

/// Something wrong in the declarations. It does not stop the compilation
/// of the other packages, but it keeps any output from being written.
#[derive(Debug, PartialEq, Eq)]
pub enum ValidationError {
    /// The declaration of `package` gives `field` the very value that the
    /// registry supplies.
    RedundantOverride { package: String, field: Field },
    /// `tag` is described but no package carries it.
    UnusedTag { tag: String },
}

/// The texts of a [`ValidationError`].
pub ghost enum ErrorText {
    RedundantOverride { package: Seq<char>, field: Field },
    UnusedTag { tag: Seq<char> },
}

impl View for ValidationError {
    type V = ErrorText;

    open spec fn view(&self) -> ErrorText {
        match *self {
            ValidationError::RedundantOverride { package, field } => ErrorText::RedundantOverride {
                package: package@,
                field,
            },
            ValidationError::UnusedTag { tag } => ErrorText::UnusedTag { tag: tag@ },
        }
    }
}

/// The texts of a list of validation errors, in order.
pub open spec fn error_texts(errors: Seq<ValidationError>) -> Seq<ErrorText> {
    Seq::new(errors.len(), |i: int| errors[i]@)
}

/// How a validation error reads when it is reported.
pub open spec fn error_message(e: ErrorText) -> Seq<char> {
    match e {
        ErrorText::RedundantOverride { package, field } => "Please remove "@ + package + "'s "@
            + field_key(field)
            + " in ecosystem.toml since it duplicates the value on crates.io"@,
        ErrorText::UnusedTag { tag } => "Please remove the tag "@ + tag
            + " from the tag descriptions or apply it to a package"@,
    }
}

impl ValidationError {
    /// The report line for this error.
    pub fn message(&self) -> (m: String)
        ensures
            m@ == error_message(self@),
    {
        match self {
            ValidationError::RedundantOverride { package, field } => {
                let mut m = join("Please remove ", package.as_str());
                m.append("'s ");
                m.append(field.key());
                m.append(" in ecosystem.toml since it duplicates the value on crates.io");
                m
            },
            ValidationError::UnusedTag { tag } => {
                let mut m = join("Please remove the tag ", tag.as_str());
                m.append(" from the tag descriptions or apply it to a package");
                m
            },
        }
    }

    /// A copy with the same texts.
    pub fn copy(&self) -> (e: ValidationError)
        ensures
            e@ == self@,
    {
        match self {
            ValidationError::RedundantOverride { package, field } => {
                ValidationError::RedundantOverride { package: package.clone(), field: *field }
            },
            ValidationError::UnusedTag { tag } => ValidationError::UnusedTag { tag: tag.clone() },
        }
    }
}

/// A source that a run reads.
#[derive(Clone, Copy, Debug, PartialEq, Eq, Structural)]
pub enum Source {
    Declarations,
    TagDescriptions,
    Newsfeed,
    Post,
    Templates,
}

/// How a source is called when a failure is reported.
pub open spec fn source_name(source: Source) -> Seq<char> {
    match source {
        Source::Declarations => "the package declarations"@,
        Source::TagDescriptions => "the tag descriptions"@,
        Source::Newsfeed => "the newsfeed"@,
        Source::Post => "a newsfeed post"@,
        Source::Templates => "the page templates"@,
    }
}

impl Source {
    /// How the source is called when a failure is reported.
    pub fn name(&self) -> (n: &'static str)
        ensures
            n@ == source_name(*self),
    {
        match self {
            Source::Declarations => "the package declarations",
            Source::TagDescriptions => "the tag descriptions",
            Source::Newsfeed => "the newsfeed",
            Source::Post => "a newsfeed post",
            Source::Templates => "the page templates",
        }
    }
}

/// Why the registry gave no answer, in words.
pub open spec fn cause_text(cause: FetchError) -> Seq<char> {
    match cause {
        FetchError::Unreachable => "the registry could not be reached"@,
        FetchError::Refused { status } => "the registry refused the request"@,
        FetchError::Malformed => "the answer of the registry could not be read"@,
    }
}

/// Why the registry gave no answer, in words.
pub fn cause_message(cause: FetchError) -> (m: &'static str)
    ensures
        m@ == cause_text(cause),
{
    match cause {
        FetchError::Unreachable => "the registry could not be reached",
        FetchError::Refused { status } => "the registry refused the request",
        FetchError::Malformed => "the answer of the registry could not be read",
    }
}

/// A failure that ends the run at once, with no output.
#[derive(Debug, PartialEq, Eq)]
pub enum FatalError {
    /// A required source could not be read or parsed.
    SourceUnreadable { source: Source },
    /// The registry gave no answer for a package that needs one.
    LookupFailed { identifier: String, cause: FetchError },
    /// A package that needs the registry's answer has none in the cache.
    LookupMissing { identifier: String },
    /// Two declarations compile to the same display name.
    DisplayNameCollision { name: String },
    /// The newsfeed has a number of posts other than the number of post
    /// sources handed in.
    PostSourcesMismatch,
    /// The cache file exists and could not be removed.
    CacheNotRemoved,
    /// The compiled data could not be rendered.
    RenderingFailed,
    /// The rendered output could not be written.
    OutputNotWritten,
}

/// The texts of a [`FatalError`].
pub ghost enum FatalText {
    SourceUnreadable { source: Source },
    LookupFailed { identifier: Seq<char>, cause: FetchError },
    LookupMissing { identifier: Seq<char> },
    DisplayNameCollision { name: Seq<char> },
    PostSourcesMismatch,
    CacheNotRemoved,
    RenderingFailed,
    OutputNotWritten,
}

impl View for FatalError {
    type V = FatalText;

    open spec fn view(&self) -> FatalText {
        match *self {
            FatalError::SourceUnreadable { source } => FatalText::SourceUnreadable { source },
            FatalError::LookupFailed { identifier, cause } => FatalText::LookupFailed {
                identifier: identifier@,
                cause,
            },
            FatalError::LookupMissing { identifier } => FatalText::LookupMissing {
                identifier: identifier@,
            },
            FatalError::DisplayNameCollision { name } => FatalText::DisplayNameCollision {
                name: name@,
            },
            FatalError::PostSourcesMismatch => FatalText::PostSourcesMismatch,
            FatalError::CacheNotRemoved => FatalText::CacheNotRemoved,
            FatalError::RenderingFailed => FatalText::RenderingFailed,
            FatalError::OutputNotWritten => FatalText::OutputNotWritten,
        }
    }
}

/// How a fatal error reads when it is reported.
pub open spec fn fatal_message(e: FatalText) -> Seq<char> {
    match e {
        FatalText::SourceUnreadable { source } => "failed reading "@ + source_name(source),
        FatalText::LookupFailed { identifier, cause } => "could not find crate "@ + identifier
            + ": "@ + cause_text(cause),
        FatalText::LookupMissing { identifier } => "no registry data at hand for crate "@
            + identifier,
        FatalText::DisplayNameCollision { name } => "two packages are named "@ + name,
        FatalText::PostSourcesMismatch => "the newsfeed posts and their texts do not match"@,
        FatalText::CacheNotRemoved => "failed to remove the external data file"@,
        FatalText::RenderingFailed => "failed rendering the pages"@,
        FatalText::OutputNotWritten => "failed writing the output"@,
    }
}

impl FatalError {
    /// The report line for this error.
    pub fn message(&self) -> (m: String)
        ensures
            m@ == fatal_message(self@),
    {
        match self {
            FatalError::SourceUnreadable { source } => join("failed reading ", source.name()),
            FatalError::LookupFailed { identifier, cause } => {
                let mut m = join("could not find crate ", identifier.as_str());
                m.append(": ");
                m.append(cause_message(*cause));
                m
            },
            FatalError::LookupMissing { identifier } => join(
                "no registry data at hand for crate ",
                identifier.as_str(),
            ),
            FatalError::DisplayNameCollision { name } => join(
                "two packages are named ",
                name.as_str(),
            ),
            FatalError::PostSourcesMismatch => String::from_str(
                "the newsfeed posts and their texts do not match",
            ),
            FatalError::CacheNotRemoved => String::from_str(
                "failed to remove the external data file",
            ),
            FatalError::RenderingFailed => String::from_str("failed rendering the pages"),
            FatalError::OutputNotWritten => String::from_str("failed writing the output"),
        }
    }
}

} // verus!
