//! What the package registry says about one package, and how a reply from
//! the registry is read.

use vstd::prelude::*;
use crate::text::{copy_opt, join, opt_text};

verus! {

/// The metadata the registry holds for one package.
#[derive(Debug, PartialEq, Eq)]
pub struct RegistryRecord {
    pub description: Option<String>,
    pub repository: Option<String>,
    pub documentation: Option<String>,
}

/// The texts of a [`RegistryRecord`].
pub ghost struct RecordText {
    pub description: Option<Seq<char>>,
    pub repository: Option<Seq<char>>,
    pub documentation: Option<Seq<char>>,
}

impl View for RegistryRecord {
    type V = RecordText;

    open spec fn view(&self) -> RecordText {
        RecordText {
            description: opt_text(self.description),
            repository: opt_text(self.repository),
            documentation: opt_text(self.documentation),
        }
    }
}

/// The texts of an optional record; `None` stands for a package the registry
/// does not know.
pub open spec fn opt_record(o: Option<RegistryRecord>) -> Option<RecordText> {
    match o {
        Some(r) => Some(r@),
        None => None,
    }
}

impl RegistryRecord {
    /// A copy with the same texts.
    pub fn copy(&self) -> (r: RegistryRecord)
        ensures
            r@ == self@,
    {
        RegistryRecord {
            description: copy_opt(&self.description),
            repository: copy_opt(&self.repository),
            documentation: copy_opt(&self.documentation),
        }
    }
}

/// A copy of an optional record.
pub fn copy_opt_record(o: &Option<RegistryRecord>) -> (r: Option<RegistryRecord>)
    ensures
        opt_record(r) == opt_record(*o),
{
    match o {
        Some(rec) => Some(rec.copy()),
        None => None,
    }
}

/// Why a lookup gave no answer.
#[derive(Clone, Copy, Debug, PartialEq, Eq, Structural)]
pub enum FetchError {
    /// The registry could not be reached.
    Unreachable,
    /// The registry answered with a failure status other than "not found".
    Refused { status: u16 },
    /// The answer did not have the expected shape.
    Malformed,
}

/// What came back from one request to the registry.
#[derive(Debug, PartialEq, Eq)]
pub enum RegistryReply {
    /// The registry knows the package.
    Found(RegistryRecord),
    /// The registry answered that there is no such package.
    NotFound,
    /// The registry answered with another failure status.
    Refused { status: u16 },
    /// The answer could not be read.
    Malformed,
    /// No answer arrived.
    Unreachable,
}

/// What a reply means for a lookup: a record, a confirmed absence, or a
/// failure.
pub open spec fn reply_meaning(reply: RegistryReply) -> Result<Option<RecordText>, FetchError> {
    match reply {
        RegistryReply::Found(r) => Ok(Some(r@)),
        RegistryReply::NotFound => Ok(None),
        RegistryReply::Refused { status } => Err(FetchError::Refused { status }),
        RegistryReply::Malformed => Err(FetchError::Malformed),
        RegistryReply::Unreachable => Err(FetchError::Unreachable),
    }
}

/// The texts of a lookup result.
pub open spec fn lookup_text(r: Result<Option<RegistryRecord>, FetchError>) -> Result<
    Option<RecordText>,
    FetchError,
> {
    match r {
        Ok(o) => Ok(opt_record(o)),
        Err(e) => Err(e),
    }
}

/// Reads a reply: "not found" is an answer, every other failure is an error.
pub fn lookup(reply: RegistryReply) -> (r: Result<Option<RegistryRecord>, FetchError>)
    ensures
        lookup_text(r) == reply_meaning(reply),
{
    match reply {
        RegistryReply::Found(record) => Ok(Some(record)),
        RegistryReply::NotFound => Ok(None),
        RegistryReply::Refused { status } => Err(FetchError::Refused { status }),
        RegistryReply::Malformed => Err(FetchError::Malformed),
        RegistryReply::Unreachable => Err(FetchError::Unreachable),
    }
}

/// The root under which the registry shows a package's profile.
pub open spec fn profile_root() -> Seq<char> {
    "https://crates.io/crates/"@
}

/// The address of a package's profile on the registry.
pub fn profile_url(identifier: &str) -> (url: String)
    ensures
        url@ == profile_root() + identifier@,
{
    join("https://crates.io/crates/", identifier)
}

} // verus!
