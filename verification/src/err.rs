use vstd::prelude::*;

verus! {

/// The run's fail-fast philosophy: almost every unexpected condition aborts
/// the whole run.  Each fatal condition is reported as one of these kinds,
/// carrying a diagnostic message, and the driver maps any of them to a
/// non-zero exit.
#[derive(Debug)]
pub enum ScrapeError {
    /// Malformed upstream payload: a missing field, a type mismatch, an
    /// unexpected element count, or an unrecognized schema value.
    SchemaViolation(String),
    /// Local on-disk state that the tool cannot account for.
    FilesystemInconsistency(String),
    /// Upstream data that is well-formed but that this tool does not handle,
    /// such as a paginated collection.
    UnsupportedFeature(String),
    /// A network request that did not succeed.
    TransportFailure(String),
}

pub type SResult<T> = Result<T, ScrapeError>;

impl ScrapeError {
    /// The diagnostic message carried by the error.
    pub fn message(&self) -> (r: &String)
        ensures
            r@ == self.spec_message(),
    {
        match self {
            ScrapeError::SchemaViolation(m) => m,
            ScrapeError::FilesystemInconsistency(m) => m,
            ScrapeError::UnsupportedFeature(m) => m,
            ScrapeError::TransportFailure(m) => m,
        }
    }

    pub open spec fn spec_message(&self) -> Seq<char> {
        match self {
            ScrapeError::SchemaViolation(m) => m@,
            ScrapeError::FilesystemInconsistency(m) => m@,
            ScrapeError::UnsupportedFeature(m) => m@,
            ScrapeError::TransportFailure(m) => m@,
        }
    }
}

} // verus!
