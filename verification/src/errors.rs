//! Typed failures of a concordance run.
//!
//! Every failure aborts the whole run: there is no per-record or per-interval
//! skip-and-continue mode, so a partial, silently incomplete result can never
//! be reported.

use vstd::prelude::*;

verus! {

/// The ways a concordance run can fail. Each one is fatal: the run produces
/// either a complete tally or one of these, never a partial count.
#[derive(Clone, Copy, Debug, PartialEq, Eq, Structural)]
pub enum HetcorError {
    /// A requested sample name is absent from the dataset header.
    UnknownSample,
    /// An interval line has fewer than three tab-separated fields, or its
    /// start or end field is not a non-negative decimal integer.
    MalformedInterval,
    /// An interval names a contig that the dataset header does not declare.
    UnknownContig,
    /// Repositioning the indexed reader onto an interval failed.
    FetchError,
    /// A record or its genotype block could not be decoded.
    RecordDecodeError,
}

impl HetcorError {
    /// The message text reported for this error kind.
    pub open spec fn describe_spec(self) -> Seq<char> {
        match self {
            HetcorError::UnknownSample => "sample not present in the dataset header"@,
            HetcorError::MalformedInterval => "malformed interval line"@,
            HetcorError::UnknownContig => "contig not present in the dataset"@,
            HetcorError::FetchError => "failed to fetch an interval from the indexed dataset"@,
            HetcorError::RecordDecodeError => "failed to decode a record's genotypes"@,
        }
    }

    /// A short, fixed message naming the failure, for the reporting layer.
    pub fn describe(&self) -> (s: &'static str)
        ensures
            s@ == self.describe_spec(),
    {
        match self {
            HetcorError::UnknownSample => "sample not present in the dataset header",
            HetcorError::MalformedInterval => "malformed interval line",
            HetcorError::UnknownContig => "contig not present in the dataset",
            HetcorError::FetchError => "failed to fetch an interval from the indexed dataset",
            HetcorError::RecordDecodeError => "failed to decode a record's genotypes",
        }
    }
}

} // verus!
