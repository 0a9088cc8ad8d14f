//! The interval parser: one tab-separated line becomes a structured region.

use vstd::prelude::*;
use crate::errors::HetcorError;
use crate::text::{dec_val, is_dec_u64, parse_u64, split_first, split_tabs};

verus! {

/// A genomic interval: a contig name and two offsets, in whatever convention
/// (half-open or closed) the underlying indexed store uses. `start <= end` is
/// not enforced here: a reversed interval is handed to the store unchanged,
/// and the store's refusal becomes the run's failure.
#[derive(Debug)]
pub struct Region {
    pub ctg: String,
    pub start: u64,
    pub end: u64,
}

/// Whether `line` is a well-formed interval line: at least three tab-separated
/// fields, the second and third being decimal numerals that fit in a `u64`.
/// Fields past the third are ignored silently.
pub open spec fn well_formed_interval(line: Seq<char>) -> bool {
    &&& split_tabs(line).len() >= 3
    &&& is_dec_u64(split_tabs(line)[1])
    &&& is_dec_u64(split_tabs(line)[2])
}

impl Region {
    /// Parses one interval line into a region: contig name, start offset, end
    /// offset, read from the first three tab-separated fields. Fails with
    /// `MalformedInterval` exactly when fewer than three fields are present or
    /// a bound is not a decimal `u64` numeral.
    pub fn from_string(line: &str) -> (r: Result<Region, HetcorError>)
        ensures
            r is Ok <==> well_formed_interval(line@),
            r matches Ok(reg) ==> {
                &&& reg.ctg@ == split_tabs(line@)[0]
                &&& reg.start == dec_val(split_tabs(line@)[1])
                &&& reg.end == dec_val(split_tabs(line@)[2])
            },
            r matches Err(e) ==> e == HetcorError::MalformedInterval,
    {
        let (f0, rest1) = split_first(line);
        let rest1 = match rest1 {
            Some(r1) => r1,
            None => {
                return Err(HetcorError::MalformedInterval);
            },
        };
        let (f1, rest2) = split_first(rest1);
        let rest2 = match rest2 {
            Some(r2) => r2,
            None => {
                proof {
                    assert(split_tabs(line@) == seq![f0@] + split_tabs(rest1@));
                    assert(split_tabs(rest1@) == seq![rest1@]);
                    assert(split_tabs(line@).len() == 2);
                }
                return Err(HetcorError::MalformedInterval);
            },
        };
        let (f2, _rest3) = split_first(rest2);
        proof {
            crate::text::lemma_split_tabs_len_pos(rest2@);
            assert(split_tabs(line@) == seq![f0@] + split_tabs(rest1@));
            assert(split_tabs(rest1@) == seq![f1@] + split_tabs(rest2@));
            assert(split_tabs(rest2@)[0] == f2@);
            assert(split_tabs(line@)[0] == f0@);
            assert(split_tabs(line@)[1] == f1@);
            assert(split_tabs(line@)[2] == f2@);
            assert(split_tabs(line@).len() >= 3);
        }
        let start = match parse_u64(f1) {
            Some(v) => v,
            None => {
                return Err(HetcorError::MalformedInterval);
            },
        };
        let end = match parse_u64(f2) {
            Some(v) => v,
            None => {
                return Err(HetcorError::MalformedInterval);
            },
        };
        Ok(Region { ctg: f0.to_owned(), start, end })
    }
}

} // verus!
