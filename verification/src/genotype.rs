//! The genotype classifier: a rendered genotype call is heterozygous exactly
//! when it is one of a fixed, closed set of four renderings.

use vstd::prelude::*;
use crate::text::str_eq;

verus! {

/// Membership in the fixed heterozygous pattern set `{"1|0", "0|1", "1/0",
/// "0/1"}`. The set is deliberately closed: multi-allelic renderings such as
/// `"1/2"`, and renderings with more than two alleles, are never members.
pub open spec fn is_het_spec(g: Seq<char>) -> bool {
    ||| g == "1|0"@
    ||| g == "0|1"@
    ||| g == "1/0"@
    ||| g == "0/1"@
}

/// Classifies a rendered genotype call as heterozygous or not, by exact
/// textual membership in the fixed four-pattern set. Never fails: any other
/// rendering classifies as not-heterozygous.
pub fn is_het(genotype: &str) -> (r: bool)
    ensures
        r == is_het_spec(genotype@),
{
    str_eq(genotype, "1|0") || str_eq(genotype, "0|1") || str_eq(genotype, "1/0") || str_eq(
        genotype,
        "0/1",
    )
}

} // verus!
