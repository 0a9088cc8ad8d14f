//! The concordance tally: what one record contributes, and the monotonically
//! growing pair of counters that accumulates it.

use vstd::prelude::*;
use crate::genotype::{is_het, is_het_spec};
use crate::text::str_eq;

verus! {

/// One variant site's decoded genotype renderings, one per sample column of
/// the dataset, in header order.
#[derive(Clone, Debug)]
pub struct SiteRecord {
    pub genotypes: Vec<String>,
}

impl SiteRecord {
    /// The rendering of sample column `i` at this site.
    pub open spec fn gt(self, i: int) -> Seq<char> {
        self.genotypes[i]@
    }

    /// Extracts the genotype rendering of sample column `i`.
    pub fn genotype(&self, i: usize) -> (g: &str)
        requires
            i < self.genotypes.len(),
        ensures
            g@ == self.gt(i as int),
    {
        self.genotypes[i].as_str()
    }
}

/// Whether two renderings count as a concordant heterozygote: exact textual
/// equality (`"0/1"` and `"1/0"` do not match, though both are heterozygous)
/// and membership of the first in the heterozygous pattern set.
pub open spec fn concordant_het(f: Seq<char>, s: Seq<char>) -> bool {
    f == s && is_het_spec(f)
}

/// Whether `rec`'s calls at sample columns `f` and `s` are concordant hets.
pub open spec fn record_concordant(rec: SiteRecord, f: int, s: int) -> bool {
    concordant_het(rec.gt(f), rec.gt(s))
}

/// How many of `recs` carry concordant heterozygous calls at columns `f`, `s`.
pub open spec fn conc_count(recs: Seq<SiteRecord>, f: int, s: int) -> nat
    decreases recs.len(),
{
    if recs.len() == 0 {
        0
    } else {
        conc_count(recs.drop_last(), f, s) + if record_concordant(recs.last(), f, s) {
            1nat
        } else {
            0nat
        }
    }
}

/// A record whose two renderings differ never counts as concordant.
pub proof fn lemma_unequal_not_concordant(f: Seq<char>, s: Seq<char>)
    requires
        f != s,
    ensures
        !concordant_het(f, s),
{
}

/// A record whose first rendering is not heterozygous never counts as
/// concordant, even when the two renderings are equal.
pub proof fn lemma_not_het_not_concordant(f: Seq<char>, s: Seq<char>)
    requires
        !is_het_spec(f),
    ensures
        !concordant_het(f, s),
{
}

/// Concordant sites never outnumber the sites they are drawn from.
pub proof fn lemma_conc_le_total(recs: Seq<SiteRecord>, f: int, s: int)
    ensures
        conc_count(recs, f, s) <= recs.len(),
    decreases recs.len(),
{
    if recs.len() != 0 {
        lemma_conc_le_total(recs.drop_last(), f, s);
    }
}

/// The run's accumulator: sites visited, and concordant heterozygous sites
/// among them. Both counters only ever grow, and the concordant counter never
/// overtakes the total.
pub struct ConcordanceTally {
    pub total_variants: u64,
    pub concordant_hets: u64,
}

impl ConcordanceTally {
    /// The accumulator invariant, holding at every observation point:
    /// `concordant_hets <= total_variants`.
    pub open spec fn wf(self) -> bool {
        self.concordant_hets <= self.total_variants
    }

    /// A fresh tally: nothing visited, nothing concordant.
    pub fn new() -> (t: ConcordanceTally)
        ensures
            t.total_variants == 0,
            t.concordant_hets == 0,
            t.wf(),
    {
        ConcordanceTally { total_variants: 0, concordant_hets: 0 }
    }

    /// Accounts one record's pair of renderings. The site is always counted;
    /// the concordant counter moves exactly when the renderings are equal and
    /// heterozygous.
    pub fn observe(&mut self, fgt: &str, sgt: &str)
        requires
            old(self).wf(),
            old(self).total_variants < u64::MAX,
        ensures
            final(self).total_variants == old(self).total_variants + 1,
            final(self).concordant_hets == old(self).concordant_hets + if concordant_het(
                fgt@,
                sgt@,
            ) {
                1int
            } else {
                0int
            },
            final(self).wf(),
    {
        if str_eq(fgt, sgt) && is_het(fgt) {
            self.concordant_hets = self.concordant_hets + 1;
        }
        self.total_variants = self.total_variants + 1;
    }
}

} // verus!
