//! The concordance aggregator: resolving the two sample names once at
//! startup, then streaming records — the whole dataset, or one fetched batch
//! per interval, in file order — into the tally.

use vstd::prelude::*;
use crate::errors::HetcorError;
use crate::tally::{conc_count, record_concordant, ConcordanceTally, SiteRecord};
use crate::text::str_eq;

verus! {

/// Whether some declared name renders exactly as `name`.
pub open spec fn name_present(names: Seq<String>, name: Seq<char>) -> bool {
    exists|i: int| 0 <= i < names.len() && (#[trigger] names[i])@ == name
}

/// The least index of `names` whose entry renders as `name` (one past the end
/// when `name` is absent).
pub open spec fn first_index_of(names: Seq<String>, name: Seq<char>) -> int
    decreases names.len(),
{
    if names.len() == 0 {
        0
    } else if names[0]@ == name {
        0
    } else {
        1 + first_index_of(names.drop_first(), name)
    }
}

/// `first_index_of` is pinned down by a match-free prefix followed by a match
/// (or the end of the list).
proof fn lemma_first_index_at(names: Seq<String>, name: Seq<char>, i: int)
    requires
        0 <= i <= names.len(),
        forall|j: int| 0 <= j < i ==> (#[trigger] names[j])@ != name,
        i < names.len() ==> names[i]@ == name,
    ensures
        first_index_of(names, name) == i,
    decreases names.len(),
{
    if names.len() == 0 {
    } else if names[0]@ == name {
        assert(i == 0);
    } else {
        assert(i >= 1);
        let t = names.drop_first();
        assert forall|j: int| 0 <= j < i - 1 implies (#[trigger] t[j])@ != name by {
            assert(t[j] == names[j + 1]);
        }
        if i - 1 < t.len() {
            assert(t[i - 1] == names[i]);
        }
        lemma_first_index_at(t, name, i - 1);
    }
}

/// Finds `name` in a declared name list: the least matching index.
fn find_name(names: &Vec<String>, name: &str) -> (r: Option<usize>)
    ensures
        match r {
            Some(i) => {
                &&& name_present(names@, name@)
                &&& i as int == first_index_of(names@, name@)
                &&& i < names@.len()
                &&& names@[i as int]@ == name@
            },
            None => !name_present(names@, name@),
        },
{
    let n = names.len();
    let mut i: usize = 0;
    while i < n
        invariant
            i <= n,
            n == names@.len(),
            forall|j: int| 0 <= j < i ==> (#[trigger] names@[j])@ != name@,
        decreases n - i,
    {
        if str_eq(names[i].as_str(), name) {
            proof {
                lemma_first_index_at(names@, name@, i as int);
            }
            return Some(i);
        }
        i += 1;
    }
    None
}

/// Resolves one sample name against the header's declared sample list: the
/// sample's column index within per-record genotype arrays. Fails with
/// `UnknownSample` exactly when the name is absent.
pub fn resolve_sample(samples: &Vec<String>, name: &str) -> (r: Result<usize, HetcorError>)
    ensures
        r is Ok <==> name_present(samples@, name@),
        r matches Ok(i) ==> i as int == first_index_of(samples@, name@) && i < samples@.len()
            && samples@[i as int]@ == name@,
        r matches Err(e) ==> e == HetcorError::UnknownSample,
{
    match find_name(samples, name) {
        Some(i) => Ok(i),
        None => Err(HetcorError::UnknownSample),
    }
}

/// Resolves an interval's contig name to the dataset's internal contig id:
/// its index in the header's declared contig list. Fails with `UnknownContig`
/// exactly when the dataset does not declare the contig.
pub fn resolve_contig(contigs: &Vec<String>, name: &str) -> (r: Result<usize, HetcorError>)
    ensures
        r is Ok <==> name_present(contigs@, name@),
        r matches Ok(i) ==> i as int == first_index_of(contigs@, name@) && i < contigs@.len()
            && contigs@[i as int]@ == name@,
        r matches Err(e) ==> e == HetcorError::UnknownContig,
{
    match find_name(contigs, name) {
        Some(i) => Ok(i),
        None => Err(HetcorError::UnknownContig),
    }
}

/// Resolves both samples of the run, before any record iteration begins: the
/// run cannot proceed unless both names are declared, and the failure is
/// reported up front, never discovered mid-stream.
pub fn resolve_sample_pair(samples: &Vec<String>, first: &str, second: &str) -> (r: Result<
    (usize, usize),
    HetcorError,
>)
    ensures
        r is Ok <==> name_present(samples@, first@) && name_present(samples@, second@),
        r matches Ok(p) ==> {
            &&& p.0 as int == first_index_of(samples@, first@)
            &&& p.1 as int == first_index_of(samples@, second@)
            &&& p.0 < samples@.len()
            &&& p.1 < samples@.len()
        },
        r matches Err(e) ==> e == HetcorError::UnknownSample,
{
    let fidx = match resolve_sample(samples, first) {
        Ok(i) => i,
        Err(e) => {
            return Err(e);
        },
    };
    let sidx = match resolve_sample(samples, second) {
        Ok(i) => i,
        Err(e) => {
            return Err(e);
        },
    };
    Ok((fidx, sidx))
}

/// Accounts one decoded record: extracts the genotype renderings of the two
/// resolved sample columns and feeds them to the tally.
pub fn observe_record(tally: &mut ConcordanceTally, rec: &SiteRecord, fidx: usize, sidx: usize)
    requires
        old(tally).wf(),
        old(tally).total_variants < u64::MAX,
        fidx < rec.genotypes.len(),
        sidx < rec.genotypes.len(),
    ensures
        final(tally).total_variants == old(tally).total_variants + 1,
        final(tally).concordant_hets == old(tally).concordant_hets + if record_concordant(
            *rec,
            fidx as int,
            sidx as int,
        ) {
            1int
        } else {
            0int
        },
        final(tally).wf(),
{
    tally.observe(rec.genotype(fidx), rec.genotype(sidx));
}

/// Streams one batch of records into the tally, front to back: every record
/// counts once, the concordant ones a second time.
pub fn tally_records(
    tally: &mut ConcordanceTally,
    records: &Vec<SiteRecord>,
    fidx: usize,
    sidx: usize,
)
    requires
        old(tally).wf(),
        old(tally).total_variants + records@.len() <= u64::MAX,
        forall|k: int|
            0 <= k < records@.len() ==> fidx < (#[trigger] records@[k]).genotypes.len() && sidx
                < records@[k].genotypes.len(),
    ensures
        final(tally).total_variants == old(tally).total_variants + records@.len(),
        final(tally).concordant_hets == old(tally).concordant_hets + conc_count(
            records@,
            fidx as int,
            sidx as int,
        ),
        final(tally).wf(),
{
    let n = records.len();
    let mut k: usize = 0;
    while k < n
        invariant
            k <= n,
            n == records@.len(),
            old(tally).total_variants + n <= u64::MAX,
            forall|j: int|
                0 <= j < n ==> fidx < (#[trigger] records@[j]).genotypes.len() && sidx
                    < records@[j].genotypes.len(),
            tally.wf(),
            tally.total_variants == old(tally).total_variants + k,
            tally.concordant_hets == old(tally).concordant_hets + conc_count(
                records@.subrange(0, k as int),
                fidx as int,
                sidx as int,
            ),
        decreases n - k,
    {
        proof {
            crate::tally::lemma_conc_le_total(
                records@.subrange(0, k as int),
                fidx as int,
                sidx as int,
            );
        }
        observe_record(tally, &records[k], fidx, sidx);
        proof {
            let pfx = records@.subrange(0, k as int);
            let pfx1 = records@.subrange(0, k as int + 1);
            assert(pfx1.drop_last() =~= pfx);
            assert(pfx1.last() == records@[k as int]);
        }
        k += 1;
    }
    proof {
        assert(records@.subrange(0, n as int) =~= records@);
    }
}

/// Whole-dataset mode: resolve both samples, then stream every record once,
/// front to back, in native storage order.
pub fn concordance_whole(
    samples: &Vec<String>,
    first: &str,
    second: &str,
    records: &Vec<SiteRecord>,
) -> (r: Result<ConcordanceTally, HetcorError>)
    requires
        records@.len() <= u64::MAX,
        forall|k: int|
            0 <= k < records@.len() ==> (#[trigger] records@[k]).genotypes.len() == samples@.len(),
    ensures
        r is Ok <==> name_present(samples@, first@) && name_present(samples@, second@),
        r matches Ok(t) ==> {
            &&& t.total_variants == records@.len()
            &&& t.concordant_hets == conc_count(
                records@,
                first_index_of(samples@, first@),
                first_index_of(samples@, second@),
            )
            &&& t.wf()
        },
        r matches Err(e) ==> e == HetcorError::UnknownSample,
{
    let (fidx, sidx) = match resolve_sample_pair(samples, first, second) {
        Ok(p) => p,
        Err(e) => {
            return Err(e);
        },
    };
    let mut tally = ConcordanceTally::new();
    tally_records(&mut tally, records, fidx, sidx);
    Ok(tally)
}

/// The record batches of an interval run, viewed as sequences.
pub open spec fn batch_views(batches: Seq<Vec<SiteRecord>>) -> Seq<Seq<SiteRecord>> {
    batches.map_values(|b: Vec<SiteRecord>| b@)
}

/// Sites visited by interval-list mode: batch after batch, in file order,
/// with no deduplication across overlapping or repeated intervals.
pub open spec fn batches_total(batches: Seq<Seq<SiteRecord>>) -> nat
    decreases batches.len(),
{
    if batches.len() == 0 {
        0
    } else {
        batches_total(batches.drop_last()) + batches.last().len()
    }
}

/// Concordant heterozygous sites accumulated by interval-list mode.
pub open spec fn batches_conc(batches: Seq<Seq<SiteRecord>>, f: int, s: int) -> nat
    decreases batches.len(),
{
    if batches.len() == 0 {
        0
    } else {
        batches_conc(batches.drop_last(), f, s) + conc_count(batches.last(), f, s)
    }
}

/// A prefix of the batch list never accounts more sites than the whole list.
proof fn lemma_batches_total_prefix_le(batches: Seq<Seq<SiteRecord>>, i: int)
    requires
        0 <= i <= batches.len(),
    ensures
        batches_total(batches.subrange(0, i)) <= batches_total(batches),
    decreases batches.len() - i,
{
    if i < batches.len() {
        lemma_batches_total_prefix_le(batches, i + 1);
        let t = batches.subrange(0, i + 1);
        assert(t.drop_last() =~= batches.subrange(0, i));
        assert(t.last() == batches[i]);
        assert(batches_total(t) == batches_total(batches.subrange(0, i)) + batches[i].len());
    } else {
        assert(batches.subrange(0, i) =~= batches);
    }
}

/// Concordant sites add up across concatenated record streams.
pub proof fn lemma_conc_count_concat(a: Seq<SiteRecord>, b: Seq<SiteRecord>, f: int, s: int)
    ensures
        conc_count(a + b, f, s) == conc_count(a, f, s) + conc_count(b, f, s),
    decreases b.len(),
{
    if b.len() == 0 {
        assert(a + b =~= a);
    } else {
        lemma_conc_count_concat(a, b.drop_last(), f, s);
        assert((a + b).drop_last() =~= a + b.drop_last());
        assert((a + b).last() == b.last());
    }
}

/// Interval-list mode accumulates exactly what whole-dataset mode reads off
/// the concatenation of the fetched batches. In particular, when the interval
/// list fetches exactly the whole dataset, in order, the two modes produce
/// identical `(total_variants, concordant_hets)` pairs.
pub proof fn lemma_modes_agree(batches: Seq<Seq<SiteRecord>>, f: int, s: int)
    ensures
        batches_total(batches) == batches.flatten().len(),
        batches_conc(batches, f, s) == conc_count(batches.flatten(), f, s),
    decreases batches.len(),
{
    if batches.len() == 0 {
        assert(batches.flatten() =~= Seq::<SiteRecord>::empty());
    } else {
        let head = batches.drop_last();
        let tail = batches.last();
        lemma_modes_agree(head, f, s);
        assert(head.push(tail) =~= batches);
        head.lemma_flatten_push(tail);
        assert(batches.flatten() == head.flatten() + tail);
        lemma_conc_count_concat(head.flatten(), tail, f, s);
    }
}

/// Listing the same single-record interval twice counts its record twice:
/// interval-list mode performs no deduplication across batches.
pub proof fn lemma_overlap_counts_twice(rec: SiteRecord, f: int, s: int)
    ensures
        batches_total(seq![seq![rec], seq![rec]]) == 2,
        batches_conc(seq![seq![rec], seq![rec]], f, s) == if record_concordant(rec, f, s) {
            2nat
        } else {
            0nat
        },
{
    let empty_b = Seq::<Seq<SiteRecord>>::empty();
    let empty_r = Seq::<SiteRecord>::empty();
    let one = seq![rec];
    let bs = seq![one, one];
    assert(conc_count(empty_r, f, s) == 0);
    assert(one.drop_last() =~= empty_r);
    assert(one.last() == rec);
    assert(conc_count(one, f, s) == conc_count(one.drop_last(), f, s) + if record_concordant(
        rec,
        f,
        s,
    ) {
        1nat
    } else {
        0nat
    });
    assert(batches_total(empty_b) == 0);
    assert(batches_conc(empty_b, f, s) == 0);
    assert(bs.drop_last() =~= seq![one]);
    assert(bs.last() == one);
    assert(seq![one].drop_last() =~= empty_b);
    assert(seq![one].last() == one);
    assert(batches_total(seq![one]) == batches_total(seq![one].drop_last()) + 1);
    assert(batches_total(bs) == batches_total(bs.drop_last()) + 1);
    assert(batches_conc(seq![one], f, s) == batches_conc(seq![one].drop_last(), f, s) + conc_count(
        one,
        f,
        s,
    ));
    assert(batches_conc(bs, f, s) == batches_conc(bs.drop_last(), f, s) + conc_count(
        bs.last(),
        f,
        s,
    ));
}

/// Interval-list mode over already-fetched batches: resolve both samples,
/// then stream the batches strictly sequentially, in list order. A record
/// fetched by two intervals counts twice: callers wanting no double counting
/// must supply non-overlapping intervals.
pub fn concordance_batches(
    samples: &Vec<String>,
    first: &str,
    second: &str,
    batches: &Vec<Vec<SiteRecord>>,
) -> (r: Result<ConcordanceTally, HetcorError>)
    requires
        batches_total(batch_views(batches@)) <= u64::MAX,
        forall|b: int, k: int|
            0 <= b < batches@.len() && 0 <= k < batches@[b]@.len() ==> (#[trigger] batches@[b]@[k]).genotypes.len()
                == samples@.len(),
    ensures
        r is Ok <==> name_present(samples@, first@) && name_present(samples@, second@),
        r matches Ok(t) ==> {
            &&& t.total_variants == batches_total(batch_views(batches@))
            &&& t.concordant_hets == batches_conc(
                batch_views(batches@),
                first_index_of(samples@, first@),
                first_index_of(samples@, second@),
            )
            &&& t.total_variants == batch_views(batches@).flatten().len()
            &&& t.concordant_hets == conc_count(
                batch_views(batches@).flatten(),
                first_index_of(samples@, first@),
                first_index_of(samples@, second@),
            )
            &&& t.wf()
        },
        r matches Err(e) ==> e == HetcorError::UnknownSample,
{
    let (fidx, sidx) = match resolve_sample_pair(samples, first, second) {
        Ok(p) => p,
        Err(e) => {
            return Err(e);
        },
    };
    let mut tally = ConcordanceTally::new();
    let n = batches.len();
    let mut b: usize = 0;
    while b < n
        invariant
            b <= n,
            n == batches@.len(),
            batches_total(batch_views(batches@)) <= u64::MAX,
            forall|bi: int, k: int|
                0 <= bi < batches@.len() && 0 <= k < batches@[bi]@.len() ==> (#[trigger] batches@[bi]@[k]).genotypes.len()
                    == samples@.len(),
            fidx < samples@.len(),
            sidx < samples@.len(),
            fidx as int == first_index_of(samples@, first@),
            sidx as int == first_index_of(samples@, second@),
            tally.wf(),
            tally.total_variants == batches_total(batch_views(batches@).subrange(0, b as int)),
            tally.concordant_hets == batches_conc(
                batch_views(batches@).subrange(0, b as int),
                fidx as int,
                sidx as int,
            ),
        decreases n - b,
    {
        let bv = Ghost(batch_views(batches@));
        proof {
            lemma_batches_total_prefix_le(bv@, b as int + 1);
            assert(bv@.subrange(0, b as int + 1).drop_last() =~= bv@.subrange(0, b as int));
            assert(bv@.subrange(0, b as int + 1).last() == bv@[b as int]);
            assert(bv@[b as int] == batches@[b as int]@);
            assert(batches_total(bv@.subrange(0, b as int + 1)) == batches_total(
                bv@.subrange(0, b as int),
            ) + batches@[b as int]@.len());
            assert forall|k: int|
                0 <= k < batches@[b as int]@.len() implies fidx < (#[trigger] batches@[b as int]@[k]).genotypes.len()
                && sidx < batches@[b as int]@[k].genotypes.len() by {}
        }
        tally_records(&mut tally, &batches[b], fidx, sidx);
        b += 1;
    }
    proof {
        assert(batch_views(batches@).subrange(0, n as int) =~= batch_views(batches@));
        lemma_modes_agree(batch_views(batches@), fidx as int, sidx as int);
    }
    Ok(tally)
}

} // verus!
