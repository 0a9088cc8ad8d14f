use hetcor::aggregate::{
    concordance_batches, concordance_whole, observe_record, resolve_contig, resolve_sample,
    resolve_sample_pair, tally_records,
};
use hetcor::errors::HetcorError;
use hetcor::tally::{ConcordanceTally, SiteRecord};

fn rec(a: &str, b: &str) -> SiteRecord {
    SiteRecord { genotypes: vec![a.to_string(), b.to_string()] }
}

fn two_samples() -> Vec<String> {
    vec!["A".to_string(), "B".to_string()]
}

#[test]
fn observe_counts_concordant_het() {
    let mut t = ConcordanceTally::new();
    t.observe("0/1", "0/1");
    assert_eq!(t.total_variants, 1);
    assert_eq!(t.concordant_hets, 1);
}

#[test]
fn observe_unequal_renderings_not_counted() {
    // Equal zygosity is not enough: "0/1" and "1/0" render differently, so
    // the concordant counter must not move.
    let mut t = ConcordanceTally::new();
    t.observe("0/1", "1/0");
    assert_eq!(t.total_variants, 1);
    assert_eq!(t.concordant_hets, 0);
}

#[test]
fn observe_equal_non_het_not_counted() {
    let mut t = ConcordanceTally::new();
    t.observe("1/1", "1/1");
    assert_eq!(t.total_variants, 1);
    assert_eq!(t.concordant_hets, 0);
}

#[test]
fn observe_equal_multiallelic_not_counted() {
    let mut t = ConcordanceTally::new();
    t.observe("1/2", "1/2");
    assert_eq!(t.total_variants, 1);
    assert_eq!(t.concordant_hets, 0);
}

#[test]
fn tally_invariant_holds_throughout() {
    let mut t = ConcordanceTally::new();
    let pairs = [
        ("0/1", "0/1"),
        ("0/1", "1/0"),
        ("1|0", "1|0"),
        ("1/1", "0/0"),
        ("0|1", "0|1"),
    ];
    for (a, b) in pairs {
        t.observe(a, b);
        assert!(t.concordant_hets <= t.total_variants);
    }
    assert_eq!(t.total_variants, 5);
    assert_eq!(t.concordant_hets, 3);
}

#[test]
fn three_record_scenario() {
    // Sample A: ["0/1", "1/1", "0/1"]; sample B: ["0/1", "0/0", "1/0"].
    // Only the first record matches: equal rendering "0/1" and heterozygous.
    // The third has equal zygosity but different renderings, so no count.
    let records = vec![rec("0/1", "0/1"), rec("1/1", "0/0"), rec("0/1", "1/0")];
    let t = concordance_whole(&two_samples(), "A", "B", &records).unwrap();
    assert_eq!(t.total_variants, 3);
    assert_eq!(t.concordant_hets, 1);
}

#[test]
fn whole_and_interval_modes_agree() {
    // An interval list that fetches exactly the whole dataset, in order,
    // produces the identical pair.
    let records = vec![rec("0/1", "0/1"), rec("1/1", "0/0"), rec("0/1", "1/0")];
    let whole = concordance_whole(&two_samples(), "A", "B", &records).unwrap();
    let one_batch = vec![records.clone()];
    let by_one = concordance_batches(&two_samples(), "A", "B", &one_batch).unwrap();
    assert_eq!(by_one.total_variants, whole.total_variants);
    assert_eq!(by_one.concordant_hets, whole.concordant_hets);
    let split = vec![vec![records[0].clone()], vec![records[1].clone(), records[2].clone()]];
    let by_two = concordance_batches(&two_samples(), "A", "B", &split).unwrap();
    assert_eq!(by_two.total_variants, whole.total_variants);
    assert_eq!(by_two.concordant_hets, whole.concordant_hets);
}

#[test]
fn overlapping_intervals_count_twice() {
    // Two listed intervals fetching the same single record: no
    // deduplication, the record counts twice.
    let batches = vec![vec![rec("0/1", "0/1")], vec![rec("0/1", "0/1")]];
    let t = concordance_batches(&two_samples(), "A", "B", &batches).unwrap();
    assert_eq!(t.total_variants, 2);
    assert_eq!(t.concordant_hets, 2);
    let batches = vec![vec![rec("0/1", "1/1")], vec![rec("0/1", "1/1")]];
    let t = concordance_batches(&two_samples(), "A", "B", &batches).unwrap();
    assert_eq!(t.total_variants, 2);
    assert_eq!(t.concordant_hets, 0);
}

#[test]
fn unknown_sample_fails_before_iteration() {
    let records = vec![rec("0/1", "0/1")];
    let r = concordance_whole(&two_samples(), "C", "B", &records);
    assert!(matches!(r, Err(HetcorError::UnknownSample)));
    let r = concordance_batches(&two_samples(), "A", "C", &vec![records]);
    assert!(matches!(r, Err(HetcorError::UnknownSample)));
    let r = resolve_sample_pair(&two_samples(), "C", "D");
    assert!(matches!(r, Err(HetcorError::UnknownSample)));
}

#[test]
fn resolve_sample_returns_first_index() {
    let samples = vec!["A".to_string(), "B".to_string(), "A".to_string()];
    assert_eq!(resolve_sample(&samples, "A"), Ok(0));
    assert_eq!(resolve_sample(&samples, "B"), Ok(1));
    assert!(matches!(resolve_sample(&samples, "Z"), Err(HetcorError::UnknownSample)));
}

#[test]
fn resolve_contig_maps_name_to_id() {
    let contigs = vec!["chr1".to_string(), "chr2".to_string()];
    assert_eq!(resolve_contig(&contigs, "chr2"), Ok(1));
}

#[test]
fn unknown_contig_fails() {
    // An interval naming a contig the dataset lacks aborts the run before
    // any fetch; an in-range contig with out-of-range bounds is the store's
    // refusal instead, surfaced as FetchError by the driving layer.
    let contigs = vec!["chr1".to_string()];
    assert!(matches!(resolve_contig(&contigs, "chr9"), Err(HetcorError::UnknownContig)));
}

#[test]
fn observe_record_extracts_columns() {
    let mut t = ConcordanceTally::new();
    let r = SiteRecord {
        genotypes: vec!["1/1".to_string(), "0/1".to_string(), "0/1".to_string()],
    };
    observe_record(&mut t, &r, 1, 2);
    assert_eq!(t.total_variants, 1);
    assert_eq!(t.concordant_hets, 1);
    observe_record(&mut t, &r, 0, 1);
    assert_eq!(t.total_variants, 2);
    assert_eq!(t.concordant_hets, 1);
}

#[test]
fn tally_records_streams_a_batch() {
    let mut t = ConcordanceTally::new();
    let records = vec![rec("0/1", "0/1"), rec("0|1", "0|1"), rec("0/0", "0/0")];
    tally_records(&mut t, &records, 0, 1);
    assert_eq!(t.total_variants, 3);
    assert_eq!(t.concordant_hets, 2);
}

#[test]
fn empty_dataset_yields_zero_pair() {
    let t = concordance_whole(&two_samples(), "A", "B", &Vec::new()).unwrap();
    assert_eq!(t.total_variants, 0);
    assert_eq!(t.concordant_hets, 0);
}

#[test]
fn error_messages_name_the_failure() {
    assert_eq!(
        HetcorError::UnknownSample.describe(),
        "sample not present in the dataset header"
    );
    assert_eq!(HetcorError::MalformedInterval.describe(), "malformed interval line");
    assert_eq!(HetcorError::UnknownContig.describe(), "contig not present in the dataset");
    assert_eq!(
        HetcorError::FetchError.describe(),
        "failed to fetch an interval from the indexed dataset"
    );
    assert_eq!(
        HetcorError::RecordDecodeError.describe(),
        "failed to decode a record's genotypes"
    );
}
