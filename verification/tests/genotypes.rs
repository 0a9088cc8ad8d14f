use hetcor::genotype::is_het;

#[test]
fn het_patterns_accepted() {
    assert!(is_het("1|0"));
    assert!(is_het("0|1"));
    assert!(is_het("1/0"));
    assert!(is_het("0/1"));
}

#[test]
fn homozygous_renderings_rejected() {
    assert!(!is_het("0/0"));
    assert!(!is_het("1/1"));
    assert!(!is_het("0|0"));
    assert!(!is_het("1|1"));
}

#[test]
fn multiallelic_hets_never_counted() {
    // The pattern set is closed: "1/2"-style multi-allelic heterozygous
    // calls, and calls with more than two alleles, classify as not-het.
    assert!(!is_het("1/2"));
    assert!(!is_het("2/1"));
    assert!(!is_het("0/2"));
    assert!(!is_het("0/1/2"));
}

#[test]
fn other_renderings_rejected() {
    assert!(!is_het(""));
    assert!(!is_het("0/1 "));
    assert!(!is_het("./."));
    assert!(!is_het("01"));
}
