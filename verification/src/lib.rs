//! Heterozygote genotype concordance between two named samples of a genomic
//! variant dataset.
//!
//! The library holds the region-scoped streaming aggregation core: resolving
//! sample names against the dataset's declared sample list, parsing interval
//! lines, classifying genotype renderings as heterozygous, and accumulating
//! `(total_variants, concordant_hets)` over record streams. Opening the
//! dataset, decoding records and repositioning the indexed reader belong to
//! the surrounding binary, which hands this library plain values.

pub mod aggregate;
pub mod errors;
pub mod genotype;
pub mod region;
pub mod tally;
pub mod text;

pub use errors::HetcorError;
