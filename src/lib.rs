//! Reading of PLINK2 fileset triples: the binary genotype container, its two
//! tab-delimited metadata tables, and filter expressions over their records.

pub mod bytes;
pub mod cli;
pub mod error;
pub mod filter_parser;
pub mod genotype;
pub mod pfile;
pub mod pgen;
pub mod prompt;
pub mod pvar_parser;
pub mod query;
pub mod table;
pub mod text;
pub mod varmap;
pub mod vcf;
