//! The commands that the fileset tools accept.

use vstd::prelude::*;

verus! {

/// A parsed command line.
pub struct Cli {
    pub command: Commands,
}

/// What to do with a fileset.
pub enum Commands {
    /// Prints, for each variant (or, with `query_samples`, each sample) that
    /// passes `query`, the value of the format expression `query_fstring`.
    Query {
        pfile_prefix: String,
        query_fstring: String,
        query: Option<String>,
        query_samples: bool,
    },
    /// Writes the variants that pass `var_query`, with the calls of the
    /// samples that pass `sam_query`, as a variant-call file to `out_file`
    /// (by default the prefix followed by `.pgen-rs.vcf`).
    Filter {
        pfile_prefix: String,
        var_query: Option<String>,
        sam_query: Option<String>,
        out_file: Option<String>,
    },
}

/// Which metadata table a query is about.
#[derive(Debug, Clone, Copy, PartialEq, Eq, Structural)]
pub enum QueryType {
    Variant,
    Sample,
}

} // verus!
