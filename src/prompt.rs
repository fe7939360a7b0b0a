//! The text of a request for a filter expression, handed to an assistant
//! that writes queries from a plain-language description.

use vstd::prelude::*;

verus! {

/// Opening of the sample request, up to the table excerpt.
pub const SAMPLE_PROMPT_HEAD: &'static str = "\nI've developed a tool for filtering genomic data by sample and I would like you to help me write a query for it.\n\nQueries are expressions that return a boolean value in a simple expression language. This language supports operations common to many programming languages, such as `==` for equality comparison, `\"\"` for constructing string literals, and  `||` for boolean OR.\n\nTo make these queries not behave statically, the tool instantiates special variables with values from the data itself. All of the variables are of type string, even those which represent numeric data.\n\nWhen filtering, the tool creates variables which correspond to the metadata fields in the sample, such as its identifier `IID`.\n\nBelow is a list of all variables as well as sample values for each. The first line corresponds to the variables. The second line is a sample value for each.\n\n```\n";

/// Middle of the sample request, between the table excerpt and the description.
pub const SAMPLE_PROMPT_MIDDLE: &'static str = "\n```\n\nBelow are two sample queries:\n\nKeep all of the samples with `SEX` not equal to `N/A`.\n\n```\nSEX != \"N/A\"\n```\n\nKeep all of the samples with ID `samp1`.\n\n```\nIID == \"samp1\"\n```\n\nI would like you to write me a query with the following specification: ";

/// Close of the sample request, after the description.
pub const SAMPLE_PROMPT_TAIL: &'static str = ".\n\nPlease return a response with one query per line. If you are confident in it, only include one query; otherwise, include as many queries you think represent different interpretations or implementations of the original request. Do not include any additional explanation or formatting. Your response will be parsed and then executed to filter the data.\n";

/// Opening of the variant request, up to the table excerpt.
pub const VARIANT_PROMPT_HEAD: &'static str = "\nI've developed a tool for filtering genomic data by variant and I would like you to help me write a query for it.\n\nQueries are expressions that return a boolean value in a simple expression language. This language supports operations common to many programming languages, such as `==` for equality comparison, `\"\"` for constructing string literals, and  `||` for boolean OR.\n\nTo make these queries not behave statically, the tool instantiates special variables with values from the data itself. All of the variables are of type string, even those which represent numeric data.\n\nWhen filtering, the tool creates variables which correspond to the standard values seen in a .vcf file. For example, `ALT` references to the alternate allele for the current variant. There may be other variables too.\n\nBelow is a list of all variables as well as sample values for each. The first line corresponds to the variables. The second line is a sample value for each.\n\n```\n";

/// Middle of the variant request, between the table excerpt and the description.
pub const VARIANT_PROMPT_MIDDLE: &'static str = "\n```\n\nBelow are two sample queries:\n\nKeep all of the variants with `POS` equal to `10` or `20`.\n\n```\nPOS==\"10\" || POS==\"20\"\n```\n\nKeep all of the variants with `G` as the alternate allele and whose `POS` isn't `10`.\n\n```\nALT==\"G\" && POS !=\"10\"\n```\n\nI would like you to write me a query with the following specification: ";

/// Close of the variant request, after the description.
pub const VARIANT_PROMPT_TAIL: &'static str = ".\n\nPlease return a response with one query per line. If you are confident in it, only include one query; otherwise, include as many queries you think represent different interpretations or implementations of the original request. Do not include any additional explanation or formatting. Your response will be parsed and then executed to filter the data.\n";

} // verus!
