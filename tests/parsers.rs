use pgen_rs::cli::QueryType;
use pgen_rs::filter_parser::FilterParser;
use pgen_rs::pfile::Pfile;
use pgen_rs::pvar_parser::{get_rule, ParsingRules, PvarParser};
use pgen_rs::table::MetadataTable;

fn strings(v: &[&str]) -> Vec<String> {
    v.iter().map(|s| s.to_string()).collect()
}

#[test]
fn info_query_is_found_in_a_filter_line() {
    let q = FilterParser::get_info_query("POS == G and POS == 2 and INFO[u, v ] != '3'").unwrap();
    assert_eq!(q, vec![strings(&["u", "v"]), strings(&["!=", "3"])]);
    let q = FilterParser::get_info_query("INFO[AC]==\"12\"").unwrap();
    assert_eq!(q, vec![strings(&["AC"]), strings(&["==", "12"])]);
}

#[test]
fn info_query_rejects_malformed_conditions() {
    assert_eq!(FilterParser::get_info_query("POS == 2"), None);
    assert_eq!(FilterParser::get_info_query("INFO[AC != 3"), None);
    assert_eq!(FilterParser::get_info_query("INFO[AC,] == 3"), None);
    assert_eq!(FilterParser::get_info_query("INFO[AC] < 3"), None);
    assert_eq!(FilterParser::get_info_query("INFO[AC] =="), None);
}

#[test]
fn info_header_lines_declare_keys() {
    assert_eq!(
        PvarParser::get_meta_idname("##INFO=<ID=AC,Number=A,Type=Integer>"),
        Some("AC".to_string())
    );
    assert_eq!(PvarParser::get_meta_idname("##INFO=<ID=,Number=A>"), None);
    assert_eq!(PvarParser::get_meta_idname("##FORMAT=<ID=GT>"), None);
    let text = "##fileformat=PVAR\n##INFO=<ID=AC,Number=A>\n##INFO=<ID=EX_TARGET,Number=0>\n#CHROM\tPOS\n##INFO=<ID=LATE>\n";
    assert_eq!(PvarParser::get_meta_idnames(text), strings(&["AC", "EX_TARGET"]));
}

#[test]
fn data_line_fields() {
    let line = "1\t10\trs1\tA\tG\t.\tPASS\tAC=2;FLAG";
    assert_eq!(get_rule(ParsingRules::CHROM), 0);
    assert_eq!(get_rule(ParsingRules::INFO), 7);
    assert_eq!(PvarParser::get_line_entry(line, ParsingRules::ID), Some("rs1".to_string()));
    assert_eq!(PvarParser::get_line_entry(line, ParsingRules::CHROM), Some("1".to_string()));
    assert_eq!(PvarParser::get_info_line(line), Some("AC=2;FLAG".to_string()));
    assert_eq!(PvarParser::get_info_line("1\t10\trs1"), None);
    let text = "#CHROM\tPOS\tID\tREF\tALT\tQUAL\tFILTER\tINFO\n1\t1\ta\tA\tG\t.\t.\tX=1\n2\t2\tb\tC\tT\t.\t.\tFLAG\n";
    assert_eq!(PvarParser::get_info_lines(text), strings(&["X=1", "FLAG"]));
}

#[test]
fn key_lookups_in_info_text() {
    let info = "AC=2731;EX_TARGET;VT=SNP";
    assert_eq!(PvarParser::find_kv_pair(info, "VT="), Some("SNP".to_string()));
    assert_eq!(PvarParser::find_kv_pair(info, "AC="), Some("2731".to_string()));
    assert_eq!(PvarParser::find_kv_pair(info, "AN="), None);
    assert!(PvarParser::find_key(info, "EX_TARGET"));
    assert!(!PvarParser::find_key(info, "AC"));
    assert!(!PvarParser::find_key(info, "AN"));
    assert_eq!(PvarParser::get_substring_from_index("##INFO=<ID=AC", 11), Some("AC".to_string()));
    assert_eq!(PvarParser::get_substring_from_index("abc", 3), None);
}

fn pfile() -> Pfile {
    Pfile {
        pfile_prefix: "x".to_string(),
        num_variants: 1,
        num_samples: 1,
        storage_mode: 2,
        variant_records_offset: 12,
    }
}

#[test]
fn info_query_keys_must_be_declared() {
    let pvar = "##INFO=<ID=AC,Number=A>\n#CHROM\tINFO\n1\tAC=1\n";
    let (keys, vals) = pfile().parse_info_query("INFO[AC] == '1'", pvar).unwrap();
    assert_eq!(keys, strings(&["AC"]));
    assert_eq!(vals, strings(&["==", "1"]));
    assert_eq!(pfile().parse_info_query("INFO[AN] == '1'", pvar), None);
}

#[test]
fn assistant_request_holds_the_table_excerpt() {
    let t = MetadataTable {
        columns: strings(&["IID", "SEX"]),
        rows: vec![strings(&["id1", "N/A"]), strings(&["id2", "1"])],
    };
    assert_eq!(Pfile::metadata_columns_and_first_row(&t).unwrap(), "IID\tSEX\nid1\tN/A");
    let q = pfile().create_ai_query(&QueryType::Sample, "only women", &t).unwrap();
    assert!(q.contains("filtering genomic data by sample"));
    assert!(q.contains("```\nIID\tSEX\nid1\tN/A\n```"));
    assert!(q.contains("the following specification: only women."));
    let v = pfile().create_ai_query(&QueryType::Variant, "x", &t).unwrap();
    assert!(v.contains("filtering genomic data by variant"));
    let empty = MetadataTable { columns: strings(&["IID"]), rows: vec![] };
    assert!(Pfile::metadata_columns_and_first_row(&empty).is_err());
}
