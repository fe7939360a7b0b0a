use pgen_rs::error::PgenError;
use pgen_rs::genotype::GenotypeCall;
use pgen_rs::pfile::Pfile;
use pgen_rs::pvar_parser::PvarParser;
use pgen_rs::query::{build_context, filter_metadata, query_lines, MAX_EXPR_LEN};
use pgen_rs::table::MetadataTable;

fn strings(v: &[&str]) -> Vec<String> {
    v.iter().map(|s| s.to_string()).collect()
}

fn id_table() -> MetadataTable {
    MetadataTable {
        columns: strings(&["ID"]),
        rows: vec![strings(&["a"]), strings(&["b"]), strings(&["c"])],
    }
}

#[test]
fn filter_keeps_the_matching_row_with_its_index() {
    let kept = filter_metadata(&id_table(), Some("ID == \"b\"")).unwrap();
    assert_eq!(kept, vec![(1, strings(&["b"]))]);
}

#[test]
fn absent_filter_keeps_every_row_in_order() {
    let kept = filter_metadata(&id_table(), None).unwrap();
    assert_eq!(
        kept,
        vec![(0, strings(&["a"])), (1, strings(&["b"])), (2, strings(&["c"]))]
    );
}

#[test]
fn filter_compares_strings_with_boolean_combinators() {
    let kept = filter_metadata(&id_table(), Some("ID == \"a\" || ID == \"c\"")).unwrap();
    assert_eq!(kept, vec![(0, strings(&["a"])), (2, strings(&["c"]))]);
    let kept = filter_metadata(&id_table(), Some("ID != \"a\" && ID != \"c\"")).unwrap();
    assert_eq!(kept, vec![(1, strings(&["b"]))]);
}

#[test]
fn filter_errors_are_query_errors() {
    assert!(matches!(
        filter_metadata(&id_table(), Some("NOPE == \"b\"")),
        Err(PgenError::Query(_))
    ));
    assert!(matches!(filter_metadata(&id_table(), Some("ID == ")), Err(PgenError::Query(_))));
    assert!(matches!(filter_metadata(&id_table(), Some("ID")), Err(PgenError::Query(_))));
}

#[test]
fn builtin_functions_are_not_available_to_expressions() {
    let t = MetadataTable { columns: strings(&["ID"]), rows: vec![strings(&["\u{e9}a"])] };
    assert!(matches!(
        filter_metadata(&t, Some("str::substring(ID, 0, 1) == \"a\"")),
        Err(PgenError::Query(_))
    ));
    assert!(matches!(filter_metadata(&t, Some("shl(1, 64) == 0")), Err(PgenError::Query(_))));
    assert!(matches!(query_lines(&t, None, "str::to_uppercase(ID)"), Err(PgenError::Query(_))));
}

#[test]
fn overlong_expressions_are_refused_before_evaluation() {
    let long = format!("{}ID == \"a\"", " ".repeat(MAX_EXPR_LEN));
    assert!(matches!(filter_metadata(&id_table(), Some(&long)), Err(PgenError::ExpressionTooLong)));
    let empty = MetadataTable { columns: strings(&["ID"]), rows: vec![] };
    assert!(matches!(filter_metadata(&empty, Some(&long)), Err(PgenError::ExpressionTooLong)));
    assert!(matches!(query_lines(&id_table(), None, &long), Err(PgenError::ExpressionTooLong)));
    assert!(matches!(query_lines(&id_table(), Some(&long), "ID"), Err(PgenError::ExpressionTooLong)));
    let data = container(2, 4, &[0, 0]);
    let p = Pfile::from_header("x".to_string(), &data).unwrap();
    assert!(matches!(
        p.output_vcf(PVAR, PSAM, &data, Some(&long), None, 1),
        Err(PgenError::ExpressionTooLong)
    ));
}

#[test]
fn deepest_nesting_within_the_limit_evaluates() {
    let depth = (MAX_EXPR_LEN - 4) / 2;
    let parens = format!("{}true{}", "(".repeat(depth), ")".repeat(depth));
    assert!(parens.len() <= MAX_EXPR_LEN);
    assert_eq!(filter_metadata(&id_table(), Some(&parens)).unwrap().len(), 3);
    let nots = format!("{}true", "!".repeat(MAX_EXPR_LEN - 4));
    assert_eq!(filter_metadata(&id_table(), Some(&nots)).unwrap().len(), 3);
    let ors = format!("ID == \"b\"{}", " || false".repeat((MAX_EXPR_LEN - 10) / 10));
    assert!(ors.len() <= MAX_EXPR_LEN);
    assert_eq!(filter_metadata(&id_table(), Some(&ors)).unwrap().len(), 1);
}

#[test]
fn info_variables_and_raw_info_in_one_filter() {
    let t = MetadataTable {
        columns: strings(&["ID", "INFO"]),
        rows: vec![strings(&["x", "AC=1;FLAG"]), strings(&["y", "AC=2;FLAG"])],
    };
    let kept = filter_metadata(
        &t,
        Some("INFO[AC] == \"2\" && INFO[FLAG] == \"\" && INFO == \"AC=2;FLAG\""),
    )
    .unwrap();
    assert_eq!(kept, vec![(1, strings(&["y", "AC=2;FLAG"]))]);
}

#[test]
fn info_expansion_binds_values_and_flags() {
    let kv = PvarParser::get_info_kv_pairs("AC=2;FLAG");
    assert_eq!(
        kv.entries,
        vec![("AC".to_string(), "2".to_string()), ("FLAG".to_string(), String::new())]
    );
    assert_eq!(kv.get("AC").unwrap(), "2");
    assert_eq!(kv.get("FLAG").unwrap(), "");
    assert!(kv.get("AN").is_none());
}

#[test]
fn info_expansion_edge_cases() {
    let kv = PvarParser::get_info_kv_pairs("AA=.|||;VT=SNP;E=;;X=a=b;AA=2");
    assert_eq!(kv.get("AA").unwrap(), "2");
    assert_eq!(kv.get("VT").unwrap(), "SNP");
    assert_eq!(kv.get("E").unwrap(), "");
    assert_eq!(kv.get("X").unwrap(), "a=b");
    assert_eq!(kv.entries.len(), 5);
    assert!(PvarParser::get_info_kv_pairs("").entries.is_empty());
}

#[test]
fn context_holds_columns_and_info_variables() {
    let cols = strings(&["ID", "INFO"]);
    let row = strings(&["rs1", "AC=2;FLAG"]);
    let ctx = build_context(&cols, &row);
    assert_eq!(ctx.get("ID").unwrap(), "rs1");
    assert_eq!(ctx.get("INFO").unwrap(), "AC=2;FLAG");
    assert_eq!(ctx.get("INFO[AC]").unwrap(), "2");
    assert_eq!(ctx.get("INFO[FLAG]").unwrap(), "");
    let t = MetadataTable { columns: cols, rows: vec![row, strings(&["rs2", "AC=3"])] };
    let kept = filter_metadata(&t, Some("INFO[AC] == \"3\"")).unwrap();
    assert_eq!(kept.len(), 1);
    assert_eq!(kept[0].0, 1);
}

#[test]
fn query_mode_formats_kept_records() {
    let lines = query_lines(&id_table(), Some("ID != \"b\""), "ID").unwrap();
    assert_eq!(lines, strings(&["a", "c"]));
    let lines = query_lines(&id_table(), None, "ID + \"!\"").unwrap();
    assert_eq!(lines, strings(&["a!", "b!", "c!"]));
    assert!(matches!(query_lines(&id_table(), None, "1 == 1"), Err(PgenError::Query(_))));
    let p = Pfile {
        pfile_prefix: "x".to_string(),
        num_variants: 3,
        num_samples: 0,
        storage_mode: 2,
        variant_records_offset: 12,
    };
    assert_eq!(p.query_metadata(&id_table(), Some("ID == \"c\""), "ID").unwrap(), strings(&["c"]));
}

fn container(num_variants: u32, num_samples: u32, records: &[u8]) -> Vec<u8> {
    let mut b = vec![0x6c, 0x1b, 0x02];
    b.extend_from_slice(&num_variants.to_le_bytes());
    b.extend_from_slice(&num_samples.to_le_bytes());
    b.push(0x40);
    b.extend_from_slice(records);
    b
}

const PVAR: &str = "##fileformat=PVAR\n#CHROM\tPOS\tID\tINFO\n1\t10\ta\tAC=1\n1\t20\tb\tAC=2;FLAG\n";
const PSAM: &str = "#IID\tSEX\ns1\t1\ns2\t2\ns3\t1\ns4\t2\n";

#[test]
fn vcf_output_for_all_records() {
    let data = container(2, 4, &[0b1110_0100, 0b0000_0001]);
    let p = Pfile::from_header("x".to_string(), &data).unwrap();
    let out = p.output_vcf(PVAR, PSAM, &data, None, None, 2).unwrap();
    let expected = "##fileformat=VCFv4.2\n##source=pgen-rs\n##fileformat=PVAR\n\
                    #CHROM\tPOS\tID\tINFO\tFORMAT\ts1\ts2\ts3\ts4\n\
                    1\t10\ta\tAC=1\tGT\t0/0\t0/1\t1/1\t./.\n\
                    1\t20\tb\tAC=2;FLAG\tGT\t0/1\t0/0\t0/0\t0/0\n";
    assert_eq!(out, expected);
}

#[test]
fn vcf_output_with_filters() {
    let data = container(2, 4, &[0b1110_0100, 0b0000_0001]);
    let p = Pfile::from_header("x".to_string(), &data).unwrap();
    let out = p
        .output_vcf(PVAR, PSAM, &data, Some("SEX == \"1\""), Some("INFO[AC] == \"2\""), 1)
        .unwrap();
    let expected = "##fileformat=VCFv4.2\n##source=pgen-rs\n##fileformat=PVAR\n\
                    #CHROM\tPOS\tID\tINFO\tFORMAT\ts1\ts3\n\
                    1\t20\tb\tAC=2;FLAG\tGT\t0/1\t0/0\n";
    assert_eq!(out, expected);
}

#[test]
fn vcf_output_trims_the_column_header_line() {
    let data = container(1, 1, &[0x02]);
    let p = Pfile::from_header("x".to_string(), &data).unwrap();
    let pvar = "##c\n#ID \r\na\n";
    let out = p.output_vcf(pvar, "#IID\ns1\n", &data, None, None, 1).unwrap();
    assert_eq!(
        out,
        "##fileformat=VCFv4.2\n##source=pgen-rs\n##c\n#ID\tFORMAT\ts1\na\tGT\t1/1\n"
    );
}

#[test]
fn vcf_output_needs_the_sample_identity_column() {
    let data = container(2, 4, &[0, 0]);
    let p = Pfile::from_header("data/x".to_string(), &data).unwrap();
    match p.output_vcf(PVAR, "#ID\tSEX\ns1\t1\n", &data, None, None, 1) {
        Err(PgenError::Schema { column, file }) => {
            assert_eq!(column, "IID");
            assert_eq!(file, "data/x.psam");
        }
        other => panic!("expected a schema error, got {:?}", other.map(|_| ())),
    }
}

#[test]
fn vcf_output_genotypes_are_checked_against_the_container() {
    let data = container(2, 4, &[0xe4]);
    let p = Pfile::from_header("x".to_string(), &data).unwrap();
    assert!(matches!(
        p.output_vcf(PVAR, PSAM, &data, None, None, 4),
        Err(PgenError::Io(pgen_rs::error::IoFault::UnexpectedEof))
    ));
    let calls = p.read_genotypes(&data, &vec![0], &vec![3], 1).unwrap();
    assert_eq!(calls, vec![vec![GenotypeCall::Missing]]);
}
