use pgen_rs::error::{IoFault, PgenError};
use pgen_rs::table::{find_metadata_file_header_start, read_pvar_header, MetadataTable};

fn chars(s: &str) -> Vec<char> {
    s.chars().collect()
}

#[test]
fn header_found_without_comment_lines() {
    let t = "#IID\tSEX\ns1\t1\n";
    assert_eq!(find_metadata_file_header_start(&chars(t)), Ok(1));
    let m = MetadataTable::from_text(t).unwrap();
    assert_eq!(m.columns, vec!["IID", "SEX"]);
    assert_eq!(m.rows, vec![vec!["s1", "1"]]);
}

#[test]
fn header_found_after_one_comment_line() {
    let t = "##fileformat=PVAR\n#CHROM\tID\n1\ta\n";
    assert_eq!(find_metadata_file_header_start(&chars(t)), Ok(19));
    let m = MetadataTable::from_text(t).unwrap();
    assert_eq!(m.columns, vec!["CHROM", "ID"]);
    assert_eq!(m.rows, vec![vec!["1", "a"]]);
}

#[test]
fn header_found_after_many_comment_lines() {
    let t = "##a\n##b\n##c\n#CHROM\tPOS\tID\n1\t10\tx\n2\t20\ty\n";
    assert_eq!(find_metadata_file_header_start(&chars(t)), Ok(13));
    let m = MetadataTable::from_text(t).unwrap();
    assert_eq!(m.columns, vec!["CHROM", "POS", "ID"]);
    assert_eq!(m.rows, vec![vec!["1", "10", "x"], vec!["2", "20", "y"]]);
}

#[test]
fn only_comment_lines_is_an_io_error() {
    assert_eq!(
        find_metadata_file_header_start(&chars("##a\n#CHROM\tID\n")),
        Err(IoFault::UnexpectedEof)
    );
    assert_eq!(find_metadata_file_header_start(&chars("##a\n#CHROM")), Err(IoFault::UnexpectedEof));
    assert_eq!(find_metadata_file_header_start(&chars("")), Err(IoFault::UnexpectedEof));
    assert!(matches!(
        MetadataTable::from_text("##a\n#CHROM\tID\n"),
        Err(PgenError::Io(IoFault::UnexpectedEof))
    ));
}

#[test]
fn table_without_header_line_is_refused() {
    assert_eq!(find_metadata_file_header_start(&chars("1\ta\n")), Err(IoFault::MissingHeader));
    assert!(matches!(
        MetadataTable::from_text("1\ta\n"),
        Err(PgenError::Io(IoFault::MissingHeader))
    ));
}

#[test]
fn ragged_records_are_refused_by_the_reader() {
    assert!(matches!(
        MetadataTable::from_text("#A\tB\n1\t2\n3\n"),
        Err(PgenError::Table(_))
    ));
}

#[test]
fn pvar_header_splits_comments_and_column_line() {
    let t = "##fileformat=PVAR\n##INFO=<ID=AC>\n#CHROM\tID\r\n1\ta\n";
    let (comments, header) = read_pvar_header(t).unwrap();
    assert_eq!(comments, "##fileformat=PVAR\n##INFO=<ID=AC>\n");
    assert_eq!(header, "#CHROM\tID\r\n");
    let (comments, header) = read_pvar_header("#ID\na\n").unwrap();
    assert_eq!(comments, "");
    assert_eq!(header, "#ID\n");
}

#[test]
fn pvar_header_may_be_the_last_line() {
    let (comments, header) = read_pvar_header("##a\n#ID\n").unwrap();
    assert_eq!(comments, "##a\n");
    assert_eq!(header, "#ID\n");
    let (comments, header) = read_pvar_header("##a\n#ID").unwrap();
    assert_eq!(comments, "##a\n");
    assert_eq!(header, "#ID");
    assert_eq!(read_pvar_header(""), Err(IoFault::UnexpectedEof));
    assert_eq!(read_pvar_header("1\ta\n"), Err(IoFault::MissingHeader));
}
