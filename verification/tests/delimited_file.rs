use martian::{
    extension_of, read_rows, round_trip_check, round_trip_rows, rows_from_records, same_records,
    write_rows, CommaDelimiter, Csv,
    CsvFile, CsvFormat, DelimitedError, DelimitedFormat, Delimiter, FileTypeIO, MartianFileType,
    Record, TabDelimiter, Tsv, TsvFile,
};

fn cell(barcode: &str, genome: &str) -> Record {
    Record::new(&[("barcode", barcode), ("genome", genome)])
}

fn cells() -> Vec<Record> {
    vec![cell("ACGT", "hg19"), cell("TCAT", "mm10")]
}

#[test]
fn test_csv_write() {
    let bytes = CsvFile::write_into(&cells()).unwrap();
    assert_eq!(String::from_utf8(bytes).unwrap(), "barcode,genome\nACGT,hg19\nTCAT,mm10\n");
}

#[test]
fn test_tsv_write() {
    let bytes = TsvFile::write_into(&cells()).unwrap();
    assert_eq!(String::from_utf8(bytes).unwrap(), "barcode\tgenome\nACGT\thg19\nTCAT\tmm10\n");
}

#[test]
fn test_round_trip() {
    assert!(round_trip_check::<CsvFile>(&cells()).unwrap());
    assert!(round_trip_check::<TsvFile>(&cells()).unwrap());
}

#[test]
fn round_trip_of_no_record() {
    assert_eq!(CsvFile::write_into(&vec![]).unwrap(), Vec::<u8>::new());
    assert!(CsvFile::read_from(b"").unwrap().is_empty());
    assert!(round_trip_check::<CsvFile>(&vec![]).unwrap());
    assert!(round_trip_check::<TsvFile>(&vec![]).unwrap());
}

#[test]
fn round_trip_of_values_that_need_quotes() {
    let rows = vec![
        Record::new(&[("name", "a,b"), ("note", "say \"hi\"")]),
        Record::new(&[("name", "two\nlines"), ("note", "")]),
        Record::new(&[("name", "tab\there"), ("note", " \u{e9}t\u{e9} ")]),
    ];
    assert!(round_trip_check::<CsvFile>(&rows).unwrap());
    assert!(round_trip_check::<TsvFile>(&rows).unwrap());
    let bytes = CsvFile::write_into(&rows).unwrap();
    assert!(String::from_utf8(bytes).unwrap().starts_with("name,note\n\"a,b\",\"say \"\"hi\"\"\"\n"));
}

#[test]
fn read_gives_the_records_under_the_names_of_the_header() {
    let rows = CsvFile::read_from(b"barcode,genome\nACGT,hg19\nTCAT,mm10\n").unwrap();
    assert!(same_records(&rows, &cells()));
    assert_eq!(rows.len(), 2);
    assert_eq!(rows[1].names(), vec!["barcode", "genome"]);
    assert_eq!(rows[1].values(), vec!["TCAT", "mm10"]);
    // The delimiter decides where a value ends.
    let rows = TsvFile::read_from(b"barcode,genome\nACGT,hg19\n").unwrap();
    assert_eq!(rows[0].names(), vec!["barcode,genome"]);
    assert_eq!(rows[0].values(), vec!["ACGT,hg19"]);
}

#[test]
fn a_header_alone_holds_no_record() {
    assert!(CsvFile::read_from(b"barcode,genome\n").unwrap().is_empty());
}

#[test]
fn records_of_other_names_are_not_written() {
    let rows = vec![cell("ACGT", "hg19"), Record::new(&[("barcode", "TCAT"), ("species", "mouse")])];
    assert_eq!(CsvFile::write_into(&rows), Err(DelimitedError::FieldNames { row: 1 }));
    assert_eq!(round_trip_check::<CsvFile>(&rows), Err(DelimitedError::FieldNames { row: 1 }));
    let rows = vec![cell("ACGT", "hg19"), Record::new(&[("barcode", "TCAT")])];
    assert_eq!(CsvFile::write_into(&rows), Err(DelimitedError::FieldNames { row: 1 }));
}

#[test]
fn without_header_only_the_number_of_values_counts() {
    let rows = vec![cell("ACGT", "hg19"), Record::new(&[("x", "TCAT"), ("y", "mm10")])];
    let bytes = write_rows(b';', false, &rows).unwrap();
    assert_eq!(String::from_utf8(bytes).unwrap(), "ACGT;hg19\nTCAT;mm10\n");
    let short = vec![cell("ACGT", "hg19"), Record::new(&[("x", "TCAT")])];
    assert_eq!(
        write_rows(b';', false, &short),
        Err(DelimitedError::UnequalLengths { row: 1, expected: 2, found: 1 })
    );
    let back = read_rows(b';', false, b"ACGT;hg19\nTCAT;mm10\n").unwrap();
    assert_eq!(back.len(), 2);
    assert_eq!(back[0].names(), vec!["", ""]);
    assert_eq!(back[0].values(), vec!["ACGT", "hg19"]);
    assert!(same_records(&back, &vec![Record::new(&[("", "ACGT"), ("", "hg19")]), Record::new(&[("", "TCAT"), ("", "mm10")])]));
}

#[test]
fn bytes_that_are_no_records_are_refused() {
    assert_eq!(CsvFile::read_from(b"a,b\n1,2,3\n"), Err(DelimitedError::Decode));
    assert_eq!(CsvFile::read_from(b"a,b\n\xff,2\n"), Err(DelimitedError::Decode));
}

fn line(values: &[&str]) -> Vec<String> {
    values.iter().map(|v| v.to_string()).collect()
}

#[test]
fn lines_become_records() {
    let lines = vec![line(&["a", "b"]), line(&["1", "2"]), line(&["3", "4"])];
    let with_header = rows_from_records(true, &lines).unwrap();
    assert!(same_records(
        &with_header,
        &vec![Record::new(&[("a", "1"), ("b", "2")]), Record::new(&[("a", "3"), ("b", "4")])]
    ));
    let without = rows_from_records(false, &lines).unwrap();
    assert_eq!(without.len(), 3);
    assert_eq!(without[0].values(), vec!["a", "b"]);
    assert!(rows_from_records(true, &vec![]).unwrap().is_empty());
    let ragged = vec![line(&["a", "b"]), line(&["1", "2"]), line(&["3"])];
    assert_eq!(
        rows_from_records(true, &ragged),
        Err(DelimitedError::UnequalLengths { row: 1, expected: 2, found: 1 })
    );
    assert_eq!(
        rows_from_records(false, &ragged),
        Err(DelimitedError::UnequalLengths { row: 2, expected: 2, found: 1 })
    );
}

#[test]
fn records_are_compared_by_names_and_values() {
    assert!(same_records(&cells(), &cells()));
    assert!(!same_records(&cells(), &vec![cell("ACGT", "hg19")]));
    assert!(!same_records(&cells(), &vec![cell("ACGT", "hg19"), cell("TCAT", "mm9")]));
    assert!(cell("A", "b").same_as(&cell("A", "b")));
    assert!(!cell("A", "b").same_as(&Record::new(&[("barcode", "A"), ("other", "b")])));
    assert!(cell("A", "b").same_names(&cell("C", "d")));
}

#[test]
fn delimiters_name_their_formats() {
    assert_eq!(CommaDelimiter::delimiter(), b',');
    assert_eq!(CommaDelimiter::format(), "csv");
    assert!(CommaDelimiter::header());
    assert_eq!(TabDelimiter::delimiter(), b'\t');
    assert_eq!(TabDelimiter::format(), "tsv");
    assert!(TabDelimiter::header());
}

/// A format without an extension of its own.
#[derive(Debug)]
struct Plain;

impl Delimiter for Plain {
    fn delimiter() -> u8 {
        b' '
    }
    fn format() -> String {
        String::new()
    }
    fn header() -> bool {
        false
    }
}

#[test]
fn extension_is_that_of_the_kind_and_the_format() {
    assert_eq!(Csv::extension(), "csv");
    assert_eq!(Tsv::extension(), "tsv");
    assert_eq!(CsvFile::extension(), "csv");
    assert_eq!(TsvFile::extension(), "tsv");
    assert_eq!(<CsvFormat<Tsv>>::extension(), "tsv.csv");
    assert_eq!(<DelimitedFormat<Tsv, TabDelimiter>>::extension(), "tsv");
    assert_eq!(<DelimitedFormat<Csv, Plain>>::extension(), "csv");
}

#[test]
fn a_format_of_the_caller_is_read_and_written() {
    let rows = vec![Record::new(&[("", "1"), ("", "two words")])];
    let bytes = <DelimitedFormat<Csv, Plain>>::write_into(&rows).unwrap();
    assert_eq!(String::from_utf8(bytes).unwrap(), "1 \"two words\"\n");
    assert!(round_trip_check::<DelimitedFormat<Csv, Plain>>(&rows).unwrap());
}

#[test]
fn new_file_has_its_extension() {
    assert_eq!(CsvFile::new("/some/dir", "test").as_ref(), "/some/dir/test.csv");
    assert_eq!(CsvFile::new("/some/dir/", "test.csv").as_ref(), "/some/dir/test.csv");
    assert_eq!(TsvFile::new("", "cells").as_ref(), "cells.tsv");
    assert_eq!(<CsvFormat<Tsv>>::new("out", "cells").as_ref(), "out/cells.tsv.csv");
    assert_eq!(Csv::new("out", "/abs/cells").as_ref(), "/abs/cells.csv");
    assert_eq!(<DelimitedFormat<Csv, Plain>>::new("out", "x.tsv").as_ref(), "out/x.tsv.csv");
}

#[test]
fn round_trip_with_any_delimiter() {
    for delimiter in [b',', b'\t', b';', b'|', b' '] {
        for header in [true, false] {
            let rows = if header {
                cells()
            } else {
                vec![Record::new(&[("", "a b"), ("", "c;d")]), Record::new(&[("", "|"), ("", "")])]
            };
            assert_eq!(round_trip_rows(delimiter, header, &rows), Ok(true));
            assert_eq!(round_trip_rows(delimiter, header, &vec![]), Ok(true));
        }
    }
    // Without a header the names are not written, so they do not come back.
    assert_eq!(round_trip_rows(b',', false, &cells()), Ok(false));
    let ragged = vec![cell("A", "b"), Record::new(&[("barcode", "A")])];
    assert_eq!(round_trip_rows(b',', true, &ragged), Err(DelimitedError::FieldNames { row: 1 }));
}

#[test]
fn extension_of_a_kind_in_a_format() {
    assert_eq!(extension_of("csv".to_string(), "csv"), "csv");
    assert_eq!(extension_of("cells.csv".to_string(), "csv"), "cells.csv");
    assert_eq!(extension_of("tsv".to_string(), "csv"), "tsv.csv");
    assert_eq!(extension_of("tsv".to_string(), ""), "tsv");
    assert_eq!(extension_of("".to_string(), "csv"), ".csv");
}

/// A format that says nothing of a header.
#[derive(Debug)]
struct Semicolon;

impl Delimiter for Semicolon {
    fn delimiter() -> u8 {
        b';'
    }
    fn format() -> String {
        "ssv".to_string()
    }
}

#[test]
fn a_format_has_a_header_unless_it_says_otherwise() {
    assert!(Semicolon::header());
    assert!(!Plain::header());
    let bytes = <DelimitedFormat<Csv, Semicolon>>::write_into(&cells()).unwrap();
    assert_eq!(String::from_utf8(bytes).unwrap(), "barcode;genome\nACGT;hg19\nTCAT;mm10\n");
    assert_eq!(<DelimitedFormat<Csv, Semicolon>>::extension(), "csv.ssv");
    assert!(round_trip_check::<DelimitedFormat<Csv, Semicolon>>(&cells()).unwrap());
}
