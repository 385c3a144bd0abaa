use batch_uploader::dataset::Dataset;
use batch_uploader::error::SourceError;
use batch_uploader::file_type::FileType;
use batch_uploader::record::{Number, Record};

fn text(s: &str) -> Record {
    Record::String(s.to_string())
}

fn num(n: u64) -> Record {
    Record::Number(Number::PosInt(n))
}

fn object(members: Vec<(&str, Record)>) -> Record {
    Record::Object(members.into_iter().map(|(k, v)| (k.to_string(), v)).collect())
}

fn json_source(records: u64) -> Dataset {
    let mut content = String::new();
    for i in 0..records {
        content.push_str(&format!("{}\n", i));
    }
    Dataset::new(content.into_bytes(), FileType::JSON).unwrap()
}

fn batch_sizes(records: u64, batch_size: u32) -> Vec<usize> {
    let mut dataset = json_source(records);
    let mut sizes = Vec::new();
    let mut expected: u64 = 0;
    while let Some(batch) = dataset.next_batch(batch_size).unwrap() {
        for record in &batch {
            assert_eq!(record, &num(expected));
            expected += 1;
        }
        sizes.push(batch.len());
    }
    assert_eq!(expected, records);
    for _ in 0..3 {
        assert_eq!(dataset.next_batch(batch_size), Ok(None));
        assert_eq!(dataset.next_line(), Ok(None));
    }
    sizes
}

#[test]
fn batches_are_full_but_the_last() {
    assert_eq!(batch_sizes(5, 2), vec![2, 2, 1]);
    assert_eq!(batch_sizes(7, 3), vec![3, 3, 1]);
    assert_eq!(batch_sizes(8, 3), vec![3, 3, 2]);
}

#[test]
fn the_last_batch_is_full_where_the_batch_size_divides_the_records() {
    assert_eq!(batch_sizes(6, 2), vec![2, 2, 2]);
    assert_eq!(batch_sizes(3, 3), vec![3]);
    assert_eq!(batch_sizes(4, 1), vec![1, 1, 1, 1]);
}

#[test]
fn one_batch_holds_a_source_smaller_than_the_batch_size() {
    assert_eq!(batch_sizes(2, 5), vec![2]);
    assert_eq!(batch_sizes(1, u32::MAX), vec![1]);
}

#[test]
fn a_source_without_records_yields_no_batch() {
    assert_eq!(batch_sizes(0, 4), Vec::<usize>::new());
    let mut dataset = Dataset::new(Vec::new(), FileType::JSON).unwrap();
    assert_eq!(dataset.next_batch(1), Ok(None));
    assert_eq!(dataset.next_line(), Ok(None));
}

#[test]
fn a_pull_of_no_records_reads_nothing() {
    let mut dataset = json_source(2);
    assert_eq!(dataset.next_batch(0), Ok(None));
    assert_eq!(dataset.next_batch(0), Ok(None));
    assert_eq!(dataset.next_batch(5), Ok(Some(vec![num(0), num(1)])));
}

#[test]
fn lines_are_read_one_by_one() {
    let content = b"{\"a\": 1}\r\n[2]\n\"last\"".to_vec();
    let mut dataset = Dataset::new(content, FileType::JSON).unwrap();
    assert_eq!(dataset.next_line(), Ok(Some(object(vec![("a", num(1))]))));
    assert_eq!(dataset.next_line(), Ok(Some(Record::Array(vec![num(2)]))));
    assert_eq!(dataset.next_line(), Ok(Some(text("last"))));
    assert_eq!(dataset.next_line(), Ok(None));
    assert_eq!(dataset.next_line(), Ok(None));
}

#[test]
fn a_null_line_is_a_record() {
    let mut dataset = Dataset::new(b"null\n1\n".to_vec(), FileType::JSON).unwrap();
    assert_eq!(dataset.next_line(), Ok(Some(Record::Null)));
    assert_eq!(dataset.next_line(), Ok(Some(num(1))));
    assert_eq!(dataset.next_line(), Ok(None));
}

#[test]
fn a_malformed_line_ends_the_pull_and_is_consumed() {
    let content = b"1\n2\nnot json\n4\n5\n".to_vec();
    let mut dataset = Dataset::new(content, FileType::JSON).unwrap();
    assert_eq!(dataset.next_batch(4), Err(SourceError::MalformedJson));
    assert_eq!(dataset.next_batch(4), Ok(Some(vec![num(4), num(5)])));
    assert_eq!(dataset.next_batch(4), Ok(None));
}

#[test]
fn a_malformed_line_beyond_the_batch_does_not_fail_it() {
    let content = b"1\n2\nnot json\n".to_vec();
    let mut dataset = Dataset::new(content, FileType::JSON).unwrap();
    assert_eq!(dataset.next_batch(2), Ok(Some(vec![num(1), num(2)])));
    assert_eq!(dataset.next_batch(2), Err(SourceError::MalformedJson));
    assert_eq!(dataset.next_batch(2), Ok(None));
}

#[test]
fn an_empty_line_of_a_json_source_is_malformed() {
    let mut dataset = Dataset::new(b"1\n\n2\n".to_vec(), FileType::JSON).unwrap();
    assert_eq!(dataset.next_line(), Ok(Some(num(1))));
    assert_eq!(dataset.next_line(), Err(SourceError::MalformedJson));
    assert_eq!(dataset.next_line(), Ok(Some(num(2))));
    assert_eq!(dataset.next_line(), Ok(None));
}

#[test]
fn a_line_that_is_no_text_is_refused() {
    let mut content = b"1\n".to_vec();
    content.extend_from_slice(&[0xff, 0xfe, b'\n']);
    content.extend_from_slice(b"3\n");
    let mut dataset = Dataset::new(content, FileType::JSON).unwrap();
    assert_eq!(dataset.next_line(), Ok(Some(num(1))));
    assert_eq!(dataset.next_line(), Err(SourceError::InvalidText));
    assert_eq!(dataset.next_line(), Ok(Some(num(3))));
    assert_eq!(dataset.next_line(), Ok(None));
}

#[test]
fn text_beyond_ascii_is_read() {
    let mut dataset = Dataset::new("\"é€😀\"\n".as_bytes().to_vec(), FileType::JSON).unwrap();
    assert_eq!(dataset.next_line(), Ok(Some(text("é€😀"))));
}

#[test]
fn a_csv_source_decodes_its_rows_under_the_header() {
    let content = b"a,b\n1,2\nx,y\n".to_vec();
    let mut dataset = Dataset::new(content, FileType::CSV).unwrap();
    assert_eq!(
        dataset.next_batch(10),
        Ok(Some(vec![
            object(vec![("a", text("1")), ("b", text("2"))]),
            object(vec![("a", text("x")), ("b", text("y"))]),
        ]))
    );
    assert_eq!(dataset.next_batch(10), Ok(None));
}

#[test]
fn a_csv_source_with_a_header_only_has_no_records() {
    let mut dataset = Dataset::new(b"a,b\r\n".to_vec(), FileType::CSV).unwrap();
    assert_eq!(dataset.next_batch(3), Ok(None));
    let mut dataset = Dataset::new(b"a,b".to_vec(), FileType::CSV).unwrap();
    assert_eq!(dataset.next_line(), Ok(None));
}

#[test]
fn a_csv_source_without_a_header_cannot_be_opened() {
    assert!(matches!(Dataset::new(Vec::new(), FileType::CSV), Err(SourceError::MissingHeader)));
}

#[test]
fn a_csv_header_that_is_no_text_is_refused() {
    let content = vec![0xc3, 0x28, b'\n', b'1', b'\n'];
    assert!(matches!(Dataset::new(content, FileType::CSV), Err(SourceError::InvalidText)));
}

#[test]
fn a_csv_row_that_does_not_fit_the_header_fails_the_batch() {
    let content = b"a,b\n1,2\n3\n4,5\n".to_vec();
    let mut dataset = Dataset::new(content, FileType::CSV).unwrap();
    assert_eq!(dataset.next_batch(5), Err(SourceError::MalformedCsv));
    assert_eq!(
        dataset.next_batch(5),
        Ok(Some(vec![object(vec![("a", text("4")), ("b", text("5"))])]))
    );
}

#[test]
fn an_empty_line_of_a_csv_source_holds_no_row() {
    let mut dataset = Dataset::new(b"a\n\n1\n".to_vec(), FileType::CSV).unwrap();
    assert_eq!(dataset.next_line(), Err(SourceError::MissingRow));
    assert_eq!(dataset.next_line(), Ok(Some(object(vec![("a", text("1"))]))));
}

#[test]
fn a_parquet_source_cannot_be_opened() {
    assert!(matches!(
        Dataset::new(b"anything".to_vec(), FileType::PARQUET),
        Err(SourceError::UnsupportedFormat)
    ));
}
