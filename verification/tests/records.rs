use moviedb_loader::records::{read_encoded_records, Record};

fn fields(values: &[&str]) -> Record {
    Some(values.iter().map(|v| v.to_string()).collect())
}

#[test]
fn header_is_not_among_the_records() {
    let records = read_encoded_records(b"id,first,last\n12,Jane,Doe\n", b',').unwrap();
    assert_eq!(records, vec![fields(&["12", "Jane", "Doe"])]);
}

#[test]
fn a_source_with_only_a_header_has_no_records() {
    assert_eq!(read_encoded_records(b"id,first,last\n", b',').unwrap(), Vec::<Record>::new());
    assert_eq!(read_encoded_records(b"", b',').unwrap(), Vec::<Record>::new());
}

#[test]
fn bytes_are_read_as_iso_8859_10() {
    let source = b"id,first,last\n1,Bj\xF6rn,\xC5kesson\n2,\xA1nna,S\xF8rensen\n";
    let records = read_encoded_records(source, b',').unwrap();
    assert_eq!(
        records,
        vec![fields(&["1", "Björn", "Åkesson"]), fields(&["2", "Ąnna", "Sørensen"])]
    );
}

#[test]
fn a_record_of_another_length_is_malformed_and_reading_goes_on() {
    let source = b"id,first,last\n1,A,B\n2,C\n3,D,E,F\n4,G,H\n";
    let records = read_encoded_records(source, b',').unwrap();
    assert_eq!(records, vec![fields(&["1", "A", "B"]), None, None, fields(&["4", "G", "H"])]);
}

#[test]
fn quoted_fields_may_hold_the_delimiter() {
    let source = b"pid,mid,role\n77,500,\"Cobb, the extractor\"\n";
    let records = read_encoded_records(source, b',').unwrap();
    assert_eq!(records, vec![fields(&["77", "500", "Cobb, the extractor"])]);
}

#[test]
fn the_delimiter_is_the_one_given() {
    let records = read_encoded_records(b"id;first;last\n12;Jane;Doe\n", b';').unwrap();
    assert_eq!(records, vec![fields(&["12", "Jane", "Doe"])]);
    let records = read_encoded_records(b"id;first;last\n12;Jane;Doe\n", b',').unwrap();
    assert_eq!(records, vec![fields(&["12;Jane;Doe"])]);
}
