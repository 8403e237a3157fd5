use gelf_mover::gelf::reader::GelfReader;

#[test]
fn reader_writes_the_object_back() {
    let reader = GelfReader::from_slice(b" { \"b\" : [1, 2.5, null], \"a\" : {\"x\": \"y\"} } ").unwrap();
    assert_eq!(reader.to_string(), "{\"a\":{\"x\":\"y\"},\"b\":[1,2.5,null]}");
}

#[test]
fn reader_reads_text_as_it_reads_bytes() {
    let text = "{\"host\":\"h\",\"level\":1}";
    let from_text = GelfReader::from_str(text).unwrap();
    let from_bytes = GelfReader::from_slice(text.as_bytes()).unwrap();
    assert_eq!(from_text.to_string(), from_bytes.to_string());
    assert_eq!(from_text.to_string(), text);
}

#[test]
fn reader_refuses_what_is_no_object() {
    assert!(GelfReader::from_slice(b"[1]").is_err());
    assert!(GelfReader::from_slice(b"").is_err());
    assert!(GelfReader::from_str("{\"a\":}").is_err());
    assert!(GelfReader::from_str("true").is_err());
}
