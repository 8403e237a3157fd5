use gelf_mover::gelf::gelf_reader::{
    to_gelf, Field, GelfDataWrapper, GelfLevel, GelfMessage, GelfReaderActor, ParseError,
};
use serde_json::Value;

fn fields(text: &str) -> Vec<(String, Value)> {
    let object: serde_json::Map<String, Value> = serde_json::from_str(text).unwrap();
    object.into_iter().collect()
}

const EVENT: &[u8] = br#"{
    "version":"1.1",
    "host":"example.org",
    "short_message":"A short message",
    "level":5,
    "_some_info":"foo",
    "timestamp":1582213226
}"#;

#[test]
fn reads_the_required_fields() {
    let gelf = GelfDataWrapper::from_slice(EVENT).unwrap().into_gelf();
    assert_eq!(gelf.host, "example.org");
    assert_eq!(gelf.short_message, "A short message");
    assert_eq!(gelf.version, "1.1");
    assert_eq!(gelf.level, GelfLevel::Notice);
    assert_eq!(f64::from_bits(gelf.timestamp.bits), 1582213226.0);
    assert_eq!(gelf.meta.len(), 1);
    assert_eq!(gelf.meta[0].0, "some_info");
    assert_eq!(gelf.meta[0].1.as_str(), Some("foo"));
    assert!(gelf.mechanism_data.is_empty());
}

#[test]
fn reader_worker_parses_a_message() {
    let mut reader = GelfReaderActor;
    let gelf = reader.handle(GelfMessage(EVENT.to_vec())).unwrap().into_gelf();
    assert_eq!(gelf.host, "example.org");
}

#[test]
fn fractional_timestamp_is_kept_exactly() {
    let gelf = GelfDataWrapper::from_slice(
        br#"{"version":"1.1","host":"h","short_message":"m","level":0,"timestamp":1385053862.3072}"#,
    )
    .unwrap()
    .into_gelf();
    assert_eq!(f64::from_bits(gelf.timestamp.bits), 1385053862.3072);
    assert_eq!(gelf.level, GelfLevel::Emergency);
}

#[test]
fn every_level_from_0_to_7_is_read() {
    let levels = [
        GelfLevel::Emergency,
        GelfLevel::Alert,
        GelfLevel::Critical,
        GelfLevel::Error,
        GelfLevel::Warning,
        GelfLevel::Notice,
        GelfLevel::Informational,
        GelfLevel::Debug,
    ];
    for (n, level) in levels.iter().enumerate() {
        let text = format!(
            "{{\"version\":\"1.1\",\"host\":\"h\",\"short_message\":\"m\",\"level\":{},\"timestamp\":1}}",
            n
        );
        let gelf = GelfDataWrapper::from_slice(text.as_bytes()).unwrap().into_gelf();
        assert_eq!(gelf.level, *level);
        assert_eq!(GelfLevel::from_str(&n.to_string()).unwrap(), *level);
    }
}

#[test]
fn level_must_be_an_integer_from_0_to_7() {
    for level in ["8", "-1", "\"5\"", "5.0", "null", "[5]", "true", "55", "1e0"] {
        let text = format!(
            "{{\"version\":\"1.1\",\"host\":\"h\",\"short_message\":\"m\",\"level\":{},\"timestamp\":1}}",
            level
        );
        assert!(matches!(
            GelfDataWrapper::from_slice(text.as_bytes()),
            Err(ParseError::InvalidLevel)
        ));
    }
    assert!(matches!(GelfLevel::from_str(""), Err(ParseError::InvalidLevel)));
    assert!(matches!(GelfLevel::from_str("8"), Err(ParseError::InvalidLevel)));
    assert!(matches!(GelfLevel::from_str("07"), Err(ParseError::InvalidLevel)));
    assert!(matches!(GelfLevel::from_str("x"), Err(ParseError::InvalidLevel)));
}

#[test]
fn timestamp_must_be_a_number() {
    for timestamp in ["\"1582213226\"", "null", "[1]", "{}", "false"] {
        let text = format!(
            "{{\"version\":\"1.1\",\"host\":\"h\",\"short_message\":\"m\",\"level\":1,\"timestamp\":{}}}",
            timestamp
        );
        assert!(matches!(
            GelfDataWrapper::from_slice(text.as_bytes()),
            Err(ParseError::InvalidTimestamp)
        ));
    }
}

#[test]
fn missing_host() {
    let r = GelfDataWrapper::from_slice(
        br#"{"version":"1.1","short_message":"m","level":5,"timestamp":1582213226}"#,
    );
    assert!(matches!(r, Err(ParseError::MissingField(Field::Host))));
    assert_eq!(Field::Host.name(), "host");
}

#[test]
fn each_missing_field_is_named() {
    let all = [
        ("host", "\"h\"", Field::Host),
        ("level", "5", Field::Level),
        ("short_message", "\"m\"", Field::ShortMessage),
        ("timestamp", "1", Field::Timestamp),
        ("version", "\"1.1\"", Field::Version),
    ];
    for (missing, _, field) in all.iter() {
        let members: Vec<String> = all
            .iter()
            .filter(|(key, _, _)| key != missing)
            .map(|(key, value, _)| format!("\"{}\":{}", key, value))
            .collect();
        let text = format!("{{{}}}", members.join(","));
        match GelfDataWrapper::from_slice(text.as_bytes()) {
            Err(ParseError::MissingField(f)) => {
                assert_eq!(f, *field);
                assert_eq!(f.name(), *missing);
            }
            other => panic!("{:?}", other),
        }
    }
}

#[test]
fn errors_come_in_the_order_of_the_fields() {
    assert!(matches!(to_gelf(Vec::new()), Err(ParseError::MissingField(Field::Host))));
    assert!(matches!(
        to_gelf(fields(r#"{"host":"h","level":9}"#)),
        Err(ParseError::InvalidLevel)
    ));
    assert!(matches!(
        to_gelf(fields(r#"{"host":"h","level":1,"timestamp":"x"}"#)),
        Err(ParseError::MissingField(Field::ShortMessage))
    ));
    assert!(matches!(
        to_gelf(fields(r#"{"host":"h","level":1,"short_message":"m","timestamp":"x"}"#)),
        Err(ParseError::InvalidTimestamp)
    ));
    assert!(matches!(
        to_gelf(fields(r#"{"host":"h","level":1,"short_message":"m","timestamp":2}"#)),
        Err(ParseError::MissingField(Field::Version))
    ));
}

#[test]
fn bytes_that_are_no_json_object() {
    for text in ["", "not json", "[1,2]", "\"text\"", "{\"host\":", "{} trailing", "5"] {
        assert!(matches!(
            GelfDataWrapper::from_slice(text.as_bytes()),
            Err(ParseError::Json(_))
        ));
    }
    assert!(matches!(GelfDataWrapper::from_slice(&[0xFF, 0xFE]), Err(ParseError::Json(_))));
}

#[test]
fn extras_are_split_into_meta_and_mechanism() {
    let gelf = to_gelf(fields(
        r#"{"_b":1,"_a":[true],"host":"h","level":3,"short_message":"m","timestamp":0.5,
            "version":"1.1","full_message":"long","facility":"f","_":null,"":"empty","__x":2,
            "_host":"meta host"}"#,
    ))
    .unwrap();
    let meta: Vec<&str> = gelf.meta.iter().map(|(k, _)| k.as_str()).collect();
    let mechanism: Vec<&str> = gelf.mechanism_data.iter().map(|(k, _)| k.as_str()).collect();
    assert_eq!(meta, vec!["", "_x", "a", "b", "host"]);
    assert_eq!(mechanism, vec!["", "facility", "full_message"]);
    assert_eq!(gelf.meta[0].1, Value::Null);
    assert_eq!(gelf.meta[1].1.as_u64(), Some(2));
    assert_eq!(gelf.meta[2].1.to_string(), "[true]");
    assert_eq!(gelf.meta[4].1.as_str(), Some("meta host"));
    assert_eq!(gelf.mechanism_data[0].1.as_str(), Some("empty"));
    assert_eq!(gelf.mechanism_data[2].1.as_str(), Some("long"));
    assert_eq!(gelf.host, "h");
}

#[test]
fn order_of_the_members_is_kept() {
    let data = vec![
        ("_z".to_string(), Value::from(1)),
        ("zeta".to_string(), Value::from(2)),
        ("host".to_string(), Value::from("h")),
        ("_a".to_string(), Value::from(3)),
        ("level".to_string(), Value::from(7)),
        ("alpha".to_string(), Value::from(4)),
        ("short_message".to_string(), Value::from("m")),
        ("timestamp".to_string(), Value::from(9)),
        ("version".to_string(), Value::from("1.1")),
        ("_m".to_string(), Value::from(5)),
    ];
    let gelf = to_gelf(data).unwrap();
    let meta: Vec<(&str, u64)> =
        gelf.meta.iter().map(|(k, v)| (k.as_str(), v.as_u64().unwrap())).collect();
    let mechanism: Vec<(&str, u64)> =
        gelf.mechanism_data.iter().map(|(k, v)| (k.as_str(), v.as_u64().unwrap())).collect();
    assert_eq!(meta, vec![("z", 1), ("a", 3), ("m", 5)]);
    assert_eq!(mechanism, vec![("zeta", 2), ("alpha", 4)]);
    assert_eq!(gelf.level, GelfLevel::Debug);
}

#[test]
fn keys_with_wide_characters_are_cut_by_character() {
    let gelf = to_gelf(fields(
        r#"{"_ключ":1,"ключ":2,"host":"хост","level":1,"short_message":"m","timestamp":1,
            "version":"1.1"}"#,
    ))
    .unwrap();
    assert_eq!(gelf.meta[0].0, "ключ");
    assert_eq!(gelf.mechanism_data[0].0, "ключ");
    assert_eq!(gelf.host, "хост");
}

#[test]
fn a_field_that_is_no_string_is_read_as_its_json_text() {
    let gelf = to_gelf(fields(
        r#"{"host":42,"level":1,"short_message":{"a":[1,"b"]},"timestamp":1,"version":1.1}"#,
    ))
    .unwrap();
    assert_eq!(gelf.host, "42");
    assert_eq!(gelf.short_message, "{\"a\":[1,\"b\"]}");
    assert_eq!(gelf.version, "1.1");
}

#[test]
fn the_first_of_two_members_with_one_key_is_read() {
    let data = vec![
        ("host".to_string(), Value::from("first")),
        ("host".to_string(), Value::from("second")),
        ("level".to_string(), Value::from(1)),
        ("short_message".to_string(), Value::from("m")),
        ("timestamp".to_string(), Value::from(1)),
        ("version".to_string(), Value::from("1.1")),
    ];
    assert_eq!(to_gelf(data).unwrap().host, "first");
}
