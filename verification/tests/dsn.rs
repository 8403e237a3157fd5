use gelf_mover::sentry::dsn::Dsn;

#[test]
fn dsn_is_split_at_its_marks() {
    let dsn = Dsn::parse("https://key123@sentry.example.org/42").unwrap();
    assert_eq!(dsn.protocol, "https");
    assert_eq!(dsn.pub_key, "key123");
    assert_eq!(dsn.host, "sentry.example.org");
    assert_eq!(dsn.project, 42);
}

#[test]
fn dsn_with_port_and_colon_in_key() {
    let dsn = Dsn::parse("http://a:b@localhost:9000/7").unwrap();
    assert_eq!(dsn.protocol, "http");
    assert_eq!(dsn.pub_key, "a:b");
    assert_eq!(dsn.host, "localhost:9000");
    assert_eq!(dsn.project, 7);
}

#[test]
fn project_is_an_i32() {
    assert_eq!(Dsn::parse("p://k@h/2147483647").unwrap().project, i32::MAX);
    assert_eq!(Dsn::parse("p://k@h/-2147483648").unwrap().project, i32::MIN);
    assert_eq!(Dsn::parse("p://k@h/+5").unwrap().project, 5);
    assert_eq!(Dsn::parse("p://k@h/007").unwrap().project, 7);
    assert_eq!(Dsn::parse("p://k@h/-0").unwrap().project, 0);
    assert!(Dsn::parse("p://k@h/2147483648").is_none());
    assert!(Dsn::parse("p://k@h/-2147483649").is_none());
    assert!(Dsn::parse("p://k@h/99999999999999999999999").is_none());
    assert!(Dsn::parse("p://k@h/").is_none());
    assert!(Dsn::parse("p://k@h/-").is_none());
    assert!(Dsn::parse("p://k@h/+").is_none());
    assert!(Dsn::parse("p://k@h/12a").is_none());
    assert!(Dsn::parse("p://k@h/1/2").is_none());
    assert!(Dsn::parse("p://k@h/ 1").is_none());
}

#[test]
fn malformed_dsn_is_refused() {
    for link in [
        "",
        "https",
        "https:",
        "https:/",
        "https://",
        "://key@host/1",
        "https:/key@host/1",
        "https//key@host/1",
        "https://@host/1",
        "https://key@/1",
        "https://key@host",
        "https://keyhost/1",
        "https://key/host@1",
    ] {
        assert!(Dsn::parse(link).is_none(), "{}", link);
    }
}

#[test]
fn dsn_with_wide_characters() {
    let dsn = Dsn::parse("прот://ключ@хост/1").unwrap();
    assert_eq!(dsn.protocol, "прот");
    assert_eq!(dsn.pub_key, "ключ");
    assert_eq!(dsn.host, "хост");
}

#[test]
fn store_url() {
    let dsn = Dsn::parse("https://key123@sentry.example.org/42").unwrap();
    assert_eq!(
        dsn.prepare_url_at(1582213226),
        "https://sentry.example.org/api/42/store/?sentry_version=5&sentry_key=key123&sentry_timestamp=1582213226"
    );
    assert_eq!(
        dsn.prepare_url_at(0),
        "https://sentry.example.org/api/42/store/?sentry_version=5&sentry_key=key123&sentry_timestamp=0"
    );
    assert_eq!(
        dsn.prepare_url_at(u64::MAX),
        "https://sentry.example.org/api/42/store/?sentry_version=5&sentry_key=key123&sentry_timestamp=18446744073709551615"
    );
}

#[test]
fn store_url_of_a_negative_project() {
    let dsn = Dsn::parse("http://k@h/-2147483648").unwrap();
    assert_eq!(
        dsn.prepare_url_at(10),
        "http://h/api/-2147483648/store/?sentry_version=5&sentry_key=k&sentry_timestamp=10"
    );
}

#[test]
fn store_url_now_carries_the_clock() {
    let dsn = Dsn::parse("https://key@host/1").unwrap();
    let url = dsn.prepare_url();
    let prefix = "https://host/api/1/store/?sentry_version=5&sentry_key=key&sentry_timestamp=";
    assert!(url.starts_with(prefix));
    let seconds: u64 = url[prefix.len()..].parse().unwrap();
    assert!(seconds > 1_500_000_000);
}
