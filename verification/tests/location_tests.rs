use s3cli::location::Location;

#[test]
fn test_location_parsing() {
    assert_eq!(
        Location::parse("s3://a-b-c/abc"),
        Location::Remote {
            host: None,
            bucket: "a-b-c".into(),
            key: "abc".into(),
        }
    );
    assert_eq!(
        Location::parse("s3://a-b-c"),
        Location::Remote {
            host: None,
            bucket: "a-b-c".into(),
            key: String::new(),
        }
    );
    assert_eq!(
        Location::parse("s3://a-b-c/"),
        Location::Remote {
            host: None,
            bucket: "a-b-c".into(),
            key: String::new(),
        }
    );
    assert_eq!(
        Location::parse("s3://a-b-c/path/to/key"),
        Location::Remote {
            host: None,
            bucket: "a-b-c".into(),
            key: "path/to/key".into(),
        }
    );
    assert_eq!(
        Location::parse("anything/else"),
        Location::Local {
            path: "anything/else".into(),
        }
    );
    assert_eq!(
        Location::parse("localhost:9000/testing/key"),
        Location::Remote {
            host: Some("localhost:9000".into()),
            bucket: "testing".into(),
            key: "key".into(),
        }
    );
}

#[test]
fn parse_empty_bucket_and_scheme_only() {
    assert_eq!(
        Location::parse("s3://"),
        Location::Remote {
            host: None,
            bucket: String::new(),
            key: String::new(),
        }
    );
}

#[test]
fn parse_key_keeps_trailing_slash() {
    assert_eq!(
        Location::parse("s3://b/k/"),
        Location::Remote {
            host: None,
            bucket: "b".into(),
            key: "k/".into(),
        }
    );
    assert_eq!(
        Location::parse("s3://b//x"),
        Location::Remote {
            host: None,
            bucket: "b".into(),
            key: "/x".into(),
        }
    );
}

#[test]
fn parse_scheme_wins_over_host_grammar() {
    // "s3://x" could also be read as host "s3:", empty port, empty bucket,
    // key "x"; the scheme grammar is tried first and claims it.
    assert_eq!(
        Location::parse("s3://x"),
        Location::Remote {
            host: None,
            bucket: "x".into(),
            key: String::new(),
        }
    );
}

#[test]
fn parse_host_qualified_bucket_root() {
    assert_eq!(
        Location::parse("h:1/b"),
        Location::Remote {
            host: Some("h:1".into()),
            bucket: "b".into(),
            key: String::new(),
        }
    );
    assert_eq!(
        Location::parse("a:/b/c"),
        Location::Remote {
            host: Some("a:".into()),
            bucket: "b".into(),
            key: "c".into(),
        }
    );
}

#[test]
fn parse_local_fallbacks() {
    assert_eq!(
        Location::parse(""),
        Location::Local { path: String::new() }
    );
    assert_eq!(
        Location::parse("/abs/path"),
        Location::Local {
            path: "/abs/path".into(),
        }
    );
    // No slash after host:port, so not host-qualified.
    assert_eq!(
        Location::parse("localhost:9000"),
        Location::Local {
            path: "localhost:9000".into(),
        }
    );
    // The run after the colon is not numeric.
    assert_eq!(
        Location::parse("a:b/c"),
        Location::Local {
            path: "a:b/c".into(),
        }
    );
    // A slash before the first colon rules the host grammar out.
    assert_eq!(
        Location::parse("dir/a:1/b"),
        Location::Local {
            path: "dir/a:1/b".into(),
        }
    );
}
