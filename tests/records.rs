use media_order::imdb::{title, title_id, ErrorKind, ParseError};

fn ok(rest: &str, id: &str) -> Result<(String, String), ParseError> {
    Ok((rest.to_string(), id.to_string()))
}

#[test]
fn test_title_id() {
    assert_eq!(title_id("tt1234567"), ok("", "1234567"));
    assert_eq!(title_id("tt12345678"), ok("", "12345678"));
    assert_eq!(title_id("tt123456789"), ok("9", "12345678"));
    assert_eq!(
        title_id("tt123456"),
        Err(ParseError { input: "123456".to_string(), code: ErrorKind::TakeWhileMN })
    );
}

#[test]
fn title_id_needs_prefix() {
    assert_eq!(
        title_id("nm1234567"),
        Err(ParseError { input: "nm1234567".to_string(), code: ErrorKind::Tag })
    );
}

#[test]
fn record_with_absent_fields() {
    let t = title("tt13522842\t1\tएपिसोड #1.3980\tIN\thi\t\\N\t\\N\t0").unwrap();
    assert_eq!(t.title_id, "13522842");
    assert_eq!(t.ordering, 1);
    assert_eq!(t.name, "एपिसोड #1.3980");
    assert_eq!(t.region, Some("IN".to_owned()));
    assert_eq!(t.language, Some("hi".to_owned()));
    assert_eq!(t.types, None);
    assert_eq!(t.attributes, None);
    assert_eq!(t.is_original_title, false);
}

#[test]
fn record_with_all_fields() {
    let t = title("tt0000001\t12\tCarmencita\tUS\ten\toriginal\tliteral title\t1").unwrap();
    assert_eq!(t.title_id, "0000001");
    assert_eq!(t.ordering, 12);
    assert_eq!(t.name, "Carmencita");
    assert_eq!(t.region.as_deref(), Some("US"));
    assert_eq!(t.language.as_deref(), Some("en"));
    assert_eq!(t.types.as_deref(), Some("original"));
    assert_eq!(t.attributes.as_deref(), Some("literal title"));
    assert!(t.is_original_title);
}

#[test]
fn record_rejected_when_malformed() {
    assert!(title("tt0000001\t1\tName\tUS\ten\t\\N\t\\N\t2").is_none());
    assert!(title("tt0000001\t1\tName\tus\ten\t\\N\t\\N\t0").is_none());
    assert!(title("tt0000001\t123\tName\tUS\ten\t\\N\t\\N\t0").is_none());
    assert!(title("tt0000001\t1\tName").is_none());
    assert!(title("").is_none());
}
