use simple_webserver::http10::dates::HttpDate;
use simple_webserver::util::listing_entry;

#[test]
fn reads_rfc2822_dates() {
    let d = HttpDate::parse("Tue, 15 Nov 1994 08:12:31 GMT").unwrap();
    assert_eq!(d, HttpDate { secs: 784887151, nanos: 0, offset: 0 });
    let e = HttpDate::parse("Wed, 18 Feb 2015 23:16:09 +0100").unwrap();
    assert_eq!(e, HttpDate { secs: 1424297769, nanos: 0, offset: 3600 });
    assert_eq!(e.to_rfc2822(), "Wed, 18 Feb 2015 23:16:09 +0100");
    assert!(HttpDate::parse("15/11/1994").is_none());
}

#[test]
fn compares_instants_not_offsets() {
    let a = HttpDate::parse("Wed, 18 Feb 2015 23:16:09 +0100").unwrap();
    let b = HttpDate::parse("Wed, 18 Feb 2015 22:16:09 GMT").unwrap();
    assert!(!a.is_after(&b));
    assert!(!b.is_after(&a));
    let later = HttpDate { nanos: 1, ..b };
    assert!(later.is_after(&b));
}

#[test]
fn date_parts_are_checked() {
    assert!(HttpDate::from_parts(0, 0, 0).is_some());
    assert!(HttpDate::from_parts(0, 0, 86_400).is_none());
    assert!(HttpDate::from_parts(253402300800, 0, 0).is_none());
    assert!(HttpDate::from_parts(-62167219201, 0, 0).is_none());
    assert!(HttpDate::from_parts(0, 1_000_000_000, 0).is_none());
    assert!(HttpDate::from_parts(0, 999_999_999, 0).is_some());
}

#[test]
fn listing_entry_links_path() {
    assert_eq!(
        listing_entry(&"./a/b.txt".to_string(), &"b.txt".to_string()),
        "<li><a href='/a/b.txt'>b.txt</a></li>"
    );
}

#[test]
fn five_digit_years_are_not_read() {
    assert!(HttpDate::parse("Tue, 15 Nov 10000 08:12:31 GMT").is_none());
}
