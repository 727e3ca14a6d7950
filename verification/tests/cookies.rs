use my_http_server::cookies::{Cookie, CookieJar};
use my_http_server::cookies_reader::CookiesReader;

#[test]
fn cookie_jar_test() {
    let jar = CookieJar::new()
        .set_cookie(
            Cookie::new("Test".to_string(), "Value".to_string())
                .set_domain("/".to_string())
                .set_max_age(24 * 60 * 60),
        )
        .set_cookie(("Test2".to_string(), "Value".to_string()).into())
        .set_cookie(("Test3".to_string(), "Value".to_string()).into());
    assert_eq!(jar.get_cookies().len(), 3);
}

#[test]
fn test_basic_cases() {
    let header_value = "_octo=GH1.1.17; _device_id=7763; saved_user_sessions=527071";

    let reader = CookiesReader::new(header_value.into());

    assert_eq!(reader.get("_octo"), Some("GH1.1.17"));
    assert_eq!(reader.get("_device_id"), Some("7763"));
    assert_eq!(reader.get("saved_user_sessions"), Some("527071"));
    assert_eq!(reader.get("not_found"), None);
}

#[test]
fn cookies_keep_the_order_they_were_set_in() {
    let jar = CookieJar::new()
        .set_cookie(Cookie::new("b".to_string(), "1".to_string()))
        .set_cookies(vec![
            Cookie::new("a".to_string(), "2".to_string()),
            Cookie::new("c".to_string(), "3".to_string()),
        ]);
    let names: Vec<String> = jar.get_cookies().iter().map(|c| c.to_string()).collect();
    assert_eq!(names, vec!["b=1", "a=2", "c=3"]);
    assert!(!jar.is_empty());
    assert!(CookieJar::new().is_empty());
}

#[test]
fn set_cookie_text_lists_the_attributes() {
    let c = Cookie::new("sid".to_string(), "abc".to_string())
        .set_path("/".to_string())
        .set_max_age(3600)
        .set_domain("example.com".to_string())
        .set_http_only()
        .set_secure();
    assert_eq!(
        c.to_string(),
        "sid=abc; Path=/; Max-Age=3600; Domain=example.com; HttpOnly; Secure"
    );
}

#[test]
fn reader_items_are_trimmed_and_listed_in_order() {
    // names are trimmed; a value is the text after the first `=`, as it stands
    let reader = CookiesReader::new(Some(" a = 1 ;b=2; flag;c=d "));
    assert_eq!(
        reader.iterate_all(),
        vec![("a", " 1 "), ("b", "2"), ("flag", ""), ("c", "d ")]
    );
    assert_eq!(reader.get("a"), Some(" 1 "));
    assert_eq!(reader.get("flag"), Some(""));
    assert_eq!(CookiesReader::new(Some("a=b ")).get("a"), Some("b "));
    let none = CookiesReader::new(None);
    assert_eq!(none.get("a"), None);
    assert!(none.iterate_all().is_empty());
}
