use reqwest_scraper::error::ScraperError;
use reqwest_scraper::response::{decode_html, ensure_success, extract_charset};

#[test]
fn test_extract_charset() {
    let html = r#"
        <!DOCTYPE html>
        <html>
        <head>
            <meta charset="gb2312">
            <title>Example</title>
        </head>
        <body><p>Hello, world!</p></body>
        </html>
        "#;

    let cs = extract_charset(html);
    assert!(cs.is_some());
    assert_eq!(cs.unwrap(), "gb2312");

    let html = r#"
        <!DOCTYPE html>
        <html>
        <head>
            <meta charset='gb2312'>
            <title>Example</title>
        </head>
        <body><p>Hello, world!</p></body>
        </html>
        "#;

    let cs = extract_charset(html);
    assert!(cs.is_some());
    assert_eq!(cs.unwrap(), "gb2312");

    let html = r#"
        <!DOCTYPE html>
        <html>
        <head>
            <meta http-equiv="Content-Type" content="text/html; charset=GB2312">
            <title>Example</title>
        </head>
        <body><p>Hello, world!</p></body>
        </html>
        "#;

    let cs = extract_charset(html);
    assert!(cs.is_some());
    assert_eq!(cs.unwrap(), "GB2312");

    let html = r#"
        <!DOCTYPE html>
        <html>
        <head>
            <meta content='text/html; charset=gbk' http-equiv="Content-Type">
            <title>Example</title>
        </head>
        <body><p>Hello, world!</p></body>
        </html>
        "#;

    let cs = extract_charset(html);
    assert!(cs.is_some());
    assert_eq!(cs.unwrap(), "gbk");
}

#[test]
fn no_meta_charset_yields_none() {
    assert_eq!(extract_charset("<html><body>plain</body></html>"), None);
    assert_eq!(extract_charset("<metadata charset=\"x\">"), None);
}

#[test]
fn decode_honours_header_charset() {
    // "gb2312" maps the byte pair 0xC4 0xE3 to a CJK character that UTF-8
    // would reject; decoding must consult the label.
    let bytes: Vec<u8> = vec![0xC4, 0xE3, 0xBA, 0xC3];
    let text = decode_html(&bytes, &Some("gb2312".to_string()));
    assert_eq!(text, "\u{4f60}\u{597d}");
    let plain = decode_html(b"hello", &None);
    assert_eq!(plain, "hello");
}

#[test]
fn decode_falls_back_to_meta_charset() {
    let mut bytes: Vec<u8> = Vec::new();
    bytes.extend_from_slice(b"<html><head><meta charset=\"gb2312\"></head><body>");
    bytes.extend_from_slice(&[0xC4, 0xE3]);
    bytes.extend_from_slice(b"</body></html>");
    let text = decode_html(&bytes, &None);
    assert!(text.contains('\u{4f60}'));
}

#[test]
fn status_gate_admits_success_only() {
    let ok = ensure_success("https://a/".to_string(), 200, "body".to_string());
    assert_eq!(ok, Ok("body".to_string()));
    let also_ok = ensure_success("https://a/".to_string(), 299, "b".to_string());
    assert!(also_ok.is_ok());
    let err = ensure_success("https://a/".to_string(), 404, "missing".to_string());
    assert_eq!(
        err,
        Err(ScraperError::HttpError("https://a/".to_string(), 404, "missing".to_string()))
    );
    assert!(ensure_success("u".to_string(), 199, "b".to_string()).is_err());
    assert!(ensure_success("u".to_string(), 300, "b".to_string()).is_err());
}
