use reqwest_scraper::error::ScraperError;
use reqwest_scraper::jsonpath::Json;

#[test]
fn test_jsonpath() {
    let json = r#"
        {
            "time":"2020.10.12 21:22:34",
            "data":[
                {"a":"A1","B":"b1","c":1},
                {"a":"A2","B":"b2","c":2}
            ]
        }
        "#;

    let json = Json::new(json).unwrap();

    assert_eq!(
        json.select_one_as_str("$.time").unwrap(),
        r#""2020.10.12 21:22:34""#
    );

    let data: Vec<serde_json::Value> = json.select("$.data[*]").unwrap();
    assert_eq!(data.len(), 2);

    let d1 = data.get(0).unwrap();
    assert_eq!(d1["a"].as_str().unwrap(), "A1");
    assert_eq!(d1["B"].as_str().unwrap(), "b1");
    assert_eq!(d1["c"].as_i64().unwrap(), 1);

    let d2 = data.get(1).unwrap();
    assert_eq!(d2["a"].as_str().unwrap(), "A2");
    assert_eq!(d2["B"].as_str().unwrap(), "b2");
    assert_eq!(d2["c"].as_i64().unwrap(), 2);
}

#[test]
fn invalid_json_is_rejected() {
    let r = Json::new("{not json");
    assert!(matches!(r, Err(ScraperError::JsonDeserializeError(_))));
}

#[test]
fn invalid_path_is_rejected() {
    let json = Json::new("{\"a\": 1}").unwrap();
    assert!(matches!(
        json.select("$..[[["),
        Err(ScraperError::JsonPathError(_))
    ));
}

#[test]
fn empty_match_is_a_match_error() {
    let json = Json::new("{\"a\": 1}").unwrap();
    let r = json.select_one_as_str("$.missing");
    assert_eq!(
        r,
        Err(ScraperError::JsonPathMatchError(
            "The \"$.missing\" jsonpath did not find data in json".to_string()
        ))
    );
}

#[test]
fn select_as_str_renders_matches() {
    let json = Json::new("{\"a\": [1, 2]}").unwrap();
    assert_eq!(json.select_as_str("$.a[*]").unwrap(), "[1,2]");
}

#[test]
fn panic_prone_filter_paths_are_screened_out() {
    // Paths whose selection walk the engine aborts on are refused up
    // front with a path error: an overflowing numeric literal in a
    // filter, a range form in a filter, and a key union in a filter.
    let json = Json::new("{\"a\": [1, 2, 3]}").unwrap();
    assert!(matches!(
        json.select("$[?(@.a == 1e999)]"),
        Err(ScraperError::JsonPathError(_))
    ));
    assert!(matches!(
        json.select_one_as_str("$[?(@.a == -1.5e400)]"),
        Err(ScraperError::JsonPathError(_))
    ));
    assert!(matches!(
        json.select("$[?(@.a[1:2])]"),
        Err(ScraperError::JsonPathError(_))
    ));
    assert!(matches!(
        json.select_as_str("$[?(@['a','b'])]"),
        Err(ScraperError::JsonPathError(_))
    ));
}

#[test]
fn ordinary_filters_still_select() {
    let json = Json::new(
        "{\"data\":[{\"a\":\"A1\",\"c\":1},{\"a\":\"A2\",\"c\":2}]}",
    )
    .unwrap();
    let picked = json.select("$.data[?(@.c == 1)]").unwrap();
    assert_eq!(picked.len(), 1);
    assert_eq!(picked[0]["a"].as_str().unwrap(), "A1");
    // A small exponent stays well in range and is not screened out.
    assert!(json.select("$.data[?(@.c == 1e2)]").is_ok());
}
