use reqwest_scraper::error::ConfigError;
use reqwest_scraper::http_template::{
    expand_macro, parse_and_substitute, parse_http, parse_http_file, EnvVariable, FormatArg,
    HttpRequestFn, IncludeHttp, StrEnum,
};

fn header_value<'a>(
    req: &'a reqwest_scraper::http_template::HttpRequest,
    key: &str,
) -> Option<&'a StrEnum> {
    req.headers.iter().find(|h| h.key == key).map(|h| &h.value)
}

#[test]
fn test_parse_http() {
    let req = r####"
### request_baidu
GET https://www.baidu.com
"####;
    let http = parse_http(&req, &None).unwrap();
    assert_eq!(http.len(), 1);
    let req = http.get(0).unwrap();
    assert_eq!(req.name, "request_baidu");
    assert_eq!(req.request.method, "GET");

    assert_eq!(
        match &req.request.url {
            StrEnum::RawStr(url) => url.as_str(),
            StrEnum::Format(_) => "fmt",
        },
        "https://www.baidu.com"
    );

    let req = r####"
###//comment
### request_baidu
GET https://www.baidu.com/s?kw=xxx
User-Agent: reqwest
token: xxxx1234ABCD
"####;
    let http = parse_http(&req, &None).unwrap();
    assert_eq!(http.len(), 1);
    let req = http.get(0).unwrap();
    assert_eq!(req.name, "request_baidu");
    let request = &req.request;
    assert_eq!(request.method, "GET");
    assert_eq!(
        match header_value(request, "User-Agent").expect("User-Agent not exists") {
            StrEnum::RawStr(agent) => agent.as_str(),
            StrEnum::Format(_) => "fmt",
        },
        "reqwest"
    );
    assert_eq!(
        match header_value(request, "token").expect("token not exists") {
            StrEnum::RawStr(agent) => agent.as_str(),
            StrEnum::Format(_) => "fmt",
        },
        "xxxx1234ABCD"
    );

    let req = r####"
###//comment
### request_baidu
GET https://www.baidu.com/s?kw=xxx
User-Agent: reqwest
Content-Type:   application/json

{"body":"msg"}
"####;
    let http = parse_http(&req, &None).unwrap();
    assert_eq!(http.len(), 1);
    let req = http.get(0).unwrap();
    assert_eq!(req.name, "request_baidu");
    let request = &req.request;
    assert_eq!(request.method, "GET");
    assert_eq!(
        match header_value(request, "User-Agent").expect("User-Agent not exists") {
            StrEnum::RawStr(agent) => agent.as_str(),
            StrEnum::Format(_) => "fmt",
        },
        "reqwest"
    );
    assert_eq!(
        match header_value(request, "Content-Type").expect("Content-Type not exists") {
            StrEnum::RawStr(agent) => agent.as_str(),
            StrEnum::Format(_) => "fmt",
        },
        "application/json"
    );

    let body = request.body.clone();
    assert_eq!(
        match body.clone().expect("body not exists") {
            StrEnum::RawStr(body) => body,
            StrEnum::Format(_) => "fmt".to_string(),
        },
        r#"{"body":"msg"}
"#
    )
}

#[test]
fn test_parse_and_substitute() {
    let input = r#####"
@hostname = api.example.com
@port = 8080
@host = {{hostname}}:{{port}}
@contentType = application/json

###
POST https://{{host}}/verify-otp HTTP/1.1
Content-Type: {{contentType}}

{
    "username": "alice",
    "otp": "123456"
}
    "#####;

    let output = parse_and_substitute(input);
    assert_eq!(
        output.trim(),
        r#####"
###
POST https://api.example.com:8080/verify-otp HTTP/1.1
Content-Type: application/json

{
    "username": "alice",
    "otp": "123456"
}
        "#####
            .trim()
    )
}

#[test]
fn scenario_zero_parameter_function() {
    let template = "@host = example.com\n###\nget_root\nGET https://{{host}}/";
    let fns = expand_macro(template, &None, &None).unwrap();
    assert_eq!(fns.len(), 1);
    let f = &fns[0];
    assert_eq!(f.name, "get_root");
    assert_eq!(f.request.method, "GET");
    assert!(matches!(&f.request.url, StrEnum::RawStr(u) if u == "https://example.com/"));
    assert_eq!(f.request.collect_args().len(), 0);
    let rendered = f.render();
    assert_eq!(
        rendered,
        "pub async fn get_root() -> ::std::result::Result<::reqwest::Response, ::reqwest::Error> {\n    let client = reqwest::Client::new();\n    client.get(\"https://example.com/\").send().await\n}\n"
    );
}

#[test]
fn scenario_one_parameter_function() {
    let template = "search\nGET https://{{host}}/s?kw={query:String}";
    let fns = parse_http(template, &None).unwrap();
    assert_eq!(fns.len(), 1);
    let f = &fns[0];
    assert_eq!(f.name, "search");
    let args = f.request.collect_args();
    assert_eq!(args.len(), 1);
    assert_eq!(args[0].name, "query");
    assert_eq!(args[0].ty.as_deref(), Some("String"));
    assert_eq!(args[0].render(), "query: String");
    let envs = f.request.collect_envs();
    assert_eq!(envs.len(), 1);
    assert_eq!(envs[0].name, "host");
    assert_eq!(envs[0].default_value, None);
    let params = vec![("query".to_string(), "rust".to_string())];
    let env_vals = vec![("host".to_string(), "example.com".to_string())];
    let resolved = reqwest_scraper::http_template::instantiate_request(f, &params, &env_vals);
    assert_eq!(resolved.method, "GET");
    assert_eq!(resolved.url, "https://example.com/s?kw=rust");
}

#[test]
fn scenario_variable_cycle_short_circuits() {
    let input = "@a = {{b}}\n@b = {{a}}\nX {{a}} {{b}}";
    let output = parse_and_substitute(input);
    assert_eq!(output, "\n\nX {{a}} {{b}}");
}

#[test]
fn unique_names_deduplicate_arguments() {
    let template = "ping\nGET https://h/{p}/{p}/{q}\nK: {p}-{r}\n";
    let fns = parse_http(template, &None).unwrap();
    assert_eq!(fns.len(), 1);
    let args = fns[0].request.collect_args();
    let names: Vec<&str> = args.iter().map(|a| a.name.as_str()).collect();
    assert_eq!(names, vec!["p", "q", "r"]);
}

#[test]
fn environment_lookup_with_default() {
    let template = "tok\nGET https://h/\nAuth: {{TOKEN:secret-default}}\n";
    let fns = parse_http(template, &None).unwrap();
    assert_eq!(fns.len(), 1);
    let envs = fns[0].request.collect_envs();
    assert_eq!(envs.len(), 1);
    assert_eq!(envs[0].name, "TOKEN");
    assert_eq!(envs[0].default_value.as_deref(), Some("secret-default"));
    assert_eq!(envs[0].lowercase_name(), "token");
    let bound =
        reqwest_scraper::http_template::env_value(&envs[0], Some("from-env".to_string()));
    assert_eq!(bound, "from-env");
    let fallback = reqwest_scraper::http_template::env_value(&envs[0], None);
    assert_eq!(fallback, "secret-default");
    let unset = EnvVariable { name: "X".to_string(), default_value: None };
    assert_eq!(reqwest_scraper::http_template::env_value(&unset, None), "");
}

#[test]
fn parse_http_file_splits_snippets() {
    let content = "one\nGET https://a/\n####\ntwo\nPOST https://b/\n";
    let fns = parse_http_file(content, &Some("supply".to_string())).unwrap();
    assert_eq!(fns.len(), 2);
    assert_eq!(fns[0].name, "one");
    assert_eq!(fns[1].name, "two");
    assert_eq!(fns[1].request.method, "POST");
    assert_eq!(fns[0].client_supplier.as_deref(), Some("supply"));
    let rendered = fns[1].render();
    assert!(rendered.contains("let client = supply();"));
    assert!(rendered.contains("client.post(\"https://b/\")"));
}

#[test]
fn include_args_parse_forms() {
    let full = IncludeHttp::parse("\"req.http\", my_client, { host = \"example.com\", port = \"1\" }").unwrap();
    assert_eq!(full.file_path, "req.http");
    assert_eq!(full.client_supplier.as_deref(), Some("my_client"));
    assert_eq!(
        full.variables,
        Some(vec![
            ("host".to_string(), "example.com".to_string()),
            ("port".to_string(), "1".to_string())
        ])
    );

    let plain = IncludeHttp::parse("\"req.http\"").unwrap();
    assert_eq!(plain.file_path, "req.http");
    assert_eq!(plain.client_supplier, None);
    assert_eq!(plain.variables, None);

    let vars_only = IncludeHttp::parse("\"req.http\", { a = \"b\" }").unwrap();
    assert_eq!(vars_only.client_supplier, None);
    assert_eq!(vars_only.variables, Some(vec![("a".to_string(), "b".to_string())]));

    assert!(IncludeHttp::parse("no quotes").is_err());
    assert!(IncludeHttp::parse("\"p\", x, y").is_err());
}

#[test]
fn str_enum_classifies_placeholders() {
    assert!(matches!(StrEnum::new("plain text"), StrEnum::RawStr(s) if s == "plain text"));
    let formatted = StrEnum::new("a {x} b {{E:d}} c");
    match formatted {
        StrEnum::Format(f) => {
            let args: Vec<FormatArg> = f.args();
            assert_eq!(args.len(), 1);
            assert_eq!(args[0].name, "x");
            assert_eq!(args[0].ty, None);
            let envs = f.envs();
            assert_eq!(envs.len(), 1);
            assert_eq!(envs[0].name, "E");
            assert_eq!(envs[0].default_value.as_deref(), Some("d"));
            assert_eq!(f.fmt(), "a {x} b {e} c");
        }
        StrEnum::RawStr(_) => panic!("expected a format template"),
    }
    // A JSON body's braces are not placeholders, and survive escaped.
    let body = StrEnum::new("{\"k\": \"v\"}");
    assert!(matches!(body, StrEnum::RawStr(_)));
}

#[test]
fn macro_variables_substitute_after_file_variables() {
    let template = "go\nGET https://{{where}}/x";
    let vars = Some(vec![("where".to_string(), "macro.example".to_string())]);
    let fns = expand_macro(template, &None, &vars).unwrap();
    assert_eq!(fns.len(), 1);
    assert!(matches!(&fns[0].request.url, StrEnum::RawStr(u) if u == "https://macro.example/x"));
}

#[test]
fn compiled_functions_are_reproducible() {
    let template = "@host = h\n###\na\nGET https://{{host}}/{x}\nK: {{E:d}}\n";
    let one: Vec<HttpRequestFn> = expand_macro(template, &None, &None).unwrap();
    let two: Vec<HttpRequestFn> = expand_macro(template, &None, &None).unwrap();
    assert_eq!(one, two);
    assert_eq!(one[0].render(), two[0].render());
}

#[test]
fn malformed_snippet_is_refused() {
    // Text with content but no well-formed request fails with a diagnostic
    // naming the snippet; blank text compiles to nothing.
    let r = parse_http("just a comment", &None);
    assert_eq!(
        r,
        Err(ConfigError::MalformedRequest("just a comment".to_string()))
    );
    assert_eq!(parse_http("   \n  ", &None), Ok(vec![]));

    let file = "###\nnot a request\n###\nok_req\nGET https://a/\n";
    let r = parse_http_file(file, &None);
    assert_eq!(
        r,
        Err(ConfigError::MalformedRequest("not a request".to_string()))
    );

    // A comment merged into a snippet that does hold a request still
    // compiles: the request is found, nothing is lost.
    let mixed = "### some note\nok_req\nGET https://a/\n";
    let fns = parse_http_file(mixed, &None).unwrap();
    assert_eq!(fns.len(), 1);
    assert_eq!(fns[0].name, "ok_req");
}
