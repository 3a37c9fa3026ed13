use reqwest_scraper::css_derive::{
    expand_derive_from_response, extract_all, from_html_list, resolve_field, ElementData,
    ElementRow, Extractor, FieldPlan, FieldSpec, FieldValue, StructModel,
};
use reqwest_scraper::css_selector::HtmlDocument;
use reqwest_scraper::shape::{PathType, TypeExpr};

fn ty(segments: &[&str]) -> TypeExpr {
    TypeExpr {
        segments: segments.iter().map(|s| s.to_string()).collect(),
        has_qself: false,
    }
}

fn plain_field(ident: &str, segments: &[&str]) -> FieldSpec {
    FieldSpec {
        ident: Some(ident.to_string()),
        ty: ty(segments),
        path: None,
        default: None,
        name: false,
        id: false,
        text: false,
        html: false,
        inner_html: false,
        has_class: None,
        attr: None,
    }
}

#[test]
fn test_css_selecctor() {
    let html_str = r#"
        <html>
            <body>
                <div id="content">
                    <p>Hello, World!</p>
                    <p>This is a test.</p>
                </div>
            </body>
        </html>
        "#;

    let html = HtmlDocument::new(html_str);
    let content = html.select("#content").unwrap();
    let content = content.first();
    assert!(content.is_some());
    let content = content.unwrap();
    assert_eq!(content.attr("id").unwrap(), "content");

    let p1 = content.select("p:nth-child(1)").ok().unwrap();
    let p1 = p1.first();
    assert!(p1.is_some());
    assert_eq!(p1.unwrap().text(), "Hello, World!");

    let p2 = content.select("p:nth-child(2)").ok().unwrap();
    let p2 = p2.first();
    assert!(p2.is_some());
    assert_eq!(p2.unwrap().text(), "This is a test.");
}

#[test]
fn collection_form_extracts_in_document_order() {
    let html = HtmlDocument::new(
        r#"<div class="list"><a>X</a></div><div class="list"><a>Y</a></div>"#,
    );
    let mut field = plain_field("link_text", &["String"]);
    field.path = Some("a".to_string());
    field.text = true;
    field.default = Some("missing".to_string());
    let model = StructModel {
        ident: "ExtractListResult".to_string(),
        is_named_struct: true,
        container_path: Some(".list".to_string()),
        fields: vec![field],
    };
    let plan = expand_derive_from_response(&model).unwrap();
    let rows = from_html_list(&html, plan.container_path.as_deref().unwrap(), &plan.fields)
        .unwrap();
    assert_eq!(rows.len(), 2);
    assert_eq!(rows[0], vec![FieldValue::Scalar("X".to_string())]);
    assert_eq!(rows[1], vec![FieldValue::Scalar("Y".to_string())]);
}

#[test]
fn scalar_default_applies_when_attribute_missing() {
    let html = HtmlDocument::new(r#"<div class="list"><a>X</a></div>"#);
    let mut field = plain_field("data_id", &["String"]);
    field.path = Some("a".to_string());
    field.attr = Some("data-id".to_string());
    field.default = Some("none".to_string());
    let model = StructModel {
        ident: "Row".to_string(),
        is_named_struct: true,
        container_path: Some(".list".to_string()),
        fields: vec![field],
    };
    let plan = expand_derive_from_response(&model).unwrap();
    let rows = from_html_list(&html, ".list", &plan.fields).unwrap();
    assert_eq!(rows.len(), 1);
    assert_eq!(rows[0], vec![FieldValue::Scalar("none".to_string())]);
}

#[test]
fn resolve_field_shapes() {
    let element = ElementData {
        name: "a".to_string(),
        id: Some("the-id".to_string()),
        classes: vec!["x".to_string(), "y".to_string()],
        attrs: vec![("href".to_string(), "/here".to_string())],
        text: "hello".to_string(),
        html: "<a>hello</a>".to_string(),
        inner_html: "hello".to_string(),
    };
    let scalar_plan = FieldPlan {
        ident: "f".to_string(),
        shape: PathType::Other,
        path: Some("a".to_string()),
        default: Some("fallback".to_string()),
        extractor: Extractor::Text,
    };
    let no_match: Vec<ElementData> = vec![];
    let r = resolve_field(&scalar_plan, &no_match, &element);
    assert_eq!(r, FieldValue::Scalar("fallback".to_string()));

    let matched = vec![element.clone()];
    let r = resolve_field(&scalar_plan, &matched, &element);
    assert_eq!(r, FieldValue::Scalar("hello".to_string()));

    let opt_plan = FieldPlan {
        ident: "f".to_string(),
        shape: PathType::Optional,
        path: Some("a".to_string()),
        default: None,
        extractor: Extractor::Attr("href".to_string()),
    };
    assert_eq!(
        resolve_field(&opt_plan, &matched, &element),
        FieldValue::Optional(Some("/here".to_string()))
    );
    assert_eq!(resolve_field(&opt_plan, &no_match, &element), FieldValue::Optional(None));

    let class_plan = FieldPlan {
        ident: "f".to_string(),
        shape: PathType::Other,
        path: None,
        default: Some("d".to_string()),
        extractor: Extractor::HasClass("y".to_string()),
    };
    assert_eq!(
        resolve_field(&class_plan, &no_match, &element),
        FieldValue::Scalar("true".to_string())
    );

    let vec_plan = FieldPlan {
        ident: "f".to_string(),
        shape: PathType::Vector,
        path: Some("a".to_string()),
        default: None,
        extractor: Extractor::Id,
    };
    let mut second = element.clone();
    second.id = None;
    let both = vec![element.clone(), second];
    assert_eq!(
        resolve_field(&vec_plan, &both, &element),
        FieldValue::Collection(vec!["the-id".to_string()])
    );
}

#[test]
fn extract_all_returns_one_instance_per_row() {
    let make_el = |t: &str| ElementData {
        name: "a".to_string(),
        id: None,
        classes: vec![],
        attrs: vec![],
        text: t.to_string(),
        html: String::new(),
        inner_html: String::new(),
    };
    let plan = FieldPlan {
        ident: "f".to_string(),
        shape: PathType::Other,
        path: Some("a".to_string()),
        default: Some("d".to_string()),
        extractor: Extractor::Text,
    };
    let plans = vec![plan];
    let rows = vec![
        ElementRow { element: make_el("r0"), field_matches: vec![vec![make_el("a0")]] },
        ElementRow { element: make_el("r1"), field_matches: vec![vec![]] },
        ElementRow { element: make_el("r2"), field_matches: vec![vec![make_el("a2")]] },
    ];
    let out = extract_all(&plans, &rows);
    assert_eq!(out.len(), 3);
    assert_eq!(out[0], vec![FieldValue::Scalar("a0".to_string())]);
    assert_eq!(out[1], vec![FieldValue::Scalar("d".to_string())]);
    assert_eq!(out[2], vec![FieldValue::Scalar("a2".to_string())]);
}

#[test]
fn invalid_container_selector_is_rejected() {
    let model = StructModel {
        ident: "Bad".to_string(),
        is_named_struct: true,
        container_path: Some("??not-a-selector".to_string()),
        fields: vec![],
    };
    let r = expand_derive_from_response(&model);
    assert!(matches!(
        r,
        Err(reqwest_scraper::error::ConfigError::InvalidSelector(_))
    ));
}

#[test]
fn invalid_field_path_propagates_as_selector_error() {
    let html = HtmlDocument::new(r#"<div class="list"><a>X</a></div>"#);
    let bad = FieldPlan {
        ident: "f".to_string(),
        shape: PathType::Optional,
        path: Some("??not-a-selector".to_string()),
        default: None,
        extractor: Extractor::Text,
    };
    let plans = vec![bad];
    let r = from_html_list(&html, ".list", &plans);
    assert!(matches!(
        r,
        Err(reqwest_scraper::error::ScraperError::CssSelectorError(_))
    ));
    let single = reqwest_scraper::css_derive::from_html_single(&html, &plans);
    assert!(matches!(
        single,
        Err(reqwest_scraper::error::ScraperError::CssSelectorError(_))
    ));

    // With every path accepted, the single form is owed one value per field.
    let good = FieldPlan {
        ident: "f".to_string(),
        shape: PathType::Optional,
        path: Some("a".to_string()),
        default: None,
        extractor: Extractor::Text,
    };
    let vals = reqwest_scraper::css_derive::from_html_single(&html, &vec![good]).unwrap();
    assert_eq!(vals, vec![FieldValue::Optional(Some("X".to_string()))]);
}
