use reqwest_scraper::css_derive::{
    generate_field_extractors, Extractor, FieldSpec, StructModel,
};
use reqwest_scraper::error::ConfigError;
use reqwest_scraper::shape::{get_type_detail, PathType, TypeExpr};
use reqwest_scraper::xpath::{
    expand_derive_from_response as expand_xpath, generate_list_item_field_extractors,
    xpath_extract_all, xpath_resolve_field, XPathFieldSpec, XPathRow, XPathStructModel,
};

fn ty(segments: &[&str]) -> TypeExpr {
    TypeExpr {
        segments: segments.iter().map(|s| s.to_string()).collect(),
        has_qself: false,
    }
}

fn bare_field(ident: &str, segments: &[&str]) -> FieldSpec {
    FieldSpec {
        ident: Some(ident.to_string()),
        ty: ty(segments),
        path: None,
        default: None,
        name: false,
        id: false,
        text: false,
        html: false,
        inner_html: false,
        has_class: None,
        attr: None,
    }
}

#[test]
fn classify_shapes() {
    assert_eq!(get_type_detail(&ty(&["Option"])), PathType::Optional);
    assert_eq!(get_type_detail(&ty(&["std", "option", "Option"])), PathType::Optional);
    assert_eq!(get_type_detail(&ty(&["core", "option", "Option"])), PathType::Optional);
    assert_eq!(get_type_detail(&ty(&["Vec"])), PathType::Vector);
    assert_eq!(get_type_detail(&ty(&["std", "vec", "Vec"])), PathType::Vector);
    assert_eq!(get_type_detail(&ty(&["alloc", "vec", "Vec"])), PathType::Vector);
    assert_eq!(get_type_detail(&ty(&["String"])), PathType::Other);
    assert_eq!(get_type_detail(&ty(&["my", "own", "Wrapper"])), PathType::Other);
    let qualified = TypeExpr { segments: vec!["Option".to_string()], has_qself: true };
    assert_eq!(get_type_detail(&qualified), PathType::Other);
    assert!(get_type_detail(&ty(&["u32"])).is_other());
    assert!(!get_type_detail(&ty(&["Vec"])).is_other());
}

#[test]
fn mode_resolution_single_flags() {
    let f = bare_field("f", &["Option"]);
    assert_eq!(Extractor::from_field(&f).unwrap(), Extractor::Html);

    let mut f = bare_field("f", &["Option"]);
    f.text = true;
    assert_eq!(Extractor::from_field(&f).unwrap(), Extractor::Text);

    let mut f = bare_field("f", &["Option"]);
    f.id = true;
    assert_eq!(Extractor::from_field(&f).unwrap(), Extractor::Id);

    let mut f = bare_field("f", &["Option"]);
    f.name = true;
    assert_eq!(Extractor::from_field(&f).unwrap(), Extractor::Name);

    let mut f = bare_field("f", &["Option"]);
    f.inner_html = true;
    assert_eq!(Extractor::from_field(&f).unwrap(), Extractor::InnerHtml);

    let mut f = bare_field("f", &["Option"]);
    f.has_class = Some("cls".to_string());
    assert_eq!(Extractor::from_field(&f).unwrap(), Extractor::HasClass("cls".to_string()));

    let mut f = bare_field("f", &["Option"]);
    f.attr = Some("href".to_string());
    assert_eq!(Extractor::from_field(&f).unwrap(), Extractor::Attr("href".to_string()));
}

#[test]
fn mode_resolution_rejects_two_flags() {
    let mut f = bare_field("clashing", &["Option"]);
    f.text = true;
    f.html = true;
    let r = Extractor::from_field(&f);
    assert_eq!(r, Err(ConfigError::MultipleModes("clashing".to_string())));

    let mut f = bare_field("clashing", &["Option"]);
    f.id = true;
    f.attr = Some("x".to_string());
    assert!(matches!(Extractor::from_field(&f), Err(ConfigError::MultipleModes(_))));
}

#[test]
fn field_plan_validation_errors() {
    // A scalar without a default is refused.
    let f = bare_field("needs_default", &["String"]);
    let r = generate_field_extractors(&vec![f]);
    assert_eq!(r, Err(ConfigError::MissingDefault("needs_default".to_string())));

    // A collection without its own path is refused.
    let mut f = bare_field("needs_path", &["Vec"]);
    f.text = true;
    let r = generate_field_extractors(&vec![f]);
    assert_eq!(r, Err(ConfigError::VectorWithoutPath("needs_path".to_string())));

    // A field path the selector grammar rejects is refused eagerly.
    let mut f = bare_field("bad_path", &["Option"]);
    f.path = Some("??not-a-selector".to_string());
    let r = generate_field_extractors(&vec![f]);
    assert_eq!(
        r,
        Err(ConfigError::InvalidSelector("??not-a-selector".to_string()))
    );

    // A tuple field is refused.
    let mut f = bare_field("x", &["Option"]);
    f.ident = None;
    let r = generate_field_extractors(&vec![f]);
    assert_eq!(r, Err(ConfigError::TupleField));
}

#[test]
fn css_selector_test_select_list() {
    let mut link_text = bare_field("link_text", &["Vec"]);
    link_text.path = Some(".list-item>a".to_string());
    link_text.default = Some("link_text_default_value".to_string());
    link_text.text = true;

    let mut item_html = bare_field("item_html", &["String"]);
    item_html.default = Some("item_class_default_value".to_string());

    let mut item_class = bare_field("item_class", &["Option"]);
    item_class.attr = Some("class".to_string());

    let model = StructModel {
        ident: "ExtractListResult".to_string(),
        is_named_struct: true,
        container_path: Some(".list".to_string()),
        fields: vec![link_text, item_html, item_class],
    };
    let plan = reqwest_scraper::css_derive::expand_derive_from_response(&model).unwrap();
    assert_eq!(plan.type_ident, "ExtractListResult");
    assert_eq!(plan.container_path.as_deref(), Some(".list"));
    assert_eq!(plan.fields.len(), 3);
    assert_eq!(plan.fields[0].shape, PathType::Vector);
    assert_eq!(plan.fields[0].extractor, Extractor::Text);
    assert_eq!(plan.fields[1].shape, PathType::Other);
    assert_eq!(plan.fields[1].extractor, Extractor::Html);
    assert_eq!(plan.fields[2].shape, PathType::Optional);
    assert_eq!(plan.fields[2].extractor, Extractor::Attr("class".to_string()));
}

#[test]
fn css_selector_test_select_item() {
    let mut link_text = bare_field("link_text", &["String"]);
    link_text.path = Some(".link>a".to_string());
    link_text.default = Some("\"xxx\"".to_string());
    link_text.text = true;

    let mut item_html = bare_field("item_html", &["Option"]);
    item_html.path = Some(".link>a".to_string());
    item_html.html = true;

    let model = StructModel {
        ident: "ExtractListResult".to_string(),
        is_named_struct: true,
        container_path: None,
        fields: vec![link_text, item_html],
    };
    let plan = reqwest_scraper::css_derive::expand_derive_from_response(&model).unwrap();
    assert_eq!(plan.container_path, None);
    assert_eq!(plan.fields.len(), 2);
    assert_eq!(plan.fields[0].default.as_deref(), Some("\"xxx\""));
    assert_eq!(plan.fields[1].extractor, Extractor::Html);
}

#[test]
fn derive_rejects_non_struct_input() {
    let model = StructModel {
        ident: "AnEnum".to_string(),
        is_named_struct: false,
        container_path: None,
        fields: vec![],
    };
    let r = reqwest_scraper::css_derive::expand_derive_from_response(&model);
    assert_eq!(r, Err(ConfigError::NotNamedStruct("AnEnum".to_string())));
}

#[test]
fn xpath_test_select_list() {
    let link_text = XPathFieldSpec {
        ident: Some("link_text".to_string()),
        ty: ty(&["Vec"]),
        path: "/li/a/@text".to_string(),
        default: None,
    };
    let item_html = XPathFieldSpec {
        ident: Some("item_html".to_string()),
        ty: ty(&["String"]),
        path: "/li/a".to_string(),
        default: Some("xxx".to_string()),
    };
    let item_class = XPathFieldSpec {
        ident: Some("item_class".to_string()),
        ty: ty(&["Option"]),
        path: "/li/a/@class".to_string(),
        default: None,
    };
    let model = XPathStructModel {
        ident: "ExtractListResult".to_string(),
        is_named_struct: true,
        container_path: Some("//div[id=\"root\"]".to_string()),
        fields: vec![link_text, item_html, item_class],
    };
    let plan = expand_xpath(&model).unwrap();
    assert_eq!(plan.fields.len(), 3);
    assert_eq!(plan.fields[0].shape, PathType::Vector);
    assert_eq!(plan.fields[1].shape, PathType::Other);
    assert_eq!(plan.fields[2].shape, PathType::Optional);
}

#[test]
fn xpath_test_select_item() {
    let link_text = XPathFieldSpec {
        ident: Some("link_text".to_string()),
        ty: ty(&["String"]),
        path: "/ul[id='list']/li/a/@text".to_string(),
        default: Some("xxx".to_string()),
    };
    let item_html = XPathFieldSpec {
        ident: Some("item_html".to_string()),
        ty: ty(&["Option"]),
        path: "/link/a".to_string(),
        default: None,
    };
    let model = XPathStructModel {
        ident: "ExtractListResult".to_string(),
        is_named_struct: true,
        container_path: None,
        fields: vec![link_text, item_html],
    };
    let plan = expand_xpath(&model).unwrap();
    assert_eq!(plan.container_path, None);
    assert_eq!(plan.fields[0].default.as_deref(), Some("xxx"));
}

#[test]
fn xpath_missing_default_is_refused() {
    let f = XPathFieldSpec {
        ident: Some("item_html".to_string()),
        ty: ty(&["String"]),
        path: "/li/a".to_string(),
        default: None,
    };
    let r = generate_list_item_field_extractors(&vec![f]);
    assert_eq!(r, Err(ConfigError::MissingDefault("item_html".to_string())));
}

#[test]
fn xpath_values_resolve_per_shape() {
    let scalar = reqwest_scraper::xpath::XPathFieldPlan {
        ident: "f".to_string(),
        shape: PathType::Other,
        path: "./td[1]".to_string(),
        default: Some("dflt".to_string()),
    };
    let empty: Vec<String> = vec![];
    assert_eq!(
        xpath_resolve_field(&scalar, &empty),
        reqwest_scraper::css_derive::FieldValue::Scalar("dflt".to_string())
    );
    let values = vec!["first".to_string(), "second".to_string()];
    assert_eq!(
        xpath_resolve_field(&scalar, &values),
        reqwest_scraper::css_derive::FieldValue::Scalar("first".to_string())
    );

    let many = reqwest_scraper::xpath::XPathFieldPlan {
        ident: "f".to_string(),
        shape: PathType::Vector,
        path: "./td".to_string(),
        default: None,
    };
    assert_eq!(
        xpath_resolve_field(&many, &values),
        reqwest_scraper::css_derive::FieldValue::Collection(values.clone())
    );

    let plans = vec![many];
    let rows = vec![
        XPathRow { field_values: vec![vec!["a".to_string()]] },
        XPathRow { field_values: vec![vec![]] },
    ];
    let out = xpath_extract_all(&plans, &rows);
    assert_eq!(out.len(), 2);
    assert_eq!(
        out[0],
        vec![reqwest_scraper::css_derive::FieldValue::Collection(vec!["a".to_string()])]
    );
    assert_eq!(
        out[1],
        vec![reqwest_scraper::css_derive::FieldValue::Collection(vec![])]
    );
}
