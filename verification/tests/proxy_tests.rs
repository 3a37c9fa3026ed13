use reqwest_scraper::css_derive::ElementData;
use reqwest_scraper::proxy::{
    display_text, privacy_from_level, proxy_type_from_code, proxy_type_from_flag, Privacy,
    ProxyError, ProxyPool, ProxyType,
};
use reqwest_scraper::text::substr_between;

#[test]
fn pool_constructs() {
    let _pool = ProxyPool::new();
}

#[test]
fn protocol_classification() {
    assert_eq!(ProxyType::from_str("http"), Ok(ProxyType::Http));
    assert_eq!(ProxyType::from_str("HTTP"), Ok(ProxyType::Http));
    assert_eq!(ProxyType::from_str("https"), Ok(ProxyType::Https));
    assert_eq!(ProxyType::from_str("http/s"), Ok(ProxyType::Https));
    assert_eq!(ProxyType::from_str("HTTP(S)"), Ok(ProxyType::Https));
    assert_eq!(ProxyType::from_str("socks"), Ok(ProxyType::Socks));
    assert_eq!(ProxyType::from_str("SOCKS5"), Ok(ProxyType::Socks));
    assert_eq!(
        ProxyType::from_str("socks4"),
        Err(ProxyError::ProtocolParseErr("socks4 not support".to_string()))
    );
    assert_eq!(
        ProxyType::from_str("Gopher"),
        Err(ProxyError::ProtocolParseErr("gopher".to_string()))
    );
}

#[test]
fn privacy_classification() {
    assert_eq!(Privacy::from_str("\u{9ad8}\u{533f}"), Privacy::HighAnonymity);
    assert_eq!(Privacy::from_str("very high anonymous proxy"), Privacy::HighAnonymity);
    assert_eq!(Privacy::from_str("\u{666e}\u{533f}"), Privacy::Anonymity);
    assert_eq!(Privacy::from_str("\u{666e}\u{901a}"), Privacy::Anonymity);
    assert_eq!(Privacy::from_str("\u{533f}\u{540d}"), Privacy::Anonymity);
    assert_eq!(Privacy::from_str("anonymous"), Privacy::Anonymity);
    assert_eq!(Privacy::from_str("transparent"), Privacy::Unknown);
}

#[test]
fn flag_and_level_classification() {
    assert_eq!(
        proxy_type_from_flag(&Some("iyes".to_string()), "iyes"),
        ProxyType::Https
    );
    assert_eq!(
        proxy_type_from_flag(&Some("ino".to_string()), "iyes"),
        ProxyType::Http
    );
    assert_eq!(proxy_type_from_flag(&None, "iyes"), ProxyType::Http);
    assert_eq!(
        proxy_type_from_flag(&Some("my_https_status_green".to_string()), "my_https_status_green"),
        ProxyType::Https
    );
    assert_eq!(proxy_type_from_code("1", "1"), ProxyType::Https);
    assert_eq!(proxy_type_from_code("0", "1"), ProxyType::Http);
    assert_eq!(proxy_type_from_code("21", "1"), ProxyType::Http);
    assert_eq!(privacy_from_level(4), Privacy::HighAnonymity);
    assert_eq!(privacy_from_level(2), Privacy::Anonymity);
    assert_eq!(privacy_from_level(0), Privacy::Unknown);
}

#[test]
fn hidden_children_are_skipped() {
    let visible = ElementData {
        name: "span".to_string(),
        id: None,
        classes: vec![],
        attrs: vec![],
        text: "1.2.".to_string(),
        html: String::new(),
        inner_html: String::new(),
    };
    let mut decoy = visible.clone();
    decoy.text = "9.9.".to_string();
    decoy.attrs = vec![("style".to_string(), "display:none".to_string())];
    let mut styled_visible = visible.clone();
    styled_visible.text = "3.4".to_string();
    styled_visible.attrs = vec![("style".to_string(), "color:red".to_string())];
    let children = vec![visible, decoy, styled_visible];
    assert_eq!(display_text(&children), "1.2.3.4");
}

#[test]
fn substring_between_markers() {
    let html = "prefix const fpsList = [{\"ip\":\"1.2.3.4\"}]; suffix";
    assert_eq!(
        substr_between(html, "const fpsList = ", ";"),
        Some("[{\"ip\":\"1.2.3.4\"}]")
    );
    assert_eq!(substr_between(html, "missing", ";"), None);
    assert_eq!(substr_between("abc", "a", "zzz"), None);
    assert_eq!(substr_between("xaybz", "a", "b"), Some("y"));
}
