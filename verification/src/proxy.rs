//! The proxy-pool companion's decision logic: protocol and privacy
//! classification of fetched proxy rows, and the text filter used when a
//! listing hides decoy elements.

use vstd::prelude::*;
use crate::css_derive::{spec_attr_lookup, ElementData, ElementV};
use crate::text::{
    contains_sub, eq_str, lower_chars, opt_view, spec_contains, spec_lower, str_to_chars,
};
use vstd::string::StringExecFns;

verus! {

/// The proxy pool handle.
pub struct ProxyPool {}

impl ProxyPool {
    /// A fresh, empty pool.
    pub fn new() -> (r: ProxyPool)
        ensures
            r == (ProxyPool {  }),
    {
        ProxyPool {  }
    }
}

/// A proxy's protocol.
#[derive(Debug, Clone, Copy, PartialEq, Eq, Structural)]
pub enum ProxyType {
    Http,
    Https,
    Socks,
}

/// A proxy's anonymity level.
#[derive(Debug, Clone, Copy, PartialEq, Eq, Structural)]
pub enum Privacy {
    Unknown,
    Anonymity,
    HighAnonymity,
}

/// A fetched proxy: its address as plain host and port, its protocol and
/// its privacy level.
#[derive(Debug, Clone, PartialEq, Eq)]
pub struct Proxy {
    pub host: String,
    pub port: u16,
    pub ty: ProxyType,
    pub pri: Privacy,
}

/// A failure to classify a proxy row.
#[derive(Debug, Clone, PartialEq, Eq)]
pub enum ProxyError {
    /// The protocol column could not be read; the text is carried along.
    ProtocolParseErr(String),
}

/// What protocol classification answers for a lower-cased column text:
/// the protocol, or the error text carried back.
pub open spec fn spec_proxy_type(low: Seq<char>) -> Result<ProxyType, Seq<char>> {
    if low == "http"@ {
        Ok(ProxyType::Http)
    } else if low == "https"@ || low == "http/s"@ || low == "http(s)"@ {
        Ok(ProxyType::Https)
    } else if low == "socks"@ || low == "socks5"@ {
        Ok(ProxyType::Socks)
    } else if low == "socks4"@ {
        Err("socks4 not support"@)
    } else {
        Err(low)
    }
}

impl ProxyType {
    /// Classify a protocol column, ignoring ASCII case — the case folding
    /// is ASCII-only, so non-ASCII text is compared, and carried into the
    /// error, as it stands. The four-value socks flavour is declined
    /// explicitly; any other unknown text is carried back, lower-cased,
    /// in the error.
    pub fn from_str(protocol: &str) -> (r: Result<ProxyType, ProxyError>)
        ensures
            match r {
                Ok(t) => spec_proxy_type(spec_lower(protocol@)) == Ok::<ProxyType, Seq<char>>(t),
                Err(e) => (e matches ProxyError::ProtocolParseErr(m) && spec_proxy_type(
                    spec_lower(protocol@),
                ) == Err::<ProxyType, Seq<char>>(m@)),
            },
    {
        proof {
            reveal_strlit("http");
            reveal_strlit("https");
            reveal_strlit("http/s");
            reveal_strlit("http(s)");
            reveal_strlit("socks");
            reveal_strlit("socks5");
            reveal_strlit("socks4");
        }
        let low = crate::text::chars_to_string(&lower_chars(&str_to_chars(protocol)));
        if eq_str(low.as_str(), "http") {
            Ok(ProxyType::Http)
        } else if eq_str(low.as_str(), "https") || eq_str(low.as_str(), "http/s") || eq_str(
            low.as_str(),
            "http(s)",
        ) {
            Ok(ProxyType::Https)
        } else if eq_str(low.as_str(), "socks") || eq_str(low.as_str(), "socks5") {
            Ok(ProxyType::Socks)
        } else if eq_str(low.as_str(), "socks4") {
            let mut m = String::new();
            m.append("socks4 not support");
            assert(m@ =~= "socks4 not support"@);
            Err(ProxyError::ProtocolParseErr(m))
        } else {
            Err(ProxyError::ProtocolParseErr(low))
        }
    }
}

impl Privacy {
    /// Classify an anonymity column by the phrases it carries: the
    /// high-anonymity wordings first, then the plain-anonymity ones, and
    /// unknown otherwise.
    pub fn from_str(privacy: &str) -> (r: Privacy)
        ensures
            ({
                let s = privacy@;
                let high = spec_contains(s, "\u{9ad8}\u{533f}"@) || spec_contains(
                    s,
                    "high anonymous"@,
                );
                let anon = spec_contains(s, "\u{666e}\u{533f}"@) || spec_contains(
                    s,
                    "\u{666e}\u{901a}"@,
                ) || spec_contains(s, "\u{533f}\u{540d}"@) || spec_contains(s, "anonymous"@);
                &&& (high ==> r == Privacy::HighAnonymity)
                &&& (!high && anon ==> r == Privacy::Anonymity)
                &&& (!high && !anon ==> r == Privacy::Unknown)
            }),
    {
        let v = str_to_chars(privacy);
        if contains_sub(&v, &str_to_chars("\u{9ad8}\u{533f}")) || contains_sub(
            &v,
            &str_to_chars("high anonymous"),
        ) {
            return Privacy::HighAnonymity;
        }
        if contains_sub(&v, &str_to_chars("\u{666e}\u{533f}")) || contains_sub(
            &v,
            &str_to_chars("\u{666e}\u{901a}"),
        ) || contains_sub(&v, &str_to_chars("\u{533f}\u{540d}")) || contains_sub(
            &v,
            &str_to_chars("anonymous"),
        ) {
            return Privacy::Anonymity;
        }
        Privacy::Unknown
    }
}

/// Classify a listing's protocol flag column: a flag text containing the
/// marker means an encrypted proxy, anything else — the flag's absence
/// included — a plain one.
pub fn proxy_type_from_flag(flag: &Option<String>, marker: &str) -> (r: ProxyType)
    ensures
        match opt_view(*flag) {
            Some(f) => r == (if spec_contains(f, marker@) {
                ProxyType::Https
            } else {
                ProxyType::Http
            }),
            None => r == ProxyType::Http,
        },
{
    match flag {
        Some(f) => {
            if contains_sub(&str_to_chars(f.as_str()), &str_to_chars(marker)) {
                ProxyType::Https
            } else {
                ProxyType::Http
            }
        },
        None => ProxyType::Http,
    }
}

/// Classify a listing's protocol code column: exactly the encrypted-proxy
/// code means an encrypted proxy, any other code a plain one.
pub fn proxy_type_from_code(code: &str, https_code: &str) -> (r: ProxyType)
    ensures
        r == (if code@ == https_code@ {
            ProxyType::Https
        } else {
            ProxyType::Http
        }),
{
    if eq_str(code, https_code) {
        ProxyType::Https
    } else {
        ProxyType::Http
    }
}

/// Classify a numeric anonymity level as one listing reports it.
pub fn privacy_from_level(level: i32) -> (r: Privacy)
    ensures
        level == 4 ==> r == Privacy::HighAnonymity,
        level == 2 ==> r == Privacy::Anonymity,
        level != 4 && level != 2 ==> r == Privacy::Unknown,
{
    if level == 4 {
        Privacy::HighAnonymity
    } else if level == 2 {
        Privacy::Anonymity
    } else {
        Privacy::Unknown
    }
}

/// Whether an element is visible: no style attribute, or one that does not
/// hide it.
pub open spec fn spec_visible(e: ElementV) -> bool {
    match spec_attr_lookup(e.attrs, "style"@) {
        Some(st) => !spec_contains(st, "none"@),
        None => true,
    }
}

/// The concatenated text of the visible children, in order.
pub open spec fn spec_display_text(es: Seq<ElementV>) -> Seq<char>
    decreases es.len(),
{
    if es.len() == 0 {
        Seq::empty()
    } else {
        (if spec_visible(es[0]) {
            es[0].text
        } else {
            Seq::empty()
        }) + spec_display_text(es.drop_first())
    }
}

/// The text of an element's visible children, skipping children styled
/// away to mislead scrapers.
pub fn display_text(children: &Vec<ElementData>) -> (r: String)
    ensures
        r@ == spec_display_text(children@.map_values(|e: ElementData| e@)),
{
    let ghost cv = children@.map_values(|e: ElementData| e@);
    let mut out = String::new();
    let n = children.len();
    assert(cv.skip(0) =~= cv);
    for i in 0..n
        invariant
            n == children@.len(),
            cv == children@.map_values(|e: ElementData| e@),
            out@ + spec_display_text(cv.skip(i as int)) == spec_display_text(cv),
    {
        let ghost pre = out@;
        assert(cv.skip(i as int)[0] == cv[i as int]);
        assert(cv.skip(i as int).drop_first() =~= cv.skip(i + 1));
        let style_key = String::from_str("style");
        let visible = match crate::css_derive::attr_lookup(&children[i].attrs, &style_key) {
            Some(st) => !contains_sub(&str_to_chars(st.as_str()), &str_to_chars("none")),
            None => true,
        };
        if visible {
            out.append(children[i].text.as_str());
        }
        proof {
            assert(pre + spec_display_text(cv.skip(i as int)) =~= out@ + spec_display_text(
                cv.skip(i + 1),
            ));
        }
    }
    assert(cv.skip(n as int) =~= Seq::<ElementV>::empty());
    assert(out@ + Seq::<char>::empty() =~= out@);
    out
}

} // verus!
