//! Response body decoding: pick the character encoding from the
//! Content-Type header or from the document's own meta tag, and decide
//! whether a response status admits scraping at all.

use vstd::prelude::*;
use crate::error::{ScraperError, ScraperErrorV};
use crate::text::{occurs_at, spec_is_space, spec_lower, str_to_chars, lower_chars, is_space};

verus! {

/// A character an encoding label may consist of.
pub open spec fn spec_label_char(c: char) -> bool {
    ('a' <= c && c <= 'z') || ('A' <= c && c <= 'Z') || ('0' <= c && c <= '9') || c == '-' || c
        == '_'
}

fn is_label_char(c: char) -> (r: bool)
    ensures
        r == spec_label_char(c),
{
    ('a' <= c && c <= 'z') || ('A' <= c && c <= 'Z') || ('0' <= c && c <= '9') || c == '-' || c
        == '_'
}

/// Where the run of label characters starting at `i` ends.
pub open spec fn label_run_end(s: Seq<char>, i: int) -> int
    decreases s.len() - i + 1,
{
    if 0 <= i && i < s.len() && spec_label_char(s[i]) {
        label_run_end(s, i + 1)
    } else {
        i
    }
}

/// Where the run of characters other than a tag close starting at `i` ends.
pub open spec fn tag_run_end(s: Seq<char>, i: int) -> int
    decreases s.len() - i + 1,
{
    if 0 <= i && i < s.len() && s[i] != '>' {
        tag_run_end(s, i + 1)
    } else {
        i
    }
}

proof fn lemma_label_run_bounds(s: Seq<char>, i: int)
    requires
        0 <= i <= s.len(),
    ensures
        i <= label_run_end(s, i) <= s.len(),
    decreases s.len() - i + 1,
{
    if 0 <= i && i < s.len() && spec_label_char(s[i]) {
        lemma_label_run_bounds(s, i + 1);
    }
}

proof fn lemma_tag_run_bounds(s: Seq<char>, i: int)
    requires
        0 <= i <= s.len(),
    ensures
        i <= tag_run_end(s, i) <= s.len(),
    decreases s.len() - i + 1,
{
    if 0 <= i && i < s.len() && s[i] != '>' {
        lemma_tag_run_bounds(s, i + 1);
    }
}

fn scan_label_run(v: &Vec<char>, i: usize) -> (r: usize)
    requires
        i <= v@.len(),
    ensures
        r == label_run_end(v@, i as int),
        i <= r <= v@.len(),
{
    proof {
        lemma_label_run_bounds(v@, i as int);
    }
    let n = v.len();
    let mut j = i;
    while j < n && is_label_char(v[j])
        invariant
            i <= j <= n,
            n == v@.len(),
            label_run_end(v@, i as int) == label_run_end(v@, j as int),
        decreases n - j,
    {
        j = j + 1;
    }
    j
}

fn scan_tag_run(v: &Vec<char>, i: usize) -> (r: usize)
    requires
        i <= v@.len(),
    ensures
        r == tag_run_end(v@, i as int),
        i <= r <= v@.len(),
{
    proof {
        lemma_tag_run_bounds(v@, i as int);
    }
    let n = v.len();
    let mut j = i;
    while j < n && v[j] != '>'
        invariant
            i <= j <= n,
            n == v@.len(),
            tag_run_end(v@, i as int) == tag_run_end(v@, j as int),
        decreases n - j,
    {
        j = j + 1;
    }
    j
}

/// The charset value declared at attribute position `p` of a tag, if the
/// text at `p` reads `charset=`, optionally a quote, and at least one
/// label character. Matching is over the lower-cased text; the value is
/// taken from the original.
pub open spec fn charset_value_at(s: Seq<char>, low: Seq<char>, p: int) -> Option<Seq<char>> {
    if occurs_at(low, "charset="@, p) {
        let q = if p + 8 < s.len() && (s[p + 8] == '\'' || s[p + 8] == '"') {
            p + 9
        } else {
            p + 8
        };
        let r = label_run_end(s, q);
        if r > q {
            Some(s.subrange(q, r))
        } else {
            None
        }
    } else {
        None
    }
}

/// The right-most declared charset between `lo` and `hi` within one tag,
/// as the greedy attribute scan finds it.
pub open spec fn best_charset_between(s: Seq<char>, low: Seq<char>, lo: int, hi: int) -> Option<
    Seq<char>,
>
    decreases hi - lo + 1,
{
    if hi < lo {
        None
    } else {
        match charset_value_at(s, low, hi) {
            Some(v) => Some(v),
            None => best_charset_between(s, low, lo, hi - 1),
        }
    }
}

/// The charset declared by the meta tag starting at `i`, if any: the tag
/// must open with `<meta` and whitespace, and its attribute region — up to
/// the closing bracket — must declare a charset.
pub open spec fn meta_charset_at(s: Seq<char>, low: Seq<char>, i: int) -> Option<Seq<char>> {
    if occurs_at(low, "<meta"@, i) && i + 5 < s.len() && spec_is_space(s[i + 5]) {
        let region = tag_run_end(s, i + 5);
        best_charset_between(s, low, i + 6, region - 8)
    } else {
        None
    }
}

/// The first meta-declared charset of a document, scanning left to right.
pub open spec fn spec_extract_charset(s: Seq<char>, low: Seq<char>, i: int) -> Option<Seq<char>>
    decreases s.len() - i,
{
    if i < 0 || i >= s.len() {
        None
    } else {
        match meta_charset_at(s, low, i) {
            Some(v) => Some(v),
            None => spec_extract_charset(s, low, i + 1),
        }
    }
}

/// Exec mirror of `charset_value_at`.
fn try_charset_value_at(v: &Vec<char>, low: &Vec<char>, p: usize) -> (r: Option<String>)
    requires
        v@.len() == low@.len(),
        p <= v@.len(),
    ensures
        crate::text::opt_view(r) == charset_value_at(v@, low@, p as int),
{
    let pat = str_to_chars("charset=");
    proof {
        reveal_strlit("charset=");
    }
    if !crate::text::match_at(low, &pat, p) {
        return None;
    }
    assert(p + 8 <= v@.len());
    let n = v.len();
    let q = if p + 8 < n && (v[p + 8] == '\'' || v[p + 8] == '"') {
        p + 9
    } else {
        p + 8
    };
    let r = scan_label_run(v, q);
    if r > q {
        Some(crate::text::chars_to_string(&crate::text::slice_chars(v, q, r)))
    } else {
        None
    }
}

/// The greedy right-to-left charset search within one tag region.
fn best_charset(v: &Vec<char>, low: &Vec<char>, lo: usize, hi: usize) -> (r: Option<String>)
    requires
        v@.len() == low@.len(),
        lo <= hi,
        hi <= v@.len(),
    ensures
        crate::text::opt_view(r) == best_charset_between(v@, low@, lo as int, hi as int),
{
    let mut h = hi;
    loop
        invariant
            lo <= h <= hi <= v@.len(),
            v@.len() == low@.len(),
            best_charset_between(v@, low@, lo as int, hi as int) == best_charset_between(
                v@,
                low@,
                lo as int,
                h as int,
            ),
        decreases h,
    {
        match try_charset_value_at(v, low, h) {
            Some(val) => {
                return Some(val);
            },
            None => {
                if h == lo {
                    assert(best_charset_between(v@, low@, lo as int, lo - 1) is None);
                    return None;
                }
                h = h - 1;
            },
        }
    }
}

/// Read the character-set name out of an HTML document's meta tag, when
/// one declares it.
pub fn extract_charset(html: &str) -> (r: Option<String>)
    ensures
        crate::text::opt_view(r) == spec_extract_charset(html@, spec_lower(html@), 0),
{
    let v = str_to_chars(html);
    let low = lower_chars(&v);
    let pat = str_to_chars("<meta");
    proof {
        reveal_strlit("<meta");
    }
    let n = v.len();
    let mut i: usize = 0;
    while i < n
        invariant
            i <= n,
            n == v@.len(),
            v@ == html@,
            low@ == spec_lower(html@),
            pat@ == "<meta"@,
            pat@.len() == 5,
            spec_extract_charset(v@, low@, 0) == spec_extract_charset(v@, low@, i as int),
        decreases n - i,
    {
        let found = if crate::text::match_at(&low, &pat, i) && n - i > 5 && is_space(v[i + 5]) {
            let region = scan_tag_run(&v, i + 5);
            if region >= 8 && region - 8 >= i + 6 {
                best_charset(&v, &low, i + 6, region - 8)
            } else {
                proof {
                    lemma_best_none_when_empty(v@, low@, i + 6, region - 8);
                }
                None
            }
        } else {
            None
        };
        match found {
            Some(val) => {
                assert(meta_charset_at(v@, low@, i as int) == Some(val@));
                return Some(val);
            },
            None => {
                assert(meta_charset_at(v@, low@, i as int) is None);
                i = i + 1;
            },
        }
    }
    None
}

proof fn lemma_best_none_when_empty(s: Seq<char>, low: Seq<char>, lo: int, hi: int)
    requires
        hi < lo,
    ensures
        best_charset_between(s, low, lo, hi) is None,
{
}

/// What every text decodes to under a given encoding label; relied on
/// below as a pure function of the label and the bytes.
pub uninterp spec fn decoded_text(label: Seq<char>, bytes: Seq<u8>) -> Seq<char>;

/// Relies on encoding_rs's Encoding::for_label and Encoding::decode: what
/// comes out depends on the label and the bytes alone, an unknown label
/// falling back to UTF-8, and empty input decoding to the empty string.
#[verifier::external_body]
fn decode_with_label(label: &str, bytes: &[u8]) -> (r: String)
    ensures
        r@ == decoded_text(label@, bytes@),
        bytes@.len() == 0 ==> r@.len() == 0,
{
    let encoding = encoding_rs::Encoding::for_label(label.as_bytes()).unwrap_or(
        encoding_rs::UTF_8,
    );
    let (text, _, _) = encoding.decode(bytes);
    text.into_owned()
}

/// What decoding a response body must produce: the header's charset when
/// the Content-Type named one; otherwise a UTF-8 reading, re-decoded with
/// the document's own meta charset when the reading reveals one.
pub open spec fn spec_decode_html(bytes: Seq<u8>, header_charset: Option<Seq<char>>) -> Seq<
    char,
> {
    match header_charset {
        Some(l) => decoded_text(l, bytes),
        None => {
            let probe = decoded_text("utf-8"@, bytes);
            match spec_extract_charset(probe, spec_lower(probe), 0) {
                Some(m) => decoded_text(m, bytes),
                None => probe,
            }
        },
    }
}

/// Decode a response body into text, honouring the header charset first
/// and the document's meta charset second.
pub fn decode_html(bytes: &[u8], header_charset: &Option<String>) -> (r: String)
    ensures
        r@ == spec_decode_html(bytes@, crate::text::opt_view(*header_charset)),
{
    match header_charset {
        Some(l) => decode_with_label(l.as_str(), bytes),
        None => {
            let probe = decode_with_label("utf-8", bytes);
            match extract_charset(probe.as_str()) {
                Some(m) => decode_with_label(m.as_str(), bytes),
                None => probe,
            }
        },
    }
}

/// Whether an HTTP status code is a success.
pub open spec fn spec_is_success(status: u16) -> bool {
    200 <= status < 300
}

/// Admit a response body for scraping exactly when the status is a
/// success; otherwise wrap url, status and body in the scraping error.
pub fn ensure_success(url: String, status: u16, body: String) -> (r: Result<String, ScraperError>)
    ensures
        spec_is_success(status) ==> r == Ok::<String, ScraperError>(body),
        !spec_is_success(status) ==> (r matches Err(e) && e@ == ScraperErrorV::HttpError(
            url@,
            status,
            body@,
        )),
{
    if 200 <= status && status < 300 {
        Ok(body)
    } else {
        Err(ScraperError::HttpError(url, status, body))
    }
}

} // verus!
