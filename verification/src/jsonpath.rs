//! Select fields of a JSON response with JSONPath expressions: a thin,
//! typed facade over the JSON parser and the path engine.

use vstd::prelude::*;
use crate::error::{ScraperError, ScraperErrorV};
use crate::text::str_to_chars;
use vstd::string::StringExecFns;

verus! {

#[verifier::external_type_specification]
#[verifier::external_body]
pub struct ExSerdeJsonValue(serde_json::Value);

/// Whether a text parses as a JSON document.
pub uninterp spec fn json_text_valid(s: Seq<char>) -> bool;

/// Whether the JSONPath grammar accepts this path text.
pub uninterp spec fn jsonpath_valid(path: Seq<char>) -> bool;

/// Relies on serde_json::from_str for Value: whether a text parses depends
/// on the text alone.
#[verifier::external_body]
fn parse_json(s: &str) -> (r: Result<serde_json::Value, String>)
    ensures
        r is Ok <==> json_text_valid(s@),
{
    serde_json::from_str::<serde_json::Value>(s).map_err(|e| e.to_string())
}


/// A decimal digit.
pub open spec fn spec_digit(c: char) -> bool {
    '0' <= c && c <= '9'
}

fn is_digit(c: char) -> (r: bool)
    ensures
        r == spec_digit(c),
{
    '0' <= c && c <= '9'
}

/// Where the digit run starting at `i` ends.
pub open spec fn digit_run_end(s: Seq<char>, i: int) -> int
    decreases s.len() - i + 1,
{
    if 0 <= i && i < s.len() && spec_digit(s[i]) {
        digit_run_end(s, i + 1)
    } else {
        i
    }
}

proof fn lemma_digit_run_bounds(s: Seq<char>, i: int)
    requires
        0 <= i <= s.len(),
    ensures
        i <= digit_run_end(s, i) <= s.len(),
    decreases s.len() - i + 1,
{
    if 0 <= i && i < s.len() && spec_digit(s[i]) {
        lemma_digit_run_bounds(s, i + 1);
    }
}

fn scan_digit_run(v: &Vec<char>, i: usize) -> (r: usize)
    requires
        i <= v@.len(),
    ensures
        r == digit_run_end(v@, i as int),
        i <= r <= v@.len(),
{
    proof {
        lemma_digit_run_bounds(v@, i as int);
    }
    let n = v.len();
    let mut j = i;
    while j < n && is_digit(v[j])
        invariant
            i <= j <= n,
            n == v@.len(),
            digit_run_end(v@, i as int) == digit_run_end(v@, j as int),
        decreases n - j,
    {
        j = j + 1;
    }
    j
}

/// The numeric value of one digit.
pub open spec fn spec_digit_val(c: char) -> int {
    (c as u32) - 48
}

/// The value of the digit run `s[a..b)`, read exactly up to three digits
/// and treated as beyond every screening threshold when longer.
pub open spec fn spec_exp_value(s: Seq<char>, a: int, b: int) -> int {
    if b - a == 1 {
        spec_digit_val(s[a])
    } else if b - a == 2 {
        spec_digit_val(s[a]) * 10 + spec_digit_val(s[a + 1])
    } else if b - a == 3 {
        spec_digit_val(s[a]) * 100 + spec_digit_val(s[a + 1]) * 10 + spec_digit_val(s[a + 2])
    } else {
        1000
    }
}

/// Screen one numeric literal starting at the digit at `i`: whether its
/// floating-point reading is certainly finite, and where the literal ends.
/// A literal of integer part length `L` and decimal exponent `E` reads
/// below ten to the `L + E`, so it is finite whenever `L + E` is at most
/// three hundred and eight; anything that could reach infinity is refused.
pub open spec fn spec_number_scan(s: Seq<char>, i: int) -> (bool, int) {
    let d1 = digit_run_end(s, i);
    let intlen = d1 - i;
    let frac_end = if d1 < s.len() && s[d1] == '.' {
        digit_run_end(s, d1 + 1)
    } else {
        d1
    };
    if frac_end < s.len() && (s[frac_end] == 'e' || s[frac_end] == 'E') {
        let es = frac_end + 1;
        let neg = es < s.len() && s[es] == '-';
        let ds = if es < s.len() && (s[es] == '-' || s[es] == '+') {
            es + 1
        } else {
            es
        };
        let de = digit_run_end(s, ds);
        if de == ds {
            (intlen < 309, frac_end)
        } else {
            let cap = if de - ds > 3 {
                1000int
            } else {
                spec_exp_value(s, ds, de)
            };
            if neg {
                (intlen < 309 + cap, de)
            } else {
                (intlen < 309 && intlen + cap < 309, de)
            }
        }
    } else {
        (intlen < 309, frac_end)
    }
}

/// One digit read as its value.
fn digit_value(c: char) -> (r: u32)
    requires
        spec_digit(c),
    ensures
        r == spec_digit_val(c),
        r <= 9,
{
    assert('0' as u32 == 48 && '9' as u32 == 57);
    (c as u32) - 48
}

/// Exec mirror of `spec_number_scan`.
#[verifier::rlimit(30)]
fn number_scan(v: &Vec<char>, i: usize) -> (r: (bool, usize))
    requires
        i < v@.len(),
        spec_digit(v@[i as int]),
    ensures
        spec_number_scan(v@, i as int) == (r.0, r.1 as int),
        i < r.1 <= v@.len(),
{
    let n = v.len();
    let d1 = scan_digit_run(v, i);
    proof {
        assert(digit_run_end(v@, i as int) == digit_run_end(v@, i + 1));
        lemma_digit_run_bounds(v@, i + 1);
    }
    let intlen = d1 - i;
    let frac_end = if d1 < n && v[d1] == '.' {
        scan_digit_run(v, d1 + 1)
    } else {
        d1
    };
    if frac_end < n && (v[frac_end] == 'e' || v[frac_end] == 'E') {
        let es = frac_end + 1;
        let neg = es < n && v[es] == '-';
        let ds = if es < n && (v[es] == '-' || v[es] == '+') {
            es + 1
        } else {
            es
        };
        let de = scan_digit_run(v, ds);
        if de == ds {
            (intlen < 309, frac_end)
        } else {
            proof {
                assert forall|m: int| ds <= m < de implies spec_digit(v@[m]) by {
                    lemma_digit_run_chars(v@, ds as int, m);
                }
            }
            let cap32: u32 = if de - ds > 3 {
                1000
            } else if de - ds == 1 {
                digit_value(v[ds])
            } else if de - ds == 2 {
                digit_value(v[ds]) * 10 + digit_value(v[ds + 1])
            } else {
                digit_value(v[ds]) * 100 + digit_value(v[ds + 1]) * 10 + digit_value(v[ds + 2])
            };
            let cap = cap32 as usize;
            assert(cap == spec_exp_value(v@, ds as int, de as int) || (de - ds > 3 && cap
                == 1000));
            if neg {
                (intlen < 309 + cap, de)
            } else {
                (intlen < 309 && intlen + cap < 309, de)
            }
        }
    } else {
        (intlen < 309, frac_end)
    }
}

proof fn lemma_digit_run_chars(s: Seq<char>, i: int, m: int)
    requires
        0 <= i <= s.len(),
        i <= m < digit_run_end(s, i),
    ensures
        spec_digit(s[m]),
    decreases s.len() - i + 1,
{
    if 0 <= i && i < s.len() && spec_digit(s[i]) {
        if m > i {
            lemma_digit_run_chars(s, i + 1, m);
        }
    }
}

/// A character that continues a key or path inside the engine's grammar:
/// a numeric literal never starts right after one.
pub open spec fn spec_path_word(c: char) -> bool {
    crate::text::spec_is_word_char(c) || c == '.' || c == '@' || c == '$'
}

fn is_path_word(c: char) -> (r: bool)
    ensures
        r == spec_path_word(c),
{
    crate::text::is_word_char(c) || c == '.' || c == '@' || c == '$'
}

/// Walk the path text and refuse what the engine's selection walk aborts
/// on. The state is the quote mode — open single or double quote, before
/// or after its one escaped closer, mirroring the engine's tokenizer — and
/// the bracket nesting depth. Every bracket group is screened: only a
/// filter puts one bracket group inside another, so a union or range form
/// in a nested group (a comma or colon at depth two or more) is refused,
/// and a numeric literal at a term position in any group is refused when
/// its floating-point reading could be infinite.
pub open spec fn spec_screen_from(s: Seq<char>, i: int, q: int, depth: int) -> bool
    decreases s.len() - i,
{
    if i < 0 || i >= s.len() {
        true
    } else {
        let c = s[i];
        if q == 1 || q == 3 {
            let qc = if q == 1 {
                '\''
            } else {
                '"'
            };
            if c == qc {
                if i > 0 && s[i - 1] == '\\' {
                    spec_screen_from(s, i + 1, q + 1, depth)
                } else {
                    spec_screen_from(s, i + 1, 0, depth)
                }
            } else {
                spec_screen_from(s, i + 1, q, depth)
            }
        } else if q == 2 || q == 4 {
            let qc = if q == 2 {
                '\''
            } else {
                '"'
            };
            if c == qc {
                spec_screen_from(s, i + 1, 0, depth)
            } else {
                spec_screen_from(s, i + 1, q, depth)
            }
        } else if c == '\'' {
            spec_screen_from(s, i + 1, 1, depth)
        } else if c == '"' {
            spec_screen_from(s, i + 1, 3, depth)
        } else if depth == 0 {
            if c == '[' {
                spec_screen_from(s, i + 1, 0, 1)
            } else {
                spec_screen_from(s, i + 1, 0, 0)
            }
        } else if c == '[' {
            spec_screen_from(s, i + 1, 0, depth + 1)
        } else if c == ']' {
            spec_screen_from(s, i + 1, 0, depth - 1)
        } else if (c == ',' || c == ':') && depth >= 2 {
            false
        } else if spec_digit(c) && !(i > 0 && spec_path_word(s[i - 1])) {
            let sc = spec_number_scan(s, i);
            if !sc.0 {
                false
            } else {
                spec_screen_from(
                    s,
                    if i < sc.1 <= s.len() {
                        sc.1
                    } else {
                        i + 1
                    },
                    0,
                    depth,
                )
            }
        } else if c == '-' && i + 1 < s.len() && spec_digit(s[i + 1]) && !(i > 0 && spec_path_word(
            s[i - 1],
        )) {
            let sc = spec_number_scan(s, i + 1);
            if !sc.0 {
                false
            } else {
                spec_screen_from(
                    s,
                    if i < sc.1 <= s.len() {
                        sc.1
                    } else {
                        i + 1
                    },
                    0,
                    depth,
                )
            }
        } else {
            spec_screen_from(s, i + 1, 0, depth)
        }
    }
}

/// Whether a path stays inside the subset of the path language whose
/// selection walk the engine completes.
pub open spec fn spec_path_screened(s: Seq<char>) -> bool {
    spec_screen_from(s, 0, 0, 0)
}

/// Exec mirror of `spec_path_screened`.
fn screen_path(v: &Vec<char>) -> (r: bool)
    ensures
        r == spec_path_screened(v@),
{
    let n = v.len();
    let mut i: usize = 0;
    let mut q: usize = 0;
    let mut depth: usize = 0;
    while i < n
        invariant
            i <= n,
            n == v@.len(),
            q <= 4,
            depth <= i,
            spec_path_screened(v@) == spec_screen_from(v@, i as int, q as int, depth as int),
        decreases n - i,
    {
        let c = v[i];
        if q == 1 || q == 3 {
            let qc = if q == 1 {
                '\''
            } else {
                '"'
            };
            if c == qc {
                if i > 0 && v[i - 1] == '\\' {
                    q = q + 1;
                } else {
                    q = 0;
                }
            }
            i = i + 1;
        } else if q == 2 || q == 4 {
            let qc = if q == 2 {
                '\''
            } else {
                '"'
            };
            if c == qc {
                q = 0;
            }
            i = i + 1;
        } else if c == '\'' {
            q = 1;
            i = i + 1;
        } else if c == '"' {
            q = 3;
            i = i + 1;
        } else if depth == 0 {
            if c == '[' {
                depth = 1;
            }
            i = i + 1;
        } else if c == '[' {
            depth = depth + 1;
            i = i + 1;
        } else if c == ']' {
            depth = depth - 1;
            i = i + 1;
        } else if (c == ',' || c == ':') && depth >= 2 {
            return false;
        } else if is_digit(c) && !(i > 0 && is_path_word(v[i - 1])) {
            let sc = number_scan(v, i);
            if !sc.0 {
                return false;
            }
            i = sc.1;
        } else if c == '-' && i + 1 < n && is_digit(v[i + 1]) && !(i > 0 && is_path_word(
            v[i - 1],
        )) {
            let sc = number_scan(v, i + 1);
            if !sc.0 {
                return false;
            }
            i = sc.1;
        } else {
            i = i + 1;
        }
    }
    true
}

/// The diagnostic for a path outside the screened subset.
fn screened_out_text(path: &str) -> (r: String)
    ensures
        r@ == "the \""@ + path@ + "\" jsonpath uses a filter form outside the supported subset"@,
{
    let mut s = String::new();
    s.append("the \"");
    s.append(path);
    s.append("\" jsonpath uses a filter form outside the supported subset");
    assert(s@ =~= "the \""@ + path@
        + "\" jsonpath uses a filter form outside the supported subset"@);
    s
}

/// Relies on jsonpath_lib's Selector (str_path, value, select): whether a
/// path compiles depends on its text alone, and with the document set a
/// compiled path on a screened path always selects — possibly nothing.
/// The screen is owed because the engine's walk aborts on filter terms
/// holding non-finite numeric literals and on union or range forms inside
/// filters; screened paths avoid every such arm.
#[verifier::external_body]
fn jsonpath_select(value: &serde_json::Value, path: &str) -> (r: Result<
    Vec<serde_json::Value>,
    String,
>)
    requires
        spec_path_screened(path@),
    ensures
        r is Ok <==> jsonpath_valid(path@),
{
    let mut selector = jsonpath_lib::Selector::new();
    let found = match selector.str_path(path) {
        Ok(sel) => sel.value(value).select(),
        Err(e) => {
            return Err(e.to_string());
        },
    };
    match found {
        Ok(vs) => Ok(vs.into_iter().cloned().collect()),
        Err(e) => Err(e.to_string()),
    }
}

/// Relies on jsonpath_lib's Selector::select_as_str: path acceptance
/// depends on the text alone, a compiled screened path always selects
/// with the document set, and rendering the selected values cannot fail.
/// The screen is owed for the same walk aborts as `jsonpath_select`.
#[verifier::external_body]
fn jsonpath_select_as_str(value: &serde_json::Value, path: &str) -> (r: Result<String, String>)
    requires
        spec_path_screened(path@),
    ensures
        r is Ok <==> jsonpath_valid(path@),
{
    let mut selector = jsonpath_lib::Selector::new();
    match selector.str_path(path) {
        Ok(sel) => sel.value(value).select_as_str().map_err(|e| e.to_string()),
        Err(e) => Err(e.to_string()),
    }
}

/// Relies on serde_json's Display for Value: renders one value as JSON
/// text.
#[verifier::external_body]
fn value_to_string(value: &serde_json::Value) -> String {
    value.to_string()
}

/// The diagnostic for a path that matched nothing.
fn no_match_text(path: &str) -> (r: String)
    ensures
        r@ == "The \""@ + path@ + "\" jsonpath did not find data in json"@,
{
    let mut s = String::new();
    s.append("The \"");
    s.append(path);
    s.append("\" jsonpath did not find data in json");
    assert(s@ =~= "The \""@ + path@ + "\" jsonpath did not find data in json"@);
    s
}

/// The first of the matched values, owed exactly when anything matched;
/// an empty match list is the no-match error for this path.
pub fn first_match(values: Vec<serde_json::Value>, path: &str) -> (r: Result<
    serde_json::Value,
    ScraperError,
>)
    ensures
        values@.len() > 0 ==> (r matches Ok(v) && v == values@[0]),
        values@.len() == 0 ==> (r matches Err(e) && e@ == ScraperErrorV::JsonPathMatchError(
            "The \""@ + path@ + "\" jsonpath did not find data in json"@,
        )),
{
    let mut values = values;
    if values.len() > 0 {
        let ghost pre = values@;
        let first = values.remove(0);
        assert(first == pre[0]);
        Ok(first)
    } else {
        Err(ScraperError::JsonPathMatchError(no_match_text(path)))
    }
}

/// A parsed JSON response.
pub struct Json {
    value: serde_json::Value,
}

impl Json {
    /// Parse a JSON text; fails exactly on texts the JSON grammar rejects.
    pub fn new(json: &str) -> (r: Result<Json, ScraperError>)
        ensures
            r is Ok <==> json_text_valid(json@),
            r matches Err(e) ==> e@ is JsonDeserializeError,
    {
        match parse_json(json) {
            Ok(value) => Ok(Json { value }),
            Err(msg) => Err(ScraperError::JsonDeserializeError(msg)),
        }
    }

    /// Every value the path selects, in match order; succeeds exactly when
    /// the path stays in the screened subset and its grammar is accepted.
    pub fn select(&self, path: &str) -> (r: Result<Vec<serde_json::Value>, ScraperError>)
        ensures
            r is Ok <==> (spec_path_screened(path@) && jsonpath_valid(path@)),
            r matches Err(e) ==> e@ is JsonPathError,
    {
        if !screen_path(&str_to_chars(path)) {
            return Err(ScraperError::JsonPathError(screened_out_text(path)));
        }
        match jsonpath_select(&self.value, path) {
            Ok(vs) => Ok(vs),
            Err(msg) => Err(ScraperError::JsonPathError(msg)),
        }
    }

    /// The single value the path selects: the first match, or — for an
    /// accepted, screened path that selected nothing — the no-match error.
    pub fn select_one(&self, path: &str) -> (r: Result<serde_json::Value, ScraperError>)
        ensures
            r is Ok ==> spec_path_screened(path@) && jsonpath_valid(path@),
            !(spec_path_screened(path@) && jsonpath_valid(path@)) ==> (r matches Err(e) && e@
                is JsonPathError),
            spec_path_screened(path@) && jsonpath_valid(path@) ==> (r is Ok || (r matches Err(e)
                && e@ == ScraperErrorV::JsonPathMatchError(
                "The \""@ + path@ + "\" jsonpath did not find data in json"@,
            ))),
    {
        match self.select(path) {
            Ok(vs) => first_match(vs, path),
            Err(e) => Err(e),
        }
    }

    /// The selected values rendered as one JSON array text; succeeds
    /// exactly when the path stays in the screened subset and its grammar
    /// is accepted.
    pub fn select_as_str(&self, path: &str) -> (r: Result<String, ScraperError>)
        ensures
            r is Ok <==> (spec_path_screened(path@) && jsonpath_valid(path@)),
            r matches Err(e) ==> e@ is JsonPathError,
    {
        if !screen_path(&str_to_chars(path)) {
            return Err(ScraperError::JsonPathError(screened_out_text(path)));
        }
        match jsonpath_select_as_str(&self.value, path) {
            Ok(s) => Ok(s),
            Err(msg) => Err(ScraperError::JsonPathError(msg)),
        }
    }

    /// The single selected value rendered as JSON text: the first match,
    /// or — for an accepted, screened path that selected nothing — the
    /// no-match error.
    pub fn select_one_as_str(&self, path: &str) -> (r: Result<String, ScraperError>)
        ensures
            r is Ok ==> spec_path_screened(path@) && jsonpath_valid(path@),
            !(spec_path_screened(path@) && jsonpath_valid(path@)) ==> (r matches Err(e) && e@
                is JsonPathError),
            spec_path_screened(path@) && jsonpath_valid(path@) ==> (r is Ok || (r matches Err(e)
                && e@ == ScraperErrorV::JsonPathMatchError(
                "The \""@ + path@ + "\" jsonpath did not find data in json"@,
            ))),
    {
        match self.select(path) {
            Ok(vs) => match first_match(vs, path) {
                Ok(v) => Ok(value_to_string(&v)),
                Err(e) => Err(e),
            },
            Err(e) => Err(e),
        }
    }
}

} // verus!
