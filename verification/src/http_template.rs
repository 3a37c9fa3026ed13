//! The request-template compiler: parses a multi-request text format into
//! named request specifications, resolves file-level variables (with a cycle
//! guard), classifies the remaining placeholders as call parameters or
//! environment lookups, and renders one request-issuing function per block.

use vstd::prelude::*;
use crate::error::{ConfigError, ConfigErrorV};
use crate::text::{
    chars_to_string, lower_chars, match_at, occurs_at, opt_view, slice_chars, spec_is_space,
    spec_is_word_char, spec_lower, str_to_chars, trim_chars,
};

verus! {

/// A character class the template grammar scans runs of. Word characters
/// — and with them placeholder, variable and request names — are ASCII:
/// a name holding other characters is not recognised and its text stays
/// literal.
#[derive(Debug, Clone, Copy, PartialEq, Eq, Structural)]
pub enum CharClass {
    /// ASCII letters, digits, underscore; the only characters a name may
    /// hold.
    Word,
    /// Whitespace.
    Space,
    /// Anything but whitespace.
    NonSpace,
    /// Anything but a line break.
    NonLine,
    /// The snippet-delimiter character.
    Hash,
    /// Digits and dots, as in an HTTP version number.
    DigitDot,
    /// What an environment default literal may hold: anything but braces
    /// and line breaks.
    DefaultChar,
    /// What a quoted literal may hold: anything but a quote or line break.
    LitChar,
}

/// Whether a character belongs to a class.
pub open spec fn spec_in_class(cl: CharClass, c: char) -> bool {
    match cl {
        CharClass::Word => spec_is_word_char(c),
        CharClass::Space => spec_is_space(c),
        CharClass::NonSpace => !spec_is_space(c),
        CharClass::NonLine => c != '\n',
        CharClass::Hash => c == '#',
        CharClass::DigitDot => ('0' <= c && c <= '9') || c == '.',
        CharClass::DefaultChar => c != '{' && c != '}' && c != '\n',
        CharClass::LitChar => c != '"' && c != '\n',
    }
}

fn in_class(cl: CharClass, c: char) -> (r: bool)
    ensures
        r == spec_in_class(cl, c),
{
    match cl {
        CharClass::Word => ('a' <= c && c <= 'z') || ('A' <= c && c <= 'Z') || ('0' <= c && c
            <= '9') || c == '_',
        CharClass::Space => c == ' ' || c == '\t' || c == '\n' || c == '\r',
        CharClass::NonSpace => !(c == ' ' || c == '\t' || c == '\n' || c == '\r'),
        CharClass::NonLine => c != '\n',
        CharClass::Hash => c == '#',
        CharClass::DigitDot => ('0' <= c && c <= '9') || c == '.',
        CharClass::DefaultChar => c != '{' && c != '}' && c != '\n',
        CharClass::LitChar => c != '"' && c != '\n',
    }
}

/// Where the run of class `cl` starting at `i` ends: the first position at
/// or after `i` holding no character of the class.
pub open spec fn run_end(cl: CharClass, s: Seq<char>, i: int) -> int
    decreases s.len() - i + 1,
{
    if 0 <= i && i < s.len() && spec_in_class(cl, s[i]) {
        run_end(cl, s, i + 1)
    } else {
        i
    }
}

/// A run never moves backwards and never leaves the text.
pub proof fn lemma_run_end_bounds(cl: CharClass, s: Seq<char>, i: int)
    requires
        0 <= i <= s.len(),
    ensures
        i <= run_end(cl, s, i) <= s.len(),
        forall|m: int| i <= m < run_end(cl, s, i) ==> spec_in_class(cl, s[m]),
        run_end(cl, s, i) < s.len() ==> !spec_in_class(cl, s[run_end(cl, s, i)]),
    decreases s.len() - i + 1,
{
    if 0 <= i && i < s.len() && spec_in_class(cl, s[i]) {
        lemma_run_end_bounds(cl, s, i + 1);
    }
}

/// Walk to the end of a character run.
fn scan_run(cl: CharClass, v: &Vec<char>, i: usize) -> (r: usize)
    requires
        i <= v@.len(),
    ensures
        r == run_end(cl, v@, i as int),
        i <= r <= v@.len(),
{
    proof {
        lemma_run_end_bounds(cl, v@, i as int);
    }
    let n = v.len();
    let mut j = i;
    while j < n && in_class(cl, v[j])
        invariant
            i <= j <= n,
            n == v@.len(),
            run_end(cl, v@, i as int) == run_end(cl, v@, j as int),
        decreases n - j,
    {
        j = j + 1;
    }
    j
}

/// A placeholder token of an interpolated string: a literal character, a
/// call parameter with an optional declared type, or an environment lookup
/// with an optional default literal.
#[derive(Debug, Clone, PartialEq, Eq)]
pub enum Token {
    Lit(String),
    Arg(String, Option<String>),
    Env(String, Option<String>),
}

/// Spec-level image of a `Token`.
pub enum TokenV {
    Lit(Seq<char>),
    Arg(Seq<char>, Option<Seq<char>>),
    Env(Seq<char>, Option<Seq<char>>),
}

impl View for Token {
    type V = TokenV;

    open spec fn view(&self) -> TokenV {
        match self {
            Token::Lit(cs) => TokenV::Lit(cs@),
            Token::Arg(n, t) => TokenV::Arg(n@, opt_view(*t)),
            Token::Env(n, d) => TokenV::Env(n@, opt_view(*d)),
        }
    }
}

/// Match an environment placeholder at `i`: `{{` name `}}`, or
/// `{{` name `:` default `}}`. Yields the token and the end position.
pub open spec fn match_env_at(s: Seq<char>, i: int) -> Option<(TokenV, int)> {
    if i + 1 < s.len() && s[i] == '{' && s[i + 1] == '{' {
        let j = run_end(CharClass::Word, s, i + 2);
        if j == i + 2 {
            None
        } else {
            let name = s.subrange(i + 2, j);
            if j + 1 < s.len() && s[j] == '}' && s[j + 1] == '}' {
                Some((TokenV::Env(name, None), j + 2))
            } else if j < s.len() && s[j] == ':' {
                let k = run_end(CharClass::Space, s, j + 1);
                let d = run_end(CharClass::DefaultChar, s, k);
                if d > k && d + 1 < s.len() && s[d] == '}' && s[d + 1] == '}' {
                    Some((TokenV::Env(name, Some(s.subrange(k, d))), d + 2))
                } else {
                    None
                }
            } else {
                None
            }
        }
    } else {
        None
    }
}

/// Match a call-parameter placeholder at `i`: `{` name `}`, or
/// `{` name `:` type `}`. Yields the token and the end position.
pub open spec fn match_arg_at(s: Seq<char>, i: int) -> Option<(TokenV, int)> {
    if i < s.len() && s[i] == '{' {
        let j = run_end(CharClass::Word, s, i + 1);
        if j == i + 1 {
            None
        } else {
            let name = s.subrange(i + 1, j);
            if j < s.len() && s[j] == '}' {
                Some((TokenV::Arg(name, None), j + 1))
            } else if j < s.len() && s[j] == ':' {
                let k = run_end(CharClass::Space, s, j + 1);
                let d = run_end(CharClass::Word, s, k);
                if d > k && d < s.len() && s[d] == '}' {
                    Some((TokenV::Arg(name, Some(s.subrange(k, d))), d + 1))
                } else {
                    None
                }
            } else {
                None
            }
        }
    } else {
        None
    }
}

/// Tokenize a template string: environment placeholders, call-parameter
/// placeholders, and everything else character by character.
pub open spec fn spec_scan(s: Seq<char>, i: int) -> Seq<TokenV>
    decreases s.len() - i,
{
    if i < 0 || i >= s.len() {
        Seq::empty()
    } else {
        match match_env_at(s, i) {
            Some((t, e)) => Seq::empty().push(t) + spec_scan(
                s,
                if e > i {
                    e
                } else {
                    i + 1
                },
            ),
            None => match match_arg_at(s, i) {
                Some((t, e)) => Seq::empty().push(t) + spec_scan(
                    s,
                    if e > i {
                        e
                    } else {
                        i + 1
                    },
                ),
                None => Seq::empty().push(TokenV::Lit(Seq::empty().push(s[i]))) + spec_scan(
                    s,
                    i + 1,
                ),
            },
        }
    }
}

/// Exec mirror of `match_env_at`.
fn try_env_at(v: &Vec<char>, i: usize) -> (r: Option<(Token, usize)>)
    requires
        i <= v@.len(),
    ensures
        match r {
            Some((t, e)) => match_env_at(v@, i as int) == Some((t@, e as int)) && i < e <= v@.len(),
            None => match_env_at(v@, i as int) is None,
        },
{
    let n = v.len();
    if i < n && i + 1 < n && v[i] == '{' && v[i + 1] == '{' {
        let j = scan_run(CharClass::Word, v, i + 2);
        if j == i + 2 {
            return None;
        }
        let name = chars_to_string(&slice_chars(v, i + 2, j));
        if j < n && j + 1 < n && v[j] == '}' && v[j + 1] == '}' {
            Some((Token::Env(name, None), j + 2))
        } else if j < n && v[j] == ':' {
            let k = scan_run(CharClass::Space, v, j + 1);
            let d = scan_run(CharClass::DefaultChar, v, k);
            if d > k && d < n && d + 1 < n && v[d] == '}' && v[d + 1] == '}' {
                let def = chars_to_string(&slice_chars(v, k, d));
                Some((Token::Env(name, Some(def)), d + 2))
            } else {
                None
            }
        } else {
            None
        }
    } else {
        None
    }
}

/// Exec mirror of `match_arg_at`.
fn try_arg_at(v: &Vec<char>, i: usize) -> (r: Option<(Token, usize)>)
    requires
        i <= v@.len(),
    ensures
        match r {
            Some((t, e)) => match_arg_at(v@, i as int) == Some((t@, e as int)) && i < e <= v@.len(),
            None => match_arg_at(v@, i as int) is None,
        },
{
    let n = v.len();
    if i < n && v[i] == '{' {
        let j = scan_run(CharClass::Word, v, i + 1);
        if j == i + 1 {
            return None;
        }
        let name = chars_to_string(&slice_chars(v, i + 1, j));
        if j < n && v[j] == '}' {
            Some((Token::Arg(name, None), j + 1))
        } else if j < n && v[j] == ':' {
            let k = scan_run(CharClass::Space, v, j + 1);
            let d = scan_run(CharClass::Word, v, k);
            if d > k && d < n && v[d] == '}' {
                let ty = chars_to_string(&slice_chars(v, k, d));
                Some((Token::Arg(name, Some(ty)), d + 1))
            } else {
                None
            }
        } else {
            None
        }
    } else {
        None
    }
}

/// The views of a token list.
pub open spec fn token_views(ts: Seq<Token>) -> Seq<TokenV> {
    ts.map_values(|t: Token| t@)
}

/// Tokenize a template string.
pub fn scan_tokens(v: &Vec<char>) -> (r: Vec<Token>)
    ensures
        token_views(r@) == spec_scan(v@, 0),
{
    let mut out: Vec<Token> = Vec::new();
    let n = v.len();
    let mut i: usize = 0;
    while i < n
        invariant
            i <= n,
            n == v@.len(),
            spec_scan(v@, 0) == token_views(out@) + spec_scan(v@, i as int),
        decreases n - i,
    {
        let ghost pre = out@;
        let step = match try_env_at(v, i) {
            Some((t, e)) => {
                let ghost tv = t@;
                out.push(t);
                proof {
                    assert(spec_scan(v@, i as int) == Seq::empty().push(tv) + spec_scan(
                        v@,
                        e as int,
                    ));
                    assert(token_views(out@) =~= token_views(pre).push(tv));
                    assert(token_views(pre) + spec_scan(v@, i as int) =~= token_views(out@)
                        + spec_scan(v@, e as int));
                }
                e
            },
            None => match try_arg_at(v, i) {
                Some((t, e)) => {
                    let ghost tv = t@;
                    out.push(t);
                    proof {
                        assert(spec_scan(v@, i as int) == Seq::empty().push(tv) + spec_scan(
                            v@,
                            e as int,
                        ));
                        assert(token_views(out@) =~= token_views(pre).push(tv));
                        assert(token_views(pre) + spec_scan(v@, i as int) =~= token_views(out@)
                            + spec_scan(v@, e as int));
                    }
                    e
                },
                None => {
                    let c = v[i];
                    let mut lit = String::new();
                    lit.push(c);
                    out.push(Token::Lit(lit));
                    proof {
                        let ghost tv = TokenV::Lit(Seq::empty().push(c));
                        assert(out@.last()@ == tv);
                        assert(spec_scan(v@, i as int) == Seq::empty().push(tv) + spec_scan(
                            v@,
                            i + 1,
                        ));
                        assert(token_views(out@) =~~= token_views(pre).push(tv));
                        assert(token_views(pre) + spec_scan(v@, i as int) =~~= token_views(out@)
                            + spec_scan(v@, i + 1));
                    }
                    i + 1
                },
            },
        };
        i = step;
    }
    assert(token_views(out@) + Seq::<TokenV>::empty() =~= token_views(out@));
    out
}

/// A call parameter of a generated request function: its name and its
/// declared type, when one was written.
#[derive(Debug, Clone, PartialEq, Eq)]
pub struct FormatArg {
    pub name: String,
    pub ty: Option<String>,
}

/// Spec-level image of a `FormatArg`.
pub struct FormatArgV {
    pub name: Seq<char>,
    pub ty: Option<Seq<char>>,
}

impl View for FormatArg {
    type V = FormatArgV;

    open spec fn view(&self) -> FormatArgV {
        FormatArgV { name: self.name@, ty: opt_view(self.ty) }
    }
}

/// An environment lookup of a generated request function: the variable name
/// and the default literal, when one was written.
#[derive(Debug, Clone, PartialEq, Eq)]
pub struct EnvVariable {
    pub name: String,
    pub default_value: Option<String>,
}

/// Spec-level image of an `EnvVariable`.
pub struct EnvVariableV {
    pub name: Seq<char>,
    pub default_value: Option<Seq<char>>,
}

impl View for EnvVariable {
    type V = EnvVariableV;

    open spec fn view(&self) -> EnvVariableV {
        EnvVariableV { name: self.name@, default_value: opt_view(self.default_value) }
    }
}

impl EnvVariable {
    /// The name of the local binding the environment value is read into.
    pub fn lowercase_name(&self) -> (r: String)
        ensures
            r@ == spec_lower(self.name@),
    {
        chars_to_string(&lower_chars(&str_to_chars(self.name.as_str())))
    }
}

/// The call parameters named by a token list, in order of appearance, with
/// repetitions.
pub open spec fn spec_args_of(ts: Seq<TokenV>) -> Seq<FormatArgV>
    decreases ts.len(),
{
    if ts.len() == 0 {
        Seq::empty()
    } else {
        let rest = spec_args_of(ts.drop_first());
        match ts[0] {
            TokenV::Arg(n, t) => Seq::empty().push(FormatArgV { name: n, ty: t }) + rest,
            _ => rest,
        }
    }
}

/// The environment lookups named by a token list, in order, with
/// repetitions.
pub open spec fn spec_envs_of(ts: Seq<TokenV>) -> Seq<EnvVariableV>
    decreases ts.len(),
{
    if ts.len() == 0 {
        Seq::empty()
    } else {
        let rest = spec_envs_of(ts.drop_first());
        match ts[0] {
            TokenV::Env(n, d) => Seq::empty().push(EnvVariableV { name: n, default_value: d })
                + rest,
            _ => rest,
        }
    }
}

/// Whether a token list holds any placeholder at all.
pub open spec fn spec_has_placeholder(ts: Seq<TokenV>) -> bool {
    exists|k: int| 0 <= k < ts.len() && !((#[trigger] ts[k]) is Lit)
}

/// An interpolated string, tokenized.
#[derive(Debug, Clone, PartialEq, Eq)]
pub struct FormatInterpolator {
    pub tokens: Vec<Token>,
}

impl View for FormatInterpolator {
    type V = Seq<TokenV>;

    open spec fn view(&self) -> Seq<TokenV> {
        token_views(self.tokens@)
    }
}

/// The views of an argument list.
pub open spec fn arg_views(xs: Seq<FormatArg>) -> Seq<FormatArgV> {
    xs.map_values(|x: FormatArg| x@)
}

/// The views of an environment-lookup list.
pub open spec fn env_views(xs: Seq<EnvVariable>) -> Seq<EnvVariableV> {
    xs.map_values(|x: EnvVariable| x@)
}

impl FormatInterpolator {
    /// The call parameters of this template, in order, with repetitions.
    pub fn args(&self) -> (r: Vec<FormatArg>)
        ensures
            arg_views(r@) == spec_args_of(self@),
    {
        let mut out: Vec<FormatArg> = Vec::new();
        let n = self.tokens.len();
        let ghost ts = self@;
        assert(ts.skip(0) =~= ts);
        for i in 0..n
            invariant
                n == self.tokens@.len(),
                ts == token_views(self.tokens@),
                spec_args_of(ts) == arg_views(out@) + spec_args_of(ts.skip(i as int)),
        {
            let ghost pre = out@;
            assert(ts.skip(i as int)[0] == ts[i as int]);
            assert(ts.skip(i as int).drop_first() =~= ts.skip(i + 1));
            match &self.tokens[i] {
                Token::Arg(name, ty) => {
                    let a = FormatArg { name: name.clone(), ty: ty.clone() };
                    let ghost av = a@;
                    out.push(a);
                    proof {
                        assert(arg_views(out@) =~= arg_views(pre).push(av));
                        assert(arg_views(pre) + (Seq::empty().push(av) + spec_args_of(
                            ts.skip(i + 1),
                        )) =~= arg_views(out@) + spec_args_of(ts.skip(i + 1)));
                    }
                },
                _ => {},
            }
        }
        assert(ts.skip(n as int) =~= Seq::<TokenV>::empty());
        assert(arg_views(out@) + Seq::<FormatArgV>::empty() =~= arg_views(out@));
        out
    }

    /// The environment lookups of this template, in order, with repetitions.
    pub fn envs(&self) -> (r: Vec<EnvVariable>)
        ensures
            env_views(r@) == spec_envs_of(self@),
    {
        let mut out: Vec<EnvVariable> = Vec::new();
        let n = self.tokens.len();
        let ghost ts = self@;
        assert(ts.skip(0) =~= ts);
        for i in 0..n
            invariant
                n == self.tokens@.len(),
                ts == token_views(self.tokens@),
                spec_envs_of(ts) == env_views(out@) + spec_envs_of(ts.skip(i as int)),
        {
            let ghost pre = out@;
            assert(ts.skip(i as int)[0] == ts[i as int]);
            assert(ts.skip(i as int).drop_first() =~= ts.skip(i + 1));
            match &self.tokens[i] {
                Token::Env(name, d) => {
                    let a = EnvVariable { name: name.clone(), default_value: d.clone() };
                    let ghost av = a@;
                    out.push(a);
                    proof {
                        assert(env_views(out@) =~= env_views(pre).push(av));
                        assert(env_views(pre) + (Seq::empty().push(av) + spec_envs_of(
                            ts.skip(i + 1),
                        )) =~= env_views(out@) + spec_envs_of(ts.skip(i + 1)));
                    }
                },
                _ => {},
            }
        }
        assert(ts.skip(n as int) =~= Seq::<TokenV>::empty());
        assert(env_views(out@) + Seq::<EnvVariableV>::empty() =~= env_views(out@));
        out
    }
}

/// A value template: a plain string, or an interpolated one.
#[derive(Debug, Clone, PartialEq, Eq)]
pub enum StrEnum {
    RawStr(String),
    Format(FormatInterpolator),
}

/// Spec-level image of a `StrEnum`.
pub enum StrEnumV {
    RawStr(Seq<char>),
    Format(Seq<TokenV>),
}

impl View for StrEnum {
    type V = StrEnumV;

    open spec fn view(&self) -> StrEnumV {
        match self {
            StrEnum::RawStr(s) => StrEnumV::RawStr(s@),
            StrEnum::Format(f) => StrEnumV::Format(f@),
        }
    }
}

/// What classifying one template string must produce: the string itself
/// when it holds no placeholder, its token list otherwise.
pub open spec fn spec_str_enum(s: Seq<char>) -> StrEnumV {
    if spec_has_placeholder(spec_scan(s, 0)) {
        StrEnumV::Format(spec_scan(s, 0))
    } else {
        StrEnumV::RawStr(s)
    }
}

impl StrEnum {
    /// Classify one template string.
    pub fn new(string: &str) -> (r: StrEnum)
        ensures
            r@ == spec_str_enum(string@),
    {
        let v = str_to_chars(string);
        let tokens = scan_tokens(&v);
        let mut found = false;
        let n = tokens.len();
        for i in 0..n
            invariant
                n == tokens@.len(),
                found == spec_has_placeholder(token_views(tokens@).take(i as int)),
        {
            let is_ph = match &tokens[i] {
                Token::Lit(_) => false,
                _ => true,
            };
            proof {
                let ghost tsv = token_views(tokens@);
                if is_ph {
                    assert(!(tsv.take(i + 1)[i as int] is Lit));
                } else if !found {
                    assert forall|k: int| 0 <= k < i + 1 implies (#[trigger] tsv.take(
                        i + 1,
                    )[k]) is Lit by {
                        if k < i {
                            assert(tsv.take(i as int)[k] is Lit);
                        }
                    }
                }
            }
            found = found || is_ph;
        }
        assert(token_views(tokens@).take(n as int) =~= token_views(tokens@));
        if found {
            StrEnum::Format(FormatInterpolator { tokens })
        } else {
            StrEnum::RawStr(string.to_owned())
        }
    }
}

/// Whether a name already occurs among collected call parameters.
pub open spec fn spec_arg_name_known(acc: Seq<FormatArgV>, name: Seq<char>) -> bool {
    exists|k: int| 0 <= k < acc.len() && (#[trigger] acc[k]).name == name
}

/// Append the parameters of `xs` to `acc`, skipping names already present.
pub open spec fn spec_push_unique_args(acc: Seq<FormatArgV>, xs: Seq<FormatArgV>) -> Seq<
    FormatArgV,
>
    decreases xs.len(),
{
    if xs.len() == 0 {
        acc
    } else {
        let acc2 = if spec_arg_name_known(acc, xs[0].name) {
            acc
        } else {
            acc.push(xs[0])
        };
        spec_push_unique_args(acc2, xs.drop_first())
    }
}

/// Whether a name already occurs among collected environment lookups.
pub open spec fn spec_env_name_known(acc: Seq<EnvVariableV>, name: Seq<char>) -> bool {
    exists|k: int| 0 <= k < acc.len() && (#[trigger] acc[k]).name == name
}

/// Append the lookups of `xs` to `acc`, skipping names already present.
pub open spec fn spec_push_unique_envs(acc: Seq<EnvVariableV>, xs: Seq<EnvVariableV>) -> Seq<
    EnvVariableV,
>
    decreases xs.len(),
{
    if xs.len() == 0 {
        acc
    } else {
        let acc2 = if spec_env_name_known(acc, xs[0].name) {
            acc
        } else {
            acc.push(xs[0])
        };
        spec_push_unique_envs(acc2, xs.drop_first())
    }
}

/// One header line of a request: its key and its value template.
#[derive(Debug, Clone, PartialEq, Eq)]
pub struct Header {
    pub key: String,
    pub value: StrEnum,
}

/// Spec-level image of a `Header`.
pub struct HeaderV {
    pub key: Seq<char>,
    pub value: StrEnumV,
}

impl View for Header {
    type V = HeaderV;

    open spec fn view(&self) -> HeaderV {
        HeaderV { key: self.key@, value: self.value@ }
    }
}

/// The views of a header list.
pub open spec fn header_views(hs: Seq<Header>) -> Seq<HeaderV> {
    hs.map_values(|h: Header| h@)
}

/// One named request: method, url template, headers, optional body.
#[derive(Debug, Clone, PartialEq, Eq)]
pub struct HttpRequest {
    pub method: String,
    pub url: StrEnum,
    pub headers: Vec<Header>,
    pub body: Option<StrEnum>,
}

/// Spec-level image of an `HttpRequest`.
pub struct HttpRequestV {
    pub method: Seq<char>,
    pub url: StrEnumV,
    pub headers: Seq<HeaderV>,
    pub body: Option<StrEnumV>,
}

impl View for HttpRequest {
    type V = HttpRequestV;

    open spec fn view(&self) -> HttpRequestV {
        HttpRequestV {
            method: self.method@,
            url: self.url@,
            headers: header_views(self.headers@),
            body: match &self.body {
                Some(b) => Some(b@),
                None => None,
            },
        }
    }
}

/// The call parameters of one value template.
pub open spec fn spec_args_of_value(se: StrEnumV) -> Seq<FormatArgV> {
    match se {
        StrEnumV::RawStr(_) => Seq::empty(),
        StrEnumV::Format(ts) => spec_args_of(ts),
    }
}

/// The environment lookups of one value template.
pub open spec fn spec_envs_of_value(se: StrEnumV) -> Seq<EnvVariableV> {
    match se {
        StrEnumV::RawStr(_) => Seq::empty(),
        StrEnumV::Format(ts) => spec_envs_of(ts),
    }
}

/// Fold the headers' parameters into the accumulator, in header order.
pub open spec fn spec_collect_header_args(acc: Seq<FormatArgV>, hs: Seq<HeaderV>) -> Seq<
    FormatArgV,
>
    decreases hs.len(),
{
    if hs.len() == 0 {
        acc
    } else {
        spec_collect_header_args(
            spec_push_unique_args(acc, spec_args_of_value(hs[0].value)),
            hs.drop_first(),
        )
    }
}

/// Fold the headers' environment lookups into the accumulator, in order.
pub open spec fn spec_collect_header_envs(acc: Seq<EnvVariableV>, hs: Seq<HeaderV>) -> Seq<
    EnvVariableV,
>
    decreases hs.len(),
{
    if hs.len() == 0 {
        acc
    } else {
        spec_collect_header_envs(
            spec_push_unique_envs(acc, spec_envs_of_value(hs[0].value)),
            hs.drop_first(),
        )
    }
}

/// All call parameters of a request: the url's, then each header's, then
/// the body's, first appearance of each name winning.
pub open spec fn spec_collect_args(r: HttpRequestV) -> Seq<FormatArgV> {
    let a1 = spec_push_unique_args(Seq::empty(), spec_args_of_value(r.url));
    let a2 = spec_collect_header_args(a1, r.headers);
    match r.body {
        Some(b) => spec_push_unique_args(a2, spec_args_of_value(b)),
        None => a2,
    }
}

/// All environment lookups of a request, first appearance of each name
/// winning.
pub open spec fn spec_collect_envs(r: HttpRequestV) -> Seq<EnvVariableV> {
    let a1 = spec_push_unique_envs(Seq::empty(), spec_envs_of_value(r.url));
    let a2 = spec_collect_header_envs(a1, r.headers);
    match r.body {
        Some(b) => spec_push_unique_envs(a2, spec_envs_of_value(b)),
        None => a2,
    }
}

/// Whether an argument name is already collected.
fn arg_name_known(acc: &Vec<FormatArg>, name: &String) -> (r: bool)
    ensures
        r == spec_arg_name_known(arg_views(acc@), name@),
{
    let n = acc.len();
    for i in 0..n
        invariant
            n == acc@.len(),
            forall|k: int| 0 <= k < i ==> (#[trigger] arg_views(acc@)[k]).name != name@,
    {
        if acc[i].name == *name {
            assert(arg_views(acc@)[i as int].name == name@);
            return true;
        }
    }
    false
}

/// Whether an environment name is already collected.
fn env_name_known(acc: &Vec<EnvVariable>, name: &String) -> (r: bool)
    ensures
        r == spec_env_name_known(env_views(acc@), name@),
{
    let n = acc.len();
    for i in 0..n
        invariant
            n == acc@.len(),
            forall|k: int| 0 <= k < i ==> (#[trigger] env_views(acc@)[k]).name != name@,
    {
        if acc[i].name == *name {
            assert(env_views(acc@)[i as int].name == name@);
            return true;
        }
    }
    false
}

impl HttpRequest {
    /// Append the template's parameters whose names are not yet taken.
    pub fn push_arg_while_unique_name(args: Vec<FormatArg>, fmt: &FormatInterpolator) -> (r: Vec<
        FormatArg,
    >)
        ensures
            arg_views(r@) == spec_push_unique_args(arg_views(args@), spec_args_of(fmt@)),
    {
        let ghost args0 = arg_views(args@);
        let mut acc = args;
        let fmt_args = fmt.args();
        let ghost xs = spec_args_of(fmt@);
        let n = fmt_args.len();
        assert(xs.skip(0) =~= xs);
        for i in 0..n
            invariant
                n == fmt_args@.len(),
                arg_views(fmt_args@) == xs,
                spec_push_unique_args(arg_views(acc@), xs.skip(i as int))
                    == spec_push_unique_args(args0, xs),
        {
            let ghost pre = arg_views(acc@);
            assert(xs.skip(i as int)[0] == xs[i as int]);
            assert(xs.skip(i as int).drop_first() =~= xs.skip(i + 1));
            let known = arg_name_known(&acc, &fmt_args[i].name);
            if !known {
                let x = FormatArg {
                    name: fmt_args[i].name.clone(),
                    ty: match &fmt_args[i].ty {
                        Some(t) => Some(t.clone()),
                        None => None,
                    },
                };
                assert(x@ == xs[i as int]);
                acc.push(x);
                assert(arg_views(acc@) =~= pre.push(xs[i as int]));
            }
        }
        assert(xs.skip(n as int) =~= Seq::<FormatArgV>::empty());
        acc
    }

    /// Append the template's environment lookups whose names are not yet
    /// taken.
    pub fn push_env_while_unique_name(envs: Vec<EnvVariable>, fmt: &FormatInterpolator) -> (r: Vec<
        EnvVariable,
    >)
        ensures
            env_views(r@) == spec_push_unique_envs(env_views(envs@), spec_envs_of(fmt@)),
    {
        let ghost envs0 = env_views(envs@);
        let mut acc = envs;
        let fmt_envs = fmt.envs();
        let ghost xs = spec_envs_of(fmt@);
        let n = fmt_envs.len();
        assert(xs.skip(0) =~= xs);
        for i in 0..n
            invariant
                n == fmt_envs@.len(),
                env_views(fmt_envs@) == xs,
                spec_push_unique_envs(env_views(acc@), xs.skip(i as int))
                    == spec_push_unique_envs(envs0, xs),
        {
            let ghost pre = env_views(acc@);
            assert(xs.skip(i as int)[0] == xs[i as int]);
            assert(xs.skip(i as int).drop_first() =~= xs.skip(i + 1));
            let known = env_name_known(&acc, &fmt_envs[i].name);
            if !known {
                let x = EnvVariable {
                    name: fmt_envs[i].name.clone(),
                    default_value: match &fmt_envs[i].default_value {
                        Some(t) => Some(t.clone()),
                        None => None,
                    },
                };
                assert(x@ == xs[i as int]);
                acc.push(x);
                assert(env_views(acc@) =~= pre.push(xs[i as int]));
            }
        }
        assert(xs.skip(n as int) =~= Seq::<EnvVariableV>::empty());
        acc
    }

    /// The deduplicated call-parameter list of this request, in
    /// first-appearance order over url, headers and body.
    pub fn collect_args(&self) -> (r: Vec<FormatArg>)
        ensures
            arg_views(r@) == spec_collect_args(self@),
    {
        let mut args: Vec<FormatArg> = Vec::new();
        assert(arg_views(args@) =~= Seq::<FormatArgV>::empty());
        if let StrEnum::Format(fmt) = &self.url {
            args = Self::push_arg_while_unique_name(args, fmt);
        } else {
            assert(spec_push_unique_args(Seq::empty(), spec_args_of_value(self@.url))
                == arg_views(args@));
        }
        let ghost hv = header_views(self.headers@);
        let n = self.headers.len();
        assert(hv.skip(0) =~= hv);
        for i in 0..n
            invariant
                n == self.headers@.len(),
                hv == header_views(self.headers@),
                spec_collect_header_args(arg_views(args@), hv.skip(i as int))
                    == spec_collect_header_args(
                    spec_push_unique_args(Seq::empty(), spec_args_of_value(self@.url)),
                    hv,
                ),
        {
            assert(hv.skip(i as int)[0] == hv[i as int]);
            assert(hv.skip(i as int).drop_first() =~= hv.skip(i + 1));
            if let StrEnum::Format(fmt) = &self.headers[i].value {
                args = Self::push_arg_while_unique_name(args, fmt);
            }
        }
        assert(hv.skip(n as int) =~= Seq::<HeaderV>::empty());
        if let Some(StrEnum::Format(fmt)) = &self.body {
            args = Self::push_arg_while_unique_name(args, fmt);
        }
        args
    }

    /// The deduplicated environment-lookup list of this request, in
    /// first-appearance order over url, headers and body.
    pub fn collect_envs(&self) -> (r: Vec<EnvVariable>)
        ensures
            env_views(r@) == spec_collect_envs(self@),
    {
        let mut envs: Vec<EnvVariable> = Vec::new();
        assert(env_views(envs@) =~= Seq::<EnvVariableV>::empty());
        if let StrEnum::Format(fmt) = &self.url {
            envs = Self::push_env_while_unique_name(envs, fmt);
        } else {
            assert(spec_push_unique_envs(Seq::empty(), spec_envs_of_value(self@.url))
                == env_views(envs@));
        }
        let ghost hv = header_views(self.headers@);
        let n = self.headers.len();
        assert(hv.skip(0) =~= hv);
        for i in 0..n
            invariant
                n == self.headers@.len(),
                hv == header_views(self.headers@),
                spec_collect_header_envs(env_views(envs@), hv.skip(i as int))
                    == spec_collect_header_envs(
                    spec_push_unique_envs(Seq::empty(), spec_envs_of_value(self@.url)),
                    hv,
                ),
        {
            assert(hv.skip(i as int)[0] == hv[i as int]);
            assert(hv.skip(i as int).drop_first() =~= hv.skip(i + 1));
            if let StrEnum::Format(fmt) = &self.headers[i].value {
                envs = Self::push_env_while_unique_name(envs, fmt);
            }
        }
        assert(hv.skip(n as int) =~= Seq::<HeaderV>::empty());
        if let Some(StrEnum::Format(fmt)) = &self.body {
            envs = Self::push_env_while_unique_name(envs, fmt);
        }
        envs
    }
}

/// Match a variable use at `i`: `{{` name `}}` with nothing else inside.
pub open spec fn match_var_at(s: Seq<char>, i: int) -> Option<(Seq<char>, int)> {
    if i + 1 < s.len() && s[i] == '{' && s[i + 1] == '{' {
        let j = run_end(CharClass::Word, s, i + 2);
        if j == i + 2 {
            None
        } else if j + 1 < s.len() && s[j] == '}' && s[j + 1] == '}' {
            Some((s.subrange(i + 2, j), j + 2))
        } else {
            None
        }
    } else {
        None
    }
}

/// Exec mirror of `match_var_at`.
fn try_var_at(v: &Vec<char>, i: usize) -> (r: Option<(String, usize)>)
    requires
        i <= v@.len(),
    ensures
        match r {
            Some((name, e)) => match_var_at(v@, i as int) == Some((name@, e as int)) && i < e
                <= v@.len(),
            None => match_var_at(v@, i as int) is None,
        },
{
    let n = v.len();
    if i < n && i + 1 < n && v[i] == '{' && v[i + 1] == '{' {
        let j = scan_run(CharClass::Word, v, i + 2);
        if j == i + 2 {
            return None;
        }
        if j < n && j + 1 < n && v[j] == '}' && v[j + 1] == '}' {
            Some((chars_to_string(&slice_chars(v, i + 2, j)), j + 2))
        } else {
            None
        }
    } else {
        None
    }
}

/// The lines of a text, split on line breaks, from position `i` on.
pub open spec fn spec_lines_from(s: Seq<char>, i: int) -> Seq<Seq<char>>
    decreases s.len() - i + 1,
{
    let e = run_end(CharClass::NonLine, s, i);
    if e < i || e >= s.len() {
        Seq::empty().push(s.subrange(i, s.len() as int))
    } else {
        Seq::empty().push(s.subrange(i, e)) + spec_lines_from(s, e + 1)
    }
}

/// The lines of a text.
pub open spec fn spec_lines(s: Seq<char>) -> Seq<Seq<char>> {
    spec_lines_from(s, 0)
}

/// Split a text into its lines.
fn split_lines(v: &Vec<char>) -> (r: Vec<Vec<char>>)
    ensures
        r@.map_values(|l: Vec<char>| l@) == spec_lines(v@),
{
    let mut out: Vec<Vec<char>> = Vec::new();
    let n = v.len();
    let mut i: usize = 0;
    loop
        invariant
            i <= n,
            n == v@.len(),
            spec_lines(v@) == out@.map_values(|l: Vec<char>| l@) + spec_lines_from(v@, i as int),
        decreases n - i,
    {
        let ghost pre = out@;
        let e = scan_run(CharClass::NonLine, v, i);
        proof {
            lemma_run_end_bounds(CharClass::NonLine, v@, i as int);
        }
        if e >= n {
            let piece = slice_chars(v, i, n);
            let ghost pv = piece@;
            out.push(piece);
            proof {
                assert(out@.map_values(|l: Vec<char>| l@) =~= pre.map_values(
                    |l: Vec<char>| l@,
                ).push(pv));
                assert(spec_lines_from(v@, i as int) =~= Seq::empty().push(pv));
                assert(pre.map_values(|l: Vec<char>| l@) + spec_lines_from(v@, i as int)
                    =~= out@.map_values(|l: Vec<char>| l@));
            }
            return out;
        }
        let piece = slice_chars(v, i, e);
        let ghost pv = piece@;
        out.push(piece);
        proof {
            assert(out@.map_values(|l: Vec<char>| l@) =~= pre.map_values(
                |l: Vec<char>| l@,
            ).push(pv));
            assert(spec_lines_from(v@, i as int) == Seq::empty().push(pv) + spec_lines_from(
                v@,
                e + 1,
            ));
            assert(pre.map_values(|l: Vec<char>| l@) + spec_lines_from(v@, i as int)
                =~= out@.map_values(|l: Vec<char>| l@) + spec_lines_from(v@, e + 1));
        }
        i = e + 1;
    }
}

/// Match a variable-definition line: `@` name, optional spaces, `=`, and at
/// least one more character; the value is what follows the `=`, trimmed.
pub open spec fn spec_def_of_line(l: Seq<char>) -> Option<(Seq<char>, Seq<char>)> {
    if l.len() > 0 && l[0] == '@' {
        let j = run_end(CharClass::Word, l, 1);
        if j == 1 {
            None
        } else {
            let w = run_end(CharClass::Space, l, j);
            if w < l.len() && l[w] == '=' && l.len() > w + 1 {
                Some((l.subrange(1, j), crate::text::spec_trim(l.subrange(w + 1, l.len() as int))))
            } else {
                None
            }
        }
    } else {
        None
    }
}

/// Exec mirror of `spec_def_of_line`.
fn def_of_line(l: &Vec<char>) -> (r: Option<(String, String)>)
    ensures
        match r {
            Some((k, val)) => spec_def_of_line(l@) == Some((k@, val@)),
            None => spec_def_of_line(l@) is None,
        },
{
    let n = l.len();
    if n > 0 && l[0] == '@' {
        let j = scan_run(CharClass::Word, l, 1);
        if j == 1 {
            return None;
        }
        let w = scan_run(CharClass::Space, l, j);
        if w < n && l[w] == '=' && n > w + 1 {
            let key = chars_to_string(&slice_chars(l, 1, j));
            let val = chars_to_string(&trim_chars(l, w + 1, n));
            assert(l@.subrange(w + 1, n as int) == l@.subrange(w + 1, l@.len() as int));
            Some((key, val))
        } else {
            None
        }
    } else {
        None
    }
}

/// The variable table entries as sequences of name/value pairs.
pub open spec fn var_pair_views(vs: Seq<(String, String)>) -> Seq<(Seq<char>, Seq<char>)> {
    vs.map_values(|kv: (String, String)| (kv.0@, kv.1@))
}

/// Record one definition: replace the value of an existing name in place,
/// or append a new entry.
pub open spec fn spec_insert_var(
    vars: Seq<(Seq<char>, Seq<char>)>,
    k: Seq<char>,
    v: Seq<char>,
) -> Seq<(Seq<char>, Seq<char>)>
    decreases vars.len(),
{
    if vars.len() == 0 {
        Seq::empty().push((k, v))
    } else if vars[0].0 == k {
        Seq::empty().push((k, v)) + vars.drop_first()
    } else {
        Seq::empty().push(vars[0]) + spec_insert_var(vars.drop_first(), k, v)
    }
}

/// The variable table built from the definition lines, later definitions
/// of a name replacing earlier ones.
pub open spec fn spec_collect_vars(
    lines: Seq<Seq<char>>,
    acc: Seq<(Seq<char>, Seq<char>)>,
) -> Seq<(Seq<char>, Seq<char>)>
    decreases lines.len(),
{
    if lines.len() == 0 {
        acc
    } else {
        let acc2 = match spec_def_of_line(lines[0]) {
            Some((k, v)) => spec_insert_var(acc, k, v),
            None => acc,
        };
        spec_collect_vars(lines.drop_first(), acc2)
    }
}

/// Exec mirror of `spec_insert_var`.
fn insert_var(vars: Vec<(String, String)>, k: String, v: String) -> (r: Vec<(String, String)>)
    ensures
        var_pair_views(r@) == spec_insert_var(var_pair_views(vars@), k@, v@),
{
    let ghost vv = var_pair_views(vars@);
    let mut out: Vec<(String, String)> = Vec::new();
    let n = vars.len();
    let mut i: usize = 0;
    assert(vv.skip(0) =~= vv);
    while i < n
        invariant
            i <= n,
            n == vars@.len(),
            vv == var_pair_views(vars@),
            out@.len() == i,
            forall|m: int| 0 <= m < i ==> var_pair_views(out@)[m] == vv[m],
            forall|m: int| 0 <= m < i ==> vv[m].0 != k@,
            spec_insert_var(vv, k@, v@) == var_pair_views(out@) + spec_insert_var(
                vv.skip(i as int),
                k@,
                v@,
            ),
        decreases n - i,
    {
        let ghost pre = var_pair_views(out@);
        assert(vv.skip(i as int)[0] == vv[i as int]);
        assert(vv.skip(i as int).drop_first() =~= vv.skip(i + 1));
        if vars[i].0 == k {
            let mut rest: Vec<(String, String)> = Vec::new();
            rest.push((k, v));
            let ghost rv = var_pair_views(rest@);
            assert(rv =~= Seq::<(Seq<char>, Seq<char>)>::empty().push((k@, v@)));
            let mut m = i + 1;
            while m < n
                invariant
                    i + 1 <= m <= n,
                    n == vars@.len(),
                    vv == var_pair_views(vars@),
                    var_pair_views(rest@) == Seq::empty().push((k@, v@)) + vv.subrange(
                        i + 1,
                        m as int,
                    ),
                decreases n - m,
            {
                let ghost rpre = var_pair_views(rest@);
                let e0 = vars[m].0.clone();
                let e1 = vars[m].1.clone();
                rest.push((e0, e1));
                assert(var_pair_views(rest@) =~= rpre.push(vv[m as int]));
                assert(rpre.push(vv[m as int]) =~= Seq::empty().push((k@, v@)) + vv.subrange(
                    i + 1,
                    m + 1,
                ));
                m = m + 1;
            }
            let mut combined = out;
            let rn = rest.len();
            let ghost cpre = var_pair_views(combined@);
            let mut q: usize = 0;
            while q < rn
                invariant
                    q <= rn,
                    rn == rest@.len(),
                    var_pair_views(combined@) == cpre + var_pair_views(rest@).take(q as int),
                decreases rn - q,
            {
                let ghost cc = var_pair_views(combined@);
                let e0 = rest[q].0.clone();
                let e1 = rest[q].1.clone();
                combined.push((e0, e1));
                assert(var_pair_views(combined@) =~= cc.push(var_pair_views(rest@)[q as int]));
                assert(cc.push(var_pair_views(rest@)[q as int]) =~= cpre + var_pair_views(
                    rest@,
                ).take(q + 1));
                q = q + 1;
            }
            proof {
                assert(var_pair_views(rest@).take(rn as int) =~= var_pair_views(rest@));
                assert(vv.subrange(i + 1, n as int) =~= vv.skip(i as int).drop_first());
                assert(spec_insert_var(vv.skip(i as int), k@, v@) == Seq::empty().push((k@, v@))
                    + vv.skip(i as int).drop_first());
                assert(var_pair_views(combined@) =~= pre + spec_insert_var(
                    vv.skip(i as int),
                    k@,
                    v@,
                ));
            }
            return combined;
        }
        let e0 = vars[i].0.clone();
        let e1 = vars[i].1.clone();
        out.push((e0, e1));
        proof {
            assert(var_pair_views(out@) =~= pre.push(vv[i as int]));
            assert(spec_insert_var(vv.skip(i as int), k@, v@) == Seq::empty().push(vv[i as int])
                + spec_insert_var(vv.skip(i + 1), k@, v@));
            assert(pre + spec_insert_var(vv.skip(i as int), k@, v@) =~= var_pair_views(out@)
                + spec_insert_var(vv.skip(i + 1), k@, v@));
        }
        i = i + 1;
    }
    assert(vv.skip(n as int) =~= Seq::<(Seq<char>, Seq<char>)>::empty());
    out.push((k, v));
    assert(var_pair_views(out@) =~= var_pair_views(out@.subrange(0, out@.len() - 1)).push(
        (k@, v@),
    ));
    assert(var_pair_views(out@) =~= spec_insert_var(vv, k@, v@));
    out
}

/// Look a variable up by name, first entry winning.
pub open spec fn spec_var_lookup(vars: Seq<(Seq<char>, Seq<char>)>, key: Seq<char>) -> Option<
    Seq<char>,
>
    decreases vars.len(),
{
    if vars.len() == 0 {
        None
    } else if vars[0].0 == key {
        Some(vars[0].1)
    } else {
        spec_var_lookup(vars.drop_first(), key)
    }
}

/// Exec mirror of `spec_var_lookup`.
fn var_lookup(vars: &Vec<(String, String)>, key: &String) -> (r: Option<String>)
    ensures
        opt_view(r) == spec_var_lookup(var_pair_views(vars@), key@),
{
    let ghost vv = var_pair_views(vars@);
    let n = vars.len();
    assert(vv.skip(0) =~= vv);
    for i in 0..n
        invariant
            n == vars@.len(),
            vv == var_pair_views(vars@),
            spec_var_lookup(vv, key@) == spec_var_lookup(vv.skip(i as int), key@),
    {
        assert(vv.skip(i as int)[0] == vv[i as int]);
        assert(vv.skip(i as int).drop_first() =~= vv.skip(i + 1));
        if vars[i].0 == *key {
            return Some(vars[i].1.clone());
        }
    }
    assert(vv.skip(n as int) =~= Seq::<(Seq<char>, Seq<char>)>::empty());
    None
}

/// The literal text of an unexpanded variable reference.
pub open spec fn placeholder_text(name: Seq<char>) -> Seq<char> {
    seq!['{', '{'] + name + seq!['}', '}']
}

/// Build the literal placeholder text for a name.
fn make_placeholder(name: &String) -> (r: String)
    ensures
        r@ == placeholder_text(name@),
{
    let mut out = String::new();
    out.push('{');
    out.push('{');
    out.append(name.as_str());
    out.push('}');
    out.push('}');
    assert(out@ =~= placeholder_text(name@));
    out
}

/// How many variable names are not yet being resolved; the recursion depth
/// left to the resolver.
pub open spec fn free_count(vars: Seq<(Seq<char>, Seq<char>)>, resolving: Seq<Seq<char>>) -> nat {
    if vars.len() >= resolving.len() {
        (vars.len() - resolving.len()) as nat
    } else {
        0
    }
}

/// The fully expanded value of one variable. A name already being resolved
/// short-circuits to its literal placeholder text — the cycle guard — as
/// does an unknown name; the guard on the resolving depth can never fire
/// when `resolving` holds distinct known names, and keeps the recursion
/// well founded.
pub open spec fn spec_resolve_var(
    vars: Seq<(Seq<char>, Seq<char>)>,
    key: Seq<char>,
    resolving: Seq<Seq<char>>,
) -> Seq<char>
    decreases free_count(vars, resolving), 0int, 0int,
{
    if resolving.contains(key) {
        placeholder_text(key)
    } else {
        match spec_var_lookup(vars, key) {
            None => placeholder_text(key),
            Some(val) => if resolving.len() < vars.len() {
                spec_expand_value(vars, val, 0, resolving.push(key))
            } else {
                placeholder_text(key)
            },
        }
    }
}

/// One variable value with every nested variable reference expanded.
pub open spec fn spec_expand_value(
    vars: Seq<(Seq<char>, Seq<char>)>,
    val: Seq<char>,
    i: int,
    resolving: Seq<Seq<char>>,
) -> Seq<char>
    decreases free_count(vars, resolving), 1int, val.len() - i,
{
    if i < 0 || i >= val.len() {
        Seq::empty()
    } else {
        match match_var_at(val, i) {
            Some((name, e)) => spec_resolve_var(vars, name, resolving) + spec_expand_value(
                vars,
                val,
                if e > i {
                    e
                } else {
                    i + 1
                },
                resolving,
            ),
            None => Seq::empty().push(val[i]) + spec_expand_value(vars, val, i + 1, resolving),
        }
    }
}

/// Whether a vector of names holds one.
fn names_contain(names: &Vec<String>, key: &String) -> (r: bool)
    ensures
        r == names@.map_values(|s: String| s@).contains(key@),
{
    let ghost nv = names@.map_values(|s: String| s@);
    let n = names.len();
    for i in 0..n
        invariant
            n == names@.len(),
            nv == names@.map_values(|s: String| s@),
            forall|m: int| 0 <= m < i ==> nv[m] != key@,
    {
        if names[i] == *key {
            assert(nv[i as int] == key@);
            return true;
        }
    }
    assert(!nv.contains(key@)) by {
        if nv.contains(key@) {
            let w = choose|w: int| 0 <= w < nv.len() && nv[w] == key@;
        }
    }
    false
}

/// Copy a vector of names.
fn clone_names(names: &Vec<String>) -> (r: Vec<String>)
    ensures
        r@.map_values(|s: String| s@) == names@.map_values(|s: String| s@),
{
    let mut out: Vec<String> = Vec::new();
    let n = names.len();
    for i in 0..n
        invariant
            n == names@.len(),
            out@.len() == i,
            forall|m: int| 0 <= m < i ==> (#[trigger] out@[m])@ == names@[m]@,
    {
        out.push(names[i].clone());
    }
    assert(out@.map_values(|s: String| s@) =~= names@.map_values(|s: String| s@));
    out
}

/// Resolve one variable, guarding against reference cycles.
fn resolve_var(vars: &Vec<(String, String)>, key: &String, resolving: &Vec<String>) -> (r: String)
    ensures
        r@ == spec_resolve_var(
            var_pair_views(vars@),
            key@,
            resolving@.map_values(|s: String| s@),
        ),
    decreases free_count(var_pair_views(vars@), resolving@.map_values(|s: String| s@)), 0int, 0int,
{
    let ghost vv = var_pair_views(vars@);
    let ghost rv = resolving@.map_values(|s: String| s@);
    if names_contain(resolving, key) {
        return make_placeholder(key);
    }
    match var_lookup(vars, key) {
        None => make_placeholder(key),
        Some(val) => {
            if resolving.len() < vars.len() {
                let mut r2 = clone_names(resolving);
                r2.push(key.clone());
                assert(r2@.map_values(|s: String| s@) =~= rv.push(key@));
                let vchars = str_to_chars(val.as_str());
                expand_value(vars, &vchars, &r2)
            } else {
                make_placeholder(key)
            }
        },
    }
}

/// Expand every variable reference of one value.
fn expand_value(vars: &Vec<(String, String)>, val: &Vec<char>, resolving: &Vec<String>) -> (r:
    String)
    ensures
        r@ == spec_expand_value(
            var_pair_views(vars@),
            val@,
            0,
            resolving@.map_values(|s: String| s@),
        ),
    decreases free_count(var_pair_views(vars@), resolving@.map_values(|s: String| s@)),
        1int,
        0int,
{
    let ghost vv = var_pair_views(vars@);
    let ghost rv = resolving@.map_values(|s: String| s@);
    let mut out = String::new();
    let n = val.len();
    let mut i: usize = 0;
    while i < n
        invariant
            i <= n,
            n == val@.len(),
            vv == var_pair_views(vars@),
            rv == resolving@.map_values(|s: String| s@),
            spec_expand_value(vv, val@, 0, rv) == out@ + spec_expand_value(vv, val@, i as int, rv),
        decreases n - i,
    {
        let ghost pre = out@;
        match try_var_at(val, i) {
            Some((name, e)) => {
                let resolved = resolve_var(vars, &name, resolving);
                out.append(resolved.as_str());
                proof {
                    assert(spec_expand_value(vv, val@, i as int, rv) == spec_resolve_var(
                        vv,
                        name@,
                        rv,
                    ) + spec_expand_value(vv, val@, e as int, rv));
                    assert(pre + spec_expand_value(vv, val@, i as int, rv) =~= out@
                        + spec_expand_value(vv, val@, e as int, rv));
                }
                i = e;
            },
            None => {
                let c = val[i];
                out.push(c);
                proof {
                    assert(spec_expand_value(vv, val@, i as int, rv) == Seq::empty().push(
                        val@[i as int],
                    ) + spec_expand_value(vv, val@, i + 1, rv));
                    assert(pre + spec_expand_value(vv, val@, i as int, rv) =~= out@
                        + spec_expand_value(vv, val@, i + 1, rv));
                }
                i = i + 1;
            },
        }
    }
    assert(out@ + Seq::<char>::empty() =~= out@);
    out
}

/// The resolved variable table: every entry's value fully expanded.
pub open spec fn spec_resolved_vars(vars: Seq<(Seq<char>, Seq<char>)>) -> Seq<
    (Seq<char>, Seq<char>),
> {
    vars.map_values(|kv: (Seq<char>, Seq<char>)| (kv.0, spec_resolve_var(vars, kv.0, Seq::empty())))
}

/// Exec mirror of `spec_resolved_vars`.
fn resolve_all_vars(vars: &Vec<(String, String)>) -> (r: Vec<(String, String)>)
    ensures
        var_pair_views(r@) == spec_resolved_vars(var_pair_views(vars@)),
{
    let ghost vv = var_pair_views(vars@);
    let mut out: Vec<(String, String)> = Vec::new();
    let n = vars.len();
    let empty_resolving: Vec<String> = Vec::new();
    assert(empty_resolving@.map_values(|s: String| s@) =~= Seq::<Seq<char>>::empty());
    for i in 0..n
        invariant
            n == vars@.len(),
            vv == var_pair_views(vars@),
            empty_resolving@.map_values(|s: String| s@) == Seq::<Seq<char>>::empty(),
            out@.len() == i,
            forall|m: int| 0 <= m < i ==> var_pair_views(out@)[m] == spec_resolved_vars(vv)[m],
    {
        let ghost pre = var_pair_views(out@);
        let key = vars[i].0.clone();
        let resolved = resolve_var(vars, &key, &empty_resolving);
        out.push((key, resolved));
        proof {
            assert(var_pair_views(out@) =~= pre.push((vars@[i as int].0@, resolved@)));
            assert(spec_resolved_vars(vv)[i as int] == (vv[i as int].0, spec_resolve_var(
                vv,
                vv[i as int].0,
                Seq::empty(),
            )));
        }
    }
    assert(var_pair_views(out@) =~= spec_resolved_vars(vv));
    out
}

/// The body with every known variable reference replaced by its resolved
/// value; unknown references stay as their literal placeholder text.
pub open spec fn spec_substitute(
    resolved: Seq<(Seq<char>, Seq<char>)>,
    s: Seq<char>,
    i: int,
) -> Seq<char>
    decreases s.len() - i,
{
    if i < 0 || i >= s.len() {
        Seq::empty()
    } else {
        match match_var_at(s, i) {
            Some((name, e)) => (match spec_var_lookup(resolved, name) {
                Some(v) => v,
                None => placeholder_text(name),
            }) + spec_substitute(
                resolved,
                s,
                if e > i {
                    e
                } else {
                    i + 1
                },
            ),
            None => Seq::empty().push(s[i]) + spec_substitute(resolved, s, i + 1),
        }
    }
}

/// Exec mirror of `spec_substitute`.
fn substitute(resolved: &Vec<(String, String)>, v: &Vec<char>) -> (r: String)
    ensures
        r@ == spec_substitute(var_pair_views(resolved@), v@, 0),
{
    let ghost rv = var_pair_views(resolved@);
    let mut out = String::new();
    let n = v.len();
    let mut i: usize = 0;
    while i < n
        invariant
            i <= n,
            n == v@.len(),
            rv == var_pair_views(resolved@),
            spec_substitute(rv, v@, 0) == out@ + spec_substitute(rv, v@, i as int),
        decreases n - i,
    {
        let ghost pre = out@;
        match try_var_at(v, i) {
            Some((name, e)) => {
                match var_lookup(resolved, &name) {
                    Some(val) => out.append(val.as_str()),
                    None => {
                        let ph = make_placeholder(&name);
                        out.append(ph.as_str());
                    },
                }
                proof {
                    assert(pre + spec_substitute(rv, v@, i as int) =~= out@ + spec_substitute(
                        rv,
                        v@,
                        e as int,
                    ));
                }
                i = e;
            },
            None => {
                out.push(v[i]);
                proof {
                    assert(pre + spec_substitute(rv, v@, i as int) =~= out@ + spec_substitute(
                        rv,
                        v@,
                        i + 1,
                    ));
                }
                i = i + 1;
            },
        }
    }
    assert(out@ + Seq::<char>::empty() =~= out@);
    out
}

/// A line with its variable definition removed; other lines stay whole.
pub open spec fn spec_strip_line(l: Seq<char>) -> Seq<char> {
    if spec_def_of_line(l) is Some {
        Seq::empty()
    } else {
        l
    }
}

/// The lines joined back with line breaks, definition lines emptied.
pub open spec fn spec_strip_defs(lines: Seq<Seq<char>>) -> Seq<char>
    decreases lines.len(),
{
    if lines.len() == 0 {
        Seq::empty()
    } else if lines.len() == 1 {
        spec_strip_line(lines[0])
    } else {
        spec_strip_line(lines[0]) + Seq::empty().push('\n') + spec_strip_defs(lines.drop_first())
    }
}

/// Exec mirror of `spec_strip_defs`.
fn strip_defs(lines: &Vec<Vec<char>>) -> (r: Vec<char>)
    ensures
        r@ == spec_strip_defs(lines@.map_values(|l: Vec<char>| l@)),
{
    let ghost lv = lines@.map_values(|l: Vec<char>| l@);
    let mut out: Vec<char> = Vec::new();
    let n = lines.len();
    assert(lv.skip(0) =~= lv);
    let mut i: usize = 0;
    while i < n
        invariant
            i <= n,
            n == lines@.len(),
            lv == lines@.map_values(|l: Vec<char>| l@),
            spec_strip_defs(lv) == out@ + spec_strip_defs(lv.skip(i as int)),
        decreases n - i,
    {
        let ghost pre = out@;
        assert(lv.skip(i as int)[0] == lv[i as int]);
        assert(lv.skip(i as int).drop_first() =~= lv.skip(i + 1));
        let is_def = def_of_line(&lines[i]).is_some();
        if !is_def {
            let m = lines[i].len();
            let mut q: usize = 0;
            while q < m
                invariant
                    q <= m,
                    i < n,
                    n == lines@.len(),
                    m == lines@[i as int]@.len(),
                    out@ == pre + lines@[i as int]@.take(q as int),
                decreases m - q,
            {
                let ghost opre = out@;
                out.push(lines[i][q]);
                assert(out@ =~= pre + lines@[i as int]@.take(q + 1));
                q = q + 1;
            }
            assert(lines@[i as int]@.take(m as int) =~= lines@[i as int]@);
        }
        if i + 1 < n {
            out.push('\n');
        }
        proof {
            let tail = spec_strip_defs(lv.skip(i as int));
            if i + 1 < n {
                assert(lv.skip(i as int).len() > 1);
                assert(tail == spec_strip_line(lv[i as int]) + Seq::empty().push('\n')
                    + spec_strip_defs(lv.skip(i + 1)));
                assert(pre + tail =~= out@ + spec_strip_defs(lv.skip(i + 1)));
            } else {
                assert(lv.skip(i as int).len() == 1);
                assert(tail == spec_strip_line(lv[i as int]));
                assert(pre + tail =~= out@ + spec_strip_defs(lv.skip(i + 1)));
            }
        }
        i = i + 1;
    }
    assert(lv.skip(n as int) =~= Seq::<Seq<char>>::empty());
    assert(out@ + Seq::<char>::empty() =~= out@);
    out
}

/// Exec mirror of `spec_collect_vars` over split lines.
fn collect_vars(lines: &Vec<Vec<char>>) -> (r: Vec<(String, String)>)
    ensures
        var_pair_views(r@) == spec_collect_vars(
            lines@.map_values(|l: Vec<char>| l@),
            Seq::empty(),
        ),
{
    let ghost lv = lines@.map_values(|l: Vec<char>| l@);
    let mut vars: Vec<(String, String)> = Vec::new();
    let n = lines.len();
    assert(lv.skip(0) =~= lv);
    assert(var_pair_views(vars@) =~= Seq::<(Seq<char>, Seq<char>)>::empty());
    for i in 0..n
        invariant
            n == lines@.len(),
            lv == lines@.map_values(|l: Vec<char>| l@),
            spec_collect_vars(lv, Seq::empty()) == spec_collect_vars(
                lv.skip(i as int),
                var_pair_views(vars@),
            ),
    {
        assert(lv.skip(i as int)[0] == lv[i as int]);
        assert(lv.skip(i as int).drop_first() =~= lv.skip(i + 1));
        match def_of_line(&lines[i]) {
            Some((k, v)) => {
                vars = insert_var(vars, k, v);
            },
            None => {},
        }
    }
    assert(lv.skip(n as int) =~= Seq::<Seq<char>>::empty());
    vars
}

/// What substituting a whole template must produce: collect the variable
/// definitions, resolve them recursively, strip the definition lines, and
/// replace every known reference in what remains.
pub open spec fn spec_parse_and_substitute(input: Seq<char>) -> Seq<char> {
    let lines = spec_lines(input);
    let vars = spec_collect_vars(lines, Seq::empty());
    let stripped = spec_strip_defs(lines);
    spec_substitute(spec_resolved_vars(vars), stripped, 0)
}

/// Resolve and substitute the file-level variables of a template text.
pub fn parse_and_substitute(input: &str) -> (r: String)
    ensures
        r@ == spec_parse_and_substitute(input@),
{
    let v = str_to_chars(input);
    let lines = split_lines(&v);
    let vars = collect_vars(&lines);
    let resolved = resolve_all_vars(&vars);
    let stripped = strip_defs(&lines);
    substitute(&resolved, &stripped)
}

/// Match one HTTP verb at `i`; yields the end of the verb.
pub open spec fn match_method_at(s: Seq<char>, i: int) -> Option<int> {
    if occurs_at(s, seq!['G', 'E', 'T'], i) {
        Some(i + 3)
    } else if occurs_at(s, seq!['P', 'O', 'S', 'T'], i) {
        Some(i + 4)
    } else if occurs_at(s, seq!['H', 'E', 'A', 'D'], i) {
        Some(i + 4)
    } else if occurs_at(s, seq!['P', 'U', 'T'], i) {
        Some(i + 3)
    } else if occurs_at(s, seq!['D', 'E', 'L', 'E', 'T', 'E'], i) {
        Some(i + 6)
    } else if occurs_at(s, seq!['P', 'A', 'T', 'C', 'H'], i) {
        Some(i + 5)
    } else if occurs_at(s, seq!['O', 'P', 'T', 'I', 'O', 'N', 'S'], i) {
        Some(i + 7)
    } else if occurs_at(s, seq!['T', 'R', 'A', 'C', 'E'], i) {
        Some(i + 5)
    } else {
        None
    }
}

/// Exec mirror of `match_method_at`.
fn try_method_at(v: &Vec<char>, i: usize) -> (r: Option<usize>)
    requires
        i <= v@.len(),
    ensures
        match r {
            Some(e) => match_method_at(v@, i as int) == Some(e as int) && i < e <= v@.len(),
            None => match_method_at(v@, i as int) is None,
        },
{
    let verbs: Vec<Vec<char>> = vec![
        vec!['G', 'E', 'T'],
        vec!['P', 'O', 'S', 'T'],
        vec!['H', 'E', 'A', 'D'],
        vec!['P', 'U', 'T'],
        vec!['D', 'E', 'L', 'E', 'T', 'E'],
        vec!['P', 'A', 'T', 'C', 'H'],
        vec!['O', 'P', 'T', 'I', 'O', 'N', 'S'],
        vec!['T', 'R', 'A', 'C', 'E'],
    ];
    let vn = v.len();
    let mut k: usize = 0;
    while k < verbs.len()
        invariant
            verbs@.len() == 8,
            verbs@[0]@ =~= seq!['G', 'E', 'T'],
            verbs@[1]@ =~= seq!['P', 'O', 'S', 'T'],
            verbs@[2]@ =~= seq!['H', 'E', 'A', 'D'],
            verbs@[3]@ =~= seq!['P', 'U', 'T'],
            verbs@[4]@ =~= seq!['D', 'E', 'L', 'E', 'T', 'E'],
            verbs@[5]@ =~= seq!['P', 'A', 'T', 'C', 'H'],
            verbs@[6]@ =~= seq!['O', 'P', 'T', 'I', 'O', 'N', 'S'],
            verbs@[7]@ =~= seq!['T', 'R', 'A', 'C', 'E'],
            i <= v@.len(),
            vn == v@.len(),
            k <= 8,
            forall|m: int| 0 <= m < k ==> !occurs_at(v@, (#[trigger] verbs@[m])@, i as int),
        decreases verbs@.len() - k,
    {
        if match_at(v, &verbs[k], i) {
            assert(i + verbs@[k as int]@.len() <= vn);
            let e = i + verbs[k].len();
            return Some(e);
        }
        k = k + 1;
    }
    None
}

/// Match a URL at `i`: an `http` or `https` scheme followed by at least one
/// more non-space character; yields the end of the URL.
pub open spec fn match_url_at(s: Seq<char>, i: int) -> Option<int> {
    let scheme_end = if occurs_at(s, seq!['h', 't', 't', 'p', 's', ':', '/', '/'], i) {
        i + 8
    } else if occurs_at(s, seq!['h', 't', 't', 'p', ':', '/', '/'], i) {
        i + 7
    } else {
        i
    };
    if scheme_end > i {
        let e = run_end(CharClass::NonSpace, s, scheme_end);
        if e > scheme_end {
            Some(e)
        } else {
            None
        }
    } else {
        None
    }
}

/// Exec mirror of `match_url_at`.
fn try_url_at(v: &Vec<char>, i: usize) -> (r: Option<usize>)
    requires
        i <= v@.len(),
    ensures
        match r {
            Some(e) => match_url_at(v@, i as int) == Some(e as int) && i < e <= v@.len(),
            None => match_url_at(v@, i as int) is None,
        },
{
    let https: Vec<char> = vec!['h', 't', 't', 'p', 's', ':', '/', '/'];
    let http: Vec<char> = vec!['h', 't', 't', 'p', ':', '/', '/'];
    assert(https@ =~= seq!['h', 't', 't', 'p', 's', ':', '/', '/']);
    assert(http@ =~= seq!['h', 't', 't', 'p', ':', '/', '/']);
    let vn = v.len();
    let scheme_end = if match_at(v, &https, i) {
        assert(i + 8 <= vn);
        i + 8
    } else if match_at(v, &http, i) {
        assert(i + 7 <= vn);
        i + 7
    } else {
        return None;
    };
    let e = scan_run(CharClass::NonSpace, v, scheme_end);
    if e > scheme_end {
        Some(e)
    } else {
        None
    }
}

/// Where an optional HTTP-version note after the URL ends: whitespace, the
/// version marker and its number, or the URL end when absent.
pub open spec fn spec_version_end(s: Seq<char>, e: int) -> int {
    let w = run_end(CharClass::Space, s, e);
    if w > e && occurs_at(s, seq!['H', 'T', 'T', 'P', '/'], w) {
        let d = run_end(CharClass::DigitDot, s, w + 5);
        if d > w + 5 {
            d
        } else {
            e
        }
    } else {
        e
    }
}

/// Exec mirror of `spec_version_end`.
fn version_end(v: &Vec<char>, e: usize) -> (r: usize)
    requires
        e <= v@.len(),
    ensures
        r == spec_version_end(v@, e as int),
        e <= r <= v@.len(),
{
    let marker: Vec<char> = vec!['H', 'T', 'T', 'P', '/'];
    assert(marker@ =~= seq!['H', 'T', 'T', 'P', '/']);
    let vn = v.len();
    let w = scan_run(CharClass::Space, v, e);
    if w > e && match_at(v, &marker, w) {
        assert(w + 5 <= vn);
        let d = scan_run(CharClass::DigitDot, v, w + 5);
        if d > w + 5 {
            d
        } else {
            e
        }
    } else {
        e
    }
}

/// Match one header line at `q`: a non-space run ending in a colon, at
/// least one whitespace character, the value to the end of the line, and
/// the closing line break.
pub open spec fn match_header_at(s: Seq<char>, q: int) -> Option<((Seq<char>, Seq<char>), int)> {
    let n = run_end(CharClass::NonSpace, s, q);
    if n >= q + 2 && s[n - 1] == ':' {
        let w = run_end(CharClass::Space, s, n);
        if w > n {
            let v = run_end(CharClass::NonLine, s, w);
            if v > w && v < s.len() && s[v] == '\n' {
                Some(((s.subrange(q, n - 1), s.subrange(w, v)), v + 1))
            } else {
                None
            }
        } else {
            None
        }
    } else {
        None
    }
}

/// Exec mirror of `match_header_at`.
fn try_header_at(v: &Vec<char>, q: usize) -> (r: Option<((String, String), usize)>)
    requires
        q <= v@.len(),
    ensures
        match r {
            Some((kv, e)) => match_header_at(v@, q as int) == Some(((kv.0@, kv.1@), e as int)) && q
                < e <= v@.len(),
            None => match_header_at(v@, q as int) is None,
        },
{
    let len = v.len();
    let n = scan_run(CharClass::NonSpace, v, q);
    if n - q >= 2 && v[n - 1] == ':' {
        assert(n >= q + 2);
        let w = scan_run(CharClass::Space, v, n);
        if w > n {
            let e = scan_run(CharClass::NonLine, v, w);
            if e > w && e < len && v[e] == '\n' {
                let key = chars_to_string(&slice_chars(v, q, n - 1));
                let val = chars_to_string(&slice_chars(v, w, e));
                Some(((key, val), e + 1))
            } else {
                None
            }
        } else {
            None
        }
    } else {
        None
    }
}

/// The consecutive header lines from `q` on, and where they end.
pub open spec fn spec_headers_at(s: Seq<char>, q: int) -> (Seq<(Seq<char>, Seq<char>)>, int)
    decreases s.len() - q,
{
    if q < 0 || q >= s.len() {
        (Seq::empty(), q)
    } else {
        match match_header_at(s, q) {
            Some((kv, e)) => {
                let rest = spec_headers_at(
                    s,
                    if e > q {
                        e
                    } else {
                        q + 1
                    },
                );
                (Seq::empty().push(kv) + rest.0, rest.1)
            },
            None => (Seq::empty(), q),
        }
    }
}

/// Exec mirror of `spec_headers_at`.
fn headers_at(v: &Vec<char>, q: usize) -> (r: (Vec<(String, String)>, usize))
    requires
        q <= v@.len(),
    ensures
        var_pair_views(r.0@) == spec_headers_at(v@, q as int).0,
        r.1 as int == spec_headers_at(v@, q as int).1,
        q <= r.1 <= v@.len(),
{
    let n = v.len();
    let mut out: Vec<(String, String)> = Vec::new();
    let mut i = q;
    loop
        invariant
            q <= i <= n,
            n == v@.len(),
            spec_headers_at(v@, q as int).0 == var_pair_views(out@) + spec_headers_at(
                v@,
                i as int,
            ).0,
            spec_headers_at(v@, q as int).1 == spec_headers_at(v@, i as int).1,
        decreases n - i,
    {
        let ghost pre = var_pair_views(out@);
        if i >= n {
            assert(spec_headers_at(v@, i as int).0 =~= Seq::<(Seq<char>, Seq<char>)>::empty());
            assert(pre + Seq::<(Seq<char>, Seq<char>)>::empty() =~= pre);
            return (out, i);
        }
        match try_header_at(v, i) {
            Some((kv, e)) => {
                out.push(kv);
                proof {
                    assert(var_pair_views(out@) =~= pre.push(
                        (out@.last().0@, out@.last().1@),
                    ));
                    assert(spec_headers_at(v@, i as int).0 == Seq::empty().push(
                        (out@.last().0@, out@.last().1@),
                    ) + spec_headers_at(v@, e as int).0);
                    assert(pre + spec_headers_at(v@, i as int).0 =~= var_pair_views(out@)
                        + spec_headers_at(v@, e as int).0);
                }
                i = e;
            },
            None => {
                assert(spec_headers_at(v@, i as int).0 =~= Seq::<
                    (Seq<char>, Seq<char>),
                >::empty());
                assert(pre + Seq::<(Seq<char>, Seq<char>)>::empty() =~= pre);
                return (out, i);
            },
        }
    }
}

/// One raw request match: name, method, url, header lines, optional body.
#[derive(Debug, Clone, PartialEq, Eq)]
pub struct ReqMatch {
    pub name: String,
    pub method: String,
    pub url: String,
    pub headers: Vec<(String, String)>,
    pub body: Option<String>,
}

/// Spec-level image of a `ReqMatch`.
pub struct ReqMatchV {
    pub name: Seq<char>,
    pub method: Seq<char>,
    pub url: Seq<char>,
    pub headers: Seq<(Seq<char>, Seq<char>)>,
    pub body: Option<Seq<char>>,
}

impl View for ReqMatch {
    type V = ReqMatchV;

    open spec fn view(&self) -> ReqMatchV {
        ReqMatchV {
            name: self.name@,
            method: self.method@,
            url: self.url@,
            headers: var_pair_views(self.headers@),
            body: opt_view(self.body),
        }
    }
}

/// Match one whole request block at `i`: a name line, the method, the URL
/// with an optional version note, then optionally a line break, header
/// lines, and — after a blank line — everything that remains as the body.
/// Yields the match and the position scanning continues at.
pub open spec fn match_request_at(s: Seq<char>, i: int) -> Option<(ReqMatchV, int)> {
    if i < 0 || i >= s.len() {
        None
    } else {
        let j = run_end(CharClass::Word, s, i);
        if j == i || j >= s.len() || s[j] != '\n' {
            None
        } else {
            match match_method_at(s, j + 1) {
                None => None,
                Some(me) => {
                    let method = s.subrange(j + 1, me);
                    let u = run_end(CharClass::Space, s, me);
                    match match_url_at(s, u) {
                        None => None,
                        Some(ue) => {
                            let name = s.subrange(i, j);
                            let url = s.subrange(u, ue);
                            let ve = spec_version_end(s, ue);
                            if ve >= s.len() || s[ve] != '\n' {
                                Some(
                                    (
                                        ReqMatchV {
                                            name,
                                            method,
                                            url,
                                            headers: Seq::empty(),
                                            body: None,
                                        },
                                        ve,
                                    ),
                                )
                            } else {
                                let hs = spec_headers_at(s, ve + 1);
                                if hs.1 < s.len() && s[hs.1] == '\n' {
                                    Some(
                                        (
                                            ReqMatchV {
                                                name,
                                                method,
                                                url,
                                                headers: hs.0,
                                                body: Some(s.subrange(hs.1 + 1, s.len() as int)),
                                            },
                                            s.len() as int,
                                        ),
                                    )
                                } else {
                                    Some(
                                        (
                                            ReqMatchV {
                                                name,
                                                method,
                                                url,
                                                headers: hs.0,
                                                body: None,
                                            },
                                            hs.1,
                                        ),
                                    )
                                }
                            }
                        },
                    }
                },
            }
        }
    }
}

/// Exec mirror of `match_request_at`.
fn try_request_at(v: &Vec<char>, i: usize) -> (r: Option<(ReqMatch, usize)>)
    requires
        i <= v@.len(),
    ensures
        match r {
            Some((m, e)) => match_request_at(v@, i as int) == Some((m@, e as int)) && i < e
                <= v@.len(),
            None => match_request_at(v@, i as int) is None,
        },
{
    let n = v.len();
    if i >= n {
        return None;
    }
    let j = scan_run(CharClass::Word, v, i);
    if j == i || j >= n || v[j] != '\n' {
        return None;
    }
    let me = match try_method_at(v, j + 1) {
        Some(me) => me,
        None => {
            return None;
        },
    };
    let method = chars_to_string(&slice_chars(v, j + 1, me));
    let u = scan_run(CharClass::Space, v, me);
    let ue = match try_url_at(v, u) {
        Some(ue) => ue,
        None => {
            return None;
        },
    };
    let name = chars_to_string(&slice_chars(v, i, j));
    let url = chars_to_string(&slice_chars(v, u, ue));
    let ve = version_end(v, ue);
    if ve >= n || v[ve] != '\n' {
        assert(i < ve) by {
            assert(ve >= ue);
        }
        let none_headers: Vec<(String, String)> = Vec::new();
        assert(var_pair_views(none_headers@) =~= Seq::<(Seq<char>, Seq<char>)>::empty());
        return Some(
            (ReqMatch { name, method, url, headers: none_headers, body: None }, ve),
        );
    }
    let (headers, hend) = headers_at(v, ve + 1);
    assert(var_pair_views(headers@) == spec_headers_at(v@, ve + 1).0);
    if hend < n && v[hend] == '\n' {
        let body = chars_to_string(&slice_chars(v, hend + 1, n));
        Some((ReqMatch { name, method, url, headers, body: Some(body) }, n))
    } else {
        assert(i < hend) by {
            assert(hend >= ve + 1);
        }
        Some((ReqMatch { name, method, url, headers, body: None }, hend))
    }
}

/// Every request block of a text, scanning left to right and continuing
/// after each match.
pub open spec fn spec_find_requests(s: Seq<char>, i: int) -> Seq<ReqMatchV>
    decreases s.len() - i,
{
    if i < 0 || i >= s.len() {
        Seq::empty()
    } else {
        match match_request_at(s, i) {
            Some((m, e)) => Seq::empty().push(m) + spec_find_requests(
                s,
                if i < e <= s.len() {
                    e
                } else {
                    i + 1
                },
            ),
            None => spec_find_requests(s, i + 1),
        }
    }
}

/// The views of a request-match list.
pub open spec fn req_match_views(ms: Seq<ReqMatch>) -> Seq<ReqMatchV> {
    ms.map_values(|m: ReqMatch| m@)
}

/// Exec mirror of `spec_find_requests`.
fn find_requests(v: &Vec<char>) -> (r: Vec<ReqMatch>)
    ensures
        req_match_views(r@) == spec_find_requests(v@, 0),
{
    let mut out: Vec<ReqMatch> = Vec::new();
    let n = v.len();
    let mut i: usize = 0;
    while i < n
        invariant
            i <= n,
            n == v@.len(),
            spec_find_requests(v@, 0) == req_match_views(out@) + spec_find_requests(
                v@,
                i as int,
            ),
        decreases n - i,
    {
        let ghost pre = req_match_views(out@);
        match try_request_at(v, i) {
            Some((m, e)) => {
                let ghost mv = m@;
                out.push(m);
                proof {
                    assert(req_match_views(out@) =~= pre.push(mv));
                    assert(spec_find_requests(v@, i as int) == Seq::empty().push(mv)
                        + spec_find_requests(v@, e as int));
                    assert(pre + spec_find_requests(v@, i as int) =~= req_match_views(out@)
                        + spec_find_requests(v@, e as int));
                }
                i = e;
            },
            None => {
                assert(spec_find_requests(v@, i as int) == spec_find_requests(v@, i + 1));
                i = i + 1;
            },
        }
    }
    assert(req_match_views(out@) + Seq::<ReqMatchV>::empty() =~= req_match_views(out@));
    out
}

/// One generated request function: its name, the optional client supplier,
/// and the request it issues.
#[derive(Debug, Clone, PartialEq, Eq)]
pub struct HttpRequestFn {
    pub name: String,
    pub client_supplier: Option<String>,
    pub request: HttpRequest,
}

/// Spec-level image of an `HttpRequestFn`.
pub struct HttpRequestFnV {
    pub name: Seq<char>,
    pub client_supplier: Option<Seq<char>>,
    pub request: HttpRequestV,
}

impl View for HttpRequestFn {
    type V = HttpRequestFnV;

    open spec fn view(&self) -> HttpRequestFnV {
        HttpRequestFnV {
            name: self.name@,
            client_supplier: opt_view(self.client_supplier),
            request: self.request@,
        }
    }
}

/// Header lines folded into a table: one entry per key, the last value of
/// a key winning, keys in first-appearance order.
pub open spec fn spec_fold_headers(
    acc: Seq<(Seq<char>, Seq<char>)>,
    hs: Seq<(Seq<char>, Seq<char>)>,
) -> Seq<(Seq<char>, Seq<char>)>
    decreases hs.len(),
{
    if hs.len() == 0 {
        acc
    } else {
        spec_fold_headers(spec_insert_var(acc, hs[0].0, hs[0].1), hs.drop_first())
    }
}

/// One raw match lowered into a request: the url, each header value and
/// the body classified as templates.
pub open spec fn spec_lower_request(m: ReqMatchV) -> HttpRequestV {
    HttpRequestV {
        method: m.method,
        url: spec_str_enum(m.url),
        headers: spec_fold_headers(Seq::empty(), m.headers).map_values(
            |kv: (Seq<char>, Seq<char>)| HeaderV { key: kv.0, value: spec_str_enum(kv.1) },
        ),
        body: match m.body {
            Some(b) => Some(spec_str_enum(b)),
            None => None,
        },
    }
}

/// The request functions lowered from a list of raw matches.
pub open spec fn spec_lower_requests(ms: Seq<ReqMatchV>, supplier: Option<Seq<char>>) -> Seq<
    HttpRequestFnV,
> {
    ms.map_values(
        |m: ReqMatchV| HttpRequestFnV {
            name: m.name,
            client_supplier: supplier,
            request: spec_lower_request(m),
        },
    )
}

/// What parsing one block of request text must produce: its request
/// functions in match order, or — when the text holds something but no
/// well-formed request (a missing name, method or URL) — the diagnostic
/// carrying the offending text.
pub open spec fn spec_parse_http(s: Seq<char>, supplier: Option<Seq<char>>) -> Result<
    Seq<HttpRequestFnV>,
    ConfigErrorV,
> {
    let ms = spec_find_requests(s, 0);
    if ms.len() == 0 && crate::text::spec_trim(s).len() > 0 {
        Err(ConfigErrorV::MalformedRequest(crate::text::spec_trim(s)))
    } else {
        Ok(spec_lower_requests(ms, supplier))
    }
}

/// The views of a request-function list.
pub open spec fn req_fn_views(fs: Seq<HttpRequestFn>) -> Seq<HttpRequestFnV> {
    fs.map_values(|f: HttpRequestFn| f@)
}

/// Copy an optional name.
fn clone_supplier(s: &Option<String>) -> (r: Option<String>)
    ensures
        opt_view(r) == opt_view(*s),
{
    match s {
        Some(x) => Some(x.clone()),
        None => None,
    }
}

/// Lower one raw match into its request function.
fn lower_request(m: &ReqMatch, client_supplier: &Option<String>) -> (r: HttpRequestFn)
    ensures
        r@ == (HttpRequestFnV {
            name: m@.name,
            client_supplier: opt_view(*client_supplier),
            request: spec_lower_request(m@),
        }),
{
    let mut table: Vec<(String, String)> = Vec::new();
    let ghost hv = m@.headers;
    let n = m.headers.len();
    assert(var_pair_views(table@) =~= Seq::<(Seq<char>, Seq<char>)>::empty());
    assert(hv.skip(0) =~= hv);
    for i in 0..n
        invariant
            n == m.headers@.len(),
            hv == var_pair_views(m.headers@),
            spec_fold_headers(Seq::empty(), hv) == spec_fold_headers(
                var_pair_views(table@),
                hv.skip(i as int),
            ),
    {
        assert(hv.skip(i as int)[0] == hv[i as int]);
        assert(hv.skip(i as int).drop_first() =~= hv.skip(i + 1));
        let k = m.headers[i].0.clone();
        let val = m.headers[i].1.clone();
        table = insert_var(table, k, val);
    }
    assert(hv.skip(n as int) =~= Seq::<(Seq<char>, Seq<char>)>::empty());
    let mut headers: Vec<Header> = Vec::new();
    let tn = table.len();
    let ghost tv = var_pair_views(table@);
    for i in 0..tn
        invariant
            tn == table@.len(),
            tv == var_pair_views(table@),
            headers@.len() == i,
            forall|k: int|
                0 <= k < i ==> header_views(headers@)[k] == (HeaderV {
                    key: tv[k].0,
                    value: spec_str_enum(tv[k].1),
                }),
    {
        let ghost pre = header_views(headers@);
        let h = Header { key: table[i].0.clone(), value: StrEnum::new(table[i].1.as_str()) };
        let ghost hv2 = h@;
        headers.push(h);
        proof {
            assert(header_views(headers@) =~= pre.push(hv2));
        }
    }
    let body = match &m.body {
        Some(b) => Some(StrEnum::new(b.as_str())),
        None => None,
    };
    let r = HttpRequestFn {
        name: m.name.clone(),
        client_supplier: clone_supplier(client_supplier),
        request: HttpRequest {
            method: m.method.clone(),
            url: StrEnum::new(m.url.as_str()),
            headers,
            body,
        },
    };
    proof {
        assert(header_views(r.request.headers@) =~= spec_fold_headers(
            Seq::empty(),
            hv,
        ).map_values(
            |kv: (Seq<char>, Seq<char>)| HeaderV { key: kv.0, value: spec_str_enum(kv.1) },
        ));
    }
    r
}

/// Parse one block of request text into its request functions. Text that
/// holds something but no well-formed request fails with the diagnostic;
/// blank text compiles to no functions.
pub fn parse_http(content: &str, client_supplier: &Option<String>) -> (r: Result<
    Vec<HttpRequestFn>,
    ConfigError,
>)
    ensures
        match r {
            Ok(fs) => spec_parse_http(content@, opt_view(*client_supplier)) == Ok::<
                Seq<HttpRequestFnV>,
                ConfigErrorV,
            >(req_fn_views(fs@)),
            Err(e) => spec_parse_http(content@, opt_view(*client_supplier)) == Err::<
                Seq<HttpRequestFnV>,
                ConfigErrorV,
            >(e@),
        },
{
    let v = str_to_chars(content);
    let matches = find_requests(&v);
    if matches.len() == 0 {
        assert(spec_find_requests(v@, 0) =~= Seq::<ReqMatchV>::empty()) by {
            assert(req_match_views(matches@) =~= Seq::<ReqMatchV>::empty());
        }
        let vn = v.len();
        let trimmed = trim_chars(&v, 0, vn);
        assert(v@.subrange(0, vn as int) =~= v@);
        if trimmed.len() > 0 {
            return Err(ConfigError::MalformedRequest(chars_to_string(&trimmed)));
        }
        let none_found: Vec<HttpRequestFn> = Vec::new();
        assert(req_fn_views(none_found@) =~= spec_lower_requests(
            spec_find_requests(v@, 0),
            opt_view(*client_supplier),
        ));
        return Ok(none_found);
    }
    let mut out: Vec<HttpRequestFn> = Vec::new();
    let n = matches.len();
    let ghost ms = req_match_views(matches@);
    for i in 0..n
        invariant
            n == matches@.len(),
            ms == req_match_views(matches@),
            ms == spec_find_requests(v@, 0),
            v@ == content@,
            out@.len() == i,
            forall|k: int|
                0 <= k < i ==> req_fn_views(out@)[k] == spec_lower_requests(
                    ms,
                    opt_view(*client_supplier),
                )[k],
    {
        let ghost pre = req_fn_views(out@);
        let f = lower_request(&matches[i], client_supplier);
        let ghost fv = f@;
        out.push(f);
        proof {
            assert(req_fn_views(out@) =~= pre.push(fv));
            assert(spec_lower_requests(ms, opt_view(*client_supplier))[i as int] == fv);
        }
    }
    assert(req_fn_views(out@) =~= spec_lower_requests(ms, opt_view(*client_supplier)));
    Ok(out)
}

/// Match a snippet delimiter at `i`: three or more delimiter characters,
/// optional whitespace, and an optional trailing marker; yields its end.
pub open spec fn splitter_at(s: Seq<char>, i: int) -> Option<int> {
    if occurs_at(s, seq!['#', '#', '#'], i) {
        let h = run_end(CharClass::Hash, s, i);
        let w = run_end(CharClass::Space, s, h);
        if w < s.len() && s[w] == '@' {
            Some(w + 1)
        } else {
            Some(w)
        }
    } else {
        None
    }
}

/// Exec mirror of `splitter_at`.
fn try_splitter_at(v: &Vec<char>, i: usize) -> (r: Option<usize>)
    requires
        i <= v@.len(),
    ensures
        match r {
            Some(e) => splitter_at(v@, i as int) == Some(e as int) && i < e <= v@.len(),
            None => splitter_at(v@, i as int) is None,
        },
{
    let marker: Vec<char> = vec!['#', '#', '#'];
    assert(marker@ =~= seq!['#', '#', '#']);
    if match_at(v, &marker, i) {
        let n = v.len();
        let h = scan_run(CharClass::Hash, v, i);
        let w = scan_run(CharClass::Space, v, h);
        proof {
            lemma_run_end_bounds(CharClass::Hash, v@, i as int);
            assert(v@[i as int] == '#');
            assert(h > i);
        }
        if w < n && v[w] == '@' {
            Some(w + 1)
        } else {
            assert(i < w) by {
                assert(w >= h);
            }
            Some(w)
        }
    } else {
        None
    }
}

/// The pieces a text splits into around snippet delimiters.
pub open spec fn spec_split_pieces(s: Seq<char>, i: int) -> Seq<Seq<char>>
    decreases s.len() - i,
{
    if i < 0 || i >= s.len() {
        Seq::empty().push(Seq::empty())
    } else {
        match splitter_at(s, i) {
            Some(e) => Seq::empty().push(Seq::empty()) + spec_split_pieces(
                s,
                if i < e <= s.len() {
                    e
                } else {
                    i + 1
                },
            ),
            None => {
                let rest = spec_split_pieces(s, i + 1);
                rest.update(0, Seq::empty().push(s[i]) + rest[0])
            },
        }
    }
}

/// A split always yields at least one piece.
pub proof fn lemma_split_pieces_nonempty(s: Seq<char>, i: int)
    ensures
        spec_split_pieces(s, i).len() >= 1,
    decreases s.len() - i,
{
    if !(i < 0 || i >= s.len()) {
        match splitter_at(s, i) {
            Some(e) => {
                lemma_split_pieces_nonempty(
                    s,
                    if i < e <= s.len() {
                        e
                    } else {
                        i + 1
                    },
                );
            },
            None => {
                lemma_split_pieces_nonempty(s, i + 1);
            },
        }
    }
}

/// Exec mirror of `spec_split_pieces`.
fn split_pieces(v: &Vec<char>) -> (r: Vec<Vec<char>>)
    ensures
        r@.map_values(|p: Vec<char>| p@) == spec_split_pieces(v@, 0),
{
    let mut done: Vec<Vec<char>> = Vec::new();
    let mut cur: Vec<char> = Vec::new();
    let n = v.len();
    let mut i: usize = 0;
    proof {
        lemma_split_pieces_nonempty(v@, 0);
    }
    loop
        invariant
            i <= n,
            n == v@.len(),
            ({
                let rem = spec_split_pieces(v@, i as int);
                rem.len() >= 1 && spec_split_pieces(v@, 0) == done@.map_values(
                    |p: Vec<char>| p@,
                ) + Seq::empty().push(cur@ + rem[0]) + rem.drop_first()
            }),
        decreases n - i,
    {
        proof {
            lemma_split_pieces_nonempty(v@, i as int);
        }
        let ghost rem = spec_split_pieces(v@, i as int);
        let ghost dv = done@.map_values(|p: Vec<char>| p@);
        if i >= n {
            assert(rem =~= Seq::<Seq<char>>::empty().push(Seq::<char>::empty()));
            assert(cur@ + rem[0] =~= cur@);
            let ghost cv = cur@;
            done.push(cur);
            proof {
                assert(done@.map_values(|p: Vec<char>| p@) =~= dv.push(cv));
                assert(spec_split_pieces(v@, 0) =~= dv.push(cv));
            }
            return done;
        }
        match try_splitter_at(v, i) {
            Some(e) => {
                proof {
                    lemma_split_pieces_nonempty(v@, e as int);
                }
                let ghost reme = spec_split_pieces(v@, e as int);
                let ghost cv = cur@;
                done.push(cur);
                cur = Vec::new();
                proof {
                    assert(rem == Seq::empty().push(Seq::<char>::empty()) + reme);
                    assert(rem[0] =~= Seq::<char>::empty());
                    assert(cv + rem[0] =~= cv);
                    assert(rem.drop_first() =~= reme);
                    assert(done@.map_values(|p: Vec<char>| p@) =~= dv.push(cv));
                    assert(dv + Seq::empty().push(cv + rem[0]) + rem.drop_first() =~= done@.map_values(
                        |p: Vec<char>| p@,
                    ) + Seq::empty().push(cur@ + reme[0]) + reme.drop_first());
                }
                i = e;
            },
            None => {
                proof {
                    lemma_split_pieces_nonempty(v@, i + 1);
                }
                let ghost rem1 = spec_split_pieces(v@, i + 1);
                let ghost cv = cur@;
                cur.push(v[i]);
                proof {
                    assert(rem == rem1.update(0, Seq::empty().push(v@[i as int]) + rem1[0]));
                    assert(rem[0] == Seq::empty().push(v@[i as int]) + rem1[0]);
                    assert(cur@ =~= cv.push(v@[i as int]));
                    assert(cur@ + rem1[0] =~= cv + rem[0]);
                    assert(rem.drop_first() =~= rem1.drop_first());
                    assert(dv + Seq::empty().push(cv + rem[0]) + rem.drop_first() =~= dv
                        + Seq::empty().push(cur@ + rem1[0]) + rem1.drop_first());
                }
                i = i + 1;
            },
        }
    }
}

/// What parsing a whole request file must produce: split into snippets,
/// trim each, drop the blank ones, and parse each remaining snippet, in
/// order; the first snippet with no well-formed request is the diagnostic.
pub open spec fn spec_requests_of_pieces(
    ps: Seq<Seq<char>>,
    supplier: Option<Seq<char>>,
) -> Result<Seq<HttpRequestFnV>, ConfigErrorV>
    decreases ps.len(),
{
    if ps.len() == 0 {
        Ok(Seq::empty())
    } else {
        let t = crate::text::spec_trim(ps[0]);
        if t.len() == 0 {
            spec_requests_of_pieces(ps.drop_first(), supplier)
        } else {
            match spec_parse_http(t, supplier) {
                Err(e) => Err(e),
                Ok(fs) => match spec_requests_of_pieces(ps.drop_first(), supplier) {
                    Err(e) => Err(e),
                    Ok(more) => Ok(fs + more),
                },
            }
        }
    }
}

/// What parsing a whole request file must produce.
pub open spec fn spec_parse_http_file(s: Seq<char>, supplier: Option<Seq<char>>) -> Result<
    Seq<HttpRequestFnV>,
    ConfigErrorV,
> {
    spec_requests_of_pieces(spec_split_pieces(s, 0), supplier)
}

/// Parse a whole request file: every named request of every snippet. The
/// first snippet that holds text but no well-formed request fails the
/// whole parse with its diagnostic.
pub fn parse_http_file(content: &str, client_supplier: &Option<String>) -> (r: Result<
    Vec<HttpRequestFn>,
    ConfigError,
>)
    ensures
        match r {
            Ok(fs) => spec_parse_http_file(content@, opt_view(*client_supplier)) == Ok::<
                Seq<HttpRequestFnV>,
                ConfigErrorV,
            >(req_fn_views(fs@)),
            Err(e) => spec_parse_http_file(content@, opt_view(*client_supplier)) == Err::<
                Seq<HttpRequestFnV>,
                ConfigErrorV,
            >(e@),
        },
{
    let v = str_to_chars(content);
    let pieces = split_pieces(&v);
    let mut out: Vec<HttpRequestFn> = Vec::new();
    let ghost pv = pieces@.map_values(|p: Vec<char>| p@);
    let ghost sup = opt_view(*client_supplier);
    let n = pieces.len();
    assert(pv.skip(0) =~= pv);
    for i in 0..n
        invariant
            n == pieces@.len(),
            pv == pieces@.map_values(|p: Vec<char>| p@),
            pv == spec_split_pieces(content@, 0),
            sup == opt_view(*client_supplier),
            ({
                match spec_requests_of_pieces(pv.skip(i as int), sup) {
                    Ok(more) => spec_parse_http_file(content@, sup) == Ok::<
                        Seq<HttpRequestFnV>,
                        ConfigErrorV,
                    >(req_fn_views(out@) + more),
                    Err(e) => spec_parse_http_file(content@, sup) == Err::<
                        Seq<HttpRequestFnV>,
                        ConfigErrorV,
                    >(e),
                }
            }),
    {
        let ghost pre = req_fn_views(out@);
        assert(pv.skip(i as int)[0] == pv[i as int]);
        assert(pv.skip(i as int).drop_first() =~= pv.skip(i + 1));
        let m = pieces[i].len();
        let trimmed = trim_chars(&pieces[i], 0, m);
        assert(pieces@[i as int]@.subrange(0, m as int) =~= pieces@[i as int]@);
        if trimmed.len() > 0 {
            let snippet = chars_to_string(&trimmed);
            let fns = match parse_http(snippet.as_str(), client_supplier) {
                Ok(fns) => fns,
                Err(e) => {
                    return Err(e);
                },
            };
            let fn_count = fns.len();
            let ghost fv = req_fn_views(fns@);
            let mut q: usize = 0;
            while q < fn_count
                invariant
                    q <= fn_count,
                    fn_count == fns@.len(),
                    fv == req_fn_views(fns@),
                    req_fn_views(out@) == pre + fv.take(q as int),
                decreases fn_count - q,
            {
                let ghost opre = req_fn_views(out@);
                let one = lower_clone(&fns[q]);
                out.push(one);
                proof {
                    assert(req_fn_views(out@) =~= opre.push(fv[q as int]));
                    assert(opre.push(fv[q as int]) =~= pre + fv.take(q + 1));
                }
                q = q + 1;
            }
            proof {
                assert(fv.take(fn_count as int) =~= fv);
                assert(pre + fv =~= req_fn_views(out@));
                match spec_requests_of_pieces(pv.skip(i + 1), sup) {
                    Ok(more) => {
                        assert(pre + (fv + more) =~= req_fn_views(out@) + more);
                    },
                    Err(_) => {},
                }
            }
        } else {
            assert(req_fn_views(out@) =~= pre + Seq::<HttpRequestFnV>::empty());
        }
    }
    assert(pv.skip(n as int) =~= Seq::<Seq<char>>::empty());
    assert(req_fn_views(out@) + Seq::<HttpRequestFnV>::empty() =~= req_fn_views(out@));
    Ok(out)
}

/// Copy a request function value.
fn lower_clone(f: &HttpRequestFn) -> (r: HttpRequestFn)
    ensures
        r@ == f@,
{
    let mut headers: Vec<Header> = Vec::new();
    let n = f.request.headers.len();
    for i in 0..n
        invariant
            n == f.request.headers@.len(),
            headers@.len() == i,
            forall|k: int| 0 <= k < i ==> header_views(headers@)[k] == header_views(
                f.request.headers@,
            )[k],
    {
        let ghost pre = header_views(headers@);
        let h = Header {
            key: f.request.headers[i].key.clone(),
            value: clone_str_enum(&f.request.headers[i].value),
        };
        let ghost hv = h@;
        headers.push(h);
        proof {
            assert(header_views(headers@) =~= pre.push(hv));
        }
    }
    assert(header_views(headers@) =~= header_views(f.request.headers@));
    HttpRequestFn {
        name: f.name.clone(),
        client_supplier: clone_supplier(&f.client_supplier),
        request: HttpRequest {
            method: f.request.method.clone(),
            url: clone_str_enum(&f.request.url),
            headers,
            body: match &f.request.body {
                Some(b) => Some(clone_str_enum(b)),
                None => None,
            },
        },
    }
}

/// Copy a value template.
fn clone_str_enum(se: &StrEnum) -> (r: StrEnum)
    ensures
        r@ == se@,
{
    match se {
        StrEnum::RawStr(s) => StrEnum::RawStr(s.clone()),
        StrEnum::Format(f) => {
            let mut tokens: Vec<Token> = Vec::new();
            let n = f.tokens.len();
            for i in 0..n
                invariant
                    n == f.tokens@.len(),
                    tokens@.len() == i,
                    forall|k: int| 0 <= k < i ==> token_views(tokens@)[k] == token_views(
                        f.tokens@,
                    )[k],
            {
                let ghost pre = token_views(tokens@);
                let t = match &f.tokens[i] {
                    Token::Lit(cs) => Token::Lit(cs.clone()),
                    Token::Arg(n2, t2) => Token::Arg(
                        n2.clone(),
                        match t2 {
                            Some(x) => Some(x.clone()),
                            None => None,
                        },
                    ),
                    Token::Env(n2, d2) => Token::Env(
                        n2.clone(),
                        match d2 {
                            Some(x) => Some(x.clone()),
                            None => None,
                        },
                    ),
                };
                let ghost tvv = t@;
                tokens.push(t);
                proof {
                    assert(token_views(tokens@) =~= pre.push(tvv));
                }
            }
            assert(token_views(tokens@) =~= token_views(f.tokens@));
            StrEnum::Format(FormatInterpolator { tokens })
        },
    }
}

/// Every occurrence of a pattern replaced, scanning left to right without
/// overlap.
pub open spec fn spec_replace_from(
    s: Seq<char>,
    pat: Seq<char>,
    rep: Seq<char>,
    i: int,
) -> Seq<char>
    decreases s.len() - i,
{
    if i < 0 || i >= s.len() {
        Seq::empty()
    } else if pat.len() > 0 && occurs_at(s, pat, i) {
        rep + spec_replace_from(s, pat, rep, i + pat.len())
    } else {
        Seq::empty().push(s[i]) + spec_replace_from(s, pat, rep, i + 1)
    }
}

/// Exec mirror of `spec_replace_from`.
fn replace_all(s: &Vec<char>, pat: &Vec<char>, rep: &String) -> (r: String)
    requires
        pat@.len() > 0,
    ensures
        r@ == spec_replace_from(s@, pat@, rep@, 0),
{
    let mut out = String::new();
    let n = s.len();
    let mut i: usize = 0;
    while i < n
        invariant
            i <= n,
            n == s@.len(),
            pat@.len() > 0,
            spec_replace_from(s@, pat@, rep@, 0) == out@ + spec_replace_from(
                s@,
                pat@,
                rep@,
                i as int,
            ),
        decreases n - i,
    {
        let ghost pre = out@;
        if match_at(s, pat, i) {
            out.append(rep.as_str());
            assert(i + pat@.len() <= n);
            proof {
                assert(pre + spec_replace_from(s@, pat@, rep@, i as int) =~= out@
                    + spec_replace_from(s@, pat@, rep@, i + pat@.len()));
            }
            i = i + pat.len();
        } else {
            out.push(s[i]);
            proof {
                assert(pre + spec_replace_from(s@, pat@, rep@, i as int) =~= out@
                    + spec_replace_from(s@, pat@, rep@, i + 1));
            }
            i = i + 1;
        }
    }
    assert(out@ + Seq::<char>::empty() =~= out@);
    out
}

/// The template text with each macro-given variable replaced by its value.
pub open spec fn spec_apply_macro_vars(s: Seq<char>, vars: Seq<(Seq<char>, Seq<char>)>) -> Seq<
    char,
>
    decreases vars.len(),
{
    if vars.len() == 0 {
        s
    } else {
        spec_apply_macro_vars(
            spec_replace_from(s, placeholder_text(vars[0].0), vars[0].1, 0),
            vars.drop_first(),
        )
    }
}

/// What expanding a whole template invocation must produce: resolve the
/// file-level variables, substitute the variables given with the macro
/// call, and parse every request of the result; a snippet with no
/// well-formed request fails the whole expansion.
pub open spec fn spec_expand_macro(
    content: Seq<char>,
    supplier: Option<Seq<char>>,
    vars: Option<Seq<(Seq<char>, Seq<char>)>>,
) -> Result<Seq<HttpRequestFnV>, ConfigErrorV> {
    let substituted = spec_parse_and_substitute(content);
    let applied = match vars {
        Some(vs) => spec_apply_macro_vars(substituted, vs),
        None => substituted,
    };
    spec_parse_http_file(applied, supplier)
}

/// Compile a template text into its request functions, applying the
/// variables given with the macro call after the file-level ones.
pub fn expand_macro(
    content: &str,
    client_supplier: &Option<String>,
    variables: &Option<Vec<(String, String)>>,
) -> (r: Result<Vec<HttpRequestFn>, ConfigError>)
    ensures
        ({
            let spec_result = spec_expand_macro(
                content@,
                opt_view(*client_supplier),
                match variables {
                    Some(vs) => Some(var_pair_views(vs@)),
                    None => None,
                },
            );
            match r {
                Ok(fs) => spec_result == Ok::<Seq<HttpRequestFnV>, ConfigErrorV>(
                    req_fn_views(fs@),
                ),
                Err(e) => spec_result == Err::<Seq<HttpRequestFnV>, ConfigErrorV>(e@),
            }
        }),
{
    let mut http_content = parse_and_substitute(content);
    if let Some(vs) = variables {
        let ghost vv = var_pair_views(vs@);
        let n = vs.len();
        assert(vv.skip(0) =~= vv);
        for i in 0..n
            invariant
                n == vs@.len(),
                vv == var_pair_views(vs@),
                spec_apply_macro_vars(spec_parse_and_substitute(content@), vv)
                    == spec_apply_macro_vars(http_content@, vv.skip(i as int)),
        {
            assert(vv.skip(i as int)[0] == vv[i as int]);
            assert(vv.skip(i as int).drop_first() =~= vv.skip(i + 1));
            let key = make_placeholder(&vs[i].0);
            let kv = str_to_chars(key.as_str());
            let cv = str_to_chars(http_content.as_str());
            assert(kv@.len() > 0) by {
                assert(kv@ == placeholder_text(vs@[i as int].0@));
            }
            http_content = replace_all(&cv, &kv, &vs[i].1);
        }
        assert(vv.skip(n as int) =~= Seq::<(Seq<char>, Seq<char>)>::empty());
    }
    parse_http_file(http_content.as_str(), client_supplier)
}

/// The arguments of one template-inclusion invocation: the template file's
/// path, an optional client-supplier name, and optional variable bindings.
#[derive(Debug, Clone, PartialEq, Eq)]
pub struct IncludeHttp {
    pub file_path: String,
    pub client_supplier: Option<String>,
    pub variables: Option<Vec<(String, String)>>,
}

/// Spec-level image of an `IncludeHttp`.
pub struct IncludeHttpV {
    pub file_path: Seq<char>,
    pub client_supplier: Option<Seq<char>>,
    pub variables: Option<Seq<(Seq<char>, Seq<char>)>>,
}

impl View for IncludeHttp {
    type V = IncludeHttpV;

    open spec fn view(&self) -> IncludeHttpV {
        IncludeHttpV {
            file_path: self.file_path@,
            client_supplier: opt_view(self.client_supplier),
            variables: match &self.variables {
                Some(vs) => Some(var_pair_views(vs@)),
                None => None,
            },
        }
    }
}

/// Match a quoted literal at `i`; yields its contents and end position.
pub open spec fn match_strlit_at(s: Seq<char>, i: int) -> Option<(Seq<char>, int)> {
    if 0 <= i && i < s.len() && s[i] == '"' {
        let e = run_end(CharClass::LitChar, s, i + 1);
        if e < s.len() && s[e] == '"' {
            Some((s.subrange(i + 1, e), e + 1))
        } else {
            None
        }
    } else {
        None
    }
}

/// Exec mirror of `match_strlit_at`.
fn try_strlit_at(v: &Vec<char>, i: usize) -> (r: Option<(String, usize)>)
    requires
        i <= v@.len(),
    ensures
        match r {
            Some((lit, e)) => match_strlit_at(v@, i as int) == Some((lit@, e as int)) && i < e
                <= v@.len(),
            None => match_strlit_at(v@, i as int) is None,
        },
{
    let n = v.len();
    if i < n && v[i] == '"' {
        let e = scan_run(CharClass::LitChar, v, i + 1);
        if e < n && v[e] == '"' {
            Some((chars_to_string(&slice_chars(v, i + 1, e)), e + 1))
        } else {
            None
        }
    } else {
        None
    }
}

/// The `name = "value"` entries of a braced group, from after the opening
/// brace to past the closing one.
pub open spec fn spec_parse_entries(s: Seq<char>, i: int) -> Option<
    (Seq<(Seq<char>, Seq<char>)>, int),
>
    decreases s.len() - i,
{
    if i < 0 {
        None
    } else {
        let w = run_end(CharClass::Space, s, i);
        if w >= s.len() {
            None
        } else if s[w] == '}' {
            Some((Seq::empty(), w + 1))
        } else {
            let j = run_end(CharClass::Word, s, w);
            if j == w {
                None
            } else {
                let name = s.subrange(w, j);
                let a = run_end(CharClass::Space, s, j);
                if a < s.len() && s[a] == '=' {
                    let b = run_end(CharClass::Space, s, a + 1);
                    match match_strlit_at(s, b) {
                        None => None,
                        Some((val, e)) => {
                            let c = run_end(CharClass::Space, s, e);
                            if c < s.len() && s[c] == ',' {
                                match spec_parse_entries(
                                    s,
                                    if c + 1 > i {
                                        c + 1
                                    } else {
                                        i + 1
                                    },
                                ) {
                                    Some((rest, fin)) => Some(
                                        (Seq::empty().push((name, val)) + rest, fin),
                                    ),
                                    None => None,
                                }
                            } else if c < s.len() && s[c] == '}' {
                                Some((Seq::empty().push((name, val)), c + 1))
                            } else {
                                None
                            }
                        },
                    }
                } else {
                    None
                }
            }
        }
    }
}

/// What parsing the invocation arguments must produce: a quoted path,
/// optionally a supplier name, optionally braced variable bindings, and
/// nothing else.
pub open spec fn spec_parse_include_args(s: Seq<char>) -> Option<IncludeHttpV> {
    let i0 = run_end(CharClass::Space, s, 0);
    match match_strlit_at(s, i0) {
        None => None,
        Some((path, p1)) => {
            let i1 = run_end(CharClass::Space, s, p1);
            if i1 >= s.len() {
                Some(IncludeHttpV { file_path: path, client_supplier: None, variables: None })
            } else if s[i1] != ',' {
                None
            } else {
                let i2 = run_end(CharClass::Space, s, i1 + 1);
                if i2 >= s.len() {
                    None
                } else {
                    let j = run_end(CharClass::Word, s, i2);
                    if j > i2 {
                        let supplier = s.subrange(i2, j);
                        let i3 = run_end(CharClass::Space, s, j);
                        if i3 >= s.len() {
                            Some(
                                IncludeHttpV {
                                    file_path: path,
                                    client_supplier: Some(supplier),
                                    variables: None,
                                },
                            )
                        } else if s[i3] != ',' {
                            None
                        } else {
                            let i4 = run_end(CharClass::Space, s, i3 + 1);
                            spec_parse_include_braces(s, path, Some(supplier), i4)
                        }
                    } else {
                        spec_parse_include_braces(s, path, None, i2)
                    }
                }
            }
        },
    }
}

/// The braced variable group and the trailing end of the argument text.
pub open spec fn spec_parse_include_braces(
    s: Seq<char>,
    path: Seq<char>,
    supplier: Option<Seq<char>>,
    i: int,
) -> Option<IncludeHttpV> {
    if i < s.len() && s[i] == '{' {
        match spec_parse_entries(s, i + 1) {
            Some((vars, fin)) => {
                if run_end(CharClass::Space, s, fin) >= s.len() {
                    Some(
                        IncludeHttpV {
                            file_path: path,
                            client_supplier: supplier,
                            variables: Some(vars),
                        },
                    )
                } else {
                    None
                }
            },
            None => None,
        }
    } else {
        None
    }
}

/// Exec mirror of `spec_parse_entries`.
fn parse_entries(v: &Vec<char>, i: usize) -> (r: Option<(Vec<(String, String)>, usize)>)
    requires
        i <= v@.len(),
    ensures
        match r {
            Some((vars, fin)) => spec_parse_entries(v@, i as int) == Some(
                (var_pair_views(vars@), fin as int),
            ) && fin <= v@.len(),
            None => spec_parse_entries(v@, i as int) is None,
        },
    decreases v@.len() - i,
{
    let n = v.len();
    let w = scan_run(CharClass::Space, v, i);
    if w >= n {
        return None;
    }
    if v[w] == '}' {
        let empty_vars: Vec<(String, String)> = Vec::new();
        assert(var_pair_views(empty_vars@) =~= Seq::<(Seq<char>, Seq<char>)>::empty());
        return Some((empty_vars, w + 1));
    }
    let j = scan_run(CharClass::Word, v, w);
    if j == w {
        return None;
    }
    let name = chars_to_string(&slice_chars(v, w, j));
    let a = scan_run(CharClass::Space, v, j);
    if !(a < n && v[a] == '=') {
        return None;
    }
    let b = scan_run(CharClass::Space, v, a + 1);
    let (val, e) = match try_strlit_at(v, b) {
        Some(x) => x,
        None => {
            return None;
        },
    };
    let c = scan_run(CharClass::Space, v, e);
    if c < n && v[c] == ',' {
        assert(c + 1 > i);
        match parse_entries(v, c + 1) {
            Some((rest, fin)) => {
                let mut vars: Vec<(String, String)> = Vec::new();
                vars.push((name, val));
                let rn = rest.len();
                let ghost rv = var_pair_views(rest@);
                let ghost first = var_pair_views(vars@);
                assert(first =~= Seq::<(Seq<char>, Seq<char>)>::empty().push(
                    (vars@[0].0@, vars@[0].1@),
                ));
                let mut q: usize = 0;
                while q < rn
                    invariant
                        q <= rn,
                        rn == rest@.len(),
                        rv == var_pair_views(rest@),
                        var_pair_views(vars@) == first + rv.take(q as int),
                    decreases rn - q,
                {
                    let ghost pre = var_pair_views(vars@);
                    vars.push((rest[q].0.clone(), rest[q].1.clone()));
                    assert(var_pair_views(vars@) =~= pre.push(rv[q as int]));
                    assert(pre.push(rv[q as int]) =~= first + rv.take(q + 1));
                    q = q + 1;
                }
                proof {
                    assert(rv.take(rn as int) =~= rv);
                    assert(var_pair_views(vars@) =~= first + rv);
                }
                Some((vars, fin))
            },
            None => None,
        }
    } else if c < n && v[c] == '}' {
        let mut vars: Vec<(String, String)> = Vec::new();
        vars.push((name, val));
        assert(var_pair_views(vars@) =~= Seq::<(Seq<char>, Seq<char>)>::empty().push(
            (vars@[0].0@, vars@[0].1@),
        ));
        Some((vars, c + 1))
    } else {
        None
    }
}

impl IncludeHttp {
    /// Parse the invocation arguments; fails with a diagnostic text exactly
    /// when the argument grammar rejects them.
    pub fn parse(args: &str) -> (r: Result<IncludeHttp, String>)
        ensures
            match r {
                Ok(inc) => spec_parse_include_args(args@) == Some(inc@),
                Err(_) => spec_parse_include_args(args@) is None,
            },
    {
        let v = str_to_chars(args);
        let n = v.len();
        let i0 = scan_run(CharClass::Space, &v, 0);
        let (path, p1) = match try_strlit_at(&v, i0) {
            Some(x) => x,
            None => {
                return Err(invalid_args_text());
            },
        };
        let i1 = scan_run(CharClass::Space, &v, p1);
        if i1 >= n {
            return Ok(IncludeHttp { file_path: path, client_supplier: None, variables: None });
        }
        if v[i1] != ',' {
            return Err(invalid_args_text());
        }
        let i2 = scan_run(CharClass::Space, &v, i1 + 1);
        if i2 >= n {
            return Err(invalid_args_text());
        }
        let j = scan_run(CharClass::Word, &v, i2);
        if j > i2 {
            let supplier = chars_to_string(&slice_chars(&v, i2, j));
            let i3 = scan_run(CharClass::Space, &v, j);
            if i3 >= n {
                return Ok(
                    IncludeHttp {
                        file_path: path,
                        client_supplier: Some(supplier),
                        variables: None,
                    },
                );
            }
            if v[i3] != ',' {
                return Err(invalid_args_text());
            }
            let i4 = scan_run(CharClass::Space, &v, i3 + 1);
            Self::parse_braces(&v, path, Some(supplier), i4)
        } else {
            Self::parse_braces(&v, path, None, i2)
        }
    }

    /// Parse the braced variable group that ends the argument list.
    fn parse_braces(v: &Vec<char>, path: String, supplier: Option<String>, i: usize) -> (r: Result<
        IncludeHttp,
        String,
    >)
        requires
            i <= v@.len(),
        ensures
            match r {
                Ok(inc) => spec_parse_include_braces(v@, path@, opt_view(supplier), i as int)
                    == Some(inc@),
                Err(_) => spec_parse_include_braces(v@, path@, opt_view(supplier), i as int)
                    is None,
            },
    {
        let n = v.len();
        if !(i < n && v[i] == '{') {
            return Err(invalid_args_text());
        }
        match parse_entries(v, i + 1) {
            Some((vars, fin)) => {
                if scan_run(CharClass::Space, v, fin) >= n {
                    Ok(
                        IncludeHttp {
                            file_path: path,
                            client_supplier: supplier,
                            variables: Some(vars),
                        },
                    )
                } else {
                    Err(invalid_args_text())
                }
            },
            None => Err(invalid_args_text()),
        }
    }
}

/// The diagnostic for a malformed invocation.
fn invalid_args_text() -> String {
    let mut s = String::new();
    s.append("invalid arguments: expected a quoted path, then optionally a client supplier");
    s.append(" and braced name = \"value\" pairs");
    s
}

/// A template character as it must appear inside a format literal: braces
/// doubled, everything else as itself.
pub open spec fn spec_escape_char(c: char) -> Seq<char> {
    if c == '{' {
        seq!['{', '{']
    } else if c == '}' {
        seq!['}', '}']
    } else {
        seq![c]
    }
}

/// A literal run escaped for a format literal.
pub open spec fn spec_escape(cs: Seq<char>) -> Seq<char>
    decreases cs.len(),
{
    if cs.len() == 0 {
        Seq::empty()
    } else {
        spec_escape_char(cs[0]) + spec_escape(cs.drop_first())
    }
}

/// One token as it appears in the format literal: an escaped literal run,
/// or the braced parameter or lower-cased environment binding name.
pub open spec fn spec_fmt_token(t: TokenV) -> Seq<char> {
    match t {
        TokenV::Lit(cs) => spec_escape(cs),
        TokenV::Arg(n, _) => seq!['{'] + n + seq!['}'],
        TokenV::Env(n, _) => seq!['{'] + spec_lower(n) + seq!['}'],
    }
}

/// The whole format literal of a token list.
pub open spec fn spec_fmt(ts: Seq<TokenV>) -> Seq<char>
    decreases ts.len(),
{
    if ts.len() == 0 {
        Seq::empty()
    } else {
        spec_fmt_token(ts[0]) + spec_fmt(ts.drop_first())
    }
}

/// Append one escaped literal run.
fn append_escaped(out: &mut String, cs: &String)
    ensures
        final(out)@ == old(out)@ + spec_escape(cs@),
{
    let v = str_to_chars(cs.as_str());
    let n = v.len();
    let ghost base = out@;
    assert(v@.skip(0) =~= v@);
    for i in 0..n
        invariant
            n == v@.len(),
            v@ == cs@,
            out@ + spec_escape(v@.skip(i as int)) == base + spec_escape(v@),
    {
        let ghost pre = out@;
        assert(v@.skip(i as int)[0] == v@[i as int]);
        assert(v@.skip(i as int).drop_first() =~= v@.skip(i + 1));
        let c = v[i];
        if c == '{' {
            out.push('{');
            out.push('{');
        } else if c == '}' {
            out.push('}');
            out.push('}');
        } else {
            out.push(c);
        }
        proof {
            assert(out@ =~= pre + spec_escape_char(v@[i as int]));
            assert(pre + (spec_escape_char(v@[i as int]) + spec_escape(v@.skip(i + 1))) =~= out@
                + spec_escape(v@.skip(i + 1)));
        }
    }
    assert(v@.skip(n as int) =~= Seq::<char>::empty());
    assert(out@ + Seq::<char>::empty() =~= out@);
}

impl FormatInterpolator {
    /// The format literal the generated code interpolates with.
    pub fn fmt(&self) -> (r: String)
        ensures
            r@ == spec_fmt(self@),
    {
        let mut out = String::new();
        let ghost ts = self@;
        let n = self.tokens.len();
        assert(ts.skip(0) =~= ts);
        for i in 0..n
            invariant
                n == self.tokens@.len(),
                ts == token_views(self.tokens@),
                out@ + spec_fmt(ts.skip(i as int)) == spec_fmt(ts),
        {
            let ghost pre = out@;
            assert(ts.skip(i as int)[0] == ts[i as int]);
            assert(ts.skip(i as int).drop_first() =~= ts.skip(i + 1));
            match &self.tokens[i] {
                Token::Lit(cs) => {
                    append_escaped(&mut out, cs);
                },
                Token::Arg(name, _) => {
                    out.push('{');
                    out.append(name.as_str());
                    out.push('}');
                },
                Token::Env(name, _) => {
                    out.push('{');
                    let lower = chars_to_string(&lower_chars(&str_to_chars(name.as_str())));
                    out.append(lower.as_str());
                    out.push('}');
                },
            }
            proof {
                assert(out@ =~= pre + spec_fmt_token(ts[i as int]));
                assert(pre + (spec_fmt_token(ts[i as int]) + spec_fmt(ts.skip(i + 1))) =~= out@
                    + spec_fmt(ts.skip(i + 1)));
            }
        }
        assert(ts.skip(n as int) =~= Seq::<TokenV>::empty());
        assert(out@ + Seq::<char>::empty() =~= out@);
        out
    }
}

/// The rendered parameter declaration: its name, a colon, and the declared
/// type or the borrowed-string default.
pub open spec fn spec_render_arg(a: FormatArgV) -> Seq<char> {
    a.name + ": "@ + (match a.ty {
        Some(t) => t,
        None => "&str"@,
    })
}

impl FormatArg {
    /// Render this parameter declaration.
    pub fn render(&self) -> (r: String)
        ensures
            r@ == spec_render_arg(self@),
    {
        let mut out = String::new();
        out.append(self.name.as_str());
        out.append(": ");
        match &self.ty {
            Some(t) => out.append(t.as_str()),
            None => out.append("&str"),
        }
        assert(out@ =~= spec_render_arg(self@));
        out
    }
}

/// The rendered environment-read statement: bind the lower-cased name to
/// the process variable's value, with the default literal or the empty
/// string as fallback.
pub open spec fn spec_render_env(e: EnvVariableV) -> Seq<char> {
    match e.default_value {
        Some(d) => "let "@ + spec_lower(e.name) + " = std::env::var(\""@ + e.name
            + "\").ok().unwrap_or_else(||\""@ + d + "\".to_string());"@,
        None => "let "@ + spec_lower(e.name) + " = ::std::env::var(\""@ + e.name
            + "\").ok().unwrap_or_default();"@,
    }
}

impl EnvVariable {
    /// Render this environment-read statement.
    pub fn render(&self) -> (r: String)
        ensures
            r@ == spec_render_env(self@),
    {
        let mut out = String::new();
        out.append("let ");
        let lower = self.lowercase_name();
        out.append(lower.as_str());
        match &self.default_value {
            Some(d) => {
                out.append(" = std::env::var(\"");
                out.append(self.name.as_str());
                out.append("\").ok().unwrap_or_else(||\"");
                out.append(d.as_str());
                out.append("\".to_string());");
            },
            None => {
                out.append(" = ::std::env::var(\"");
                out.append(self.name.as_str());
                out.append("\").ok().unwrap_or_default();");
            },
        }
        assert(out@ =~= spec_render_env(self@));
        out
    }
}

/// The rendered value expression: a quoted literal, or a format call over
/// the template's format literal.
pub open spec fn spec_render_value(se: StrEnumV) -> Seq<char> {
    match se {
        StrEnumV::RawStr(s) => "\""@ + s + "\""@,
        StrEnumV::Format(ts) => "format!(\""@ + spec_fmt(ts) + "\")"@,
    }
}

impl StrEnum {
    /// Render this value expression. A raw value is quoted as it stands;
    /// it is the template author's text and is not re-escaped here.
    pub fn render(&self) -> (r: String)
        ensures
            r@ == spec_render_value(self@),
    {
        let mut out = String::new();
        match self {
            StrEnum::RawStr(s) => {
                out.append("\"");
                out.append(s.as_str());
                out.append("\"");
            },
            StrEnum::Format(f) => {
                out.append("format!(\"");
                let fmt = f.fmt();
                out.append(fmt.as_str());
                out.append("\")");
            },
        }
        assert(out@ =~= spec_render_value(self@));
        out
    }
}

/// The rendered headers of a request chain, in order.
pub open spec fn spec_render_headers(hs: Seq<HeaderV>) -> Seq<char>
    decreases hs.len(),
{
    if hs.len() == 0 {
        Seq::empty()
    } else {
        ".header(\""@ + hs[0].key + "\", "@ + spec_render_value(hs[0].value) + ")"@
            + spec_render_headers(hs.drop_first())
    }
}

/// The rendered request build-and-send chain.
pub open spec fn spec_render_request(r: HttpRequestV) -> Seq<char> {
    "client."@ + spec_lower(r.method) + "("@ + spec_render_value(r.url) + ")"@
        + spec_render_headers(r.headers) + (match r.body {
        Some(b) => ".body("@ + spec_render_value(b) + ")"@,
        None => Seq::empty(),
    }) + ".send().await"@
}

impl HttpRequest {
    /// Render the build-and-send chain of this request.
    pub fn render(&self) -> (r: String)
        ensures
            r@ == spec_render_request(self@),
    {
        let mut out = String::new();
        out.append("client.");
        let lower = chars_to_string(&lower_chars(&str_to_chars(self.method.as_str())));
        out.append(lower.as_str());
        out.append("(");
        let url = self.url.render();
        out.append(url.as_str());
        out.append(")");
        let ghost hv = header_views(self.headers@);
        let n = self.headers.len();
        let ghost base = out@;
        assert(hv.skip(0) =~= hv);
        for i in 0..n
            invariant
                n == self.headers@.len(),
                hv == header_views(self.headers@),
                out@ + spec_render_headers(hv.skip(i as int)) == base + spec_render_headers(hv),
        {
            let ghost pre = out@;
            assert(hv.skip(i as int)[0] == hv[i as int]);
            assert(hv.skip(i as int).drop_first() =~= hv.skip(i + 1));
            out.append(".header(\"");
            out.append(self.headers[i].key.as_str());
            out.append("\", ");
            let val = self.headers[i].value.render();
            out.append(val.as_str());
            out.append(")");
            proof {
                assert(out@ =~= pre + (".header(\""@ + hv[i as int].key + "\", "@
                    + spec_render_value(hv[i as int].value) + ")"@));
                assert(pre + ((".header(\""@ + hv[i as int].key + "\", "@ + spec_render_value(
                    hv[i as int].value,
                ) + ")"@) + spec_render_headers(hv.skip(i + 1))) =~= out@ + spec_render_headers(
                    hv.skip(i + 1),
                ));
            }
        }
        assert(hv.skip(n as int) =~= Seq::<HeaderV>::empty());
        match &self.body {
            Some(b) => {
                out.append(".body(");
                let body = b.render();
                out.append(body.as_str());
                out.append(")");
            },
            None => {},
        }
        out.append(".send().await");
        assert(out@ =~= spec_render_request(self@));
        out
    }
}

/// The rendered parameter list, comma separated.
pub open spec fn spec_render_args(args: Seq<FormatArgV>) -> Seq<char>
    decreases args.len(),
{
    if args.len() == 0 {
        Seq::empty()
    } else if args.len() == 1 {
        spec_render_arg(args[0])
    } else {
        spec_render_arg(args[0]) + ", "@ + spec_render_args(args.drop_first())
    }
}

/// The rendered environment-read statements, one per line.
pub open spec fn spec_render_envs(envs: Seq<EnvVariableV>) -> Seq<char>
    decreases envs.len(),
{
    if envs.len() == 0 {
        Seq::empty()
    } else {
        "    "@ + spec_render_env(envs[0]) + "\n"@ + spec_render_envs(envs.drop_first())
    }
}

/// The whole rendered request function: an async function named after the
/// request, one parameter per unique call parameter, the client from the
/// supplier or a fresh default, the environment reads, and the send chain.
pub open spec fn spec_render_request_fn(f: HttpRequestFnV) -> Seq<char> {
    "pub async fn "@ + f.name + "("@ + spec_render_args(spec_collect_args(f.request))
        + ") -> ::std::result::Result<::reqwest::Response, ::reqwest::Error> {\n"@ + (match f
        .client_supplier {
        Some(sup) => "    let client = "@ + sup + "();\n"@,
        None => "    let client = reqwest::Client::new();\n"@,
    }) + spec_render_envs(spec_collect_envs(f.request)) + "    "@ + spec_render_request(f.request)
        + "\n}\n"@
}

impl HttpRequestFn {
    /// Render this request function as source text.
    pub fn render(&self) -> (r: String)
        ensures
            r@ == spec_render_request_fn(self@),
    {
        let mut out = String::new();
        out.append("pub async fn ");
        out.append(self.name.as_str());
        out.append("(");
        let args = self.request.collect_args();
        let ghost av = arg_views(args@);
        let n = args.len();
        let ghost base = out@;
        assert(av.skip(0) =~= av);
        for i in 0..n
            invariant
                n == args@.len(),
                av == arg_views(args@),
                out@ + spec_render_args(av.skip(i as int)) == base + spec_render_args(av),
        {
            let ghost pre = out@;
            assert(av.skip(i as int)[0] == av[i as int]);
            assert(av.skip(i as int).drop_first() =~= av.skip(i + 1));
            let one = args[i].render();
            out.append(one.as_str());
            if i + 1 < n {
                out.append(", ");
                proof {
                    assert(av.skip(i as int).len() > 1);
                    assert(out@ =~= pre + (spec_render_arg(av[i as int]) + ", "@));
                    assert(pre + (spec_render_arg(av[i as int]) + ", "@ + spec_render_args(
                        av.skip(i + 1),
                    )) =~= out@ + spec_render_args(av.skip(i + 1)));
                }
            } else {
                proof {
                    assert(av.skip(i as int).len() == 1);
                    assert(av.skip(i + 1) =~= Seq::<FormatArgV>::empty());
                    assert(out@ =~= pre + spec_render_arg(av[i as int]));
                    assert(pre + spec_render_args(av.skip(i as int)) =~= out@ + spec_render_args(
                        av.skip(i + 1),
                    ));
                }
            }
        }
        assert(av.skip(n as int) =~= Seq::<FormatArgV>::empty());
        assert(out@ =~= base + spec_render_args(av));
        out.append(") -> ::std::result::Result<::reqwest::Response, ::reqwest::Error> {\n");
        match &self.client_supplier {
            Some(sup) => {
                out.append("    let client = ");
                out.append(sup.as_str());
                out.append("();\n");
            },
            None => {
                out.append("    let client = reqwest::Client::new();\n");
            },
        }
        let envs = self.request.collect_envs();
        let ghost ev = env_views(envs@);
        let en = envs.len();
        let ghost base2 = out@;
        assert(ev.skip(0) =~= ev);
        for i in 0..en
            invariant
                en == envs@.len(),
                ev == env_views(envs@),
                out@ + spec_render_envs(ev.skip(i as int)) == base2 + spec_render_envs(ev),
        {
            let ghost pre = out@;
            assert(ev.skip(i as int)[0] == ev[i as int]);
            assert(ev.skip(i as int).drop_first() =~= ev.skip(i + 1));
            out.append("    ");
            let one = envs[i].render();
            out.append(one.as_str());
            out.append("\n");
            proof {
                assert(out@ =~= pre + ("    "@ + spec_render_env(ev[i as int]) + "\n"@));
                assert(pre + (("    "@ + spec_render_env(ev[i as int]) + "\n"@)
                    + spec_render_envs(ev.skip(i + 1))) =~= out@ + spec_render_envs(
                    ev.skip(i + 1),
                ));
            }
        }
        assert(ev.skip(en as int) =~= Seq::<EnvVariableV>::empty());
        out.append("    ");
        let chain = self.request.render();
        out.append(chain.as_str());
        out.append("\n}\n");
        assert(out@ =~= spec_render_request_fn(self@));
        out
    }
}

/// The value an environment read binds: the process value when the
/// variable is set, else the declared default, else the empty string.
pub open spec fn spec_env_value(e: EnvVariableV, process_value: Option<Seq<char>>) -> Seq<char> {
    match process_value {
        Some(v) => v,
        None => match e.default_value {
            Some(d) => d,
            None => Seq::empty(),
        },
    }
}

/// Compute the value an environment read binds, for any process value.
pub fn env_value(e: &EnvVariable, process_value: Option<String>) -> (r: String)
    ensures
        r@ == spec_env_value(e@, opt_view(process_value)),
{
    match process_value {
        Some(v) => v,
        None => match &e.default_value {
            Some(d) => d.clone(),
            None => String::new(),
        },
    }
}

/// A token list instantiated with parameter and environment values; an
/// unbound name becomes the empty string.
pub open spec fn spec_instantiate_tokens(
    ts: Seq<TokenV>,
    params: Seq<(Seq<char>, Seq<char>)>,
    envs: Seq<(Seq<char>, Seq<char>)>,
) -> Seq<char>
    decreases ts.len(),
{
    if ts.len() == 0 {
        Seq::empty()
    } else {
        (match ts[0] {
            TokenV::Lit(cs) => cs,
            TokenV::Arg(n, _) => match spec_var_lookup(params, n) {
                Some(v) => v,
                None => Seq::empty(),
            },
            TokenV::Env(n, _) => match spec_var_lookup(envs, n) {
                Some(v) => v,
                None => Seq::empty(),
            },
        }) + spec_instantiate_tokens(ts.drop_first(), params, envs)
    }
}

/// A value template instantiated with parameter and environment values.
pub open spec fn spec_instantiate_value(
    se: StrEnumV,
    params: Seq<(Seq<char>, Seq<char>)>,
    envs: Seq<(Seq<char>, Seq<char>)>,
) -> Seq<char> {
    match se {
        StrEnumV::RawStr(s) => s,
        StrEnumV::Format(ts) => spec_instantiate_tokens(ts, params, envs),
    }
}

/// Instantiate one value template with concrete parameter and environment
/// values.
pub fn instantiate_value(
    se: &StrEnum,
    params: &Vec<(String, String)>,
    envs: &Vec<(String, String)>,
) -> (r: String)
    ensures
        r@ == spec_instantiate_value(se@, var_pair_views(params@), var_pair_views(envs@)),
{
    let ghost pv = var_pair_views(params@);
    let ghost ev = var_pair_views(envs@);
    match se {
        StrEnum::RawStr(s) => s.clone(),
        StrEnum::Format(f) => {
            let mut out = String::new();
            let ghost ts = f@;
            let n = f.tokens.len();
            assert(ts.skip(0) =~= ts);
            for i in 0..n
                invariant
                    n == f.tokens@.len(),
                    ts == token_views(f.tokens@),
                    pv == var_pair_views(params@),
                    ev == var_pair_views(envs@),
                    out@ + spec_instantiate_tokens(ts.skip(i as int), pv, ev)
                        == spec_instantiate_tokens(ts, pv, ev),
            {
                let ghost pre = out@;
                assert(ts.skip(i as int)[0] == ts[i as int]);
                assert(ts.skip(i as int).drop_first() =~= ts.skip(i + 1));
                match &f.tokens[i] {
                    Token::Lit(cs) => out.append(cs.as_str()),
                    Token::Arg(name, _) => {
                        match var_lookup(params, name) {
                            Some(v) => out.append(v.as_str()),
                            None => {},
                        }
                    },
                    Token::Env(name, _) => {
                        match var_lookup(envs, name) {
                            Some(v) => out.append(v.as_str()),
                            None => {},
                        }
                    },
                }
                proof {
                    assert(pre + spec_instantiate_tokens(ts.skip(i as int), pv, ev) =~= out@
                        + spec_instantiate_tokens(ts.skip(i + 1), pv, ev));
                }
            }
            assert(ts.skip(n as int) =~= Seq::<TokenV>::empty());
            assert(out@ + Seq::<char>::empty() =~= out@);
            out
        },
    }
}

/// A request with every template instantiated: what the generated function
/// sends for given parameter and environment values.
#[derive(Debug, Clone, PartialEq, Eq)]
pub struct ResolvedRequest {
    pub method: String,
    pub url: String,
    pub headers: Vec<(String, String)>,
    pub body: Option<String>,
}

/// Instantiate a whole request with concrete parameter and environment
/// values.
pub fn instantiate_request(
    f: &HttpRequestFn,
    params: &Vec<(String, String)>,
    envs: &Vec<(String, String)>,
) -> (r: ResolvedRequest)
    ensures
        r.method@ == f@.request.method,
        r.url@ == spec_instantiate_value(
            f@.request.url,
            var_pair_views(params@),
            var_pair_views(envs@),
        ),
        var_pair_views(r.headers@).len() == f@.request.headers.len(),
        forall|k: int|
            0 <= k < f@.request.headers.len() ==> var_pair_views(r.headers@)[k] == (
            (#[trigger] f@.request.headers[k]).key, spec_instantiate_value(
                f@.request.headers[k].value,
                var_pair_views(params@),
                var_pair_views(envs@),
            )),
        match f@.request.body {
            Some(b) => r.body is Some && r.body->0@ == spec_instantiate_value(
                b,
                var_pair_views(params@),
                var_pair_views(envs@),
            ),
            None => r.body is None,
        },
{
    let ghost pv = var_pair_views(params@);
    let ghost ev = var_pair_views(envs@);
    let url = instantiate_value(&f.request.url, params, envs);
    let mut headers: Vec<(String, String)> = Vec::new();
    let n = f.request.headers.len();
    for i in 0..n
        invariant
            n == f.request.headers@.len(),
            pv == var_pair_views(params@),
            ev == var_pair_views(envs@),
            headers@.len() == i,
            forall|k: int|
                0 <= k < i ==> var_pair_views(headers@)[k] == (
                (#[trigger] header_views(f.request.headers@)[k]).key, spec_instantiate_value(
                    header_views(f.request.headers@)[k].value,
                    pv,
                    ev,
                )),
    {
        let ghost pre = var_pair_views(headers@);
        let key = f.request.headers[i].key.clone();
        let val = instantiate_value(&f.request.headers[i].value, params, envs);
        headers.push((key, val));
        proof {
            assert(var_pair_views(headers@) =~= pre.push(
                (headers@.last().0@, headers@.last().1@),
            ));
        }
    }
    let body = match &f.request.body {
        Some(b) => Some(instantiate_value(b, params, envs)),
        None => None,
    };
    ResolvedRequest { method: f.request.method.clone(), url, headers, body }
}

/// The source text with every recognised placeholder replaced by its
/// bound value — a call parameter by the parameter's value, an
/// environment lookup by the environment's, an unbound name by the empty
/// string — and every other character kept as it stands.
pub open spec fn spec_fill(
    s: Seq<char>,
    i: int,
    params: Seq<(Seq<char>, Seq<char>)>,
    envs: Seq<(Seq<char>, Seq<char>)>,
) -> Seq<char>
    decreases s.len() - i,
{
    if i < 0 || i >= s.len() {
        Seq::empty()
    } else {
        match match_env_at(s, i) {
            Some((t, e)) => (match t {
                TokenV::Env(n, _) => match spec_var_lookup(envs, n) {
                    Some(v) => v,
                    None => Seq::empty(),
                },
                _ => Seq::empty(),
            }) + spec_fill(
                s,
                if e > i {
                    e
                } else {
                    i + 1
                },
                params,
                envs,
            ),
            None => match match_arg_at(s, i) {
                Some((t, e)) => (match t {
                    TokenV::Arg(n, _) => match spec_var_lookup(params, n) {
                        Some(v) => v,
                        None => Seq::empty(),
                    },
                    _ => Seq::empty(),
                }) + spec_fill(
                    s,
                    if e > i {
                        e
                    } else {
                        i + 1
                    },
                    params,
                    envs,
                ),
                None => Seq::empty().push(s[i]) + spec_fill(s, i + 1, params, envs),
            },
        }
    }
}

/// Instantiating the scanned tokens of a text equals filling the text
/// directly: tokenization loses nothing of the source.
proof fn lemma_instantiate_scan_fill(
    s: Seq<char>,
    i: int,
    params: Seq<(Seq<char>, Seq<char>)>,
    envs: Seq<(Seq<char>, Seq<char>)>,
)
    ensures
        spec_instantiate_tokens(spec_scan(s, i), params, envs) == spec_fill(s, i, params, envs),
    decreases s.len() - i,
{
    if i < 0 || i >= s.len() {
    } else {
        match match_env_at(s, i) {
            Some((t, e)) => {
                let adv = if e > i {
                    e
                } else {
                    i + 1
                };
                lemma_instantiate_scan_fill(s, adv, params, envs);
                let ts = spec_scan(s, i);
                assert(ts == Seq::empty().push(t) + spec_scan(s, adv));
                assert(ts[0] == t);
                assert(ts.drop_first() =~= spec_scan(s, adv));
                assert(t is Env);
            },
            None => {
                match match_arg_at(s, i) {
                    Some((t, e)) => {
                        let adv = if e > i {
                            e
                        } else {
                            i + 1
                        };
                        lemma_instantiate_scan_fill(s, adv, params, envs);
                        let ts = spec_scan(s, i);
                        assert(ts == Seq::empty().push(t) + spec_scan(s, adv));
                        assert(ts[0] == t);
                        assert(ts.drop_first() =~= spec_scan(s, adv));
                        assert(t is Arg);
                    },
                    None => {
                        lemma_instantiate_scan_fill(s, i + 1, params, envs);
                        let ts = spec_scan(s, i);
                        assert(ts == Seq::empty().push(TokenV::Lit(Seq::empty().push(s[i])))
                            + spec_scan(s, i + 1));
                        assert(ts[0] == TokenV::Lit(Seq::empty().push(s[i])));
                        assert(ts.drop_first() =~= spec_scan(s, i + 1));
                    },
                }
            },
        }
    }
}

/// A text whose scan found no placeholder fills to itself.
proof fn lemma_fill_literal(
    s: Seq<char>,
    i: int,
    params: Seq<(Seq<char>, Seq<char>)>,
    envs: Seq<(Seq<char>, Seq<char>)>,
)
    requires
        0 <= i <= s.len(),
        !spec_has_placeholder(spec_scan(s, i)),
    ensures
        spec_fill(s, i, params, envs) == s.subrange(i, s.len() as int),
    decreases s.len() - i,
{
    if i >= s.len() {
        assert(s.subrange(i, s.len() as int) =~= Seq::<char>::empty());
    } else {
        match match_env_at(s, i) {
            Some((t, e)) => {
                assert(spec_scan(s, i)[0] == t);
                assert(t is Env);
            },
            None => {
                match match_arg_at(s, i) {
                    Some((t, e)) => {
                        assert(spec_scan(s, i)[0] == t);
                        assert(t is Arg);
                    },
                    None => {
                        let ts = spec_scan(s, i);
                        let rest = spec_scan(s, i + 1);
                        assert(ts == Seq::empty().push(TokenV::Lit(Seq::empty().push(s[i])))
                            + rest);
                        assert(!spec_has_placeholder(rest)) by {
                            if spec_has_placeholder(rest) {
                                let k = choose|k: int|
                                    0 <= k < rest.len() && !((#[trigger] rest[k]) is Lit);
                                assert(ts[k + 1] == rest[k]);
                                assert(!(ts[k + 1] is Lit));
                            }
                        }
                        lemma_fill_literal(s, i + 1, params, envs);
                        assert(spec_fill(s, i, params, envs) =~= s.subrange(i, s.len() as int));
                    },
                }
            },
        }
    }
}

/// The template round trip: instantiating a classified value template
/// with parameter and environment values yields exactly the source text
/// with every placeholder replaced by its bound value; a template with no
/// placeholder comes back verbatim.
pub proof fn lemma_instantiate_reproduces_source(
    s: Seq<char>,
    params: Seq<(Seq<char>, Seq<char>)>,
    envs: Seq<(Seq<char>, Seq<char>)>,
)
    ensures
        spec_instantiate_value(spec_str_enum(s), params, envs) == spec_fill(s, 0, params, envs),
{
    lemma_instantiate_scan_fill(s, 0, params, envs);
    if !spec_has_placeholder(spec_scan(s, 0)) {
        lemma_fill_literal(s, 0, params, envs);
        assert(s.subrange(0, s.len() as int) =~= s);
    }
}

/// Compiling the same template text twice yields the same request
/// functions: names, parameter lists, environment reads and the rendered
/// request construction are a function of the text, the supplier and the
/// macro variables alone.
pub proof fn lemma_compile_deterministic(
    a: Seq<char>,
    b: Seq<char>,
    supplier_a: Option<Seq<char>>,
    supplier_b: Option<Seq<char>>,
    vars_a: Option<Seq<(Seq<char>, Seq<char>)>>,
    vars_b: Option<Seq<(Seq<char>, Seq<char>)>>,
)
    requires
        a == b,
        supplier_a == supplier_b,
        vars_a == vars_b,
    ensures
        spec_expand_macro(a, supplier_a, vars_a) == spec_expand_macro(b, supplier_b, vars_b),
{
}

} // verus!
