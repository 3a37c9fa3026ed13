//! Verified character-level string utilities shared by the template compiler,
//! the charset sniffer and the proxy helpers.

use vstd::prelude::*;
use vstd::string::StrSliceExecFns;
use vstd::string::StringExecFns;

verus! {

/// Relies on alloc's `String::push`: appends exactly the given character.
pub assume_specification[ String::push ](s: &mut String, ch: char)
    ensures
        final(s)@ == old(s)@.push(ch),
;

/// Copy the characters of a string slice into a vector.
pub fn str_to_chars(s: &str) -> (r: Vec<char>)
    ensures
        r@ == s@,
{
    let n = s.unicode_len();
    let mut r: Vec<char> = Vec::new();
    for i in 0..n
        invariant
            n == s@.len(),
            r@ == s@.subrange(0, i as int),
    {
        r.push(s.get_char(i));
        assert(r@ =~= s@.subrange(0, i + 1));
    }
    assert(r@ =~= s@);
    r
}

/// Build a `String` out of a character vector.
pub fn chars_to_string(v: &Vec<char>) -> (r: String)
    ensures
        r@ == v@,
{
    let mut r = String::new();
    let n = v.len();
    for i in 0..n
        invariant
            n == v@.len(),
            r@ == v@.subrange(0, i as int),
    {
        r.push(v[i]);
        assert(r@ =~= v@.subrange(0, i + 1));
    }
    assert(r@ =~= v@);
    r
}

/// View of an optional owned string.
pub open spec fn opt_view(o: Option<String>) -> Option<Seq<char>> {
    match o {
        Some(s) => Some(s@),
        None => None,
    }
}

/// Character-for-character equality of two string slices.
pub fn eq_str(a: &str, b: &str) -> (r: bool)
    ensures
        r == (a@ == b@),
{
    let n = a.unicode_len();
    if n != b.unicode_len() {
        assert(a@ != b@) by {
            assert(a@.len() != b@.len());
        }
        return false;
    }
    for i in 0..n
        invariant
            n == a@.len() && n == b@.len(),
            forall|m: int| 0 <= m < i ==> a@[m] == b@[m],
    {
        if a.get_char(i) != b.get_char(i) {
            assert(a@ != b@) by {
                assert(a@[i as int] != b@[i as int]);
            }
            return false;
        }
    }
    assert(a@ =~= b@);
    true
}

/// A word character: ASCII letter, digit or underscore.
pub open spec fn spec_is_word_char(c: char) -> bool {
    ('a' <= c && c <= 'z') || ('A' <= c && c <= 'Z') || ('0' <= c && c <= '9') || c == '_'
}

pub fn is_word_char(c: char) -> (r: bool)
    ensures
        r == spec_is_word_char(c),
{
    ('a' <= c && c <= 'z') || ('A' <= c && c <= 'Z') || ('0' <= c && c <= '9') || c == '_'
}

/// Whitespace as the template grammar understands it.
pub open spec fn spec_is_space(c: char) -> bool {
    c == ' ' || c == '\t' || c == '\n' || c == '\r'
}

pub fn is_space(c: char) -> (r: bool)
    ensures
        r == spec_is_space(c),
{
    c == ' ' || c == '\t' || c == '\n' || c == '\r'
}

/// ASCII lower-casing of a single character; every character outside
/// `A`..`Z` — non-ASCII letters included — is kept as it stands.
pub open spec fn spec_lower_char(c: char) -> char {
    if 'A' <= c && c <= 'Z' {
        ((c as u32) + 32) as char
    } else {
        c
    }
}

pub fn lower_char(c: char) -> (r: char)
    ensures
        r == spec_lower_char(c),
{
    if 'A' <= c && c <= 'Z' {
        assert(c as u32 <= 90);
        let n: u8 = c as u8;
        ((n + 32) as char)
    } else {
        c
    }
}

/// ASCII lower-casing of a whole sequence.
pub open spec fn spec_lower(s: Seq<char>) -> Seq<char> {
    s.map_values(|c: char| spec_lower_char(c))
}

pub fn lower_chars(v: &Vec<char>) -> (r: Vec<char>)
    ensures
        r@ == spec_lower(v@),
{
    let mut r: Vec<char> = Vec::new();
    let n = v.len();
    for i in 0..n
        invariant
            n == v@.len(),
            r@ == spec_lower(v@.subrange(0, i as int)),
    {
        r.push(lower_char(v[i]));
        assert(r@ =~= spec_lower(v@.subrange(0, i + 1)));
    }
    assert(v@.subrange(0, n as int) =~= v@);
    r
}

/// Does `p` occur in `s` starting at position `i`?
pub open spec fn occurs_at(s: Seq<char>, p: Seq<char>, i: int) -> bool {
    0 <= i && i + p.len() <= s.len() && s.subrange(i, i + p.len()) == p
}

/// Position of the first occurrence of `p` in `s` at or after `from`.
pub open spec fn spec_find(s: Seq<char>, p: Seq<char>, from: int) -> Option<int>
    decreases s.len() - from + 1,
{
    if from < 0 || from + p.len() > s.len() {
        None
    } else if s.subrange(from, from + p.len()) == p {
        Some(from)
    } else {
        spec_find(s, p, from + 1)
    }
}

/// Whether `p` occurs anywhere in `s` at or after `from`.
pub open spec fn spec_contains_from(s: Seq<char>, p: Seq<char>, from: int) -> bool {
    spec_find(s, p, from) is Some
}

/// Whether `p` occurs anywhere in `s`.
pub open spec fn spec_contains(s: Seq<char>, p: Seq<char>) -> bool {
    spec_find(s, p, 0) is Some
}

/// A found position is an occurrence, and the earliest one at or after `from`.
pub proof fn lemma_find_occurs(s: Seq<char>, p: Seq<char>, from: int)
    requires
        0 <= from,
    ensures
        match spec_find(s, p, from) {
            Some(i) => occurs_at(s, p, i) && from <= i && forall|j: int|
                from <= j < i ==> !occurs_at(s, p, j),
            None => forall|j: int| from <= j ==> !occurs_at(s, p, j),
        },
    decreases s.len() - from + 1,
{
    if from + p.len() > s.len() {
        assert forall|j: int| from <= j implies !occurs_at(s, p, j) by {
            assert(j + p.len() > s.len());
        }
    } else if s.subrange(from, from + p.len()) == p {
    } else {
        lemma_find_occurs(s, p, from + 1);
    }
}

/// Compare `p` against the characters of `s` starting at `i`.
pub fn match_at(s: &Vec<char>, p: &Vec<char>, i: usize) -> (r: bool)
    requires
        i <= s@.len(),
    ensures
        r == occurs_at(s@, p@, i as int),
{
    let sn = s.len();
    if p.len() > sn - i {
        assert(!occurs_at(s@, p@, i as int));
        return false;
    }
    let n = p.len();
    for k in 0..n
        invariant
            sn == s@.len(),
            i + n <= sn,
            n == p@.len(),
            forall|m: int| 0 <= m < k ==> s@[i + m] == p@[m],
    {
        if s[i + k] != p[k] {
            assert(s@.subrange(i as int, i + n) != p@) by {
                assert(s@.subrange(i as int, i + n)[k as int] != p@[k as int]);
            }
            return false;
        }
    }
    assert(s@.subrange(i as int, i + n) =~= p@);
    true
}

/// First occurrence of `p` in `s` at or after `from`.
pub fn find_from(s: &Vec<char>, p: &Vec<char>, from: usize) -> (r: Option<usize>)
    ensures
        match r {
            Some(i) => Some(i as int) == spec_find(s@, p@, from as int),
            None => spec_find(s@, p@, from as int) is None,
        },
{
    let sn = s.len();
    let pn = p.len();
    if from > sn || pn > sn - from {
        proof {
            lemma_find_none_when_short(s@, p@, from as int);
        }
        return None;
    }
    let bound = sn - pn;
    let mut i = from;
    loop
        invariant
            sn == s@.len(),
            pn == p@.len(),
            bound == sn - pn,
            from <= i <= bound,
            spec_find(s@, p@, from as int) == spec_find(s@, p@, i as int),
        decreases bound - i,
    {
        if match_at(s, p, i) {
            assert(spec_find(s@, p@, i as int) == Some(i as int));
            return Some(i);
        }
        assert(spec_find(s@, p@, i as int) == spec_find(s@, p@, i + 1));
        if i == bound {
            proof {
                lemma_find_none_when_short(s@, p@, i + 1);
            }
            return None;
        }
        i = i + 1;
    }
}

proof fn lemma_find_none_when_short(s: Seq<char>, p: Seq<char>, from: int)
    requires
        from + p.len() > s.len(),
    ensures
        spec_find(s, p, from) is None,
{
}

/// Does `p` occur anywhere in `s`?
pub fn contains_sub(s: &Vec<char>, p: &Vec<char>) -> (r: bool)
    ensures
        r == spec_contains(s@, p@),
{
    match find_from(s, p, 0) {
        Some(_) => true,
        None => false,
    }
}

/// The text strictly between the first occurrence of `prefix` and the next
/// occurrence of `suffix` after it.
pub open spec fn spec_substr_between(s: Seq<char>, prefix: Seq<char>, suffix: Seq<char>) -> Option<
    Seq<char>,
> {
    match spec_find(s, prefix, 0) {
        Some(i) => {
            let sp = i + prefix.len();
            match spec_find(s, suffix, sp) {
                Some(e) => Some(s.subrange(sp, e)),
                None => None,
            }
        },
        None => None,
    }
}

/// Return the substring of `s` that sits between the first occurrence of
/// `prefix` and the first following occurrence of `suffix`.
pub fn substr_between<'a>(s: &'a str, prefix: &str, suffix: &str) -> (r: Option<&'a str>)
    ensures
        match r {
            Some(t) => spec_substr_between(s@, prefix@, suffix@) == Some(t@),
            None => spec_substr_between(s@, prefix@, suffix@) is None,
        },
{
    let sv = str_to_chars(s);
    let pv = str_to_chars(prefix);
    let fv = str_to_chars(suffix);
    let svn = sv.len();
    match find_from(&sv, &pv, 0) {
        Some(i) => {
            proof {
                lemma_find_occurs(sv@, pv@, 0);
            }
            assert(i + pv@.len() <= svn);
            let sp = i + pv.len();
            match find_from(&sv, &fv, sp) {
                Some(e) => {
                    proof {
                        lemma_find_occurs(sv@, fv@, sp as int);
                    }
                    Some(s.substring_char(sp, e))
                },
                None => None,
            }
        },
        None => None,
    }
}

/// The sequence with leading and trailing whitespace removed.
pub open spec fn spec_trim(s: Seq<char>) -> Seq<char>
    decreases s.len(),
{
    if s.len() == 0 {
        s
    } else if spec_is_space(s[0]) {
        spec_trim(s.subrange(1, s.len() as int))
    } else if spec_is_space(s[s.len() - 1]) {
        spec_trim(s.subrange(0, s.len() - 1))
    } else {
        s
    }
}

/// A trimmed sequence carries no whitespace at either end.
pub proof fn lemma_trim_no_edge_space(s: Seq<char>)
    ensures
        spec_trim(s).len() > 0 ==> !spec_is_space(spec_trim(s)[0]) && !spec_is_space(
            spec_trim(s)[spec_trim(s).len() - 1],
        ),
    decreases s.len(),
{
    if s.len() == 0 {
    } else if spec_is_space(s[0]) {
        lemma_trim_no_edge_space(s.subrange(1, s.len() as int));
    } else if spec_is_space(s[s.len() - 1]) {
        lemma_trim_no_edge_space(s.subrange(0, s.len() - 1));
    }
}

/// Remove leading and trailing whitespace.
pub fn trim_chars(v: &Vec<char>, from: usize, to: usize) -> (r: Vec<char>)
    requires
        from <= to <= v@.len(),
    ensures
        r@ == spec_trim(v@.subrange(from as int, to as int)),
    decreases to - from,
{
    if from == to {
        let r: Vec<char> = Vec::new();
        assert(r@ =~= spec_trim(v@.subrange(from as int, to as int)));
        r
    } else if is_space(v[from]) {
        let r = trim_chars(v, from + 1, to);
        assert(v@.subrange(from as int, to as int).subrange(
            1,
            v@.subrange(from as int, to as int).len() as int,
        ) =~= v@.subrange(from + 1, to as int));
        r
    } else if is_space(v[to - 1]) {
        let r = trim_chars(v, from, to - 1);
        assert(v@.subrange(from as int, to as int).subrange(
            0,
            v@.subrange(from as int, to as int).len() - 1,
        ) =~= v@.subrange(from as int, to as int - 1));
        r
    } else {
        let mut r: Vec<char> = Vec::new();
        let mut i = from;
        while i < to
            invariant
                from <= i <= to <= v@.len(),
                r@ == v@.subrange(from as int, i as int),
            decreases to - i,
        {
            r.push(v[i]);
            assert(r@ =~= v@.subrange(from as int, i + 1));
            i = i + 1;
        }
        r
    }
}

/// Extract the characters `from..to` as a fresh vector.
pub fn slice_chars(v: &Vec<char>, from: usize, to: usize) -> (r: Vec<char>)
    requires
        from <= to <= v@.len(),
    ensures
        r@ == v@.subrange(from as int, to as int),
{
    let mut r: Vec<char> = Vec::new();
    let mut i = from;
    while i < to
        invariant
            from <= i <= to <= v@.len(),
            r@ == v@.subrange(from as int, i as int),
        decreases to - i,
    {
        r.push(v[i]);
        assert(r@ =~= v@.subrange(from as int, i + 1));
        i = i + 1;
    }
    r
}

} // verus!
