//! Type-shape classification: decide whether a field's declared type is an
//! `Option`, a `Vec`, or anything else, from the names on its type path.
//!
//! Both the fully qualified and the bare spellings of the two wrapper types
//! are recognised. Type arguments play no part in the decision, so the answer
//! is the same whatever the wrapped type is; an unknown wrapper simply means
//! a plain (scalar) field.

use vstd::prelude::*;
use crate::text::eq_str;

verus! {

/// The three field cardinalities recognised by the derive planners.
#[derive(Debug, Clone, Copy, PartialEq, Eq, Structural)]
pub enum PathType {
    Optional,
    Vector,
    Other,
}

impl PathType {
    /// A field is "other" when it is neither an `Option` nor a `Vec`.
    pub fn is_other(&self) -> (r: bool)
        ensures
            r == (*self is Other),
    {
        match self {
            PathType::Other => true,
            _ => false,
        }
    }
}

/// A declared field type, reduced to what classification reads: the names of
/// its path segments and whether it has a qualified-self prefix.
#[derive(Debug, Clone, PartialEq, Eq)]
pub struct TypeExpr {
    pub segments: Vec<String>,
    pub has_qself: bool,
}

/// The path-segment names of a type expression.
pub open spec fn seg_names(t: TypeExpr) -> Seq<Seq<char>> {
    t.segments@.map_values(|s: String| s@)
}

/// One of the recognised spellings of the option wrapper.
pub open spec fn is_option_spelling(segs: Seq<Seq<char>>) -> bool {
    (segs.len() == 1 && segs[0] == "Option"@) || (segs.len() == 3 && segs[0] == "std"@ && segs[1]
        == "option"@ && segs[2] == "Option"@) || (segs.len() == 3 && segs[0] == "core"@ && segs[1]
        == "option"@ && segs[2] == "Option"@)
}

/// One of the recognised spellings of the vector wrapper.
pub open spec fn is_vec_spelling(segs: Seq<Seq<char>>) -> bool {
    (segs.len() == 1 && segs[0] == "Vec"@) || (segs.len() == 3 && segs[0] == "std"@ && segs[1]
        == "vec"@ && segs[2] == "Vec"@) || (segs.len() == 3 && segs[0] == "core"@ && segs[1]
        == "vec"@ && segs[2] == "Vec"@) || (segs.len() == 3 && segs[0] == "alloc"@ && segs[1]
        == "vec"@ && segs[2] == "Vec"@)
}

/// What classification answers for given path names and self-qualification.
pub open spec fn spec_classify_names(segs: Seq<Seq<char>>, has_qself: bool) -> PathType {
    if has_qself {
        PathType::Other
    } else if is_option_spelling(segs) {
        PathType::Optional
    } else if is_vec_spelling(segs) {
        PathType::Vector
    } else {
        PathType::Other
    }
}

/// What classification must answer for a given type expression.
pub open spec fn spec_classify(t: TypeExpr) -> PathType {
    spec_classify_names(seg_names(t), t.has_qself)
}

/// Classify a declared type as `Optional`, `Vector` or `Other`.
///
/// Unknown wrappers are not an error: they classify as `Other`.
pub fn get_type_detail(ty: &TypeExpr) -> (r: PathType)
    ensures
        r == spec_classify(*ty),
{
    if ty.has_qself {
        return PathType::Other;
    }
    if is_spelling(&ty.segments, "Option", "std", "option", false) {
        return PathType::Optional;
    }
    if is_spelling(&ty.segments, "Vec", "std", "vec", true) {
        return PathType::Vector;
    }
    assert(!is_option_spelling(seg_names(*ty)));
    assert(!is_vec_spelling(seg_names(*ty)));
    PathType::Other
}

/// Match a segment list against the bare and qualified spellings of one
/// wrapper: `last`, or `root::mid::last` for the accepted roots.
fn is_spelling(
    segments: &Vec<String>,
    last: &str,
    root_std: &str,
    mid: &str,
    with_alloc: bool,
) -> (r: bool)
    ensures
        ({
            let segs = segments@.map_values(|s: String| s@);
            r == ((segs.len() == 1 && segs[0] == last@) || (segs.len() == 3 && (segs[0] == root_std@
                || segs[0] == "core"@ || (with_alloc && segs[0] == "alloc"@)) && segs[1] == mid@
                && segs[2] == last@))
        }),
{
    if segments.len() == 1 {
        eq_str(segments[0].as_str(), last)
    } else if segments.len() == 3 {
        let root_ok = eq_str(segments[0].as_str(), root_std) || eq_str(
            segments[0].as_str(),
            "core",
        ) || (with_alloc && eq_str(segments[0].as_str(), "alloc"));
        root_ok && eq_str(segments[1].as_str(), mid) && eq_str(segments[2].as_str(), last)
    } else {
        false
    }
}

/// Classification depends only on the path names and the qualified-self flag:
/// an optional spelling always answers `Optional`, a vector spelling always
/// answers `Vector`, and every other type expression answers `Other`.
pub proof fn lemma_classify_total(t: TypeExpr)
    ensures
        !t.has_qself && is_option_spelling(seg_names(t)) ==> spec_classify(t) == PathType::Optional,
        !t.has_qself && is_vec_spelling(seg_names(t)) ==> spec_classify(t) == PathType::Vector,
        t.has_qself || (!is_option_spelling(seg_names(t)) && !is_vec_spelling(seg_names(t)))
            ==> spec_classify(t) == PathType::Other,
{
    if !t.has_qself && is_option_spelling(seg_names(t)) && is_vec_spelling(seg_names(t)) {
        let segs = seg_names(t);
        if segs.len() == 1 {
            assert(segs[0] == "Option"@ && segs[0] == "Vec"@);
            reveal_strlit("Option");
            reveal_strlit("Vec");
            assert("Option"@.len() == 6);
            assert("Vec"@.len() == 3);
        } else {
            assert(segs[1] == "option"@ && segs[1] == "vec"@);
            reveal_strlit("option");
            reveal_strlit("vec");
            assert("option"@.len() == 6);
            assert("vec"@.len() == 3);
        }
    }
}

} // verus!
