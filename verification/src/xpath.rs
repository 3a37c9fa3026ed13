//! The XPath derive planner: resolves annotated fields into extraction plans
//! over XPath queries, and populates fields from the values those queries
//! evaluate to.
//!
//! Unlike the CSS planner, no query syntax is checked while planning: an
//! ill-formed XPath expression only surfaces when the engine evaluates it.
//! This asymmetry is kept deliberately — checking XPath syntax takes a full
//! XPath parser, and the evaluation engine reports the error at run time.

use vstd::prelude::*;
use crate::css_derive::{value_views, FieldValue, FieldValueV};
use crate::error::{ConfigError, ConfigErrorV};
use crate::shape::{get_type_detail, spec_classify_names, PathType, TypeExpr};
use crate::text::opt_view;

verus! {

/// One struct field under the XPath derive: identifier, declared type, its
/// query path (always required), and an optional default literal.
#[derive(Debug, Clone, PartialEq, Eq)]
pub struct XPathFieldSpec {
    pub ident: Option<String>,
    pub ty: TypeExpr,
    pub path: String,
    pub default: Option<String>,
}

/// Spec-level image of an `XPathFieldSpec`.
pub struct XPathFieldSpecV {
    pub ident: Option<Seq<char>>,
    pub segments: Seq<Seq<char>>,
    pub has_qself: bool,
    pub path: Seq<char>,
    pub default: Option<Seq<char>>,
}

impl View for XPathFieldSpec {
    type V = XPathFieldSpecV;

    open spec fn view(&self) -> XPathFieldSpecV {
        XPathFieldSpecV {
            ident: opt_view(self.ident),
            segments: self.ty.segments@.map_values(|s: String| s@),
            has_qself: self.ty.has_qself,
            path: self.path@,
            default: opt_view(self.default),
        }
    }
}

/// The declared shape of an XPath field.
pub open spec fn xpath_field_shape(f: XPathFieldSpecV) -> PathType {
    spec_classify_names(f.segments, f.has_qself)
}

/// The field identifier, or the empty name for a tuple field.
pub open spec fn xpath_ident_or_empty(f: XPathFieldSpecV) -> Seq<char> {
    match f.ident {
        Some(s) => s,
        None => Seq::empty(),
    }
}

/// A resolved plan for one XPath field.
#[derive(Debug, Clone, PartialEq, Eq)]
pub struct XPathFieldPlan {
    pub ident: String,
    pub shape: PathType,
    pub path: String,
    pub default: Option<String>,
}

/// Spec-level image of an `XPathFieldPlan`.
pub struct XPathFieldPlanV {
    pub ident: Seq<char>,
    pub shape: PathType,
    pub path: Seq<char>,
    pub default: Option<Seq<char>>,
}

impl View for XPathFieldPlan {
    type V = XPathFieldPlanV;

    open spec fn view(&self) -> XPathFieldPlanV {
        XPathFieldPlanV {
            ident: self.ident@,
            shape: self.shape,
            path: self.path@,
            default: opt_view(self.default),
        }
    }
}

/// An XPath plan is well formed when a scalar field has a default.
pub open spec fn xpath_plan_wf(p: XPathFieldPlanV) -> bool {
    p.shape is Other ==> p.default is Some
}

/// What resolving one XPath field must produce.
pub open spec fn spec_xpath_field_plan(f: XPathFieldSpecV) -> Result<
    XPathFieldPlanV,
    ConfigErrorV,
> {
    if f.ident is None {
        Err(ConfigErrorV::TupleField)
    } else if f.default is None && xpath_field_shape(f) is Other {
        Err(ConfigErrorV::MissingDefault(xpath_ident_or_empty(f)))
    } else {
        Ok(
            XPathFieldPlanV {
                ident: xpath_ident_or_empty(f),
                shape: xpath_field_shape(f),
                path: f.path,
                default: f.default,
            },
        )
    }
}

/// What resolving a whole XPath field list must produce: one plan per field
/// in order, or the first field's error.
pub open spec fn spec_xpath_field_plans(fields: Seq<XPathFieldSpecV>) -> Result<
    Seq<XPathFieldPlanV>,
    ConfigErrorV,
>
    decreases fields.len(),
{
    if fields.len() == 0 {
        Ok(Seq::empty())
    } else {
        match spec_xpath_field_plan(fields[0]) {
            Err(e) => Err(e),
            Ok(p) => match spec_xpath_field_plans(fields.drop_first()) {
                Err(e) => Err(e),
                Ok(ps) => Ok(Seq::empty().push(p) + ps),
            },
        }
    }
}

/// The views of an XPath field list.
pub open spec fn xpath_field_views(fields: Seq<XPathFieldSpec>) -> Seq<XPathFieldSpecV> {
    fields.map_values(|f: XPathFieldSpec| f@)
}

/// The views of an XPath plan list.
pub open spec fn xpath_plan_views(plans: Seq<XPathFieldPlan>) -> Seq<XPathFieldPlanV> {
    plans.map_values(|p: XPathFieldPlan| p@)
}

/// Resolve one XPath field into its plan.
fn xpath_field_plan(field: &XPathFieldSpec) -> (r: Result<XPathFieldPlan, ConfigError>)
    ensures
        match r {
            Ok(p) => spec_xpath_field_plan(field@) == Ok::<XPathFieldPlanV, ConfigErrorV>(p@),
            Err(e) => spec_xpath_field_plan(field@) == Err::<XPathFieldPlanV, ConfigErrorV>(e@),
        },
{
    let ident = match &field.ident {
        Some(s) => s.clone(),
        None => {
            return Err(ConfigError::TupleField);
        },
    };
    let shape = get_type_detail(&field.ty);
    if field.default.is_none() && shape.is_other() {
        return Err(ConfigError::MissingDefault(ident));
    }
    Ok(
        XPathFieldPlan {
            ident,
            shape,
            path: field.path.clone(),
            default: field.default.clone(),
        },
    )
}

/// Resolve every field of the list form, stopping at the first error.
pub fn generate_list_item_field_extractors(fields: &Vec<XPathFieldSpec>) -> (r: Result<
    Vec<XPathFieldPlan>,
    ConfigError,
>)
    ensures
        match r {
            Ok(ps) => spec_xpath_field_plans(xpath_field_views(fields@)) == Ok::<
                _,
                ConfigErrorV,
            >(xpath_plan_views(ps@)),
            Err(e) => spec_xpath_field_plans(xpath_field_views(fields@)) == Err::<
                Seq<XPathFieldPlanV>,
                _,
            >(e@),
        },
{
    let ghost fv = xpath_field_views(fields@);
    let mut plans: Vec<XPathFieldPlan> = Vec::new();
    let n = fields.len();
    assert(fv.skip(0) =~= fv);
    for i in 0..n
        invariant
            n == fields@.len(),
            fv == xpath_field_views(fields@),
            plans@.len() == i,
            ({
                let rest = spec_xpath_field_plans(fv.skip(i as int));
                match rest {
                    Ok(ps) => spec_xpath_field_plans(fv) == Ok::<_, ConfigErrorV>(
                        xpath_plan_views(plans@) + ps,
                    ),
                    Err(e) => spec_xpath_field_plans(fv) == Err::<Seq<XPathFieldPlanV>, _>(e),
                }
            }),
    {
        let ghost pre = plans@;
        assert(fv.skip(i as int)[0] == fv[i as int]);
        assert(fv.skip(i as int).drop_first() =~= fv.skip(i + 1));
        match xpath_field_plan(&fields[i]) {
            Ok(p) => {
                proof {
                    assert(spec_xpath_field_plan(fv[i as int]) == Ok::<_, ConfigErrorV>(p@));
                }
                plans.push(p);
                proof {
                    assert(xpath_plan_views(plans@) =~= xpath_plan_views(pre).push(p@));
                    match spec_xpath_field_plans(fv.skip(i + 1)) {
                        Ok(ps) => {
                            assert(spec_xpath_field_plans(fv.skip(i as int)) == Ok::<
                                _,
                                ConfigErrorV,
                            >(Seq::empty().push(p@) + ps));
                            assert(xpath_plan_views(plans@) + ps =~= xpath_plan_views(pre) + (
                            Seq::empty().push(p@) + ps));
                        },
                        Err(_) => {},
                    }
                }
            },
            Err(e) => {
                return Err(e);
            },
        }
    }
    assert(fv.skip(n as int) =~= Seq::<XPathFieldSpecV>::empty());
    assert(xpath_plan_views(plans@) + Seq::<XPathFieldPlanV>::empty() =~= xpath_plan_views(
        plans@,
    ));
    Ok(plans)
}

/// Resolve every field of the single form. The checks are the same as for
/// the list form; only the generated query calls differ, which the runtime
/// half captures in how values are gathered.
pub fn generate_field_extractors(fields: &Vec<XPathFieldSpec>) -> (r: Result<
    Vec<XPathFieldPlan>,
    ConfigError,
>)
    ensures
        match r {
            Ok(ps) => spec_xpath_field_plans(xpath_field_views(fields@)) == Ok::<
                _,
                ConfigErrorV,
            >(xpath_plan_views(ps@)),
            Err(e) => spec_xpath_field_plans(xpath_field_views(fields@)) == Err::<
                Seq<XPathFieldPlanV>,
                _,
            >(e@),
        },
{
    generate_list_item_field_extractors(fields)
}

/// Every plan of a successfully resolved XPath field list is well formed.
pub proof fn lemma_xpath_field_plans_wf(fields: Seq<XPathFieldSpecV>)
    ensures
        spec_xpath_field_plans(fields) matches Ok(ps) ==> forall|j: int|
            0 <= j < ps.len() ==> xpath_plan_wf(#[trigger] ps[j]),
    decreases fields.len(),
{
    if fields.len() > 0 {
        lemma_xpath_field_plans_wf(fields.drop_first());
    }
}

/// The struct under the XPath derive.
#[derive(Debug, Clone, PartialEq, Eq)]
pub struct XPathStructModel {
    pub ident: String,
    pub is_named_struct: bool,
    pub container_path: Option<String>,
    pub fields: Vec<XPathFieldSpec>,
}

/// Spec-level image of an `XPathStructModel`.
pub struct XPathStructModelV {
    pub ident: Seq<char>,
    pub is_named_struct: bool,
    pub container_path: Option<Seq<char>>,
    pub fields: Seq<XPathFieldSpecV>,
}

impl View for XPathStructModel {
    type V = XPathStructModelV;

    open spec fn view(&self) -> XPathStructModelV {
        XPathStructModelV {
            ident: self.ident@,
            is_named_struct: self.is_named_struct,
            container_path: opt_view(self.container_path),
            fields: xpath_field_views(self.fields@),
        }
    }
}

/// The whole XPath extraction plan of a struct.
#[derive(Debug, Clone, PartialEq, Eq)]
pub struct XPathDerivePlan {
    pub type_ident: String,
    pub container_path: Option<String>,
    pub fields: Vec<XPathFieldPlan>,
}

/// Spec-level image of an `XPathDerivePlan`.
pub struct XPathDerivePlanV {
    pub type_ident: Seq<char>,
    pub container_path: Option<Seq<char>>,
    pub fields: Seq<XPathFieldPlanV>,
}

impl View for XPathDerivePlan {
    type V = XPathDerivePlanV;

    open spec fn view(&self) -> XPathDerivePlanV {
        XPathDerivePlanV {
            type_ident: self.type_ident@,
            container_path: opt_view(self.container_path),
            fields: xpath_plan_views(self.fields@),
        }
    }
}

/// What XPath expansion must produce: the plan, or the first error. Only
/// named structs are supported; the paths themselves are not checked here.
pub open spec fn spec_expand_xpath(m: XPathStructModelV) -> Result<XPathDerivePlanV, ConfigErrorV> {
    if !m.is_named_struct {
        Err(ConfigErrorV::NotNamedStruct(m.ident))
    } else {
        match spec_xpath_field_plans(m.fields) {
            Err(e) => Err(e),
            Ok(ps) => Ok(
                XPathDerivePlanV {
                    type_ident: m.ident,
                    container_path: m.container_path,
                    fields: ps,
                },
            ),
        }
    }
}

/// Expand a struct's XPath annotations into its extraction plan.
pub fn expand_derive_from_response(input: &XPathStructModel) -> (r: Result<
    XPathDerivePlan,
    ConfigError,
>)
    ensures
        match r {
            Ok(p) => spec_expand_xpath(input@) == Ok::<XPathDerivePlanV, ConfigErrorV>(p@),
            Err(e) => spec_expand_xpath(input@) == Err::<XPathDerivePlanV, ConfigErrorV>(e@),
        },
{
    if !input.is_named_struct {
        return Err(ConfigError::NotNamedStruct(input.ident.clone()));
    }
    match generate_list_item_field_extractors(&input.fields) {
        Err(e) => Err(e),
        Ok(plans) => Ok(
            XPathDerivePlan {
                type_ident: input.type_ident_clone(),
                container_path: input.container_path.clone(),
                fields: plans,
            },
        ),
    }
}

impl XPathStructModel {
    /// The struct's name, copied.
    fn type_ident_clone(&self) -> (r: String)
        ensures
            r@ == self.ident@,
    {
        self.ident.clone()
    }
}

/// How one XPath field is populated from the values its path evaluated to:
/// the first value, every value, or the first value with the default as
/// fallback.
pub open spec fn spec_xpath_resolve(p: XPathFieldPlanV, values: Seq<Seq<char>>) -> FieldValueV
    recommends
        xpath_plan_wf(p),
{
    match p.shape {
        PathType::Optional => FieldValueV::Optional(
            if values.len() == 0 {
                None
            } else {
                Some(values[0])
            },
        ),
        PathType::Vector => FieldValueV::Collection(values),
        PathType::Other => FieldValueV::Scalar(
            if values.len() == 0 {
                p.default->0
            } else {
                values[0]
            },
        ),
    }
}

/// Populate one XPath field from its evaluated values.
pub fn xpath_resolve_field(p: &XPathFieldPlan, values: &Vec<String>) -> (r: FieldValue)
    requires
        xpath_plan_wf(p@),
    ensures
        r@ == spec_xpath_resolve(p@, values@.map_values(|s: String| s@)),
{
    match p.shape {
        PathType::Optional => {
            if values.len() == 0 {
                FieldValue::Optional(None)
            } else {
                FieldValue::Optional(Some(values[0].clone()))
            }
        },
        PathType::Vector => {
            let r = FieldValue::Collection(values.clone());
            assert(values@.map_values(|s: String| s@) =~= r@->Collection_0);
            r
        },
        PathType::Other => {
            if values.len() == 0 {
                let d = match &p.default {
                    Some(d) => d.clone(),
                    None => String::new(),
                };
                FieldValue::Scalar(d)
            } else {
                FieldValue::Scalar(values[0].clone())
            }
        },
    }
}

/// The values each field's path evaluated to under one container node.
#[derive(Debug, Clone, PartialEq, Eq)]
pub struct XPathRow {
    pub field_values: Vec<Vec<String>>,
}

/// Spec-level image of an `XPathRow`.
pub struct XPathRowV {
    pub field_values: Seq<Seq<Seq<char>>>,
}

impl View for XPathRow {
    type V = XPathRowV;

    open spec fn view(&self) -> XPathRowV {
        XPathRowV {
            field_values: self.field_values@.map_values(
                |vs: Vec<String>| vs@.map_values(|s: String| s@),
            ),
        }
    }
}

/// One instance: every XPath field resolved against one container node.
pub open spec fn spec_xpath_extract_instance(
    plans: Seq<XPathFieldPlanV>,
    row: XPathRowV,
) -> Seq<FieldValueV> {
    Seq::new(plans.len(), |j: int| spec_xpath_resolve(plans[j], row.field_values[j]))
}

/// The list form: one instance per matched container node, in match order.
pub open spec fn spec_xpath_extract_all(plans: Seq<XPathFieldPlanV>, rows: Seq<XPathRowV>) -> Seq<
    Seq<FieldValueV>,
> {
    Seq::new(rows.len(), |i: int| spec_xpath_extract_instance(plans, rows[i]))
}

/// Resolve every XPath field of one instance.
pub fn xpath_extract_instance(plans: &Vec<XPathFieldPlan>, row: &XPathRow) -> (r: Vec<FieldValue>)
    requires
        row.field_values@.len() == plans@.len(),
        forall|j: int| 0 <= j < plans@.len() ==> xpath_plan_wf(#[trigger] plans@[j]@),
    ensures
        value_views(r@) == spec_xpath_extract_instance(xpath_plan_views(plans@), row@),
{
    let mut out: Vec<FieldValue> = Vec::new();
    let n = plans.len();
    for j in 0..n
        invariant
            n == plans@.len(),
            row.field_values@.len() == n,
            forall|k: int| 0 <= k < n ==> xpath_plan_wf(#[trigger] plans@[k]@),
            out@.len() == j,
            forall|k: int|
                0 <= k < j ==> value_views(out@)[k] == spec_xpath_extract_instance(
                    xpath_plan_views(plans@),
                    row@,
                )[k],
    {
        let ghost pre = out@;
        let v = xpath_resolve_field(&plans[j], &row.field_values[j]);
        let ghost vv = v@;
        out.push(v);
        proof {
            assert(value_views(out@) =~= value_views(pre).push(vv));
            assert(row@.field_values[j as int] == row.field_values@[j as int]@.map_values(
                |s: String| s@,
            ));
            assert(xpath_plan_views(plans@)[j as int] == plans@[j as int]@);
            assert(spec_xpath_extract_instance(xpath_plan_views(plans@), row@)[j as int] == vv);
        }
    }
    assert(value_views(out@) =~= spec_xpath_extract_instance(xpath_plan_views(plans@), row@));
    out
}

/// Resolve one instance per container node. The result has exactly one
/// entry per row, in the given order, each a function of its own row alone.
pub fn xpath_extract_all(plans: &Vec<XPathFieldPlan>, rows: &Vec<XPathRow>) -> (r: Vec<
    Vec<FieldValue>,
>)
    requires
        forall|i: int| 0 <= i < rows@.len() ==> (#[trigger] rows@[i]).field_values@.len()
            == plans@.len(),
        forall|j: int| 0 <= j < plans@.len() ==> xpath_plan_wf(#[trigger] plans@[j]@),
    ensures
        r@.len() == rows@.len(),
        forall|i: int| 0 <= i < rows@.len() ==> value_views((#[trigger] r@[i])@)
            == spec_xpath_extract_all(
                xpath_plan_views(plans@),
                rows@.map_values(|rw: XPathRow| rw@),
            )[i],
{
    let mut out: Vec<Vec<FieldValue>> = Vec::new();
    let n = rows.len();
    let ghost rv = rows@.map_values(|rw: XPathRow| rw@);
    for i in 0..n
        invariant
            n == rows@.len(),
            rv == rows@.map_values(|rw: XPathRow| rw@),
            forall|k: int| 0 <= k < n ==> (#[trigger] rows@[k]).field_values@.len()
                == plans@.len(),
            forall|j: int| 0 <= j < plans@.len() ==> xpath_plan_wf(#[trigger] plans@[j]@),
            out@.len() == i,
            forall|k: int| 0 <= k < i ==> value_views((#[trigger] out@[k])@)
                == spec_xpath_extract_all(xpath_plan_views(plans@), rv)[k],
    {
        let inst = xpath_extract_instance(plans, &rows[i]);
        out.push(inst);
    }
    out
}

} // verus!
