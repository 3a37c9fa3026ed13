//! The CSS-selector derive planner: resolves each annotated field of a struct
//! into an extraction plan (query path, extraction mode, cardinality, default)
//! and rejects ill-formed annotation sets at plan-building time.

use vstd::prelude::*;
use crate::css_selector::{
    check_selector, selector_error_text, selector_valid, HtmlDocument, Selectable, SelectItem,
};
use crate::error::{ConfigError, ConfigErrorV, ScraperError, ScraperErrorV};
use crate::shape::{get_type_detail, spec_classify_names, PathType, TypeExpr};
use crate::text::opt_view;
use vstd::string::StringExecFns;

verus! {

/// The extraction operation applied to a matched element.
#[derive(Debug, Clone, PartialEq, Eq)]
pub enum Extractor {
    Name,
    Id,
    Text,
    Html,
    InnerHtml,
    HasClass(String),
    Attr(String),
}

/// Spec-level image of an `Extractor`.
pub enum ModeV {
    Name,
    Id,
    Text,
    Html,
    InnerHtml,
    HasClass(Seq<char>),
    Attr(Seq<char>),
}

impl View for Extractor {
    type V = ModeV;

    open spec fn view(&self) -> ModeV {
        match self {
            Extractor::Name => ModeV::Name,
            Extractor::Id => ModeV::Id,
            Extractor::Text => ModeV::Text,
            Extractor::Html => ModeV::Html,
            Extractor::InnerHtml => ModeV::InnerHtml,
            Extractor::HasClass(c) => ModeV::HasClass(c@),
            Extractor::Attr(a) => ModeV::Attr(a@),
        }
    }
}

/// One struct field as the derive sees it: identifier, declared type, own
/// query path, default literal, and the extraction-mode flags.
#[derive(Debug, Clone, PartialEq, Eq)]
pub struct FieldSpec {
    pub ident: Option<String>,
    pub ty: TypeExpr,
    pub path: Option<String>,
    pub default: Option<String>,
    pub name: bool,
    pub id: bool,
    pub text: bool,
    pub html: bool,
    pub inner_html: bool,
    pub has_class: Option<String>,
    pub attr: Option<String>,
}

/// Spec-level image of a `FieldSpec`.
pub struct FieldSpecV {
    pub ident: Option<Seq<char>>,
    pub segments: Seq<Seq<char>>,
    pub has_qself: bool,
    pub path: Option<Seq<char>>,
    pub default: Option<Seq<char>>,
    pub name: bool,
    pub id: bool,
    pub text: bool,
    pub html: bool,
    pub inner_html: bool,
    pub has_class: Option<Seq<char>>,
    pub attr: Option<Seq<char>>,
}

impl View for FieldSpec {
    type V = FieldSpecV;

    open spec fn view(&self) -> FieldSpecV {
        FieldSpecV {
            ident: opt_view(self.ident),
            segments: self.ty.segments@.map_values(|s: String| s@),
            has_qself: self.ty.has_qself,
            path: opt_view(self.path),
            default: opt_view(self.default),
            name: self.name,
            id: self.id,
            text: self.text,
            html: self.html,
            inner_html: self.inner_html,
            has_class: opt_view(self.has_class),
            attr: opt_view(self.attr),
        }
    }
}

/// The declared shape of a field, as the classifier answers it.
pub open spec fn field_shape(f: FieldSpecV) -> PathType {
    spec_classify_names(f.segments, f.has_qself)
}

/// How many extraction-mode flags are set on a field.
pub open spec fn mode_count(f: FieldSpecV) -> int {
    (if f.name { 1int } else { 0 }) + (if f.id { 1int } else { 0 }) + (if f.text { 1int } else { 0 })
        + (if f.html { 1int } else { 0 }) + (if f.inner_html { 1int } else { 0 }) + (if f.has_class
        is Some { 1int } else { 0 }) + (if f.attr is Some { 1int } else { 0 })
}

/// The mode a field resolves to when at most one flag is set: the set flag,
/// or `Html` when none is.
pub open spec fn chosen_mode(f: FieldSpecV) -> ModeV {
    if f.attr is Some {
        ModeV::Attr(f.attr->0)
    } else if f.has_class is Some {
        ModeV::HasClass(f.has_class->0)
    } else if f.inner_html {
        ModeV::InnerHtml
    } else if f.html {
        ModeV::Html
    } else if f.text {
        ModeV::Text
    } else if f.name {
        ModeV::Name
    } else if f.id {
        ModeV::Id
    } else {
        ModeV::Html
    }
}

/// The field identifier, or the empty name for a tuple field.
pub open spec fn ident_or_empty(f: FieldSpecV) -> Seq<char> {
    match f.ident {
        Some(s) => s,
        None => Seq::empty(),
    }
}

impl Extractor {
    /// Resolve the extraction mode of one field.
    ///
    /// With no flag set the mode defaults to `Html`; with exactly one flag set
    /// it is that flag's mode; with two or more the flags are mutually
    /// exclusive and resolution fails, naming the field.
    pub fn from_field(field: &FieldSpec) -> (r: Result<Extractor, ConfigError>)
        ensures
            mode_count(field@) <= 1 ==> (r matches Ok(m) && m@ == chosen_mode(field@)),
            mode_count(field@) >= 2 ==> (r matches Err(e) && e@ == ConfigErrorV::MultipleModes(
                ident_or_empty(field@),
            )),
    {
        let mut exists_count: u32 = 0;
        let mut result = Extractor::Html;
        if field.id {
            exists_count = exists_count + 1;
            result = Extractor::Id;
        }
        if field.name {
            exists_count = exists_count + 1;
            result = Extractor::Name;
        }
        if field.text {
            exists_count = exists_count + 1;
            result = Extractor::Text;
        }
        if field.html {
            exists_count = exists_count + 1;
            result = Extractor::Html;
        }
        if field.inner_html {
            exists_count = exists_count + 1;
            result = Extractor::InnerHtml;
        }
        if let Some(class) = &field.has_class {
            exists_count = exists_count + 1;
            result = Extractor::HasClass(class.clone());
        }
        if let Some(attr) = &field.attr {
            exists_count = exists_count + 1;
            result = Extractor::Attr(attr.clone());
        }
        if exists_count <= 1 {
            Ok(result)
        } else {
            Err(ConfigError::MultipleModes(ident_text(field)))
        }
    }
}

/// The field identifier as owned text, empty when absent.
fn ident_text(field: &FieldSpec) -> (r: String)
    ensures
        r@ == ident_or_empty(field@),
{
    match &field.ident {
        Some(s) => s.clone(),
        None => String::new(),
    }
}

/// A resolved extraction plan for one field.
#[derive(Debug, Clone, PartialEq, Eq)]
pub struct FieldPlan {
    pub ident: String,
    pub shape: PathType,
    pub path: Option<String>,
    pub default: Option<String>,
    pub extractor: Extractor,
}

/// Spec-level image of a `FieldPlan`.
pub struct FieldPlanV {
    pub ident: Seq<char>,
    pub shape: PathType,
    pub path: Option<Seq<char>>,
    pub default: Option<Seq<char>>,
    pub extractor: ModeV,
}

impl View for FieldPlan {
    type V = FieldPlanV;

    open spec fn view(&self) -> FieldPlanV {
        FieldPlanV {
            ident: self.ident@,
            shape: self.shape,
            path: opt_view(self.path),
            default: opt_view(self.default),
            extractor: self.extractor@,
        }
    }
}

/// A plan is well formed when a collection field has its own path and a
/// scalar field has a default to fall back on.
pub open spec fn plan_wf(p: FieldPlanV) -> bool {
    (p.shape is Vector ==> p.path is Some) && (p.shape is Other ==> p.default is Some)
}

/// What resolving one field must produce: its plan, or the first
/// configuration error among ident, mode, default, path-presence and
/// path-grammar checks — the field's own query path is validated eagerly,
/// like the container path.
pub open spec fn spec_field_plan(f: FieldSpecV) -> Result<FieldPlanV, ConfigErrorV> {
    if f.ident is None {
        Err(ConfigErrorV::TupleField)
    } else if mode_count(f) >= 2 {
        Err(ConfigErrorV::MultipleModes(ident_or_empty(f)))
    } else if f.default is None && field_shape(f) is Other {
        Err(ConfigErrorV::MissingDefault(ident_or_empty(f)))
    } else if f.path is None && field_shape(f) is Vector {
        Err(ConfigErrorV::VectorWithoutPath(ident_or_empty(f)))
    } else if f.path is Some && !selector_valid(f.path->0) {
        Err(ConfigErrorV::InvalidSelector(f.path->0))
    } else {
        Ok(
            FieldPlanV {
                ident: ident_or_empty(f),
                shape: field_shape(f),
                path: f.path,
                default: f.default,
                extractor: chosen_mode(f),
            },
        )
    }
}

/// A successfully resolved plan is well formed.
pub proof fn lemma_field_plan_wf(f: FieldSpecV)
    ensures
        spec_field_plan(f) matches Ok(p) ==> plan_wf(p),
{
}

/// Resolve one field into its extraction plan.
pub fn field_plan(field: &FieldSpec) -> (r: Result<FieldPlan, ConfigError>)
    ensures
        match r {
            Ok(p) => spec_field_plan(field@) == Ok::<FieldPlanV, ConfigErrorV>(p@),
            Err(e) => spec_field_plan(field@) == Err::<FieldPlanV, ConfigErrorV>(e@),
        },
{
    if field.ident.is_none() {
        return Err(ConfigError::TupleField);
    }
    let extractor = match Extractor::from_field(field) {
        Ok(m) => m,
        Err(e) => {
            return Err(e);
        },
    };
    let shape = get_type_detail(&field.ty);
    if field.default.is_none() && shape.is_other() {
        return Err(ConfigError::MissingDefault(ident_text(field)));
    }
    if field.path.is_none() && matches!(shape, PathType::Vector) {
        return Err(ConfigError::VectorWithoutPath(ident_text(field)));
    }
    if let Some(p) = &field.path {
        if !check_selector(p.as_str()) {
            return Err(ConfigError::InvalidSelector(p.clone()));
        }
    }
    Ok(
        FieldPlan {
            ident: ident_text(field),
            shape,
            path: field.path.clone(),
            default: field.default.clone(),
            extractor,
        },
    )
}

/// What resolving a whole field list must produce: one plan per field in
/// order, or the first field's error.
pub open spec fn spec_field_plans(fields: Seq<FieldSpecV>) -> Result<Seq<FieldPlanV>, ConfigErrorV>
    decreases fields.len(),
{
    if fields.len() == 0 {
        Ok(Seq::empty())
    } else {
        match spec_field_plan(fields[0]) {
            Err(e) => Err(e),
            Ok(p) => match spec_field_plans(fields.drop_first()) {
                Err(e) => Err(e),
                Ok(ps) => Ok(Seq::empty().push(p) + ps),
            },
        }
    }
}

/// The views of a field list.
pub open spec fn field_views(fields: Seq<FieldSpec>) -> Seq<FieldSpecV> {
    fields.map_values(|f: FieldSpec| f@)
}

/// The views of a plan list.
pub open spec fn plan_views(plans: Seq<FieldPlan>) -> Seq<FieldPlanV> {
    plans.map_values(|p: FieldPlan| p@)
}

/// Resolve every field of a struct, stopping at the first ill-configured one.
pub fn generate_field_extractors(fields: &Vec<FieldSpec>) -> (r: Result<
    Vec<FieldPlan>,
    ConfigError,
>)
    ensures
        match r {
            Ok(ps) => spec_field_plans(field_views(fields@)) == Ok::<_, ConfigErrorV>(
                plan_views(ps@),
            ),
            Err(e) => spec_field_plans(field_views(fields@)) == Err::<Seq<FieldPlanV>, _>(e@),
        },
{
    let ghost fv = field_views(fields@);
    let mut plans: Vec<FieldPlan> = Vec::new();
    let n = fields.len();
    assert(fv.skip(0) =~= fv);
    for i in 0..n
        invariant
            n == fields@.len(),
            fv == field_views(fields@),
            plans@.len() == i,
            ({
                let rest = spec_field_plans(fv.skip(i as int));
                match rest {
                    Ok(ps) => spec_field_plans(fv) == Ok::<_, ConfigErrorV>(
                        plan_views(plans@) + ps,
                    ),
                    Err(e) => spec_field_plans(fv) == Err::<Seq<FieldPlanV>, _>(e),
                }
            }),
    {
        let ghost pre = plans@;
        assert(fv.skip(i as int)[0] == fv[i as int]);
        assert(fv.skip(i as int).drop_first() =~= fv.skip(i + 1));
        match field_plan(&fields[i]) {
            Ok(p) => {
                proof {
                    assert(spec_field_plan(fv[i as int]) == Ok::<_, ConfigErrorV>(p@));
                }
                plans.push(p);
                proof {
                    assert(plan_views(plans@) =~= plan_views(pre).push(p@));
                    match spec_field_plans(fv.skip(i + 1)) {
                        Ok(ps) => {
                            assert(spec_field_plans(fv.skip(i as int)) == Ok::<
                                _,
                                ConfigErrorV,
                            >(Seq::empty().push(p@) + ps));
                            assert(plan_views(plans@) + ps =~= plan_views(pre) + (
                            Seq::empty().push(p@) + ps));
                        },
                        Err(_) => {},
                    }
                }
            },
            Err(e) => {
                return Err(e);
            },
        }
    }
    assert(fv.skip(n as int) =~= Seq::<FieldSpecV>::empty());
    assert(plan_views(plans@) + Seq::<FieldPlanV>::empty() =~= plan_views(plans@));
    Ok(plans)
}

/// Every plan of a successfully resolved field list is well formed, and
/// every path it carries is one the selector grammar accepts: a plan the
/// planner produced never fails a later selector parse.
pub proof fn lemma_field_plans_wf(fields: Seq<FieldSpecV>)
    ensures
        spec_field_plans(fields) matches Ok(ps) ==> forall|j: int|
            0 <= j < ps.len() ==> plan_wf(#[trigger] ps[j]),
        spec_field_plans(fields) matches Ok(ps) ==> field_paths_valid(ps),
    decreases fields.len(),
{
    if fields.len() > 0 {
        lemma_field_plans_wf(fields.drop_first());
        if spec_field_plans(fields) is Ok {
            let ps = spec_field_plans(fields)->Ok_0;
            let head = spec_field_plan(fields[0])->Ok_0;
            let rest = spec_field_plans(fields.drop_first())->Ok_0;
            assert(ps == Seq::empty().push(head) + rest);
            assert forall|j: int|
                0 <= j < ps.len() implies ((#[trigger] ps[j]).path matches Some(p)
                ==> selector_valid(p)) by {
                if j == 0 {
                    assert(ps[0] == head);
                } else {
                    assert(ps[j] == rest[j - 1]);
                }
            }
        }
    }
}

/// The struct under derive, reduced to what expansion reads: its name,
/// whether it is a named struct, the container path, and its fields.
#[derive(Debug, Clone, PartialEq, Eq)]
pub struct StructModel {
    pub ident: String,
    pub is_named_struct: bool,
    pub container_path: Option<String>,
    pub fields: Vec<FieldSpec>,
}

/// Spec-level image of a `StructModel`.
pub struct StructModelV {
    pub ident: Seq<char>,
    pub is_named_struct: bool,
    pub container_path: Option<Seq<char>>,
    pub fields: Seq<FieldSpecV>,
}

impl View for StructModel {
    type V = StructModelV;

    open spec fn view(&self) -> StructModelV {
        StructModelV {
            ident: self.ident@,
            is_named_struct: self.is_named_struct,
            container_path: opt_view(self.container_path),
            fields: field_views(self.fields@),
        }
    }
}

/// The whole extraction plan of a struct: collection form when a container
/// path is present, single form otherwise.
#[derive(Debug, Clone, PartialEq, Eq)]
pub struct CssDerivePlan {
    pub type_ident: String,
    pub container_path: Option<String>,
    pub fields: Vec<FieldPlan>,
}

/// Spec-level image of a `CssDerivePlan`.
pub struct CssDerivePlanV {
    pub type_ident: Seq<char>,
    pub container_path: Option<Seq<char>>,
    pub fields: Seq<FieldPlanV>,
}

impl View for CssDerivePlan {
    type V = CssDerivePlanV;

    open spec fn view(&self) -> CssDerivePlanV {
        CssDerivePlanV {
            type_ident: self.type_ident@,
            container_path: opt_view(self.container_path),
            fields: plan_views(self.fields@),
        }
    }
}

/// What expansion must produce: the plan, or the first configuration error.
/// The derive only supports named structs; a container path is checked
/// against the selector grammar before any field is resolved.
pub open spec fn spec_expand_css(m: StructModelV) -> Result<CssDerivePlanV, ConfigErrorV> {
    if !m.is_named_struct {
        Err(ConfigErrorV::NotNamedStruct(m.ident))
    } else if m.container_path is Some && !selector_valid(m.container_path->0) {
        Err(ConfigErrorV::InvalidSelector(m.container_path->0))
    } else {
        match spec_field_plans(m.fields) {
            Err(e) => Err(e),
            Ok(ps) => Ok(
                CssDerivePlanV {
                    type_ident: m.ident,
                    container_path: m.container_path,
                    fields: ps,
                },
            ),
        }
    }
}

/// Expand a struct's annotations into its extraction plan.
pub fn expand_derive_from_response(input: &StructModel) -> (r: Result<CssDerivePlan, ConfigError>)
    ensures
        match r {
            Ok(p) => spec_expand_css(input@) == Ok::<CssDerivePlanV, ConfigErrorV>(p@),
            Err(e) => spec_expand_css(input@) == Err::<CssDerivePlanV, ConfigErrorV>(e@),
        },
{
    if !input.is_named_struct {
        return Err(ConfigError::NotNamedStruct(input.ident.clone()));
    }
    if let Some(p) = &input.container_path {
        if !check_selector(p.as_str()) {
            return Err(ConfigError::InvalidSelector(p.clone()));
        }
    }
    match generate_field_extractors(&input.fields) {
        Err(e) => Err(e),
        Ok(plans) => Ok(
            CssDerivePlan {
                type_ident: input.ident.clone(),
                container_path: input.container_path.clone(),
                fields: plans,
            },
        ),
    }
}

/// What the extraction logic reads of one matched element: its tag name, id,
/// classes, attributes, text, and the two HTML renderings.
#[derive(Debug, Clone, PartialEq, Eq)]
pub struct ElementData {
    pub name: String,
    pub id: Option<String>,
    pub classes: Vec<String>,
    pub attrs: Vec<(String, String)>,
    pub text: String,
    pub html: String,
    pub inner_html: String,
}

/// Spec-level image of an `ElementData`.
pub struct ElementV {
    pub name: Seq<char>,
    pub id: Option<Seq<char>>,
    pub classes: Seq<Seq<char>>,
    pub attrs: Seq<(Seq<char>, Seq<char>)>,
    pub text: Seq<char>,
    pub html: Seq<char>,
    pub inner_html: Seq<char>,
}

impl View for ElementData {
    type V = ElementV;

    open spec fn view(&self) -> ElementV {
        ElementV {
            name: self.name@,
            id: opt_view(self.id),
            classes: self.classes@.map_values(|c: String| c@),
            attrs: self.attrs@.map_values(|kv: (String, String)| (kv.0@, kv.1@)),
            text: self.text@,
            html: self.html@,
            inner_html: self.inner_html@,
        }
    }
}

/// The first value bound to `key` among an element's attributes.
pub open spec fn spec_attr_lookup(attrs: Seq<(Seq<char>, Seq<char>)>, key: Seq<char>) -> Option<
    Seq<char>,
>
    decreases attrs.len(),
{
    if attrs.len() == 0 {
        None
    } else if attrs[0].0 == key {
        Some(attrs[0].1)
    } else {
        spec_attr_lookup(attrs.drop_first(), key)
    }
}

/// Whether an element carries the class, compared case-sensitively.
pub open spec fn spec_has_class(classes: Seq<Seq<char>>, class: Seq<char>) -> bool {
    exists|i: int| 0 <= i < classes.len() && classes[i] == class
}

/// What one extraction mode yields on one element; `None` when the element
/// has nothing to extract for it.
pub open spec fn spec_apply(m: ModeV, e: ElementV) -> Option<Seq<char>> {
    match m {
        ModeV::Name => Some(e.name),
        ModeV::Id => e.id,
        ModeV::Text => Some(e.text),
        ModeV::Html => Some(e.html),
        ModeV::InnerHtml => Some(e.inner_html),
        ModeV::HasClass(c) => Some(
            if spec_has_class(e.classes, c) {
                "true"@
            } else {
                "false"@
            },
        ),
        ModeV::Attr(a) => spec_attr_lookup(e.attrs, a),
    }
}

/// Look an attribute up by key.
pub fn attr_lookup(attrs: &Vec<(String, String)>, key: &String) -> (r: Option<String>)
    ensures
        opt_view(r) == spec_attr_lookup(
            attrs@.map_values(|kv: (String, String)| (kv.0@, kv.1@)),
            key@,
        ),
{
    let ghost av = attrs@.map_values(|kv: (String, String)| (kv.0@, kv.1@));
    let n = attrs.len();
    assert(av.skip(0) =~= av);
    for i in 0..n
        invariant
            n == attrs@.len(),
            av == attrs@.map_values(|kv: (String, String)| (kv.0@, kv.1@)),
            spec_attr_lookup(av, key@) == spec_attr_lookup(av.skip(i as int), key@),
    {
        assert(av.skip(i as int)[0] == av[i as int]);
        assert(av.skip(i as int).drop_first() =~= av.skip(i + 1));
        if attrs[i].0 == *key {
            return Some(attrs[i].1.clone());
        }
    }
    assert(av.skip(n as int) =~= Seq::<(Seq<char>, Seq<char>)>::empty());
    None
}

/// Test class membership.
fn classes_contain(classes: &Vec<String>, class: &String) -> (r: bool)
    ensures
        r == spec_has_class(classes@.map_values(|c: String| c@), class@),
{
    let ghost cv = classes@.map_values(|c: String| c@);
    let n = classes.len();
    for i in 0..n
        invariant
            n == classes@.len(),
            cv == classes@.map_values(|c: String| c@),
            forall|m: int| 0 <= m < i ==> cv[m] != class@,
    {
        if classes[i] == *class {
            assert(cv[i as int] == class@);
            return true;
        }
    }
    false
}

/// Apply one extraction mode to one element.
pub fn apply_extractor(m: &Extractor, e: &ElementData) -> (r: Option<String>)
    ensures
        opt_view(r) == spec_apply(m@, e@),
{
    match m {
        Extractor::Name => Some(e.name.clone()),
        Extractor::Id => match &e.id {
            Some(id) => Some(id.clone()),
            None => None,
        },
        Extractor::Text => Some(e.text.clone()),
        Extractor::Html => Some(e.html.clone()),
        Extractor::InnerHtml => Some(e.inner_html.clone()),
        Extractor::HasClass(c) => {
            if classes_contain(&e.classes, c) {
                Some(String::from_str("true"))
            } else {
                Some(String::from_str("false"))
            }
        },
        Extractor::Attr(a) => attr_lookup(&e.attrs, a),
    }
}

/// A populated field: one value, an optional value, or an ordered list.
#[derive(Debug, Clone, PartialEq, Eq)]
pub enum FieldValue {
    Scalar(String),
    Optional(Option<String>),
    Collection(Vec<String>),
}

/// Spec-level image of a `FieldValue`.
pub enum FieldValueV {
    Scalar(Seq<char>),
    Optional(Option<Seq<char>>),
    Collection(Seq<Seq<char>>),
}

impl View for FieldValue {
    type V = FieldValueV;

    open spec fn view(&self) -> FieldValueV {
        match self {
            FieldValue::Scalar(s) => FieldValueV::Scalar(s@),
            FieldValue::Optional(o) => FieldValueV::Optional(opt_view(*o)),
            FieldValue::Collection(vs) => FieldValueV::Collection(
                vs@.map_values(|s: String| s@),
            ),
        }
    }
}

/// The views of an element list.
pub open spec fn elem_views(es: Seq<ElementData>) -> Seq<ElementV> {
    es.map_values(|e: ElementData| e@)
}

/// All non-empty extraction results over a list of elements, in match order.
pub open spec fn spec_gather(m: ModeV, items: Seq<ElementV>) -> Seq<Seq<char>>
    decreases items.len(),
{
    if items.len() == 0 {
        Seq::empty()
    } else {
        let rest = spec_gather(m, items.drop_first());
        match spec_apply(m, items[0]) {
            Some(v) => Seq::empty().push(v) + rest,
            None => rest,
        }
    }
}

/// What the first matched element yields, `None` when nothing matched.
pub open spec fn spec_first_apply(m: ModeV, items: Seq<ElementV>) -> Option<Seq<char>> {
    if items.len() == 0 {
        None
    } else {
        spec_apply(m, items[0])
    }
}

/// How one field is populated from its matched elements.
///
/// With an own path, the mode is applied to the first match (optional and
/// scalar shapes) or to every match (collection shape); without one, it is
/// applied to the current element directly. A scalar falls back on its
/// default when extraction yields nothing.
pub open spec fn spec_resolve_field(
    p: FieldPlanV,
    matches: Seq<ElementV>,
    current: ElementV,
) -> FieldValueV
    recommends
        plan_wf(p),
{
    match p.path {
        Some(_) => match p.shape {
            PathType::Optional => FieldValueV::Optional(spec_first_apply(p.extractor, matches)),
            PathType::Vector => FieldValueV::Collection(spec_gather(p.extractor, matches)),
            PathType::Other => FieldValueV::Scalar(
                match spec_first_apply(p.extractor, matches) {
                    Some(v) => v,
                    None => p.default->0,
                },
            ),
        },
        None => match p.shape {
            PathType::Optional => FieldValueV::Optional(spec_apply(p.extractor, current)),
            PathType::Vector => FieldValueV::Collection(Seq::empty()),
            PathType::Other => FieldValueV::Scalar(
                match spec_apply(p.extractor, current) {
                    Some(v) => v,
                    None => p.default->0,
                },
            ),
        },
    }
}

/// Populate one field from its matched elements.
pub fn resolve_field(p: &FieldPlan, matches: &Vec<ElementData>, current: &ElementData) -> (r:
    FieldValue)
    requires
        plan_wf(p@),
    ensures
        r@ == spec_resolve_field(p@, elem_views(matches@), current@),
{
    let has_path = p.path.is_some();
    match p.shape {
        PathType::Optional => {
            if has_path {
                if matches.len() == 0 {
                    FieldValue::Optional(None)
                } else {
                    assert(elem_views(matches@)[0] == matches@[0]@);
                    FieldValue::Optional(apply_extractor(&p.extractor, &matches[0]))
                }
            } else {
                FieldValue::Optional(apply_extractor(&p.extractor, current))
            }
        },
        PathType::Vector => {
            let mut out: Vec<String> = Vec::new();
            let ghost mv = elem_views(matches@);
            let n = matches.len();
            assert(mv.skip(0) =~= mv);
            for i in 0..n
                invariant
                    n == matches@.len(),
                    mv == elem_views(matches@),
                    spec_gather(p@.extractor, mv) == out@.map_values(|s: String| s@)
                        + spec_gather(p@.extractor, mv.skip(i as int)),
            {
                let ghost pre = out@;
                assert(mv.skip(i as int)[0] == mv[i as int]);
                assert(mv.skip(i as int).drop_first() =~= mv.skip(i + 1));
                match apply_extractor(&p.extractor, &matches[i]) {
                    Some(v) => {
                        out.push(v);
                        proof {
                            assert(out@.map_values(|s: String| s@) =~= pre.map_values(
                                |s: String| s@,
                            ).push(out@.last()@));
                            assert(pre.map_values(|s: String| s@).push(out@.last()@)
                                + spec_gather(p@.extractor, mv.skip(i + 1)) =~= pre.map_values(
                                |s: String| s@,
                            ) + (Seq::empty().push(out@.last()@) + spec_gather(
                                p@.extractor,
                                mv.skip(i + 1),
                            )));
                        }
                    },
                    None => {},
                }
            }
            assert(mv.skip(n as int) =~= Seq::<ElementV>::empty());
            assert(out@.map_values(|s: String| s@) + Seq::<Seq<char>>::empty() =~= out@.map_values(
                |s: String| s@,
            ));
            FieldValue::Collection(out)
        },
        PathType::Other => {
            let extracted = if has_path {
                if matches.len() == 0 {
                    None
                } else {
                    assert(elem_views(matches@)[0] == matches@[0]@);
                    apply_extractor(&p.extractor, &matches[0])
                }
            } else {
                apply_extractor(&p.extractor, current)
            };
            match extracted {
                Some(v) => FieldValue::Scalar(v),
                None => {
                    let d = match &p.default {
                        Some(d) => d.clone(),
                        None => String::new(),
                    };
                    FieldValue::Scalar(d)
                },
            }
        },
    }
}

/// A scalar field with a default and no extracted value is populated with
/// the default, verbatim.
pub proof fn lemma_scalar_default(p: FieldPlanV, matches: Seq<ElementV>, current: ElementV)
    requires
        plan_wf(p),
        p.shape is Other,
        p.path is Some,
        spec_first_apply(p.extractor, matches) is None,
    ensures
        spec_resolve_field(p, matches, current) == FieldValueV::Scalar(p.default->0),
{
}

/// One matched container element together with, per field, the elements its
/// own path matched beneath the container.
#[derive(Debug, Clone, PartialEq, Eq)]
pub struct ElementRow {
    pub element: ElementData,
    pub field_matches: Vec<Vec<ElementData>>,
}

/// Spec-level image of an `ElementRow`.
pub struct RowV {
    pub element: ElementV,
    pub field_matches: Seq<Seq<ElementV>>,
}

impl View for ElementRow {
    type V = RowV;

    open spec fn view(&self) -> RowV {
        RowV {
            element: self.element@,
            field_matches: self.field_matches@.map_values(|es: Vec<ElementData>| elem_views(es@)),
        }
    }
}

/// The views of a value list.
pub open spec fn value_views(vs: Seq<FieldValue>) -> Seq<FieldValueV> {
    vs.map_values(|v: FieldValue| v@)
}

/// One instance: every field resolved against one container element,
/// independently of the other fields.
pub open spec fn spec_extract_instance(plans: Seq<FieldPlanV>, row: RowV) -> Seq<FieldValueV> {
    Seq::new(plans.len(), |j: int| spec_resolve_field(plans[j], row.field_matches[j], row.element))
}

/// The collection form: one instance per matched container element, in
/// document order.
pub open spec fn spec_extract_all(plans: Seq<FieldPlanV>, rows: Seq<RowV>) -> Seq<
    Seq<FieldValueV>,
> {
    Seq::new(rows.len(), |i: int| spec_extract_instance(plans, rows[i]))
}

/// Resolve every field of one instance.
pub fn extract_instance(plans: &Vec<FieldPlan>, row: &ElementRow) -> (r: Vec<FieldValue>)
    requires
        row.field_matches@.len() == plans@.len(),
        forall|j: int| 0 <= j < plans@.len() ==> plan_wf(#[trigger] plans@[j]@),
    ensures
        value_views(r@) == spec_extract_instance(plan_views(plans@), row@),
{
    let mut out: Vec<FieldValue> = Vec::new();
    let n = plans.len();
    for j in 0..n
        invariant
            n == plans@.len(),
            row.field_matches@.len() == n,
            forall|k: int| 0 <= k < n ==> plan_wf(#[trigger] plans@[k]@),
            out@.len() == j,
            forall|k: int|
                0 <= k < j ==> value_views(out@)[k] == spec_extract_instance(
                    plan_views(plans@),
                    row@,
                )[k],
    {
        let ghost pre = out@;
        let v = resolve_field(&plans[j], &row.field_matches[j], &row.element);
        let ghost vv = v@;
        out.push(v);
        proof {
            assert(value_views(out@) =~= value_views(pre).push(vv));
            assert(row@.field_matches[j as int] == elem_views(row.field_matches@[j as int]@));
            assert(plan_views(plans@)[j as int] == plans@[j as int]@);
            assert(spec_extract_instance(plan_views(plans@), row@)[j as int] == vv);
        }
    }
    assert(value_views(out@) =~= spec_extract_instance(plan_views(plans@), row@));
    out
}

/// Resolve one instance per container row. The result has exactly one entry
/// per row, in the given order, and each entry depends on its own row alone.
pub fn extract_all(plans: &Vec<FieldPlan>, rows: &Vec<ElementRow>) -> (r: Vec<Vec<FieldValue>>)
    requires
        forall|i: int| 0 <= i < rows@.len() ==> (#[trigger] rows@[i]).field_matches@.len()
            == plans@.len(),
        forall|j: int| 0 <= j < plans@.len() ==> plan_wf(#[trigger] plans@[j]@),
    ensures
        r@.len() == rows@.len(),
        forall|i: int| 0 <= i < rows@.len() ==> value_views((#[trigger] r@[i])@)
            == spec_extract_all(plan_views(plans@), rows@.map_values(|rw: ElementRow| rw@))[i],
{
    let mut out: Vec<Vec<FieldValue>> = Vec::new();
    let n = rows.len();
    let ghost rv = rows@.map_values(|rw: ElementRow| rw@);
    for i in 0..n
        invariant
            n == rows@.len(),
            rv == rows@.map_values(|rw: ElementRow| rw@),
            forall|k: int| 0 <= k < n ==> (#[trigger] rows@[k]).field_matches@.len()
                == plans@.len(),
            forall|j: int| 0 <= j < plans@.len() ==> plan_wf(#[trigger] plans@[j]@),
            out@.len() == i,
            forall|k: int| 0 <= k < i ==> value_views((#[trigger] out@[k])@) == spec_extract_all(
                plan_views(plans@),
                rv,
            )[k],
    {
        let inst = extract_instance(plans, &rows[i]);
        out.push(inst);
    }
    out
}

/// The round trip of the collection form, stated once: a document whose
/// container path matched `rows.len()` elements yields exactly that many
/// instances, in the same order, and the instance at `i` is a function of
/// the row at `i` alone.
pub proof fn lemma_collection_round_trip(plans: Seq<FieldPlanV>, rows: Seq<RowV>)
    ensures
        spec_extract_all(plans, rows).len() == rows.len(),
        forall|i: int| 0 <= i < rows.len() ==> spec_extract_all(plans, rows)[i]
            == spec_extract_instance(plans, rows[i]),
{
}

/// Copy what the extraction logic reads out of a matched element. The
/// fields are the engine's data; of the text, what the accessor fixes
/// holds here too: no leading or trailing whitespace.
pub fn element_data(item: &SelectItem) -> (r: ElementData)
    ensures
        r.text@.len() > 0 ==> !crate::text::spec_is_space(r.text@[0])
            && !crate::text::spec_is_space(r.text@[r.text@.len() - 1]),
{
    let id = match item.id() {
        Some(s) => Some(s.to_owned()),
        None => None,
    };
    ElementData {
        name: item.name().to_owned(),
        id,
        classes: item.classes(),
        attrs: item.attrs(),
        text: item.text(),
        html: item.html(),
        inner_html: item.inner_html(),
    }
}

/// Whether every field path of a plan list is accepted by the selector
/// grammar.
pub open spec fn field_paths_valid(plans: Seq<FieldPlanV>) -> bool {
    forall|j: int|
        0 <= j < plans.len() ==> ((#[trigger] plans[j]).path matches Some(p) ==> selector_valid(p))
}

/// The first field path, in field order, that the selector grammar
/// rejects.
pub open spec fn spec_first_invalid_path(plans: Seq<FieldPlanV>) -> Option<Seq<char>>
    decreases plans.len(),
{
    if plans.len() == 0 {
        None
    } else if plans[0].path is Some && !selector_valid(plans[0].path->0) {
        Some(plans[0].path->0)
    } else {
        spec_first_invalid_path(plans.drop_first())
    }
}

/// Collect, for one container element, the sub-elements each field's own
/// path matches beneath it. Succeeds whenever every field path is accepted
/// by the selector grammar; a rejected path is the selector error, the
/// first one in field order, with nothing partial kept.
pub fn gather_row(item: &SelectItem, plans: &Vec<FieldPlan>) -> (r: Result<
    ElementRow,
    ScraperError,
>)
    ensures
        field_paths_valid(plan_views(plans@)) ==> r is Ok,
        r matches Ok(row) ==> row.field_matches@.len() == plans@.len(),
        r matches Err(e) ==> (spec_first_invalid_path(plan_views(plans@)) matches Some(p) && e@
            == ScraperErrorV::CssSelectorError(selector_error_text(p))),
{
    let ghost pv = plan_views(plans@);
    let mut field_matches: Vec<Vec<ElementData>> = Vec::new();
    let n = plans.len();
    assert(pv.skip(0) =~= pv);
    for j in 0..n
        invariant
            n == plans@.len(),
            pv == plan_views(plans@),
            field_matches@.len() == j,
            spec_first_invalid_path(pv) == spec_first_invalid_path(pv.skip(j as int)),
    {
        assert(pv.skip(j as int)[0] == pv[j as int]);
        assert(pv.skip(j as int).drop_first() =~= pv.skip(j + 1));
        let mut matched: Vec<ElementData> = Vec::new();
        if let Some(path) = &plans[j].path {
            let sel = match item.select(path.as_str()) {
                Ok(sel) => sel,
                Err(e) => {
                    proof {
                        assert(pv[j as int].path matches Some(p) && !selector_valid(p));
                        assert(!field_paths_valid(pv));
                        assert(spec_first_invalid_path(pv.skip(j as int)) == Some(
                            pv[j as int].path->0,
                        ));
                    }
                    return Err(e);
                },
            };
            let items = sel.iter();
            let m = items.len();
            for k in 0..m
                invariant
                    m == items@.len(),
            {
                matched.push(element_data(&items[k]));
            }
        }
        field_matches.push(matched);
    }
    Ok(ElementRow { element: element_data(item), field_matches })
}

/// Resolve one instance per matched container element: exactly one entry
/// per match, in document order, each resolved independently of the others.
/// Succeeds whenever every field path is accepted by the selector grammar;
/// the only failure is a rejected field path, propagated unchanged.
pub fn extract_matched(sel: &Selectable, plans: &Vec<FieldPlan>) -> (r: Result<
    Vec<Vec<FieldValue>>,
    ScraperError,
>)
    requires
        forall|j: int| 0 <= j < plans@.len() ==> plan_wf(#[trigger] plans@[j]@),
    ensures
        field_paths_valid(plan_views(plans@)) ==> r is Ok,
        r matches Ok(out) ==> out@.len() == sel.spec_items().len(),
        r matches Err(e) ==> (spec_first_invalid_path(plan_views(plans@)) matches Some(p) && e@
            == ScraperErrorV::CssSelectorError(selector_error_text(p))),
{
    let items = sel.iter();
    let mut rows: Vec<ElementRow> = Vec::new();
    let n = items.len();
    for i in 0..n
        invariant
            n == items@.len(),
            rows@.len() == i,
            forall|k: int| 0 <= k < rows@.len() ==> (#[trigger] rows@[k]).field_matches@.len()
                == plans@.len(),
            forall|j: int| 0 <= j < plans@.len() ==> plan_wf(#[trigger] plans@[j]@),
    {
        match gather_row(&items[i], plans) {
            Ok(row) => rows.push(row),
            Err(e) => {
                return Err(e);
            },
        }
    }
    Ok(extract_all(plans, &rows))
}

/// The collection form, end to end: query the container path, gather each
/// matched element's sub-matches, and resolve one instance per element.
/// Succeeds exactly when the grammar accepts the container path and every
/// field path; the first rejected selector is the error, propagated
/// unchanged, with no partial result. What is returned for the gathered
/// rows is fixed by `extract_all`.
pub fn from_html_list(
    html: &HtmlDocument,
    container_path: &str,
    plans: &Vec<FieldPlan>,
) -> (r: Result<Vec<Vec<FieldValue>>, ScraperError>)
    requires
        forall|j: int| 0 <= j < plans@.len() ==> plan_wf(#[trigger] plans@[j]@),
    ensures
        selector_valid(container_path@) && field_paths_valid(plan_views(plans@)) ==> r is Ok,
        !selector_valid(container_path@) ==> r is Err,
        r matches Err(e) ==> (if selector_valid(container_path@) {
            spec_first_invalid_path(plan_views(plans@)) matches Some(p) && e@
                == ScraperErrorV::CssSelectorError(selector_error_text(p))
        } else {
            e@ == ScraperErrorV::CssSelectorError(selector_error_text(container_path@))
        }),
{
    let sel = match html.select(container_path) {
        Ok(sel) => sel,
        Err(e) => {
            return Err(e);
        },
    };
    extract_matched(&sel, plans)
}

/// The single form, end to end: treat the whole document as the one current
/// element (its root), resolve each field's own path against the document,
/// and build exactly one instance with one value per field. Succeeds
/// whenever every field path is accepted by the selector grammar; the first
/// rejected path is the error, propagated unchanged, with no partial
/// instance. What each field holds is fixed by `extract_instance`.
pub fn from_html_single(html: &HtmlDocument, plans: &Vec<FieldPlan>) -> (r: Result<
    Vec<FieldValue>,
    ScraperError,
>)
    requires
        forall|j: int| 0 <= j < plans@.len() ==> plan_wf(#[trigger] plans@[j]@),
    ensures
        field_paths_valid(plan_views(plans@)) ==> r is Ok,
        r matches Ok(vals) ==> vals@.len() == plans@.len(),
        r matches Err(e) ==> (spec_first_invalid_path(plan_views(plans@)) matches Some(p) && e@
            == ScraperErrorV::CssSelectorError(selector_error_text(p))),
{
    let ghost pv = plan_views(plans@);
    let mut field_matches: Vec<Vec<ElementData>> = Vec::new();
    let n = plans.len();
    assert(pv.skip(0) =~= pv);
    for j in 0..n
        invariant
            n == plans@.len(),
            pv == plan_views(plans@),
            field_matches@.len() == j,
            forall|k: int| 0 <= k < plans@.len() ==> plan_wf(#[trigger] plans@[k]@),
            spec_first_invalid_path(pv) == spec_first_invalid_path(pv.skip(j as int)),
    {
        assert(pv.skip(j as int)[0] == pv[j as int]);
        assert(pv.skip(j as int).drop_first() =~= pv.skip(j + 1));
        let mut matched: Vec<ElementData> = Vec::new();
        if let Some(path) = &plans[j].path {
            let sel = match html.select(path.as_str()) {
                Ok(sel) => sel,
                Err(e) => {
                    proof {
                        assert(pv[j as int].path matches Some(p) && !selector_valid(p));
                        assert(!field_paths_valid(pv));
                        assert(spec_first_invalid_path(pv.skip(j as int)) == Some(
                            pv[j as int].path->0,
                        ));
                    }
                    return Err(e);
                },
            };
            let items = sel.iter();
            let m = items.len();
            for k in 0..m
                invariant
                    m == items@.len(),
            {
                matched.push(element_data(&items[k]));
            }
        }
        field_matches.push(matched);
    }
    let row = ElementRow { element: element_data(&html.root()), field_matches };
    let vals = extract_instance(plans, &row);
    proof {
        assert(value_views(vals@).len() == plans@.len());
    }
    Ok(vals)
}

} // verus!
