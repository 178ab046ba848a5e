//! Deriving error responses from an error enum's declaration.
//!
//! An error enum annotates each variant as a request error (with status,
//! code and optional message fields) or an internal error. This module
//! classifies the variants and expands each into the text of one match
//! arm of an `error_response` implementation. The procedural layer parses
//! the declaration and hands its shape over as plain values.

use vstd::prelude::*;

use vstd::string::StringExecFns;

use crate::auth::str_eq;

verus! {

/// The ways a variant can map onto an error response.
#[derive(Clone, Copy, Debug, PartialEq, Eq, Structural)]
pub enum JsonErrorKind {
    /// A request error without wrapped content.
    NaiveRequest,
    /// A request error wrapping one content field.
    Request,
    /// An internal error without wrapped content.
    NaiveInternal,
    /// An internal error wrapping one field, which is not exposed.
    Internal,
}

/// A diagnostic raised while classifying an error enum.
#[derive(Debug, PartialEq, Eq)]
pub enum DeriveDiagnostic {
    /// An attribute field other than status, code or message.
    UnknownAttribute(String),
    /// An internal-error variant wrapping more than one field.
    UnsupportedTupleVariant(String),
    /// A request-error variant wrapping more than one field.
    MultipleWrappedErrors(String),
    /// A variant with neither a request-error nor an internal-error
    /// attribute.
    MissingErrorAttribute(String),
}

/// The mathematical value of a [`DeriveDiagnostic`].
pub enum DiagModel {
    UnknownAttribute(Seq<char>),
    UnsupportedTupleVariant(Seq<char>),
    MultipleWrappedErrors(Seq<char>),
    MissingErrorAttribute(Seq<char>),
}

impl View for DeriveDiagnostic {
    type V = DiagModel;

    open spec fn view(&self) -> DiagModel {
        match self {
            DeriveDiagnostic::UnknownAttribute(s) => DiagModel::UnknownAttribute(s@),
            DeriveDiagnostic::UnsupportedTupleVariant(s) => DiagModel::UnsupportedTupleVariant(s@),
            DeriveDiagnostic::MultipleWrappedErrors(s) => DiagModel::MultipleWrappedErrors(s@),
            DeriveDiagnostic::MissingErrorAttribute(s) => DiagModel::MissingErrorAttribute(s@),
        }
    }
}

/// The diagnostics sink threaded through classification.
pub struct Ctxt {
    pub errors: Vec<DeriveDiagnostic>,
}

impl Ctxt {
    /// The raised diagnostics, in order.
    pub open spec fn models(self) -> Seq<DiagModel> {
        self.errors@.map_values(|d: DeriveDiagnostic| d@)
    }

    /// An empty sink.
    pub fn new() -> (r: Ctxt)
        ensures
            r.models() == Seq::<DiagModel>::empty(),
    {
        let r = Ctxt { errors: Vec::new() };
        proof {
            assert(r.models() =~= Seq::<DiagModel>::empty());
        }
        r
    }

    /// Raise one diagnostic.
    pub fn error_spanned_by(&mut self, d: DeriveDiagnostic)
        ensures
            final(self).models() == old(self).models().push(d@),
    {
        self.errors.push(d);
        proof {
            assert(self.models() =~= old(self).models().push(d@));
        }
    }
}

/// One parsed attribute field: its name, its rendered value, and whether
/// it may be absent.
pub struct Attr {
    pub ident: String,
    pub value: String,
    pub optional: bool,
}

/// The mathematical value of an [`Attr`].
pub struct AttrModel {
    pub ident: Seq<char>,
    pub value: Seq<char>,
    pub optional: bool,
}

impl View for Attr {
    type V = AttrModel;

    open spec fn view(&self) -> AttrModel {
        AttrModel { ident: self.ident@, value: self.value@, optional: self.optional }
    }
}

/// The parsed fields of one error attribute.
pub struct Attrs {
    pub inner: Vec<Attr>,
}

impl Attrs {
    /// The fields, in order.
    pub open spec fn models(self) -> Seq<AttrModel> {
        self.inner@.map_values(|a: Attr| a@)
    }

    /// No fields.
    pub fn new() -> (r: Attrs)
        ensures
            r.models() == Seq::<AttrModel>::empty(),
    {
        let r = Attrs { inner: Vec::new() };
        proof {
            assert(r.models() =~= Seq::<AttrModel>::empty());
        }
        r
    }

    /// A field-for-field copy.
    pub fn duplicate(&self) -> (r: Attrs)
        ensures
            r.models() == self.models(),
    {
        let mut inner: Vec<Attr> = Vec::new();
        let n = self.inner.len();
        let mut i: usize = 0;
        while i < n
            invariant
                0 <= i <= n,
                n == self.inner@.len(),
                inner@.len() == i,
                forall|t: int| 0 <= t < i ==> (#[trigger] inner@[t])@ == self.inner@[t]@,
            decreases n - i,
        {
            let a = &self.inner[i];
            inner.push(Attr { ident: a.ident.clone(), value: a.value.clone(), optional: a.optional });
            i += 1;
        }
        let r = Attrs { inner };
        proof {
            assert(r.models() =~= self.models());
        }
        r
    }

    /// Mark every field of the given name optional.
    pub fn set_optional(&mut self, name: &str)
        ensures
            final(self).models() == mark_optional(old(self).models(), name@),
    {
        let n = self.inner.len();
        let mut i: usize = 0;
        while i < n
            invariant
                0 <= i <= n,
                n == self.inner@.len(),
                self.inner@.len() == old(self).inner@.len(),
                forall|t: int|
                    0 <= t < self.inner@.len() ==> (#[trigger] self.inner@[t])@ == (if t < i {
                        mark_one(old(self).inner@[t]@, name@)
                    } else {
                        old(self).inner@[t]@
                    }),
            decreases n - i,
        {
            if str_eq(self.inner[i].ident.as_str(), name) {
                let ghost prev = self.inner@;
                let mut a = Attr { ident: String::new(), value: String::new(), optional: false };
                self.inner.set_and_swap(i, &mut a);
                let na = Attr { ident: a.ident, value: a.value, optional: true };
                self.inner.set(i, na);
                proof {
                    assert(self.inner@[i as int]@ == mark_one(prev[i as int]@, name@));
                    assert(forall|t: int|
                        0 <= t < self.inner@.len() && t != i ==> self.inner@[t] == prev[t]);
                }
            }
            i += 1;
        }
        proof {
            assert(self.models() =~= mark_optional(old(self).models(), name@));
        }
    }
}

/// One field with a matching name marked optional.
pub open spec fn mark_one(a: AttrModel, name: Seq<char>) -> AttrModel {
    if a.ident == name {
        AttrModel { ident: a.ident, value: a.value, optional: true }
    } else {
        a
    }
}

/// Every field with a matching name marked optional.
pub open spec fn mark_optional(s: Seq<AttrModel>, name: Seq<char>) -> Seq<AttrModel> {
    Seq::new(s.len(), |i: int| mark_one(s[i], name))
}

/// Whether a field name is one of the accepted attribute fields.
pub open spec fn allowed_field(ident: Seq<char>) -> bool {
    ident == "status"@ || ident == "code"@ || ident == "message"@
}

/// The diagnostics the field-validation pass raises: one unknown-attribute
/// diagnostic per field outside the accepted set, in field order.
pub open spec fn unknown_diags(s: Seq<AttrModel>) -> Seq<DiagModel>
    decreases s.len(),
{
    if s.len() == 0 {
        Seq::empty()
    } else {
        unknown_diags(s.drop_last()) + (if allowed_field(s.last().ident) {
            Seq::empty()
        } else {
            seq![DiagModel::UnknownAttribute(s.last().ident)]
        })
    }
}

/// The shape of one enum variant, as the procedural layer hands it over:
/// its name, how many fields it wraps, and its attributes, each an
/// attribute name with its parsed fields.
pub struct ErrorVariant {
    pub ident: String,
    pub n_fields: usize,
    pub attrs: Vec<(String, Attrs)>,
}

/// The mathematical value of an [`ErrorVariant`].
pub struct VariantModel {
    pub ident: Seq<char>,
    pub n_fields: int,
    pub attrs: Seq<(Seq<char>, Seq<AttrModel>)>,
}

impl View for ErrorVariant {
    type V = VariantModel;

    open spec fn view(&self) -> VariantModel {
        VariantModel {
            ident: self.ident@,
            n_fields: self.n_fields as int,
            attrs: self.attrs@.map_values(|p: (String, Attrs)| (p.0@, p.1.models())),
        }
    }
}

/// One classified variant: its name, the kind of response it maps to,
/// and the attribute fields that fill the response in.
pub struct JsonError {
    pub ident: String,
    pub kind: JsonErrorKind,
    pub attrs: Attrs,
}

/// The mathematical value of a [`JsonError`].
pub struct JsonErrorModel {
    pub ident: Seq<char>,
    pub kind: JsonErrorKind,
    pub attrs: Seq<AttrModel>,
}

impl View for JsonError {
    type V = JsonErrorModel;

    open spec fn view(&self) -> JsonErrorModel {
        JsonErrorModel { ident: self.ident@, kind: self.kind, attrs: self.attrs.models() }
    }
}

/// What classifying a variant as an internal error yields: the
/// classification if the variant wraps at most one field, else a
/// diagnostic.
pub open spec fn spec_internal(v: VariantModel) -> (Option<JsonErrorModel>, Seq<DiagModel>) {
    if v.n_fields == 0 {
        (
            Some(
                JsonErrorModel {
                    ident: v.ident,
                    kind: JsonErrorKind::NaiveInternal,
                    attrs: Seq::empty(),
                },
            ),
            Seq::empty(),
        )
    } else if v.n_fields == 1 {
        (
            Some(
                JsonErrorModel {
                    ident: v.ident,
                    kind: JsonErrorKind::Internal,
                    attrs: Seq::empty(),
                },
            ),
            Seq::empty(),
        )
    } else {
        (None, seq![DiagModel::UnsupportedTupleVariant(v.ident)])
    }
}

/// What classifying a variant as a request error with the given
/// attribute fields yields: unknown fields are reported (but do not fail
/// the classification), the message field becomes optional, and the
/// variant must wrap at most one field.
pub open spec fn spec_request(v: VariantModel, ats: Seq<AttrModel>) -> (
    Option<JsonErrorModel>,
    Seq<DiagModel>,
) {
    let marked = mark_optional(ats, "message"@);
    let ds = unknown_diags(marked);
    if v.n_fields == 0 {
        (
            Some(JsonErrorModel { ident: v.ident, kind: JsonErrorKind::NaiveRequest, attrs: marked }),
            ds,
        )
    } else if v.n_fields == 1 {
        (
            Some(JsonErrorModel { ident: v.ident, kind: JsonErrorKind::Request, attrs: marked }),
            ds,
        )
    } else {
        (None, ds.push(DiagModel::MultipleWrappedErrors(v.ident)))
    }
}

/// Scanning the first `i` attributes of a variant for an error
/// classification: the first attribute that classifies wins; diagnostics
/// accumulate across the scanned attributes.
pub open spec fn spec_scan(v: VariantModel, i: int) -> (Option<JsonErrorModel>, Seq<DiagModel>)
    decreases i,
{
    if i <= 0 {
        (None, Seq::empty())
    } else {
        let prefix = spec_scan(v, i - 1);
        if prefix.0 is Some {
            prefix
        } else {
            let name = v.attrs[i - 1].0;
            let ats = v.attrs[i - 1].1;
            if name == "request_error"@ {
                let step = spec_request(v, ats);
                (step.0, prefix.1 + step.1)
            } else if name == "internal_error"@ {
                let step = spec_internal(v);
                (step.0, prefix.1 + step.1)
            } else {
                prefix
            }
        }
    }
}

/// Once an attribute has classified the variant, scanning further
/// attributes changes nothing.
pub proof fn lemma_scan_some_extends(v: VariantModel, i: int, n: int)
    requires
        0 <= i <= n,
        spec_scan(v, i).0 is Some,
    ensures
        spec_scan(v, n) == spec_scan(v, i),
    decreases n - i,
{
    if i < n {
        lemma_scan_some_extends(v, i, n - 1);
    }
}

/// What classifying a whole variant yields: the scan over its
/// attributes; a variant that no attribute classifies raises a
/// missing-attribute diagnostic.
pub open spec fn spec_from_variant(v: VariantModel) -> (Option<JsonErrorModel>, Seq<DiagModel>) {
    let scan = spec_scan(v, v.attrs.len() as int);
    match scan.0 {
        Some(m) => (Some(m), scan.1),
        None => (None, scan.1.push(DiagModel::MissingErrorAttribute(v.ident))),
    }
}

impl JsonError {
    /// Classify a variant annotated as an internal error.
    pub fn new_internal_error(variant: &ErrorVariant, ctxt: &mut Ctxt) -> (r: Option<JsonError>)
        ensures
            match spec_internal(variant@).0 {
                Some(m) => r matches Some(e) && e@ == m,
                None => r is None,
            },
            final(ctxt).models() == old(ctxt).models() + spec_internal(variant@).1,
    {
        if variant.n_fields == 0 {
            proof {
                assert(final(ctxt).models() =~= old(ctxt).models() + spec_internal(variant@).1);
            }
            Some(
                JsonError {
                    ident: variant.ident.clone(),
                    kind: JsonErrorKind::NaiveInternal,
                    attrs: Attrs::new(),
                },
            )
        } else if variant.n_fields == 1 {
            proof {
                assert(final(ctxt).models() =~= old(ctxt).models() + spec_internal(variant@).1);
            }
            Some(
                JsonError {
                    ident: variant.ident.clone(),
                    kind: JsonErrorKind::Internal,
                    attrs: Attrs::new(),
                },
            )
        } else {
            ctxt.error_spanned_by(
                DeriveDiagnostic::UnsupportedTupleVariant(variant.ident.clone()),
            );
            proof {
                assert(final(ctxt).models() =~= old(ctxt).models() + spec_internal(variant@).1);
            }
            None
        }
    }

    /// Classify a variant annotated as a request error, validating the
    /// attribute's fields.
    pub fn new_request_error(variant: &ErrorVariant, attrs: Attrs, ctxt: &mut Ctxt) -> (r: Option<
        JsonError,
    >)
        ensures
            match spec_request(variant@, attrs.models()).0 {
                Some(m) => r matches Some(e) && e@ == m,
                None => r is None,
            },
            final(ctxt).models() == old(ctxt).models() + spec_request(
                variant@,
                attrs.models(),
            ).1,
    {
        let ghost ats0 = attrs.models();
        let mut attrs = attrs;
        attrs.set_optional("message");
        let ghost marked = attrs.models();
        let n = attrs.inner.len();
        let mut i: usize = 0;
        proof {
            assert(marked == mark_optional(ats0, "message"@));
        }
        while i < n
            invariant
                0 <= i <= n,
                n == attrs.inner@.len(),
                attrs.models() == marked,
                ctxt.models() == old(ctxt).models() + unknown_diags(marked.take(i as int)),
            decreases n - i,
        {
            let known = str_eq(attrs.inner[i].ident.as_str(), "status") || str_eq(
                attrs.inner[i].ident.as_str(),
                "code",
            ) || str_eq(attrs.inner[i].ident.as_str(), "message");
            proof {
                assert(marked.take(i + 1).drop_last() =~= marked.take(i as int));
                assert(marked.take(i + 1).last() == marked[i as int]);
            }
            if !known {
                ctxt.error_spanned_by(
                    DeriveDiagnostic::UnknownAttribute(attrs.inner[i].ident.clone()),
                );
            }
            proof {
                assert(ctxt.models() =~= old(ctxt).models() + unknown_diags(marked.take(i + 1)));
            }
            i += 1;
        }
        proof {
            assert(marked.take(n as int) =~= marked);
        }
        if variant.n_fields == 0 {
            Some(
                JsonError {
                    ident: variant.ident.clone(),
                    kind: JsonErrorKind::NaiveRequest,
                    attrs,
                },
            )
        } else if variant.n_fields == 1 {
            Some(
                JsonError { ident: variant.ident.clone(), kind: JsonErrorKind::Request, attrs },
            )
        } else {
            ctxt.error_spanned_by(
                DeriveDiagnostic::MultipleWrappedErrors(variant.ident.clone()),
            );
            None
        }
    }

    /// Classify a variant by scanning its attributes; a variant that
    /// carries no error attribute raises a diagnostic and classifies as
    /// nothing.
    pub fn from_variant(variant: &ErrorVariant, ctxt: &mut Ctxt) -> (r: Option<JsonError>)
        ensures
            match spec_from_variant(variant@).0 {
                Some(m) => r matches Some(e) && e@ == m,
                None => r is None,
            },
            final(ctxt).models() == old(ctxt).models() + spec_from_variant(variant@).1,
    {
        let n = variant.attrs.len();
        let mut i: usize = 0;
        while i < n
            invariant
                0 <= i <= n,
                n == variant.attrs@.len(),
                spec_scan(variant@, i as int).0 is None,
                ctxt.models() == old(ctxt).models() + spec_scan(variant@, i as int).1,
            decreases n - i,
        {
            let name = &variant.attrs[i].0;
            proof {
                assert(variant@.attrs[i as int] == (
                    variant.attrs@[i as int].0@,
                    variant.attrs@[i as int].1.models(),
                ));
            }
            if str_eq(name.as_str(), "request_error") {
                let ats = variant.attrs[i].1.duplicate();
                let r = JsonError::new_request_error(variant, ats, ctxt);
                if let Some(e) = r {
                    proof {
                        assert(spec_scan(variant@, i + 1).0 is Some);
                        lemma_scan_some_extends(variant@, i + 1, n as int);
                    }
                    return Some(e);
                }
            } else if str_eq(name.as_str(), "internal_error") {
                let r = JsonError::new_internal_error(variant, ctxt);
                if let Some(e) = r {
                    proof {
                        assert(spec_scan(variant@, i + 1).0 is Some);
                        lemma_scan_some_extends(variant@, i + 1, n as int);
                    }
                    return Some(e);
                }
            }
            i += 1;
        }
        ctxt.error_spanned_by(DeriveDiagnostic::MissingErrorAttribute(variant.ident.clone()));
        None
    }
}

/// The rendered `field: value ,` list of a classified variant's
/// attribute fields.
pub open spec fn fields_text(s: Seq<AttrModel>) -> Seq<char>
    decreases s.len(),
{
    if s.len() == 0 {
        Seq::empty()
    } else {
        fields_text(s.drop_last()) + s.last().ident + ": "@ + s.last().value + " , "@
    }
}

/// The body an internal-error arm expands to: a fixed internal-server
/// response.
pub open spec fn internal_arm_body() -> Seq<char> {
    "yeax_api::JsonError { status: actix_web::http::StatusCode::INTERNAL_SERVER_ERROR , code: \"50000 internal-error\".into() , content: () , ..yeax_api::JsonError::default() }.error_response()"@
}

/// The text of the match arm a classified variant expands to.
pub open spec fn arm_text(m: JsonErrorModel, type_ident: Seq<char>) -> Seq<char> {
    match m.kind {
        JsonErrorKind::NaiveRequest => type_ident + "::"@ + m.ident
            + " => yeax_api::JsonError { "@ + fields_text(m.attrs)
            + "content: () , ..yeax_api::JsonError::default() }.error_response()"@,
        JsonErrorKind::Request => type_ident + "::"@ + m.ident
            + "(err) => yeax_api::JsonError { "@ + fields_text(m.attrs)
            + "content: err.clone() , ..yeax_api::JsonError::default() }.error_response()"@,
        JsonErrorKind::NaiveInternal => type_ident + "::"@ + m.ident + " => "@
            + internal_arm_body(),
        JsonErrorKind::Internal => type_ident + "::"@ + m.ident + "(err) => "@
            + internal_arm_body(),
    }
}

/// Append the rendered field list of the given attributes.
fn append_fields(s: &mut String, attrs: &Attrs)
    ensures
        final(s)@ == old(s)@ + fields_text(attrs.models()),
{
    let ghost s0 = s@;
    let ghost ms = attrs.models();
    let n = attrs.inner.len();
    let mut i: usize = 0;
    proof {
        assert(ms.take(0) =~= Seq::<AttrModel>::empty());
        assert(s@ =~= s0 + fields_text(ms.take(0)));
    }
    while i < n
        invariant
            0 <= i <= n,
            n == attrs.inner@.len(),
            ms == attrs.models(),
            s@ == s0 + fields_text(ms.take(i as int)),
        decreases n - i,
    {
        let a = &attrs.inner[i];
        s.append(a.ident.as_str());
        s.append(": ");
        s.append(a.value.as_str());
        s.append(" , ");
        proof {
            assert(ms.take(i + 1).drop_last() =~= ms.take(i as int));
            assert(ms.take(i + 1).last() == ms[i as int]);
            assert(s@ =~= s0 + fields_text(ms.take(i + 1)));
        }
        i += 1;
    }
    proof {
        assert(ms.take(n as int) =~= ms);
    }
}

impl JsonError {
    /// Expand this classified variant into the text of one match arm of
    /// an `error_response` implementation over the enum named
    /// `type_ident`.
    pub fn expand_match_condition(&self, type_ident: &str) -> (s: String)
        ensures
            s@ == arm_text(self@, type_ident@),
    {
        let mut s = String::from_str(type_ident);
        s.append("::");
        s.append(self.ident.as_str());
        match self.kind {
            JsonErrorKind::NaiveRequest => {
                s.append(" => yeax_api::JsonError { ");
                append_fields(&mut s, &self.attrs);
                s.append("content: () , ..yeax_api::JsonError::default() }.error_response()");
            },
            JsonErrorKind::Request => {
                s.append("(err) => yeax_api::JsonError { ");
                append_fields(&mut s, &self.attrs);
                s.append(
                    "content: err.clone() , ..yeax_api::JsonError::default() }.error_response()",
                );
            },
            JsonErrorKind::NaiveInternal => {
                s.append(" => ");
                s.append(
                    "yeax_api::JsonError { status: actix_web::http::StatusCode::INTERNAL_SERVER_ERROR , code: \"50000 internal-error\".into() , content: () , ..yeax_api::JsonError::default() }.error_response()",
                );
            },
            JsonErrorKind::Internal => {
                s.append("(err) => ");
                s.append(
                    "yeax_api::JsonError { status: actix_web::http::StatusCode::INTERNAL_SERVER_ERROR , code: \"50000 internal-error\".into() , content: () , ..yeax_api::JsonError::default() }.error_response()",
                );
            },
        }
        proof {
            assert(s@ =~= arm_text(self@, type_ident@));
        }
        s
    }
}

/// The mathematical values of a list of classified variants.
pub open spec fn error_views(s: Seq<JsonError>) -> Seq<JsonErrorModel> {
    s.map_values(|e: JsonError| e@)
}

/// The mathematical values of a list of variant shapes.
pub open spec fn variant_views(s: Seq<ErrorVariant>) -> Seq<VariantModel> {
    s.map_values(|v: ErrorVariant| v@)
}

/// Classifying the first `i` variants of an enum: the first variant that
/// fails to classify stops the pass; diagnostics accumulate.
pub open spec fn spec_from_variants(vs: Seq<VariantModel>, i: int) -> (
    Option<Seq<JsonErrorModel>>,
    Seq<DiagModel>,
)
    decreases i,
{
    if i <= 0 {
        (Some(Seq::empty()), Seq::empty())
    } else {
        let prefix = spec_from_variants(vs, i - 1);
        match prefix.0 {
            None => prefix,
            Some(ms) => {
                let step = spec_from_variant(vs[i - 1]);
                match step.0 {
                    Some(m) => (Some(ms.push(m)), prefix.1 + step.1),
                    None => (None, prefix.1 + step.1),
                }
            },
        }
    }
}

/// Once a variant has failed to classify, the rest of the enum changes
/// nothing.
pub proof fn lemma_variants_none_extends(vs: Seq<VariantModel>, i: int, n: int)
    requires
        0 <= i <= n,
        spec_from_variants(vs, i).0 is None,
    ensures
        spec_from_variants(vs, n) == spec_from_variants(vs, i),
    decreases n - i,
{
    if i < n {
        lemma_variants_none_extends(vs, i, n - 1);
    }
}

/// An error enum's classified variants, ready to expand.
pub struct JsonErrors {
    pub ident: String,
    pub errors: Vec<JsonError>,
}

/// The rendered arm list of a classified enum: each variant's arm,
/// followed by a comma.
pub open spec fn arms_text(ms: Seq<JsonErrorModel>, type_ident: Seq<char>) -> Seq<char>
    decreases ms.len(),
{
    if ms.len() == 0 {
        Seq::empty()
    } else {
        arms_text(ms.drop_last(), type_ident) + arm_text(ms.last(), type_ident) + ","@
    }
}

impl JsonErrors {
    /// Classify every variant of an enum; the pass stops at the first
    /// variant that does not classify.
    pub fn from_variants(ident: String, variants: &Vec<ErrorVariant>, ctxt: &mut Ctxt) -> (r:
        Option<JsonErrors>)
        ensures
            ({
                let outcome = spec_from_variants(variant_views(variants@), variants@.len() as int);
                &&& match outcome.0 {
                    Some(ms) => r matches Some(je) && je.ident@ == ident@ && error_views(
                        je.errors@,
                    ) == ms,
                    None => r is None,
                }
                &&& final(ctxt).models() == old(ctxt).models() + outcome.1
            }),
    {
        let ghost vs = variant_views(variants@);
        let mut ret: Vec<JsonError> = Vec::new();
        let n = variants.len();
        let mut i: usize = 0;
        proof {
            assert(error_views(ret@) =~= Seq::<JsonErrorModel>::empty());
        }
        while i < n
            invariant
                0 <= i <= n,
                n == variants@.len(),
                vs == variant_views(variants@),
                spec_from_variants(vs, i as int) == (
                    Some(error_views(ret@)),
                    ctxt.models().skip(old(ctxt).models().len() as int),
                ),
                ctxt.models().take(old(ctxt).models().len() as int) == old(ctxt).models(),
                ctxt.models().len() >= old(ctxt).models().len(),
            decreases n - i,
        {
            let ghost ds0 = ctxt.models().skip(old(ctxt).models().len() as int);
            let v = &variants[i];
            proof {
                assert(vs[i as int] == v@);
            }
            let ghost retprev = ret@;
            match JsonError::from_variant(v, ctxt) {
                Some(e) => {
                    let ghost em = e@;
                    ret.push(e);
                    proof {
                        assert(error_views(ret@) =~= error_views(retprev).push(em));
                    }
                },
                None => {
                    proof {
                        lemma_variants_none_extends(vs, i + 1, n as int);
                        assert(ctxt.models().skip(old(ctxt).models().len() as int) =~= ds0
                            + spec_from_variant(vs[i as int]).1);
                        assert(ctxt.models() =~= old(ctxt).models() + spec_from_variants(
                            vs,
                            n as int,
                        ).1);
                    }
                    return None;
                },
            }
            proof {
                assert(ctxt.models().take(old(ctxt).models().len() as int) =~= old(ctxt).models());
                assert(ctxt.models().skip(old(ctxt).models().len() as int) =~= ds0
                    + spec_from_variant(vs[i as int]).1);
            }
            i += 1;
        }
        proof {
            assert(ctxt.models() =~= old(ctxt).models() + spec_from_variants(vs, n as int).1);
        }
        Some(JsonErrors { ident, errors: ret })
    }

    /// Append the rendered arm list to the output text.
    pub fn to_tokens(&self, tokens: &mut String)
        ensures
            final(tokens)@ == old(tokens)@ + arms_text(error_views(self.errors@), self.ident@),
    {
        let ghost t0 = tokens@;
        let ghost ms = error_views(self.errors@);
        let n = self.errors.len();
        let mut i: usize = 0;
        proof {
            assert(ms.take(0) =~= Seq::<JsonErrorModel>::empty());
            assert(tokens@ =~= t0 + arms_text(ms.take(0), self.ident@));
        }
        while i < n
            invariant
                0 <= i <= n,
                n == self.errors@.len(),
                ms == error_views(self.errors@),
                tokens@ == t0 + arms_text(ms.take(i as int), self.ident@),
            decreases n - i,
        {
            let cond = self.errors[i].expand_match_condition(self.ident.as_str());
            tokens.append(cond.as_str());
            tokens.append(",");
            proof {
                assert(ms.take(i + 1).drop_last() =~= ms.take(i as int));
                assert(ms.take(i + 1).last() == ms[i as int]);
                assert(tokens@ =~= t0 + arms_text(ms.take(i + 1), self.ident@));
            }
            i += 1;
        }
        proof {
            assert(ms.take(n as int) =~= ms);
        }
    }
}

} // verus!
