//! The "response error" generator: every variant of the annotated enum must
//! carry `#[response_error(status_code = <u16 literal>, error_code = <u32
//! literal>)]`, the status code must name a standard HTTP status, and the
//! generator derives an `error_code` method plus the web framework's
//! response-error capability — `status_code` and `error_response` — by
//! exhaustive matching over the variants.

use vstd::prelude::*;
use vstd::string::{StrSliceExecFns, StringExecFns};

use crate::ast::{
    AttributeNode, DeriveDecl, SpecDeriveDecl, SpecTypeBody, SpecVariant, TypeBody, VariantDecl,
    VariantValue,
};
use crate::attr_args::{parse_attribute_args, spec_parse_args, SpecNameValue};
use crate::body::{spec_body_json, ErrorResponseBody, SpecErrorResponseBody};
use crate::diag::{DeriveError, FieldKind};
use crate::status::{is_recognized_status, validate_status_code};
use crate::text::{
    append_dec, append_impl_header, dec_digits, spec_impl_header, str_eq,
};
use crate::utils::{
    expr_to_u16, expr_to_u32, find_attr_from, spec_expr_to_u16, spec_expr_to_u32, spec_find_attr,
};

verus! {

/// The two fields a `response_error` annotation must declare.
#[derive(Clone, Copy, Debug, PartialEq, Eq, Structural)]
pub struct ResponseErrorFields {
    /// The declared HTTP status code, already validated as recognized.
    pub status_code: u16,
    /// The declared application error code.
    pub error_code: u32,
}

/// One variant with its collected metadata.
#[derive(Debug)]
pub struct VariantInfo {
    /// The variant's name.
    pub name: String,
    /// Whether the variant is argument-less.
    pub is_unit: bool,
    /// The declared HTTP status code.
    pub status_code: u16,
    /// The declared application error code.
    pub error_code: u32,
}

/// Mathematical image of a [`VariantInfo`].
pub ghost struct SpecVariantInfo {
    pub name: Seq<char>,
    pub is_unit: bool,
    pub status_code: u16,
    pub error_code: u32,
}

impl View for VariantInfo {
    type V = SpecVariantInfo;

    open spec fn view(&self) -> SpecVariantInfo {
        SpecVariantInfo {
            name: self.name@,
            is_unit: self.is_unit,
            status_code: self.status_code,
            error_code: self.error_code,
        }
    }
}

impl DeepView for VariantInfo {
    type V = SpecVariantInfo;

    open spec fn deep_view(&self) -> SpecVariantInfo {
        self.view()
    }
}

/// The generated output: the enum's identity and the metadata table the
/// derived methods match over.
#[derive(Debug)]
pub struct ResponseErrorImpl {
    /// The name of the enum.
    pub enum_name: String,
    /// The enum's declared visibility, given to the `error_code` method.
    pub vis: String,
    /// Generic parameters as spliced after `impl`.
    pub impl_generics: String,
    /// Generic arguments as spliced after the enum name.
    pub ty_generics: String,
    /// The where clause of the enum.
    pub where_clause: String,
    /// One record per variant, in declaration order.
    pub variants: Vec<VariantInfo>,
}

/// Mathematical image of a [`ResponseErrorImpl`].
pub ghost struct SpecResponseErrorImpl {
    pub enum_name: Seq<char>,
    pub vis: Seq<char>,
    pub impl_generics: Seq<char>,
    pub ty_generics: Seq<char>,
    pub where_clause: Seq<char>,
    pub variants: Seq<SpecVariantInfo>,
}

impl View for ResponseErrorImpl {
    type V = SpecResponseErrorImpl;

    open spec fn view(&self) -> SpecResponseErrorImpl {
        SpecResponseErrorImpl {
            enum_name: self.enum_name@,
            vis: self.vis@,
            impl_generics: self.impl_generics@,
            ty_generics: self.ty_generics@,
            where_clause: self.where_clause@,
            variants: self.variants.deep_view(),
        }
    }
}

// ---------------------------------------------------------------------------
// Collecting the metadata
// ---------------------------------------------------------------------------

/// Applies one `name = value` pair to the fields collected so far: each
/// `status_code` occurrence must be a recognized `u16` status, each
/// `error_code` occurrence a `u32`; a later occurrence overrides an earlier
/// one, and any other field name is ignored.
pub open spec fn spec_apply_field(
    sc: Option<u16>,
    ec: Option<u32>,
    p: SpecNameValue,
    vi: int,
) -> Result<(Option<u16>, Option<u32>), DeriveError> {
    if p.name == "status_code"@ {
        match spec_expr_to_u16(p.value) {
            Err(_) => Err(
                DeriveError::InvalidFieldType {
                    variant: vi as usize,
                    field: FieldKind::StatusCode,
                },
            ),
            Ok(v) => if !is_recognized_status(v) {
                Err(DeriveError::UnknownStatusCode { variant: vi as usize })
            } else {
                Ok((Some(v), ec))
            },
        }
    } else if p.name == "error_code"@ {
        match spec_expr_to_u32(p.value) {
            Err(_) => Err(
                DeriveError::InvalidFieldType { variant: vi as usize, field: FieldKind::ErrorCode },
            ),
            Ok(v) => Ok((sc, Some(v))),
        }
    } else {
        Ok((sc, ec))
    }
}

/// Folds the pairs in order, stopping at the first failing pair.
pub open spec fn spec_scan_fields(pairs: Seq<SpecNameValue>, vi: int) -> Result<
    (Option<u16>, Option<u32>),
    DeriveError,
>
    decreases pairs.len(),
{
    if pairs.len() == 0 {
        Ok((None, None))
    } else {
        match spec_scan_fields(pairs.drop_last(), vi) {
            Err(e) => Err(e),
            Ok((sc, ec)) => spec_apply_field(sc, ec, pairs.last(), vi),
        }
    }
}

/// Once the scan of a prefix fails, the scan of the whole list fails the
/// same way.
pub proof fn lemma_scan_fields_err_extends(pairs: Seq<SpecNameValue>, k: int, vi: int)
    requires
        0 <= k <= pairs.len(),
        spec_scan_fields(pairs.take(k), vi) is Err,
    ensures
        spec_scan_fields(pairs, vi) == spec_scan_fields(pairs.take(k), vi),
    decreases pairs.len() - k,
{
    if k < pairs.len() {
        assert(pairs.take(k + 1).drop_last() =~= pairs.take(k));
        lemma_scan_fields_err_extends(pairs, k + 1, vi);
    } else {
        assert(pairs.take(k) =~= pairs);
    }
}

/// The two field values of one `response_error` annotation.
pub open spec fn spec_response_error_fields(args: Seq<char>, vi: int) -> Result<
    ResponseErrorFields,
    DeriveError,
> {
    match spec_parse_args(args) {
        None => Err(DeriveError::MalformedAttribute { variant: vi as usize }),
        Some(pairs) => match spec_scan_fields(pairs, vi) {
            Err(e) => Err(e),
            Ok((sc_opt, ec_opt)) => match sc_opt {
                None => Err(
                    DeriveError::MissingField { variant: vi as usize, field: FieldKind::StatusCode },
                ),
                Some(sc) => match ec_opt {
                    None => Err(
                        DeriveError::MissingField {
                            variant: vi as usize,
                            field: FieldKind::ErrorCode,
                        },
                    ),
                    Some(ec) => Ok(ResponseErrorFields { status_code: sc, error_code: ec }),
                },
            },
        },
    }
}

/// The metadata record of one variant: its `response_error` annotation must
/// exist and carry well-formed `status_code` and `error_code` fields.
pub open spec fn spec_response_error_variant(v: SpecVariant, vi: int) -> Result<
    SpecVariantInfo,
    DeriveError,
> {
    match spec_find_attr(v.attrs, "response_error"@, 0) {
        None => Err(DeriveError::MissingAttribute { variant: vi as usize }),
        Some(ai) => match spec_response_error_fields(v.attrs[ai].args, vi) {
            Ok(fields) => Ok(
                SpecVariantInfo {
                    name: v.name,
                    is_unit: v.is_unit,
                    status_code: fields.status_code,
                    error_code: fields.error_code,
                },
            ),
            Err(e) => Err(e),
        },
    }
}

/// The metadata records of the variants starting at index `vi`, or the
/// first failure.
pub open spec fn spec_variant_infos(vs: Seq<SpecVariant>, vi: int) -> Result<
    Seq<SpecVariantInfo>,
    DeriveError,
>
    decreases vs.len(),
{
    if vs.len() == 0 {
        Ok(Seq::empty())
    } else {
        match spec_response_error_variant(vs.first(), vi) {
            Err(e) => Err(e),
            Ok(m) => match spec_variant_infos(vs.drop_first(), vi + 1) {
                Err(e) => Err(e),
                Ok(rest) => Ok(seq![m] + rest),
            },
        }
    }
}

/// The whole generator: the declaration must be an enum, and every variant
/// must collect successfully.
pub open spec fn spec_response_error_impl(d: SpecDeriveDecl) -> Result<
    SpecResponseErrorImpl,
    DeriveError,
> {
    match d.body {
        SpecTypeBody::Enum { variants } => match spec_variant_infos(variants, 0) {
            Err(e) => Err(e),
            Ok(ms) => Ok(
                SpecResponseErrorImpl {
                    enum_name: d.name,
                    vis: d.vis,
                    impl_generics: d.impl_generics,
                    ty_generics: d.ty_generics,
                    where_clause: d.where_clause,
                    variants: ms,
                },
            ),
        },
        _ => Err(DeriveError::NotAnEnum),
    }
}

// ---------------------------------------------------------------------------
// The generated methods, as values and as source text
// ---------------------------------------------------------------------------

/// One arm of the generated `error_code` match.
pub open spec fn spec_error_code_arm(v: SpecVariantInfo) -> Seq<char> {
    "            Self::"@ + v.name + (if v.is_unit {
        Seq::<char>::empty()
    } else {
        "(..)"@
    }) + " => "@ + dec_digits(v.error_code as nat) + "u32,\n"@
}

/// All arms of the generated `error_code` match, in declaration order.
pub open spec fn spec_error_code_arms(vs: Seq<SpecVariantInfo>) -> Seq<char>
    decreases vs.len(),
{
    if vs.len() == 0 {
        Seq::empty()
    } else {
        spec_error_code_arms(vs.drop_last()) + spec_error_code_arm(vs.last())
    }
}

/// The generated `error_code` method, under the enum's own visibility.
pub open spec fn spec_error_code_method(vis: Seq<char>, vs: Seq<SpecVariantInfo>) -> Seq<char> {
    "    "@ + (if vis.len() == 0 {
        Seq::<char>::empty()
    } else {
        vis + " "@
    }) + "fn error_code(&self) -> u32 {\n        match *self {\n"@ + spec_error_code_arms(vs)
        + "        }\n    }\n"@
}

/// One arm of the generated `status_code` match: the declared code is
/// already validated, so the generated code may unwrap the conversion.
pub open spec fn spec_status_code_arm(v: SpecVariantInfo) -> Seq<char> {
    "            Self::"@ + v.name + (if v.is_unit {
        Seq::<char>::empty()
    } else {
        "(..)"@
    }) + " => actix_web::http::StatusCode::from_u16("@ + dec_digits(v.status_code as nat)
        + "u16).unwrap(),\n"@
}

/// All arms of the generated `status_code` match, in declaration order.
pub open spec fn spec_status_code_arms(vs: Seq<SpecVariantInfo>) -> Seq<char>
    decreases vs.len(),
{
    if vs.len() == 0 {
        Seq::empty()
    } else {
        spec_status_code_arms(vs.drop_last()) + spec_status_code_arm(vs.last())
    }
}

/// The generated `status_code` method of the response-error capability.
pub open spec fn spec_status_code_method(vs: Seq<SpecVariantInfo>) -> Seq<char> {
    "    fn status_code(&self) -> actix_web::http::StatusCode {\n        match *self {\n"@
        + spec_status_code_arms(vs) + "        }\n    }\n"@
}

/// The generated `error_response` method: the same body for every enum —
/// it builds the uniform JSON error body from the two other generated
/// methods and the instance's formatted message.
pub open spec fn spec_error_response_method() -> Seq<char> {
    "    fn error_response(&self) -> actix_web::HttpResponse<actix_web::body::BoxBody> {\n        let status_code = self.status_code();\n        let error_code = self.error_code();\n        let message = format!(\"{}\", self);\n        let body = ErrorResponseBody::new(status_code.as_u16(), Some(error_code), message);\n\n        HttpResponseBuilder::new(status_code)\n            .insert_header(header::ContentType(mime::APPLICATION_JSON))\n            .json(body)\n    }\n"@
}

/// The whole generated output of this generator as source text: an
/// inherent impl holding `error_code`, and an impl of the response-error
/// capability holding `status_code` and `error_response`.
pub open spec fn spec_render_response_error(g: SpecResponseErrorImpl) -> Seq<char> {
    spec_impl_header(g.impl_generics, Seq::empty(), g.enum_name, g.ty_generics, g.where_clause)
        + spec_error_code_method(g.vis, g.variants) + "}\n\n"@ + spec_impl_header(
        g.impl_generics,
        "actix_web::error::ResponseError for "@,
        g.enum_name,
        g.ty_generics,
        g.where_clause,
    ) + spec_status_code_method(g.variants) + spec_error_response_method() + "}\n"@
}

/// Renders the generated `error_code` method.
pub fn impl_error_code_method(vis: &String, variant_infos: &Vec<VariantInfo>) -> (r: String)
    ensures
        r@ == spec_error_code_method(vis@, variant_infos.deep_view()),
{
    let ghost vs = variant_infos.deep_view();
    let mut out = String::new();
    out.append("    ");
    if vis.as_str().unicode_len() > 0 {
        out.append(vis.as_str());
        out.append(" ");
    }
    out.append("fn error_code(&self) -> u32 {\n        match *self {\n");
    let ghost prefix = out@;
    let mut i: usize = 0;
    proof {
        assert(prefix + spec_error_code_arms(vs.take(0)) =~= prefix);
    }
    while i < variant_infos.len()
        invariant
            i <= variant_infos.len(),
            vs == variant_infos.deep_view(),
            vs.len() == variant_infos.len(),
            out@ == prefix + spec_error_code_arms(vs.take(i as int)),
        decreases variant_infos.len() - i,
    {
        let ghost before = out@;
        out.append("            Self::");
        out.append(variant_infos[i].name.as_str());
        if !variant_infos[i].is_unit {
            out.append("(..)");
        }
        out.append(" => ");
        append_dec(&mut out, variant_infos[i].error_code as u64);
        out.append("u32,\n");
        proof {
            assert(vs[i as int] == variant_infos@[i as int]@);
            assert(out@ =~= before + spec_error_code_arm(vs[i as int]));
            assert(vs.take(i as int + 1).drop_last() =~= vs.take(i as int));
            assert(vs.take(i as int + 1).last() == vs[i as int]);
            assert(out@ =~= prefix + spec_error_code_arms(vs.take(i as int + 1)));
        }
        i = i + 1;
    }
    proof {
        assert(vs.take(vs.len() as int) =~= vs);
    }
    out.append("        }\n    }\n");
    proof {
        assert(out@ =~= spec_error_code_method(vis@, vs));
    }
    out
}

/// Renders the generated `status_code` method.
pub fn impl_status_code_method(variant_infos: &Vec<VariantInfo>) -> (r: String)
    ensures
        r@ == spec_status_code_method(variant_infos.deep_view()),
{
    let ghost vs = variant_infos.deep_view();
    let mut out = String::new();
    out.append("    fn status_code(&self) -> actix_web::http::StatusCode {\n        match *self {\n");
    let ghost prefix = out@;
    let mut i: usize = 0;
    proof {
        assert(prefix + spec_status_code_arms(vs.take(0)) =~= prefix);
    }
    while i < variant_infos.len()
        invariant
            i <= variant_infos.len(),
            vs == variant_infos.deep_view(),
            vs.len() == variant_infos.len(),
            out@ == prefix + spec_status_code_arms(vs.take(i as int)),
        decreases variant_infos.len() - i,
    {
        let ghost before = out@;
        out.append("            Self::");
        out.append(variant_infos[i].name.as_str());
        if !variant_infos[i].is_unit {
            out.append("(..)");
        }
        out.append(" => actix_web::http::StatusCode::from_u16(");
        append_dec(&mut out, variant_infos[i].status_code as u64);
        out.append("u16).unwrap(),\n");
        proof {
            assert(vs[i as int] == variant_infos@[i as int]@);
            assert(out@ =~= before + spec_status_code_arm(vs[i as int]));
            assert(vs.take(i as int + 1).drop_last() =~= vs.take(i as int));
            assert(vs.take(i as int + 1).last() == vs[i as int]);
            assert(out@ =~= prefix + spec_status_code_arms(vs.take(i as int + 1)));
        }
        i = i + 1;
    }
    proof {
        assert(vs.take(vs.len() as int) =~= vs);
    }
    out.append("        }\n    }\n");
    proof {
        assert(out@ =~= spec_status_code_method(vs));
    }
    out
}

/// Renders the generated `error_response` method, the same for every enum.
pub fn impl_error_response_method() -> (r: String)
    ensures
        r@ == spec_error_response_method(),
{
    String::from_str(
        "    fn error_response(&self) -> actix_web::HttpResponse<actix_web::body::BoxBody> {\n        let status_code = self.status_code();\n        let error_code = self.error_code();\n        let message = format!(\"{}\", self);\n        let body = ErrorResponseBody::new(status_code.as_u16(), Some(error_code), message);\n\n        HttpResponseBuilder::new(status_code)\n            .insert_header(header::ContentType(mime::APPLICATION_JSON))\n            .json(body)\n    }\n",
    )
}

impl ResponseErrorImpl {
    /// What the generated `error_code` method returns for an instance of
    /// the variant at `index`: its declared code, whatever the payload.
    pub open spec fn spec_error_code(&self, index: int) -> u32 {
        self@.variants[index].error_code
    }

    /// What the generated `status_code` method returns for an instance of
    /// the variant at `index`: its declared status, whatever the payload.
    pub open spec fn spec_status_code(&self, index: int) -> u16 {
        self@.variants[index].status_code
    }

    /// Evaluates the generated `error_code` method on an instance.
    pub fn error_code(&self, value: &VariantValue) -> (r: u32)
        requires
            value.index < self.variants.len(),
        ensures
            r == self.spec_error_code(value.index as int),
    {
        self.variants[value.index].error_code
    }

    /// Evaluates the generated `status_code` method on an instance.
    pub fn status_code(&self, value: &VariantValue) -> (r: u16)
        requires
            value.index < self.variants.len(),
        ensures
            r == self.spec_status_code(value.index as int),
    {
        self.variants[value.index].status_code
    }

    /// The body the generated `error_response` method builds: the
    /// variant's status code, its error code, and the instance's formatted
    /// message.
    pub fn error_response_body(&self, value: &VariantValue, message: String) -> (r:
        ErrorResponseBody)
        requires
            value.index < self.variants.len(),
        ensures
            r@ == (SpecErrorResponseBody {
                status_code: self.spec_status_code(value.index as int),
                error_code: Some(self.spec_error_code(value.index as int)),
                message: message@,
            }),
    {
        let status_code = self.status_code(value);
        let error_code = self.error_code(value);
        ErrorResponseBody::new(status_code, Some(error_code), message)
    }

    /// The serialized JSON body of the generated `error_response` method.
    pub fn error_response_json(&self, value: &VariantValue, message: String) -> (r: String)
        requires
            value.index < self.variants.len(),
        ensures
            r@ == spec_body_json(
                SpecErrorResponseBody {
                    status_code: self.spec_status_code(value.index as int),
                    error_code: Some(self.spec_error_code(value.index as int)),
                    message: message@,
                },
            ),
    {
        let body = self.error_response_body(value, message);
        body.to_json()
    }

    /// Renders the generated output as source text.
    pub fn render(&self) -> (r: String)
        ensures
            r@ == spec_render_response_error(self@),
    {
        let mut out = String::new();
        append_impl_header(
            &mut out,
            self.impl_generics.as_str(),
            "",
            self.enum_name.as_str(),
            self.ty_generics.as_str(),
            self.where_clause.as_str(),
        );
        proof {
            reveal_strlit("");
            assert(""@ =~= Seq::<char>::empty());
        }
        let error_code_method = impl_error_code_method(&self.vis, &self.variants);
        out.append(error_code_method.as_str());
        out.append("}\n\n");
        append_impl_header(
            &mut out,
            self.impl_generics.as_str(),
            "actix_web::error::ResponseError for ",
            self.enum_name.as_str(),
            self.ty_generics.as_str(),
            self.where_clause.as_str(),
        );
        let status_code_method = impl_status_code_method(&self.variants);
        out.append(status_code_method.as_str());
        let error_response_method = impl_error_response_method();
        out.append(error_response_method.as_str());
        out.append("}\n");
        proof {
            assert(out@ =~= spec_render_response_error(self@));
        }
        out
    }
}

/// Runs the whole generator: collects and validates the metadata and
/// renders the generated implementations, or reports the first diagnostic.
pub fn derive_response_error(input: &DeriveDecl) -> (r: Result<String, DeriveError>)
    ensures
        match r {
            Ok(text) => spec_response_error_impl(input@) is Ok && text@
                == spec_render_response_error(spec_response_error_impl(input@)->Ok_0),
            Err(e) => spec_response_error_impl(input@) == Err::<SpecResponseErrorImpl, _>(e),
        },
{
    match response_error_impl(input) {
        Ok(g) => Ok(g.render()),
        Err(e) => Err(e),
    }
}

// ---------------------------------------------------------------------------
// Laws
// ---------------------------------------------------------------------------

/// The variants a declaration carries (empty for a non-enum).
pub open spec fn spec_declared_variants(d: SpecDeriveDecl) -> Seq<SpecVariant> {
    match d.body {
        SpecTypeBody::Enum { variants } => variants,
        _ => Seq::empty(),
    }
}

/// Whether the declaration is an enum.
pub open spec fn spec_is_enum(d: SpecDeriveDecl) -> bool {
    d.body is Enum
}

/// A `status_code` the scan has collected is always recognized.
pub proof fn lemma_scan_fields_status_recognized(pairs: Seq<SpecNameValue>, vi: int)
    ensures
        match spec_scan_fields(pairs, vi) {
            Ok((sc, ec)) => sc is Some ==> is_recognized_status(sc->0),
            Err(_) => true,
        },
    decreases pairs.len(),
{
    if pairs.len() > 0 {
        lemma_scan_fields_status_recognized(pairs.drop_last(), vi);
    }
}

/// Collector soundness and completeness: a successful collection has one
/// record per variant, and the record at each index is exactly what that
/// variant's own annotation declares.
pub proof fn lemma_variant_infos_match_declarations(
    vs: Seq<SpecVariant>,
    vi: int,
    ms: Seq<SpecVariantInfo>,
)
    requires
        spec_variant_infos(vs, vi) == Ok::<_, DeriveError>(ms),
    ensures
        ms.len() == vs.len(),
        forall|i: int|
            0 <= i < vs.len() ==> spec_response_error_variant(vs[i], vi + i) == Ok::<
                _,
                DeriveError,
            >(ms[i]),
    decreases vs.len(),
{
    if vs.len() > 0 {
        match spec_response_error_variant(vs.first(), vi) {
            Ok(m) => {
                match spec_variant_infos(vs.drop_first(), vi + 1) {
                    Ok(rest) => {
                        lemma_variant_infos_match_declarations(vs.drop_first(), vi + 1, rest);
                        assert(ms == seq![m] + rest);
                        assert forall|i: int| 0 <= i < vs.len() implies spec_response_error_variant(
                            vs[i],
                            vi + i,
                        ) == Ok::<_, DeriveError>(ms[i]) by {
                            if i == 0 {
                                assert(vs[0] == vs.first());
                                assert(ms[0] == m);
                            } else {
                                assert(vs.drop_first()[i - 1] == vs[i]);
                                assert(rest[i - 1] == ms[i]);
                            }
                        }
                    },
                    Err(_) => {
                        assert(false);
                    },
                }
            },
            Err(_) => {
                assert(false);
            },
        }
    }
}

/// Law: for every successful generation, the generated `error_code` and
/// `status_code` of every variant equal exactly the literals declared in
/// that variant's annotation, and the status is always a recognized HTTP
/// status — the membership was enforced at generation time, so the
/// generated method can never ship an unrepresentable code.
pub proof fn lemma_generated_codes_are_declared(
    d: SpecDeriveDecl,
    g: SpecResponseErrorImpl,
    i: int,
)
    requires
        spec_response_error_impl(d) == Ok::<_, DeriveError>(g),
        0 <= i < g.variants.len(),
    ensures
        g.variants.len() == spec_declared_variants(d).len(),
        spec_response_error_variant(spec_declared_variants(d)[i], i) == Ok::<_, DeriveError>(
            g.variants[i],
        ),
        is_recognized_status(g.variants[i].status_code),
{
    let vs = spec_declared_variants(d);
    lemma_variant_infos_match_declarations(vs, 0, g.variants);
    match spec_find_attr(vs[i].attrs, "response_error"@, 0) {
        Some(ai) => {
            match spec_parse_args(vs[i].attrs[ai].args) {
                Some(pairs) => {
                    lemma_scan_fields_status_recognized(pairs, i);
                },
                None => {
                    assert(false);
                },
            }
        },
        None => {
            assert(false);
        },
    }
}

/// A missing annotation at any index makes the collection fail.
pub proof fn lemma_variant_infos_err_if_missing(vs: Seq<SpecVariant>, vi: int, i: int)
    requires
        0 <= i < vs.len(),
        spec_find_attr(vs[i].attrs, "response_error"@, 0) is None,
    ensures
        spec_variant_infos(vs, vi) is Err,
    decreases vs.len(),
{
    if i == 0 {
        assert(vs[0] == vs.first());
    } else {
        match spec_response_error_variant(vs.first(), vi) {
            Ok(_) => {
                assert(vs.drop_first()[i - 1] == vs[i]);
                lemma_variant_infos_err_if_missing(vs.drop_first(), vi + 1, i - 1);
            },
            Err(_) => {},
        }
    }
}

/// Law: a missing annotation on any single variant causes generation to
/// fail for the whole enum — there is no partial output.
pub proof fn lemma_missing_attribute_fails(d: SpecDeriveDecl, i: int)
    requires
        spec_is_enum(d),
        0 <= i < spec_declared_variants(d).len(),
        spec_find_attr(spec_declared_variants(d)[i].attrs, "response_error"@, 0) is None,
    ensures
        spec_response_error_impl(d) is Err,
{
    lemma_variant_infos_err_if_missing(spec_declared_variants(d), 0, i);
}

/// When every variant is individually valid, the collection succeeds.
pub proof fn lemma_variant_infos_ok_if_all_valid(vs: Seq<SpecVariant>, vi: int)
    requires
        forall|i: int| 0 <= i < vs.len() ==> spec_response_error_variant(#[trigger] vs[i], vi + i)
            is Ok,
    ensures
        spec_variant_infos(vs, vi) is Ok,
    decreases vs.len(),
{
    if vs.len() > 0 {
        assert(vs[0] == vs.first());
        assert forall|i: int|
            0 <= i < vs.drop_first().len() implies spec_response_error_variant(
            #[trigger] vs.drop_first()[i],
            (vi + 1) + i,
        ) is Ok by {
            assert(vs.drop_first()[i] == vs[i + 1]);
        }
        lemma_variant_infos_ok_if_all_valid(vs.drop_first(), vi + 1);
    }
}

/// Law: validation is strictly per-variant — the collector never compares
/// codes across variants, so two variants declaring the same `error_code`
/// both generate successfully; duplicates are accepted, not rejected.
pub proof fn lemma_no_cross_variant_rejection(d: SpecDeriveDecl)
    requires
        spec_is_enum(d),
        forall|i: int|
            0 <= i < spec_declared_variants(d).len() ==> spec_response_error_variant(
                #[trigger] spec_declared_variants(d)[i],
                i,
            ) is Ok,
    ensures
        spec_response_error_impl(d) is Ok,
{
    lemma_variant_infos_ok_if_all_valid(spec_declared_variants(d), 0);
}

/// Law: the generated match arms never inspect a payload — two instances
/// of the same variant yield the same `error_code` and `status_code`,
/// whatever data they carry.
pub proof fn lemma_codes_ignore_payload(g: ResponseErrorImpl, a: VariantValue, b: VariantValue)
    requires
        a.index == b.index,
        a.index < g.variants.len(),
    ensures
        g.spec_error_code(a.index as int) == g.spec_error_code(b.index as int),
        g.spec_status_code(a.index as int) == g.spec_status_code(b.index as int),
{
}

/// Reads the `status_code` and `error_code` fields of a `response_error`
/// annotation, validating each occurrence in order.
pub fn retrieve_response_error_fields(attr: &AttributeNode, vi: usize) -> (r: Result<
    ResponseErrorFields,
    DeriveError,
>)
    ensures
        r == spec_response_error_fields(attr@.args, vi as int),
{
    let pairs = match parse_attribute_args(attr.args.as_str()) {
        Ok(pairs) => pairs,
        Err(_) => {
            return Err(DeriveError::MalformedAttribute { variant: vi });
        },
    };
    let ghost pv = crate::attr_args::pairs_view(pairs@);
    let mut status_code: Option<u16> = None;
    let mut error_code: Option<u32> = None;
    proof {
        assert(pv.take(0) =~= Seq::<SpecNameValue>::empty());
    }
    let mut i: usize = 0;
    while i < pairs.len()
        invariant
            i <= pairs.len(),
            pv == crate::attr_args::pairs_view(pairs@),
            pv.len() == pairs.len(),
            spec_parse_args(attr@.args) == Some(pv),
            spec_scan_fields(pv.take(i as int), vi as int) == Ok::<_, DeriveError>(
                (status_code, error_code),
            ),
        decreases pairs.len() - i,
    {
        proof {
            assert(pv[i as int] == pairs@[i as int]@);
            assert(pv.take(i as int + 1).drop_last() =~= pv.take(i as int));
            assert(pv.take(i as int + 1).last() == pv[i as int]);
        }
        let ghost sc_before = status_code;
        let ghost ec_before = error_code;
        if str_eq(pairs[i].name.as_str(), "status_code") {
            let code = match expr_to_u16(&pairs[i].value) {
                Ok(code) => code,
                Err(_) => {
                    proof {
                        lemma_scan_fields_err_extends(pv, i as int + 1, vi as int);
                    }
                    return Err(
                        DeriveError::InvalidFieldType { variant: vi, field: FieldKind::StatusCode },
                    );
                },
            };
            if !validate_status_code(code) {
                proof {
                    lemma_scan_fields_err_extends(pv, i as int + 1, vi as int);
                }
                return Err(DeriveError::UnknownStatusCode { variant: vi });
            }
            status_code = Some(code);
        } else if str_eq(pairs[i].name.as_str(), "error_code") {
            let code = match expr_to_u32(&pairs[i].value) {
                Ok(code) => code,
                Err(_) => {
                    proof {
                        lemma_scan_fields_err_extends(pv, i as int + 1, vi as int);
                    }
                    return Err(
                        DeriveError::InvalidFieldType { variant: vi, field: FieldKind::ErrorCode },
                    );
                },
            };
            error_code = Some(code);
        }
        proof {
            assert(spec_apply_field(sc_before, ec_before, pv[i as int], vi as int)
                == Ok::<_, DeriveError>((status_code, error_code)));
        }
        i = i + 1;
    }
    proof {
        assert(pv.take(pairs.len() as int) =~= pv);
    }
    let sc = match status_code {
        Some(sc) => sc,
        None => {
            return Err(DeriveError::MissingField { variant: vi, field: FieldKind::StatusCode });
        },
    };
    let ec = match error_code {
        Some(ec) => ec,
        None => {
            return Err(DeriveError::MissingField { variant: vi, field: FieldKind::ErrorCode });
        },
    };
    Ok(ResponseErrorFields { status_code: sc, error_code: ec })
}

/// Runs the whole generator on a declaration: requires an enum, and
/// collects every variant's metadata in order, stopping at the first
/// problem.
pub fn response_error_impl(input: &DeriveDecl) -> (r: Result<ResponseErrorImpl, DeriveError>)
    ensures
        match r {
            Ok(g) => spec_response_error_impl(input@) == Ok::<_, DeriveError>(g@),
            Err(e) => spec_response_error_impl(input@) == Err::<SpecResponseErrorImpl, _>(e),
        },
{
    let variants = match &input.body {
        TypeBody::Enum { variants } => variants,
        TypeBody::Struct => {
            return Err(DeriveError::NotAnEnum);
        },
        TypeBody::Union => {
            return Err(DeriveError::NotAnEnum);
        },
    };
    let ghost vs = variants.deep_view();
    let mut infos: Vec<VariantInfo> = Vec::new();
    proof {
        assert(vs.skip(0) =~= vs);
        match spec_variant_infos(vs, 0) {
            Ok(rest) => {
                assert(infos.deep_view() + rest =~= rest);
            },
            Err(_) => {},
        }
    }
    let mut i: usize = 0;
    while i < variants.len()
        invariant
            i <= variants.len(),
            vs == variants.deep_view(),
            vs.len() == variants.len(),
            input@.body == (SpecTypeBody::Enum { variants: vs }),
            infos.len() == i,
            spec_variant_infos(vs, 0) == (match spec_variant_infos(vs.skip(i as int), i as int) {
                Ok(rest) => Ok::<_, DeriveError>(infos.deep_view() + rest),
                Err(e) => Err::<Seq<SpecVariantInfo>, _>(e),
            }),
        decreases variants.len() - i,
    {
        proof {
            assert(vs.skip(i as int).first() == vs[i as int]);
            assert(vs.skip(i as int).drop_first() =~= vs.skip(i as int + 1));
            assert(vs[i as int] == variants@[i as int]@);
        }
        let variant = &variants[i];
        let attr_idx = match find_attr_from(&variant.attrs, "response_error", 0) {
            Some(idx) => idx,
            None => {
                return Err(DeriveError::MissingAttribute { variant: i });
            },
        };
        proof {
            assert(variant.attrs.deep_view()[attr_idx as int] == variant.attrs@[attr_idx as int]@);
        }
        let fields = match retrieve_response_error_fields(&variant.attrs[attr_idx], i) {
            Ok(fields) => fields,
            Err(e) => {
                return Err(e);
            },
        };
        let ghost infos_before = infos.deep_view();
        infos.push(
            VariantInfo {
                name: variant.name.clone(),
                is_unit: variant.is_unit,
                status_code: fields.status_code,
                error_code: fields.error_code,
            },
        );
        proof {
            let m = SpecVariantInfo {
                name: vs[i as int].name,
                is_unit: vs[i as int].is_unit,
                status_code: fields.status_code,
                error_code: fields.error_code,
            };
            assert(infos.deep_view() =~= infos_before + seq![m]);
            assert(spec_response_error_variant(vs[i as int], i as int) == Ok::<_, DeriveError>(m));
        }
        i = i + 1;
        proof {
            if spec_variant_infos(vs.skip(i as int), i as int) is Ok {
                let rest = spec_variant_infos(vs.skip(i as int), i as int)->Ok_0;
                assert(infos_before + (seq![
                    SpecVariantInfo {
                        name: vs[i - 1].name,
                        is_unit: vs[i - 1].is_unit,
                        status_code: fields.status_code,
                        error_code: fields.error_code,
                    },
                ] + rest) =~= infos.deep_view() + rest);
            }
        }
    }
    proof {
        assert(vs.skip(variants.len() as int) =~= Seq::<SpecVariant>::empty());
        assert(infos.deep_view() + Seq::<SpecVariantInfo>::empty() =~= infos.deep_view());
    }
    Ok(
        ResponseErrorImpl {
            enum_name: input.name.clone(),
            vis: input.vis.clone(),
            impl_generics: input.impl_generics.clone(),
            ty_generics: input.ty_generics.clone(),
            where_clause: input.where_clause.clone(),
            variants: infos,
        },
    )
}

} // verus!
