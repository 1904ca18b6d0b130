//! The "use-case error" generator: every variant of the annotated enum must
//! carry `#[use_case_error(error_code = <u32 literal>)]`, and the generator
//! derives an `error_code` method that maps each variant to its declared
//! code by exhaustive matching.  This generator has no notion of an HTTP
//! status; it serves error types one layer beneath the transport.

use vstd::prelude::*;

use crate::ast::{
    AttributeNode, DeriveDecl, SpecDeriveDecl, SpecTypeBody, SpecVariant, TypeBody, VariantDecl,
    VariantValue,
};
use crate::attr_args::{parse_attribute_args, spec_parse_args, SpecNameValue};
use crate::diag::{DeriveError, FieldKind};
use crate::text::{append_dec, append_impl_header, dec_digits, spec_impl_header, str_eq};
use crate::utils::{expr_to_u32, spec_expr_to_u32, spec_find_attr, find_attr_from};

verus! {

/// One variant with its collected metadata.
#[derive(Debug)]
pub struct EnumVariant {
    /// The variant's name.
    pub name: String,
    /// Whether the variant is argument-less.
    pub is_unit: bool,
    /// The declared `error_code` value.
    pub error_code: u32,
}

/// Mathematical image of an [`EnumVariant`].
pub ghost struct SpecEnumVariant {
    pub name: Seq<char>,
    pub is_unit: bool,
    pub error_code: u32,
}

impl View for EnumVariant {
    type V = SpecEnumVariant;

    open spec fn view(&self) -> SpecEnumVariant {
        SpecEnumVariant { name: self.name@, is_unit: self.is_unit, error_code: self.error_code }
    }
}

impl DeepView for EnumVariant {
    type V = SpecEnumVariant;

    open spec fn deep_view(&self) -> SpecEnumVariant {
        self.view()
    }
}

/// The generated output: the enum's identity and the metadata table the
/// derived `error_code` method matches over.
#[derive(Debug)]
pub struct UseCaseErrorImpl {
    /// The name of the enum.
    pub enum_name: String,
    /// The enum's declared visibility, given to the generated method.
    pub vis: String,
    /// Generic parameters as spliced after `impl`.
    pub impl_generics: String,
    /// Generic arguments as spliced after the enum name.
    pub ty_generics: String,
    /// The where clause of the enum.
    pub where_clause: String,
    /// One record per variant, in declaration order.
    pub variants: Vec<EnumVariant>,
}

/// Mathematical image of a [`UseCaseErrorImpl`].
pub ghost struct SpecUseCaseErrorImpl {
    pub enum_name: Seq<char>,
    pub vis: Seq<char>,
    pub impl_generics: Seq<char>,
    pub ty_generics: Seq<char>,
    pub where_clause: Seq<char>,
    pub variants: Seq<SpecEnumVariant>,
}

impl View for UseCaseErrorImpl {
    type V = SpecUseCaseErrorImpl;

    open spec fn view(&self) -> SpecUseCaseErrorImpl {
        SpecUseCaseErrorImpl {
            enum_name: self.enum_name@,
            vis: self.vis@,
            impl_generics: self.impl_generics@,
            ty_generics: self.ty_generics@,
            where_clause: self.where_clause@,
            variants: self.variants.deep_view(),
        }
    }
}

// ---------------------------------------------------------------------------
// Collecting the metadata
// ---------------------------------------------------------------------------

/// The first `error_code` pair wins; its value must be a `u32` literal.
pub open spec fn spec_error_code_field(pairs: Seq<SpecNameValue>, vi: int) -> Result<
    u32,
    DeriveError,
>
    decreases pairs.len(),
{
    if pairs.len() == 0 {
        Err(DeriveError::MissingField { variant: vi as usize, field: FieldKind::ErrorCode })
    } else if pairs.first().name == "error_code"@ {
        match spec_expr_to_u32(pairs.first().value) {
            Ok(v) => Ok(v),
            Err(_) => Err(
                DeriveError::InvalidFieldType { variant: vi as usize, field: FieldKind::ErrorCode },
            ),
        }
    } else {
        spec_error_code_field(pairs.drop_first(), vi)
    }
}

/// The `error_code` value of one `use_case_error` annotation.
pub open spec fn spec_error_code_of_attr(args: Seq<char>, vi: int) -> Result<u32, DeriveError> {
    match spec_parse_args(args) {
        None => Err(DeriveError::MalformedAttribute { variant: vi as usize }),
        Some(pairs) => spec_error_code_field(pairs, vi),
    }
}

/// The metadata record of one variant: its `use_case_error` annotation must
/// exist and carry a well-formed `error_code`.
pub open spec fn spec_use_case_variant(v: SpecVariant, vi: int) -> Result<
    SpecEnumVariant,
    DeriveError,
> {
    match spec_find_attr(v.attrs, "use_case_error"@, 0) {
        None => Err(DeriveError::MissingAttribute { variant: vi as usize }),
        Some(ai) => match spec_error_code_of_attr(v.attrs[ai].args, vi) {
            Ok(code) => Ok(SpecEnumVariant { name: v.name, is_unit: v.is_unit, error_code: code }),
            Err(e) => Err(e),
        },
    }
}

/// The metadata records of the variants starting at index `vi`, or the first
/// failure.
pub open spec fn spec_enum_variants(vs: Seq<SpecVariant>, vi: int) -> Result<
    Seq<SpecEnumVariant>,
    DeriveError,
>
    decreases vs.len(),
{
    if vs.len() == 0 {
        Ok(Seq::empty())
    } else {
        match spec_use_case_variant(vs.first(), vi) {
            Err(e) => Err(e),
            Ok(m) => match spec_enum_variants(vs.drop_first(), vi + 1) {
                Err(e) => Err(e),
                Ok(rest) => Ok(seq![m] + rest),
            },
        }
    }
}

/// The whole generator: the declaration must be an enum, and every variant
/// must collect successfully.
pub open spec fn spec_use_case_error_impl(d: SpecDeriveDecl) -> Result<
    SpecUseCaseErrorImpl,
    DeriveError,
> {
    match d.body {
        SpecTypeBody::Enum { variants } => match spec_enum_variants(variants, 0) {
            Err(e) => Err(e),
            Ok(ms) => Ok(
                SpecUseCaseErrorImpl {
                    enum_name: d.name,
                    vis: d.vis,
                    impl_generics: d.impl_generics,
                    ty_generics: d.ty_generics,
                    where_clause: d.where_clause,
                    variants: ms,
                },
            ),
        },
        _ => Err(DeriveError::NotAnEnum),
    }
}

/// The `use_case_error` annotation of a variant; `MissingAttribute` when the
/// variant carries none.
pub fn retrieve_use_case_error_attribute<'a>(variant: &'a VariantDecl, vi: usize) -> (r: Result<
    &'a AttributeNode,
    DeriveError,
>)
    ensures
        match r {
            Ok(a) => spec_find_attr(variant@.attrs, "use_case_error"@, 0) is Some && a@
                == variant@.attrs[spec_find_attr(variant@.attrs, "use_case_error"@, 0)->0],
            Err(e) => spec_find_attr(variant@.attrs, "use_case_error"@, 0) is None && e
                == (DeriveError::MissingAttribute { variant: vi }),
        },
{
    match find_attr_from(&variant.attrs, "use_case_error", 0) {
        Some(idx) => {
            proof {
                assert(variant.attrs.deep_view()[idx as int] == variant.attrs@[idx as int]@);
            }
            Ok(&variant.attrs[idx])
        },
        None => Err(DeriveError::MissingAttribute { variant: vi }),
    }
}

/// The `error_code` field value of a `use_case_error` annotation.
pub fn retrieve_error_code_field_value(attr: &AttributeNode, vi: usize) -> (r: Result<
    u32,
    DeriveError,
>)
    ensures
        r == spec_error_code_of_attr(attr@.args, vi as int),
{
    let pairs = match parse_attribute_args(attr.args.as_str()) {
        Ok(pairs) => pairs,
        Err(_) => {
            return Err(DeriveError::MalformedAttribute { variant: vi });
        },
    };
    let ghost pv = crate::attr_args::pairs_view(pairs@);
    proof {
        assert(pv.skip(0) =~= pv);
        assert(spec_error_code_of_attr(attr@.args, vi as int) == spec_error_code_field(
            pv,
            vi as int,
        ));
    }
    let mut i: usize = 0;
    while i < pairs.len()
        invariant
            i <= pairs.len(),
            pv == crate::attr_args::pairs_view(pairs@),
            pv.len() == pairs.len(),
            spec_error_code_of_attr(attr@.args, vi as int) == spec_error_code_field(
                pv,
                vi as int,
            ),
            spec_error_code_field(pv, vi as int) == spec_error_code_field(
                pv.skip(i as int),
                vi as int,
            ),
        decreases pairs.len() - i,
    {
        proof {
            assert(pv.skip(i as int).first() == pv[i as int]);
            assert(pv.skip(i as int).drop_first() =~= pv.skip(i as int + 1));
            assert(pv[i as int] == pairs@[i as int]@);
        }
        if str_eq(pairs[i].name.as_str(), "error_code") {
            proof {
                assert(pv.skip(i as int).len() > 0);
                assert(spec_error_code_field(pv.skip(i as int), vi as int) == (match
                    spec_expr_to_u32(pv[i as int].value) {
                    Ok(v) => Ok::<_, DeriveError>(v),
                    Err(_) => Err(
                        DeriveError::InvalidFieldType {
                            variant: vi,
                            field: FieldKind::ErrorCode,
                        },
                    ),
                }));
            }
            let res = expr_to_u32(&pairs[i].value);
            proof {
                assert(res == spec_expr_to_u32(pv[i as int].value));
                assert((vi as int) as usize == vi);
            }
            return match res {
                Ok(v) => Ok(v),
                Err(_) => Err(
                    DeriveError::InvalidFieldType { variant: vi, field: FieldKind::ErrorCode },
                ),
            };
        }
        i = i + 1;
    }
    proof {
        assert(pv.skip(pairs.len() as int) =~= Seq::<SpecNameValue>::empty());
    }
    Err(DeriveError::MissingField { variant: vi, field: FieldKind::ErrorCode })
}

/// Collects the metadata of every variant, in order, or stops at the first
/// failing variant.
pub fn retrieve_enum_variants(variants: &Vec<VariantDecl>) -> (r: Result<
    Vec<EnumVariant>,
    DeriveError,
>)
    ensures
        match r {
            Ok(ms) => spec_enum_variants(variants.deep_view(), 0) == Ok::<_, DeriveError>(ms.deep_view()),
            Err(e) => spec_enum_variants(variants.deep_view(), 0) == Err::<
                Seq<SpecEnumVariant>,
                _,
            >(e),
        },
{
    let ghost vs = variants.deep_view();
    let mut metas: Vec<EnumVariant> = Vec::new();
    proof {
        assert(vs.skip(0) =~= vs);
        match spec_enum_variants(vs, 0) {
            Ok(rest) => {
                assert(metas.deep_view() + rest =~= rest);
            },
            Err(_) => {},
        }
    }
    let mut i: usize = 0;
    while i < variants.len()
        invariant
            i <= variants.len(),
            vs == variants.deep_view(),
            vs.len() == variants.len(),
            metas.len() == i,
            spec_enum_variants(vs, 0) == (match spec_enum_variants(vs.skip(i as int), i as int) {
                Ok(rest) => Ok(metas.deep_view() + rest),
                Err(e) => Err::<Seq<SpecEnumVariant>, _>(e),
            }),
        decreases variants.len() - i,
    {
        proof {
            assert(vs.skip(i as int).first() == vs[i as int]);
            assert(vs.skip(i as int).drop_first() =~= vs.skip(i as int + 1));
            assert(vs[i as int] == variants@[i as int]@);
        }
        let variant = &variants[i];
        let attr = match retrieve_use_case_error_attribute(variant, i) {
            Ok(attr) => attr,
            Err(e) => {
                return Err(e);
            },
        };
        let code = match retrieve_error_code_field_value(attr, i) {
            Ok(code) => code,
            Err(e) => {
                return Err(e);
            },
        };
        let ghost metas_before = metas.deep_view();
        metas.push(
            EnumVariant { name: variant.name.clone(), is_unit: variant.is_unit, error_code: code },
        );
        proof {
            assert(metas.deep_view() =~= metas_before + seq![
                SpecEnumVariant {
                    name: vs[i as int].name,
                    is_unit: vs[i as int].is_unit,
                    error_code: code,
                },
            ]);
            assert(spec_use_case_variant(vs[i as int], i as int) == Ok::<_, DeriveError>(
                SpecEnumVariant {
                    name: vs[i as int].name,
                    is_unit: vs[i as int].is_unit,
                    error_code: code,
                },
            ));
        }
        i = i + 1;
        proof {
            if spec_enum_variants(vs.skip(i as int), i as int) is Ok {
                let rest = spec_enum_variants(vs.skip(i as int), i as int)->Ok_0;
                assert(metas_before + (seq![
                    SpecEnumVariant {
                        name: vs[i - 1].name,
                        is_unit: vs[i - 1].is_unit,
                        error_code: code,
                    },
                ] + rest) =~= metas.deep_view() + rest);
            }
        }
    }
    proof {
        assert(vs.skip(variants.len() as int) =~= Seq::<SpecVariant>::empty());
        assert(metas.deep_view() + Seq::<SpecEnumVariant>::empty() =~= metas.deep_view());
    }
    Ok(metas)
}

// ---------------------------------------------------------------------------
// Laws
// ---------------------------------------------------------------------------

/// The variants a declaration carries (empty for a non-enum).
pub open spec fn spec_declared_variants(d: SpecDeriveDecl) -> Seq<SpecVariant> {
    match d.body {
        SpecTypeBody::Enum { variants } => variants,
        _ => Seq::empty(),
    }
}

/// Whether the declaration is an enum.
pub open spec fn spec_is_enum(d: SpecDeriveDecl) -> bool {
    d.body is Enum
}

/// Collector soundness and completeness: a successful collection has one
/// record per variant, and the record at each index is exactly what that
/// variant's own annotation declares.
pub proof fn lemma_enum_variants_match_declarations(
    vs: Seq<SpecVariant>,
    vi: int,
    ms: Seq<SpecEnumVariant>,
)
    requires
        spec_enum_variants(vs, vi) == Ok::<_, DeriveError>(ms),
    ensures
        ms.len() == vs.len(),
        forall|i: int|
            0 <= i < vs.len() ==> spec_use_case_variant(vs[i], vi + i) == Ok::<_, DeriveError>(
                ms[i],
            ),
    decreases vs.len(),
{
    if vs.len() > 0 {
        match spec_use_case_variant(vs.first(), vi) {
            Ok(m) => {
                match spec_enum_variants(vs.drop_first(), vi + 1) {
                    Ok(rest) => {
                        lemma_enum_variants_match_declarations(vs.drop_first(), vi + 1, rest);
                        assert(ms == seq![m] + rest);
                        assert forall|i: int| 0 <= i < vs.len() implies spec_use_case_variant(
                            vs[i],
                            vi + i,
                        ) == Ok::<_, DeriveError>(ms[i]) by {
                            if i == 0 {
                                assert(vs[0] == vs.first());
                                assert(ms[0] == m);
                            } else {
                                assert(vs.drop_first()[i - 1] == vs[i]);
                                assert(rest[i - 1] == ms[i]);
                            }
                        }
                    },
                    Err(_) => {
                        assert(false);
                    },
                }
            },
            Err(_) => {
                assert(false);
            },
        }
    }
}

/// Law: for every successful generation, the generated `error_code` of
/// every variant equals exactly the literal declared in that variant's
/// annotation.
pub proof fn lemma_generated_code_is_declared(d: SpecDeriveDecl, g: SpecUseCaseErrorImpl, i: int)
    requires
        spec_use_case_error_impl(d) == Ok::<_, DeriveError>(g),
        0 <= i < g.variants.len(),
    ensures
        g.variants.len() == spec_declared_variants(d).len(),
        spec_use_case_variant(spec_declared_variants(d)[i], i) == Ok::<_, DeriveError>(
            g.variants[i],
        ),
{
    lemma_enum_variants_match_declarations(spec_declared_variants(d), 0, g.variants);
}

/// A missing annotation at any index makes the collection fail.
pub proof fn lemma_enum_variants_err_if_missing(vs: Seq<SpecVariant>, vi: int, i: int)
    requires
        0 <= i < vs.len(),
        spec_find_attr(vs[i].attrs, "use_case_error"@, 0) is None,
    ensures
        spec_enum_variants(vs, vi) is Err,
    decreases vs.len(),
{
    if i == 0 {
        assert(vs[0] == vs.first());
    } else {
        match spec_use_case_variant(vs.first(), vi) {
            Ok(_) => {
                assert(vs.drop_first()[i - 1] == vs[i]);
                lemma_enum_variants_err_if_missing(vs.drop_first(), vi + 1, i - 1);
            },
            Err(_) => {},
        }
    }
}

/// Law: a missing annotation on any single variant causes generation to
/// fail for the whole enum — there is no partial output.
pub proof fn lemma_missing_attribute_fails(d: SpecDeriveDecl, i: int)
    requires
        spec_is_enum(d),
        0 <= i < spec_declared_variants(d).len(),
        spec_find_attr(spec_declared_variants(d)[i].attrs, "use_case_error"@, 0) is None,
    ensures
        spec_use_case_error_impl(d) is Err,
{
    lemma_enum_variants_err_if_missing(spec_declared_variants(d), 0, i);
}

/// When every variant is individually valid, the collection succeeds.
pub proof fn lemma_enum_variants_ok_if_all_valid(vs: Seq<SpecVariant>, vi: int)
    requires
        forall|i: int| 0 <= i < vs.len() ==> spec_use_case_variant(#[trigger] vs[i], vi + i) is Ok,
    ensures
        spec_enum_variants(vs, vi) is Ok,
    decreases vs.len(),
{
    if vs.len() > 0 {
        assert(vs[0] == vs.first());
        assert forall|i: int| 0 <= i < vs.drop_first().len() implies spec_use_case_variant(
            #[trigger] vs.drop_first()[i],
            (vi + 1) + i,
        ) is Ok by {
            assert(vs.drop_first()[i] == vs[i + 1]);
        }
        lemma_enum_variants_ok_if_all_valid(vs.drop_first(), vi + 1);
    }
}

/// Law: validation is strictly per-variant — the collector never compares
/// codes across variants, so two variants declaring the same `error_code`
/// both generate successfully; duplicates are accepted, not rejected.
pub proof fn lemma_no_cross_variant_rejection(d: SpecDeriveDecl)
    requires
        spec_is_enum(d),
        forall|i: int|
            0 <= i < spec_declared_variants(d).len() ==> spec_use_case_variant(
                #[trigger] spec_declared_variants(d)[i],
                i,
            ) is Ok,
    ensures
        spec_use_case_error_impl(d) is Ok,
{
    lemma_enum_variants_ok_if_all_valid(spec_declared_variants(d), 0);
}

/// Law: the generated match arms never inspect a payload — two instances
/// of the same variant yield the same `error_code`, whatever data they
/// carry.
pub proof fn lemma_error_code_ignores_payload(g: UseCaseErrorImpl, a: VariantValue, b: VariantValue)
    requires
        a.index == b.index,
        a.index < g.variants.len(),
    ensures
        g.spec_error_code(a.index as int) == g.spec_error_code(b.index as int),
{
}

// ---------------------------------------------------------------------------
// The generated method, as a value and as source text
// ---------------------------------------------------------------------------

/// One arm of the generated `error_code` match: an argument-less variant is
/// matched by name, a data-carrying one by name with a payload wildcard.
pub open spec fn spec_error_code_arm(v: SpecEnumVariant) -> Seq<char> {
    "            Self::"@ + v.name + (if v.is_unit {
        Seq::<char>::empty()
    } else {
        "(..)"@
    }) + " => "@ + dec_digits(v.error_code as nat) + "u32,\n"@
}

/// All arms of the generated `error_code` match, in declaration order.
pub open spec fn spec_error_code_arms(vs: Seq<SpecEnumVariant>) -> Seq<char>
    decreases vs.len(),
{
    if vs.len() == 0 {
        Seq::empty()
    } else {
        spec_error_code_arms(vs.drop_last()) + spec_error_code_arm(vs.last())
    }
}

/// The generated `error_code` method, under the enum's own visibility.
pub open spec fn spec_error_code_method(vis: Seq<char>, vs: Seq<SpecEnumVariant>) -> Seq<char> {
    "    "@ + (if vis.len() == 0 {
        Seq::<char>::empty()
    } else {
        vis + " "@
    }) + "fn error_code(&self) -> u32 {\n        match *self {\n"@ + spec_error_code_arms(vs)
        + "        }\n    }\n"@
}

/// The whole generated output of this generator as source text: one
/// inherent impl holding the `error_code` method.
pub open spec fn spec_render_use_case_error(g: SpecUseCaseErrorImpl) -> Seq<char> {
    spec_impl_header(g.impl_generics, Seq::empty(), g.enum_name, g.ty_generics, g.where_clause)
        + spec_error_code_method(g.vis, g.variants) + "}\n"@
}

impl UseCaseErrorImpl {
    /// What the generated `error_code` method returns for an instance of
    /// the variant at `index`: its declared code, whatever the payload.
    pub open spec fn spec_error_code(&self, index: int) -> u32 {
        self@.variants[index].error_code
    }

    /// Evaluates the generated `error_code` method on an instance.
    pub fn error_code(&self, value: &VariantValue) -> (r: u32)
        requires
            value.index < self.variants.len(),
        ensures
            r == self.spec_error_code(value.index as int),
    {
        self.variants[value.index].error_code
    }

    /// Appends the generated `error_code` method.
    fn append_error_code_method(&self, out: &mut String)
        ensures
            final(out)@ == old(out)@ + spec_error_code_method(self@.vis, self@.variants),
    {
        let ghost vs = self@.variants;
        out.append("    ");
        if self.vis.as_str().unicode_len() > 0 {
            out.append(self.vis.as_str());
            out.append(" ");
        }
        out.append("fn error_code(&self) -> u32 {\n        match *self {\n");
        let ghost prefix = out@;
        let mut i: usize = 0;
        proof {
            assert(prefix + spec_error_code_arms(vs.take(0)) =~= prefix);
        }
        while i < self.variants.len()
            invariant
                i <= self.variants.len(),
                vs == self@.variants,
                vs.len() == self.variants.len(),
                out@ == prefix + spec_error_code_arms(vs.take(i as int)),
            decreases self.variants.len() - i,
        {
            let ghost before = out@;
            out.append("            Self::");
            out.append(self.variants[i].name.as_str());
            if !self.variants[i].is_unit {
                out.append("(..)");
            }
            out.append(" => ");
            append_dec(out, self.variants[i].error_code as u64);
            out.append("u32,\n");
            proof {
                assert(vs[i as int] == self.variants@[i as int]@);
                assert(out@ =~= before + spec_error_code_arm(vs[i as int]));
                assert(vs.take(i as int + 1).drop_last() =~= vs.take(i as int));
                assert(vs.take(i as int + 1).last() == vs[i as int]);
                assert(out@ =~= prefix + spec_error_code_arms(vs.take(i as int + 1)));
            }
            i = i + 1;
        }
        proof {
            assert(vs.take(vs.len() as int) =~= vs);
        }
        out.append("        }\n    }\n");
        proof {
            assert(out@ =~= old(out)@ + spec_error_code_method(self@.vis, self@.variants));
        }
    }

    /// Renders the generated output as source text.
    pub fn render(&self) -> (r: String)
        ensures
            r@ == spec_render_use_case_error(self@),
    {
        let mut out = String::new();
        append_impl_header(
            &mut out,
            self.impl_generics.as_str(),
            "",
            self.enum_name.as_str(),
            self.ty_generics.as_str(),
            self.where_clause.as_str(),
        );
        proof {
            reveal_strlit("");
            assert(""@ =~= Seq::<char>::empty());
        }
        self.append_error_code_method(&mut out);
        out.append("}\n");
        proof {
            assert(out@ =~= spec_render_use_case_error(self@));
        }
        out
    }
}

/// Runs the whole generator: collects the metadata and renders the
/// generated implementation, or reports the first diagnostic.
pub fn derive_use_case_error(input: &DeriveDecl) -> (r: Result<String, DeriveError>)
    ensures
        match r {
            Ok(text) => spec_use_case_error_impl(input@) is Ok && text@
                == spec_render_use_case_error(spec_use_case_error_impl(input@)->Ok_0),
            Err(e) => spec_use_case_error_impl(input@) == Err::<SpecUseCaseErrorImpl, _>(e),
        },
{
    match use_case_error_impl(input) {
        Ok(g) => Ok(g.render()),
        Err(e) => Err(e),
    }
}

/// Runs the whole generator on a declaration.
pub fn use_case_error_impl(input: &DeriveDecl) -> (r: Result<UseCaseErrorImpl, DeriveError>)
    ensures
        match r {
            Ok(g) => spec_use_case_error_impl(input@) == Ok::<_, DeriveError>(g@),
            Err(e) => spec_use_case_error_impl(input@) == Err::<SpecUseCaseErrorImpl, _>(e),
        },
{
    match &input.body {
        TypeBody::Enum { variants } => {
            match retrieve_enum_variants(variants) {
                Ok(metas) => Ok(
                    UseCaseErrorImpl {
                        enum_name: input.name.clone(),
                        vis: input.vis.clone(),
                        impl_generics: input.impl_generics.clone(),
                        ty_generics: input.ty_generics.clone(),
                        where_clause: input.where_clause.clone(),
                        variants: metas,
                    },
                ),
                Err(e) => Err(e),
            }
        },
        TypeBody::Struct => Err(DeriveError::NotAnEnum),
        TypeBody::Union => Err(DeriveError::NotAnEnum),
    }
}

} // verus!
