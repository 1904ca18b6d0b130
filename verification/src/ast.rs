//! The model of the declaration a generator processes: an enum (or another
//! type shape, which is rejected), its variants, and the annotations attached
//! to each variant.  Identifiers, visibility and generics are carried as
//! plain source text; an annotation's arguments are the raw text between its
//! parentheses, parsed by the attribute grammar.

use vstd::prelude::*;

verus! {

/// One annotation attached to a variant, e.g.
/// `#[response_error(status_code = 404, error_code = 1)]`:
/// `path` is `response_error`, `args` is the text inside the parentheses.
pub struct AttributeNode {
    /// The attribute's path.
    pub path: String,
    /// The raw argument text between the parentheses.
    pub args: String,
}

/// Mathematical image of an [`AttributeNode`].
pub ghost struct SpecAttribute {
    pub path: Seq<char>,
    pub args: Seq<char>,
}

impl View for AttributeNode {
    type V = SpecAttribute;

    open spec fn view(&self) -> SpecAttribute {
        SpecAttribute { path: self.path@, args: self.args@ }
    }
}

impl DeepView for AttributeNode {
    type V = SpecAttribute;

    open spec fn deep_view(&self) -> SpecAttribute {
        self.view()
    }
}

/// One case of the annotated enum.
pub struct VariantDecl {
    /// The variant's name.
    pub name: String,
    /// Whether the variant is argument-less (`true`) or carries data.
    pub is_unit: bool,
    /// The annotations attached to the variant, in source order.
    pub attrs: Vec<AttributeNode>,
}

/// Mathematical image of a [`VariantDecl`].
pub ghost struct SpecVariant {
    pub name: Seq<char>,
    pub is_unit: bool,
    pub attrs: Seq<SpecAttribute>,
}

impl View for VariantDecl {
    type V = SpecVariant;

    open spec fn view(&self) -> SpecVariant {
        SpecVariant {
            name: self.name@,
            is_unit: self.is_unit,
            attrs: self.attrs.deep_view(),
        }
    }
}

impl DeepView for VariantDecl {
    type V = SpecVariant;

    open spec fn deep_view(&self) -> SpecVariant {
        self.view()
    }
}

/// The shape of the annotated type: only a sum type can be processed.
pub enum TypeBody {
    /// An enum with its variants in declaration order.
    Enum { variants: Vec<VariantDecl> },
    /// A struct; rejected with `NotAnEnum`.
    Struct,
    /// A union; rejected with `NotAnEnum`.
    Union,
}

/// Mathematical image of a [`TypeBody`].
pub ghost enum SpecTypeBody {
    Enum { variants: Seq<SpecVariant> },
    Struct,
    Union,
}

impl View for TypeBody {
    type V = SpecTypeBody;

    open spec fn view(&self) -> SpecTypeBody {
        match self {
            TypeBody::Enum { variants } => SpecTypeBody::Enum { variants: variants.deep_view() },
            TypeBody::Struct => SpecTypeBody::Struct,
            TypeBody::Union => SpecTypeBody::Union,
        }
    }
}

/// An instance of the annotated enum, as the generated methods see it:
/// which variant it is, by declaration index, and — for a data-carrying
/// variant — a payload that the generated code never inspects.
pub struct VariantValue {
    /// The declaration index of the variant this value is an instance of.
    pub index: usize,
    /// The payload of a data-carrying variant, matched only by wildcard.
    pub payload: Option<String>,
}

/// The annotated declaration handed to a generator.  `vis`, the generics and
/// the where clause are verbatim source text that the renderers splice into
/// the generated implementation unchanged (empty when absent).
pub struct DeriveDecl {
    /// The name of the annotated type.
    pub name: String,
    /// The declared visibility, e.g. `pub` (empty for inherited).
    pub vis: String,
    /// Generic parameters as spliced after `impl`, e.g. `<T: Clone>`.
    pub impl_generics: String,
    /// Generic arguments as spliced after the type name, e.g. `<T>`.
    pub ty_generics: String,
    /// The where clause, e.g. `where T: Clone` (empty for none).
    pub where_clause: String,
    /// The shape and, for an enum, the variants.
    pub body: TypeBody,
}

/// Mathematical image of a [`DeriveDecl`].
pub ghost struct SpecDeriveDecl {
    pub name: Seq<char>,
    pub vis: Seq<char>,
    pub impl_generics: Seq<char>,
    pub ty_generics: Seq<char>,
    pub where_clause: Seq<char>,
    pub body: SpecTypeBody,
}

impl View for DeriveDecl {
    type V = SpecDeriveDecl;

    open spec fn view(&self) -> SpecDeriveDecl {
        SpecDeriveDecl {
            name: self.name@,
            vis: self.vis@,
            impl_generics: self.impl_generics@,
            ty_generics: self.ty_generics@,
            where_clause: self.where_clause@,
            body: self.body@,
        }
    }
}

} // verus!
