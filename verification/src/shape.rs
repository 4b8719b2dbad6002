//! The shape of a type definition and its classification into the variant
//! that its schema is built from.

use vstd::prelude::*;
use vstd::string::*;
use crate::diag::{DiagLevel, Diagnostic};
use crate::feature::{
    bound_of, duplicate_all, inline_of, pop_bound, pop_inline, pop_rename_all, pop_skip_bound,
    pop_symbol, rename_all_of, skip_bound_of, symbol_of, without_first, Bound, Feature,
    FeatureKind, Inline, SkipBound, Symbol,
};
use crate::generics::Generics;

verus! {

/// What the serialization attributes of a field ask for.
#[derive(Clone, Copy, Debug, PartialEq, Eq, Structural)]
pub struct SerdeValue {
    pub skip: bool,
    pub flatten: bool,
}

/// Whether a field with this rule takes part in the schema.
pub fn is_not_skipped(rule: Option<&SerdeValue>) -> (kept: bool)
    ensures
        kept == match rule {
            Some(value) => !value.skip,
            None => true,
        },
{
    match rule {
        Some(value) => !value.skip,
        None => true,
    }
}

/// Whether a field with this rule is flattened into its parent.
pub fn is_flatten(rule: Option<&SerdeValue>) -> (flattened: bool)
    ensures
        flattened == match rule {
            Some(value) => value.flatten,
            None => false,
        },
{
    match rule {
        Some(value) => value.flatten,
        None => false,
    }
}

/// One field of a record.
#[derive(Debug)]
pub struct Field {
    /// Its name; a positional field has none.
    pub name: Option<String>,
    /// Its type, as written.
    pub ty: String,
    /// What its serialization attributes ask for, if it has any.
    pub rule: Option<SerdeValue>,
}

/// The fields of a struct or of a variant of an enum.
#[derive(Debug)]
pub enum Fields {
    Named(Vec<Field>),
    Unnamed(Vec<Field>),
    Unit,
}

/// One variant of an enum.
#[derive(Debug)]
pub struct Variant {
    pub name: String,
    pub fields: Fields,
}

/// The body of a type definition.
#[derive(Debug)]
pub enum Data {
    Struct(Fields),
    Enum(Vec<Variant>),
    Union,
}

/// The outcome of feature extraction on the attributes of a definition.
pub type Attributes = Result<Vec<Feature>, Diagnostic>;

/// A struct with named fields, ready for its builder.
#[derive(Debug)]
pub struct NamedStructSchema<'a> {
    pub struct_name: String,
    pub fields: &'a Vec<Field>,
    /// The features that are left for the builder.
    pub features: Vec<Feature>,
    pub rename_all: Option<String>,
    pub generics: Option<&'a Generics>,
    pub symbol: Option<Symbol>,
    pub inline: Option<Inline>,
}

/// A struct with positional fields, ready for its builder.
#[derive(Debug)]
pub struct UnnamedStructSchema<'a> {
    pub struct_name: String,
    pub fields: &'a Vec<Field>,
    /// The features that are left for the builder.
    pub features: Vec<Feature>,
    pub symbol: Option<Symbol>,
    pub inline: Option<Inline>,
}

/// An enum, ready for its builder.
#[derive(Debug)]
pub struct EnumSchema<'a> {
    pub enum_name: String,
    pub variants: &'a Vec<Variant>,
    /// The features that are left for the builder.
    pub features: Vec<Feature>,
    pub symbol: Option<Symbol>,
    pub inline: Option<Inline>,
}

/// A struct without fields.
#[derive(Debug)]
pub struct UnitStructVariant;

/// A type definition, classified by its shape.
#[derive(Debug)]
pub enum SchemaVariant<'a> {
    Named(NamedStructSchema<'a>),
    Unnamed(UnnamedStructSchema<'a>),
    Enum(EnumSchema<'a>),
    Unit(UnitStructVariant),
}

/// Message of the diagnostic for a definition that is neither a struct nor
/// an enum.
pub open spec fn unexpected_data() -> Seq<char> {
    "unexpected data type, expected syn::Data::Struct or syn::Data::Enum"@
}

/// `features` once the explicit name and the inline flag are popped.
pub open spec fn unnamed_rest(features: Seq<Feature>) -> Seq<Feature> {
    without_first(without_first(features, FeatureKind::Symbol), FeatureKind::Inline)
}

/// `features` once the explicit name, the inline flag and the renaming
/// policy are popped.
pub open spec fn named_rest(features: Seq<Feature>) -> Seq<Feature> {
    without_first(unnamed_rest(features), FeatureKind::RenameAll)
}

/// What classification takes from a definition for the later stages.
pub ghost struct Claims {
    /// Whether the definition is a unit struct.
    pub unit: bool,
    /// The explicit name of the schema.
    pub symbol: Option<Symbol>,
    /// The inline flag of the schema.
    pub inline: Option<Inline>,
    /// The features that are left once name, flag and renaming policy are
    /// popped.
    pub features: Seq<Feature>,
}

/// What classification takes from a definition with this body and these
/// attributes, or `None` where classification fails.
pub open spec fn claims_of(data: &Data, attributes: &Attributes) -> Option<Claims> {
    match data {
        Data::Struct(Fields::Unit) => Some(
            Claims { unit: true, symbol: None, inline: None, features: Seq::empty() },
        ),
        Data::Union => None,
        _ => match attributes {
            Ok(features) => Some(
                Claims {
                    unit: false,
                    symbol: symbol_of(features@),
                    inline: inline_of(without_first(features@, FeatureKind::Symbol)),
                    features: if data matches Data::Struct(Fields::Named(_)) {
                        named_rest(features@)
                    } else {
                        unnamed_rest(features@)
                    },
                },
            ),
            Err(_) => None,
        },
    }
}

/// The expression that builds the schema of a unit struct. `oapi` is the
/// path of the crate that defines schemas.
pub open spec fn empty_schema(oapi: Seq<char>) -> Seq<char> {
    oapi + "::oapi::schema::empty()"@
}

impl<'a> EnumSchema<'a> {
    /// Readies an enum for its builder: pops the explicit name and the
    /// inline flag from its features. Fails with the diagnostic of feature
    /// extraction where that failed.
    pub fn new(enum_name: String, variants: &'a Vec<Variant>, attributes: &Attributes) -> (schema:
        Result<EnumSchema<'a>, Diagnostic>)
        ensures
            match attributes {
                Ok(features) => {
                    &&& schema matches Ok(made)
                    &&& made.enum_name == enum_name
                    &&& made.variants == variants
                    &&& made.symbol == symbol_of(features@)
                    &&& made.inline == inline_of(without_first(features@, FeatureKind::Symbol))
                    &&& made.features@ == unnamed_rest(features@)
                },
                Err(diag) => schema matches Err(raised) && raised == *diag,
            },
    {
        match attributes {
            Ok(parsed) => {
                let mut features = duplicate_all(parsed);
                let symbol = pop_symbol(&mut features);
                let inline = pop_inline(&mut features);
                Ok(EnumSchema { enum_name, variants, features, symbol, inline })
            },
            Err(diag) => Err(diag.duplicate()),
        }
    }
}


impl<'a> SchemaVariant<'a> {
    /// The features that are left for the builder; a unit struct has none.
    pub open spec fn features(&self) -> Seq<Feature> {
        match self {
            SchemaVariant::Named(schema) => schema.features@,
            SchemaVariant::Unnamed(schema) => schema.features@,
            SchemaVariant::Enum(schema) => schema.features@,
            SchemaVariant::Unit(_) => Seq::empty(),
        }
    }

    /// The explicit name of the schema; a unit struct has none.
    pub open spec fn spec_symbol(&self) -> Option<Symbol> {
        match self {
            SchemaVariant::Named(schema) => schema.symbol,
            SchemaVariant::Unnamed(schema) => schema.symbol,
            SchemaVariant::Enum(schema) => schema.symbol,
            SchemaVariant::Unit(_) => None,
        }
    }

    /// The inline flag of the schema; a unit struct has none.
    pub open spec fn spec_inline(&self) -> Option<Inline> {
        match self {
            SchemaVariant::Named(schema) => schema.inline,
            SchemaVariant::Unnamed(schema) => schema.inline,
            SchemaVariant::Enum(schema) => schema.inline,
            SchemaVariant::Unit(_) => None,
        }
    }

    /// What classification took from the definition.
    pub open spec fn claims(&self) -> Claims {
        Claims {
            unit: self is Unit,
            symbol: self.spec_symbol(),
            inline: self.spec_inline(),
            features: self.features(),
        }
    }

    /// Whether `self` and `other` are the same but for the features left for
    /// the builder.
    pub open spec fn same_but_features(&self, other: &SchemaVariant<'a>) -> bool {
        match (self, other) {
            (SchemaVariant::Named(a), SchemaVariant::Named(b)) => {
                &&& a.struct_name == b.struct_name
                &&& a.fields == b.fields
                &&& a.rename_all == b.rename_all
                &&& a.generics == b.generics
                &&& a.symbol == b.symbol
                &&& a.inline == b.inline
            },
            (SchemaVariant::Unnamed(a), SchemaVariant::Unnamed(b)) => {
                &&& a.struct_name == b.struct_name
                &&& a.fields == b.fields
                &&& a.symbol == b.symbol
                &&& a.inline == b.inline
            },
            (SchemaVariant::Enum(a), SchemaVariant::Enum(b)) => {
                &&& a.enum_name == b.enum_name
                &&& a.variants == b.variants
                &&& a.symbol == b.symbol
                &&& a.inline == b.inline
            },
            (SchemaVariant::Unit(_), SchemaVariant::Unit(_)) => true,
            _ => false,
        }
    }

    /// Classifies a definition by its shape and pops from its features what
    /// this stage claims. A unit struct is classified whatever its
    /// attributes are; a struct with fields or an enum fails with the
    /// diagnostic of feature extraction where that failed; a definition that
    /// is neither a struct nor an enum is an error that points at it.
    pub fn new(
        data: &'a Data,
        attributes: &Attributes,
        ident: &str,
        generics: &'a Generics,
    ) -> (made: Result<SchemaVariant<'a>, Diagnostic>)
        ensures
            made is Ok <==> claims_of(data, attributes) is Some,
            made matches Ok(variant) ==> claims_of(data, attributes) == Some(variant.claims()),
            match data {
                Data::Struct(Fields::Unit) => made matches Ok(SchemaVariant::Unit(_)),
                Data::Struct(Fields::Unnamed(fields)) => match attributes {
                    Ok(features) => {
                        &&& made matches Ok(SchemaVariant::Unnamed(schema))
                        &&& schema.struct_name@ == ident@
                        &&& schema.fields == fields
                        &&& schema.symbol == symbol_of(features@)
                        &&& schema.inline == inline_of(
                            without_first(features@, FeatureKind::Symbol),
                        )
                        &&& schema.features@ == unnamed_rest(features@)
                    },
                    Err(diag) => made matches Err(raised) && raised == *diag,
                },
                Data::Struct(Fields::Named(fields)) => match attributes {
                    Ok(features) => {
                        &&& made matches Ok(SchemaVariant::Named(schema))
                        &&& schema.struct_name@ == ident@
                        &&& schema.fields == fields
                        &&& schema.generics == Some(generics)
                        &&& schema.symbol == symbol_of(features@)
                        &&& schema.inline == inline_of(
                            without_first(features@, FeatureKind::Symbol),
                        )
                        &&& schema.rename_all == rename_all_of(unnamed_rest(features@))
                        &&& schema.features@ == named_rest(features@)
                    },
                    Err(diag) => made matches Err(raised) && raised == *diag,
                },
                Data::Enum(variants) => match attributes {
                    Ok(features) => {
                        &&& made matches Ok(SchemaVariant::Enum(schema))
                        &&& schema.enum_name@ == ident@
                        &&& schema.variants == variants
                        &&& schema.symbol == symbol_of(features@)
                        &&& schema.inline == inline_of(
                            without_first(features@, FeatureKind::Symbol),
                        )
                        &&& schema.features@ == unnamed_rest(features@)
                    },
                    Err(diag) => made matches Err(raised) && raised == *diag,
                },
                Data::Union => {
                    &&& made matches Err(raised)
                    &&& raised.level == DiagLevel::Error
                    &&& raised.subject@ == ident@
                    &&& raised.message@ == unexpected_data()
                },
            },
    {
        match data {
            Data::Struct(content) => match content {
                Fields::Unnamed(fields) => {
                    match attributes {
                        Ok(parsed) => {
                            let mut features = duplicate_all(parsed);
                            let symbol = pop_symbol(&mut features);
                            let inline = pop_inline(&mut features);
                            Ok(
                                SchemaVariant::Unnamed(
                                    UnnamedStructSchema {
                                        struct_name: ident.to_owned(),
                                        fields,
                                        features,
                                        symbol,
                                        inline,
                                    },
                                ),
                            )
                        },
                        Err(diag) => Err(diag.duplicate()),
                    }
                },
                Fields::Named(fields) => {
                    match attributes {
                        Ok(parsed) => {
                            let mut features = duplicate_all(parsed);
                            let symbol = pop_symbol(&mut features);
                            let inline = pop_inline(&mut features);
                            let rename_all = pop_rename_all(&mut features);
                            Ok(
                                SchemaVariant::Named(
                                    NamedStructSchema {
                                        struct_name: ident.to_owned(),
                                        fields,
                                        features,
                                        rename_all,
                                        generics: Some(generics),
                                        symbol,
                                        inline,
                                    },
                                ),
                            )
                        },
                        Err(diag) => Err(diag.duplicate()),
                    }
                },
                Fields::Unit => Ok(SchemaVariant::Unit(UnitStructVariant)),
            },
            Data::Enum(variants) => {
                match EnumSchema::new(ident.to_owned(), variants, attributes) {
                    Ok(schema) => Ok(SchemaVariant::Enum(schema)),
                    Err(diag) => Err(diag),
                }
            },
            Data::Union => Err(
                Diagnostic::spanned(
                    ident,
                    DiagLevel::Error,
                    "unexpected data type, expected syn::Data::Struct or syn::Data::Enum",
                ),
            ),
        }
    }

    /// The explicit name of the schema; a unit struct has none.
    pub fn symbol(&self) -> (symbol: &Option<Symbol>)
        ensures
            *symbol == self.spec_symbol(),
    {
        match self {
            SchemaVariant::Enum(schema) => &schema.symbol,
            SchemaVariant::Named(schema) => &schema.symbol,
            SchemaVariant::Unnamed(schema) => &schema.symbol,
            _ => &None,
        }
    }

    /// The inline flag of the schema; a unit struct has none.
    pub fn inline(&self) -> (inline: &Option<Inline>)
        ensures
            *inline == self.spec_inline(),
    {
        match self {
            SchemaVariant::Enum(schema) => &schema.inline,
            SchemaVariant::Named(schema) => &schema.inline,
            SchemaVariant::Unnamed(schema) => &schema.inline,
            _ => &None,
        }
    }

    /// Pops the first `SkipBound` feature from those left for the builder
    /// and returns it; a unit struct has none.
    pub fn pop_skip_bound(&mut self) -> (skip: Option<SkipBound>)
        ensures
            skip == skip_bound_of(old(self).features()),
            final(self).features() == without_first(old(self).features(), FeatureKind::SkipBound),
            final(self).same_but_features(old(self)),
    {
        match self {
            SchemaVariant::Enum(schema) => pop_skip_bound(&mut schema.features),
            SchemaVariant::Named(schema) => pop_skip_bound(&mut schema.features),
            SchemaVariant::Unnamed(schema) => pop_skip_bound(&mut schema.features),
            _ => None,
        }
    }

    /// Pops the first `Bound` feature from those left for the builder and
    /// returns it; a unit struct has none.
    pub fn pop_bound(&mut self) -> (bound: Option<Bound>)
        ensures
            bound == bound_of(old(self).features()),
            final(self).features() == without_first(old(self).features(), FeatureKind::Bound),
            final(self).same_but_features(old(self)),
    {
        match self {
            SchemaVariant::Enum(schema) => pop_bound(&mut schema.features),
            SchemaVariant::Named(schema) => pop_bound(&mut schema.features),
            SchemaVariant::Unnamed(schema) => pop_bound(&mut schema.features),
            _ => None,
        }
    }
}


impl UnitStructVariant {
    /// Writes the expression that builds the schema of a unit struct.
    pub fn to_tokens(&self, oapi: &str) -> (text: String)
        ensures
            text@ == empty_schema(oapi@),
    {
        let mut text = oapi.to_owned();
        text.append("::oapi::schema::empty()");
        text
    }
}

impl<'a> SchemaVariant<'a> {
    /// The expression that builds the schema: fixed for a unit struct, else
    /// what the builder of the shape made, or the diagnostic it failed with.
    pub open spec fn tokens(&self, oapi: Seq<char>, built: &Result<String, Diagnostic>) -> Result<
        Seq<char>,
        Diagnostic,
    > {
        match self {
            SchemaVariant::Unit(_) => Ok(empty_schema(oapi)),
            _ => match built {
                Ok(text) => Ok(text@),
                Err(diag) => Err(*diag),
            },
        }
    }

    /// Writes the expression that builds the schema. `built` is the outcome
    /// of the builder of the shape; it is not looked at for a unit struct.
    pub fn try_to_tokens(&self, oapi: &str, built: &Result<String, Diagnostic>) -> (written: Result<
        String,
        Diagnostic,
    >)
        ensures
            match self.tokens(oapi@, built) {
                Ok(text) => written matches Ok(out) && out@ == text,
                Err(diag) => written matches Err(raised) && raised == diag,
            },
    {
        match self {
            SchemaVariant::Unit(unit) => Ok(unit.to_tokens(oapi)),
            _ => match built {
                Ok(text) => Ok(text.clone()),
                Err(diag) => Err(diag.duplicate()),
            },
        }
    }
}

} // verus!
