//! Assembly of the generated `ToSchema` implementation for one type
//! definition.

use vstd::prelude::*;
use vstd::string::*;
use crate::bound::{bound_generics, plan_bound, planned_bound, signature_generics, BoundPlan};
use crate::diag::{DiagLevel, Diagnostic};
use crate::feature::{
    inline_of, lemma_pop_keeps_others, skip_bound_of, symbol_of, without_first, FeatureKind,
    Inline, SkipBound,
};
use crate::generics::{texts, Generics, GenericsView};
use crate::registry::{schema_path, to_schema, Components, RefOr};
use crate::shape::{
    claims_of, empty_schema, unexpected_data, Attributes, Claims, Data, Fields, SchemaVariant,
};
use crate::symbol::{dot, plan_symbol, planned, separator, SymbolExpr};
use crate::text::replaced;
use crate::tokens::{lex, string_literal};

verus! {

/// What the stages around this one supply for a type definition.
#[derive(Debug)]
pub struct Context {
    /// Path of the crate that defines schemas and the capability to build
    /// them.
    pub oapi: String,
    /// The expression that the builder of the shape made, or the diagnostic
    /// it failed with.
    pub schema: Result<String, Diagnostic>,
    /// The types that take part in the default bound.
    pub bounded: Vec<String>,
}

/// A type definition that the implementation is generated for.
#[derive(Debug)]
pub struct ToSchema<'a> {
    pub ident: &'a str,
    pub attributes: &'a Attributes,
    pub generics: &'a Generics,
    pub data: &'a Data,
    pub context: &'a Context,
}

/// What is generated for one type definition: the header of the
/// implementation and what its one function does.
#[derive(Debug)]
pub struct GenerationPlan {
    /// Path of the crate that defines schemas.
    pub oapi: String,
    /// Name of the type.
    pub ident: String,
    /// The generic arguments that follow the name of the type.
    pub ty_generics: String,
    /// The generics of the implementation, bounds included.
    pub signature: Generics,
    /// How the schema gets its name; `None` for a schema that is handed
    /// back and not registered.
    pub symbol: Option<SymbolExpr>,
    /// The expression that builds the schema.
    pub schema: String,
}

/// A generation plan as plain text.
pub ghost struct PlanView {
    pub oapi: Seq<char>,
    pub ident: Seq<char>,
    pub ty_generics: Seq<char>,
    pub signature: GenericsView,
    pub symbol: Option<SymbolExpr>,
    pub schema: Seq<char>,
}

impl View for GenerationPlan {
    type V = PlanView;

    open spec fn view(&self) -> PlanView {
        PlanView {
            oapi: self.oapi@,
            ident: self.ident@,
            ty_generics: self.ty_generics@,
            signature: self.signature@,
            symbol: self.symbol,
            schema: self.schema@,
        }
    }
}

/// The body of the generated function. Without a name the schema is handed
/// back; with one it is built, then registered, then referred to.
pub open spec fn body(schema: Seq<char>, symbol: Option<Seq<char>>, oapi: Seq<char>) -> Seq<char> {
    match symbol {
        None => schema + ".into()"@,
        Some(name) => "let schema = "@ + schema + "; components.schemas.insert("@ + name
            + ", schema.into()); "@ + oapi + "::oapi::RefOr::Ref("@ + oapi
            + "::oapi::Ref::new(format!(\"#/components/schemas/{}\", "@ + name + ")))"@,
    }
}

/// The generated implementation: one function in one `impl` block.
pub open spec fn implementation(
    oapi: Seq<char>,
    ident: Seq<char>,
    signature: GenericsView,
    ty_generics: Seq<char>,
    body: Seq<char>,
) -> Seq<char> {
    "impl"@ + signature.impl_generics() + " "@ + oapi + "::oapi::ToSchema for "@ + ident
        + ty_generics + signature.where_clause() + " { fn to_schema(components: &mut "@ + oapi
        + "::oapi::Components) -> "@ + oapi + "::oapi::RefOr<"@ + oapi
        + "::oapi::schema::Schema> { "@ + body + " } }"@
}

impl PlanView {
    /// The expression that computes the name of the schema, if it has one.
    /// `literal` is the string literal of the explicit name.
    pub open spec fn symbol_tokens(self, literal: Seq<char>) -> Option<Seq<char>> {
        match self.symbol {
            Some(expr) => Some(expr.tokens(literal, self.ident + self.ty_generics)),
            None => None,
        }
    }

    /// The text of the generated implementation. `literal` is the string
    /// literal of the explicit name, not used where there is none.
    pub open spec fn text(self, literal: Seq<char>) -> Seq<char> {
        implementation(
            self.oapi,
            self.ident,
            self.signature,
            self.ty_generics,
            body(self.schema, self.symbol_tokens(literal), self.oapi),
        )
    }
}

/// The plan for a classified definition, or the diagnostic that the builder
/// of its shape failed with. The schema of a unit struct is the empty
/// schema, whatever a builder made, and it has no name.
pub open spec fn plan_of(
    claims: Claims,
    ident: Seq<char>,
    generics: GenericsView,
    context: &Context,
) -> Result<PlanView, Diagnostic> {
    let oapi = context.oapi@;
    let schema: Result<Seq<char>, Diagnostic> = if claims.unit {
        Ok(empty_schema(oapi))
    } else {
        match context.schema {
            Ok(text) => Ok(text@),
            Err(diag) => Err(diag),
        }
    };
    match schema {
        Err(diag) => Err(diag),
        Ok(expression) => Ok(
            PlanView {
                oapi,
                ident,
                ty_generics: generics.ty_generics(),
                signature: signature_generics(
                    planned_bound(claims.features),
                    generics,
                    texts(context.bounded@),
                    oapi,
                ),
                symbol: if claims.unit {
                    None
                } else {
                    planned(claims.inline, claims.symbol, generics.has_type_params())
                },
                schema: expression,
            },
        ),
    }
}

/// Writes the body of the generated function.
pub fn write_body(schema: &str, symbol: &Option<String>, oapi: &str) -> (text: String)
    ensures
        text@ == body(
            schema@,
            match symbol {
                Some(name) => Some(name@),
                None => None,
            },
            oapi@,
        ),
{
    match symbol {
        None => {
            let mut text = schema.to_owned();
            text.append(".into()");
            text
        },
        Some(name) => {
            let mut text = "let schema = ".to_owned();
            text.append(schema);
            text.append("; components.schemas.insert(");
            text.append(name.as_str());
            text.append(", schema.into()); ");
            text.append(oapi);
            text.append("::oapi::RefOr::Ref(");
            text.append(oapi);
            text.append("::oapi::Ref::new(format!(\"#/components/schemas/{}\", ");
            text.append(name.as_str());
            text.append(")))");
            text
        },
    }
}

/// Writes the generated implementation around `body`.
pub fn write_implementation(
    oapi: &str,
    ident: &str,
    signature: &Generics,
    ty_generics: &str,
    body: &str,
) -> (text: String)
    ensures
        text@ == implementation(oapi@, ident@, signature@, ty_generics@, body@),
{
    let mut text = "impl".to_owned();
    text.append(signature.impl_generics().as_str());
    text.append(" ");
    text.append(oapi);
    text.append("::oapi::ToSchema for ");
    text.append(ident);
    text.append(ty_generics);
    text.append(signature.where_clause().as_str());
    text.append(" { fn to_schema(components: &mut ");
    text.append(oapi);
    text.append("::oapi::Components) -> ");
    text.append(oapi);
    text.append("::oapi::RefOr<");
    text.append(oapi);
    text.append("::oapi::schema::Schema> { ");
    text.append(body);
    text.append(" } }");
    text
}

impl GenerationPlan {
    /// Writes the generated implementation, given the string literal of the
    /// explicit name.
    pub fn render_with(&self, literal: &str) -> (text: String)
        ensures
            text@ == self@.text(literal@),
    {
        let mut ty = self.ident.clone();
        ty.append(self.ty_generics.as_str());
        let symbol = match &self.symbol {
            Some(expr) => Some(expr.to_tokens_with(literal, ty.as_str())),
            None => None,
        };
        let body = write_body(self.schema.as_str(), &symbol, self.oapi.as_str());
        write_implementation(
            self.oapi.as_str(),
            self.ident.as_str(),
            &self.signature,
            self.ty_generics.as_str(),
            body.as_str(),
        )
    }

    /// Writes the generated implementation, with a string literal that
    /// `proc_macro2` writes for the explicit name.
    pub fn render(&self) -> (text: String)
        ensures
            exists|literal: Seq<char>| text@ == #[trigger] self@.text(literal),
    {
        let literal = match &self.symbol {
            Some(SymbolExpr::Override(name)) => string_literal(name.as_str()),
            Some(SymbolExpr::Spliced(name)) => string_literal(name.as_str()),
            _ => String::new(),
        };
        let text = self.render_with(literal.as_str());
        assert(text@ == self@.text(literal@));
        text
    }

    /// What the generated function does when it runs for an instantiation
    /// called `runtime_name`, once the expression of the plan has built
    /// `schema`: an inline schema is handed back and the registry is left
    /// alone; any other is registered under its resolved name, and the
    /// reference to it is handed back.
    pub fn run<S>(&self, runtime_name: &str, schema: S, components: &mut Components<S>) -> (out:
        RefOr<S>)
        requires
            old(components).wf(),
        ensures
            final(components).wf(),
            match self.symbol {
                None => out == RefOr::T(schema) && final(components)@ == old(components)@,
                Some(expr) => {
                    &&& out matches RefOr::Ref(path)
                    &&& path@ == schema_path(expr.resolved(runtime_name@))
                    &&& final(components)@ == old(components)@.insert(
                        expr.resolved(runtime_name@),
                        schema,
                    )
                },
            },
    {
        to_schema(&self.symbol, runtime_name, schema, components)
    }
}

/// Plans the implementation for a classified definition: how the schema gets
/// its name, which bounds the generic parameters get, and the expression
/// that builds the schema, taken from the builder of the shape. The schema
/// of a unit struct gets no name. Fails with the diagnostic of that builder.
pub fn assemble(
    variant: SchemaVariant<'_>,
    ident: &str,
    generics: &Generics,
    context: &Context,
) -> (plan: Result<GenerationPlan, Diagnostic>)
    ensures
        match plan_of(variant.claims(), ident@, generics@, context) {
            Ok(view) => plan matches Ok(made) && made@ == view,
            Err(diag) => plan matches Err(raised) && raised == diag,
        },
{
    let mut variant = variant;
    let oapi = context.oapi.as_str();
    let symbol = match &variant {
        SchemaVariant::Unit(_) => None,
        _ => plan_symbol(variant.inline(), variant.symbol(), generics.has_type_params()),
    };

    let bounds = plan_bound(&mut variant);
    let signature = bound_generics(&bounds, generics, &context.bounded, oapi);

    match variant.try_to_tokens(oapi, &context.schema) {
        Err(diag) => Err(diag),
        Ok(schema) => Ok(
            GenerationPlan {
                oapi: oapi.to_owned(),
                ident: ident.to_owned(),
                ty_generics: generics.ty_generics(),
                signature,
                symbol,
                schema,
            },
        ),
    }
}

/// Message of the diagnostic for an implementation that does not lex.
pub open spec fn not_tokens() -> Seq<char> {
    "the generated implementation is not a sequence of tokens"@
}

impl<'a> ToSchema<'a> {
    /// A type definition with what the stages around this one supply for it.
    pub fn new(
        data: &'a Data,
        attributes: &'a Attributes,
        ident: &'a str,
        generics: &'a Generics,
        context: &'a Context,
    ) -> (made: Self)
        ensures
            made.data == data,
            made.attributes == attributes,
            made.ident == ident,
            made.generics == generics,
            made.context == context,
    {
        ToSchema { ident, attributes, generics, data, context }
    }

    /// The plan for the definition, or the diagnostic that generation aborts
    /// with; `None` stands for the diagnostic of a definition that is
    /// neither a struct nor an enum.
    pub open spec fn planned(&self) -> Option<Result<PlanView, Diagnostic>> {
        match claims_of(self.data, self.attributes) {
            Some(claims) => Some(plan_of(claims, self.ident@, self.generics@, self.context)),
            None => match self.attributes {
                Err(diag) if !(self.data is Union) => Some(Err(*diag)),
                _ => None,
            },
        }
    }

    /// Plans the implementation. Generation aborts, in this order, where the
    /// definition is neither a struct nor an enum, where feature extraction
    /// failed for a definition other than a unit struct, and where the
    /// builder of the shape failed.
    pub fn plan(&self) -> (plan: Result<GenerationPlan, Diagnostic>)
        ensures
            match self.planned() {
                Some(Ok(view)) => plan matches Ok(made) && made@ == view,
                Some(Err(diag)) => plan matches Err(raised) && raised == diag,
                None => {
                    &&& plan matches Err(raised)
                    &&& raised.level == DiagLevel::Error
                    &&& raised.subject@ == self.ident@
                    &&& raised.message@ == unexpected_data()
                },
            },
    {
        match SchemaVariant::new(self.data, self.attributes, self.ident, self.generics) {
            Ok(variant) => assemble(variant, self.ident, self.generics, self.context),
            Err(diag) => Err(diag),
        }
    }

    /// Generates the implementation as text, or aborts as `plan` does.
    pub fn generate(&self) -> (written: Result<String, Diagnostic>)
        ensures
            match self.planned() {
                Some(Ok(plan)) => {
                    &&& written matches Ok(out)
                    &&& exists|literal: Seq<char>| out@ == #[trigger] plan.text(literal)
                },
                Some(Err(diag)) => written matches Err(raised) && raised == diag,
                None => {
                    &&& written matches Err(raised)
                    &&& raised.level == DiagLevel::Error
                    &&& raised.subject@ == self.ident@
                    &&& raised.message@ == unexpected_data()
                },
            },
    {
        match self.plan() {
            Ok(plan) => Ok(plan.render()),
            Err(diag) => Err(diag),
        }
    }

    /// Generates the implementation as tokens: the text, lexed by
    /// `proc_macro2`. Aborts as `plan` does, and where the text does not
    /// lex.
    pub fn try_to_tokens(&self) -> (done: Result<proc_macro2::TokenStream, Diagnostic>)
        ensures
            match self.planned() {
                Some(Ok(_)) => done matches Err(raised) ==> {
                    &&& raised.level == DiagLevel::Error
                    &&& raised.subject@ == self.ident@
                    &&& raised.message@ == not_tokens()
                },
                Some(Err(diag)) => done matches Err(raised) && raised == diag,
                None => {
                    &&& done matches Err(raised)
                    &&& raised.level == DiagLevel::Error
                    &&& raised.subject@ == self.ident@
                    &&& raised.message@ == unexpected_data()
                },
            },
    {
        match self.generate() {
            Ok(text) => tokens_or_diagnostic(lex(text.as_str()), self.ident),
            Err(diag) => Err(diag),
        }
    }
}

/// What generation hands back once the text went through the lexer: the
/// stream as it came, or an error that points at the definition `ident`.
pub fn tokens_or_diagnostic(
    lexed: Result<proc_macro2::TokenStream, proc_macro2::LexError>,
    ident: &str,
) -> (done: Result<proc_macro2::TokenStream, Diagnostic>)
    ensures
        match lexed {
            Ok(stream) => done == Ok::<proc_macro2::TokenStream, Diagnostic>(stream),
            Err(_) => {
                &&& done matches Err(raised)
                &&& raised.level == DiagLevel::Error
                &&& raised.subject@ == ident@
                &&& raised.message@ == not_tokens()
            },
        },
{
    match lexed {
        Ok(stream) => Ok(stream),
        Err(_) => Err(
            Diagnostic::spanned(
                ident,
                DiagLevel::Error,
                "the generated implementation is not a sequence of tokens",
            ),
        ),
    }
}

/// For a unit struct generation succeeds, the schema is the empty schema and
/// it has no name, so that the generated function hands it back and leaves
/// the registry alone, whatever the attributes of the definition are and
/// whatever a builder made.
pub proof fn lemma_unit_struct(definition: ToSchema<'_>)
    requires
        definition.data matches Data::Struct(Fields::Unit),
    ensures
        definition.planned() == Some(
            Ok::<PlanView, Diagnostic>(
                PlanView {
                    oapi: definition.context.oapi@,
                    ident: definition.ident@,
                    ty_generics: definition.generics@.ty_generics(),
                    signature: signature_generics(
                        BoundPlan::Default,
                        definition.generics@,
                        texts(definition.context.bounded@),
                        definition.context.oapi@,
                    ),
                    symbol: None,
                    schema: empty_schema(definition.context.oapi@),
                },
            ),
        ),
{
}

/// Where the attributes of a struct with fields or of an enum set
/// `SkipBound`, the generated implementation has the generics of the type
/// without defaults and nothing more: no text of a `Bound` beside it and no
/// default bound stands in it.
pub proof fn lemma_skip_bound_signature(definition: ToSchema<'_>)
    requires
        !(definition.data matches Data::Struct(Fields::Unit)),
        !(definition.data is Union),
        definition.attributes matches Ok(features) && skip_bound_of(features@) == Some(
            SkipBound(true),
        ),
        definition.context.schema is Ok,
    ensures
        definition.planned() matches Some(Ok(plan)) && plan.signature
            == definition.generics@.without_defaults(),
{
    let features = definition.attributes->Ok_0@;
    let first = without_first(features, FeatureKind::Symbol);
    let second = without_first(first, FeatureKind::Inline);
    lemma_pop_keeps_others(features, FeatureKind::Symbol, FeatureKind::SkipBound);
    lemma_pop_keeps_others(first, FeatureKind::Inline, FeatureKind::SkipBound);
    lemma_pop_keeps_others(second, FeatureKind::RenameAll, FeatureKind::SkipBound);
}

/// A struct with fields or an enum that has no explicit name and is not
/// inline is registered under the name that the type has at run time, each
/// path separator replaced by a dot. A unit struct is not: it has no name.
pub proof fn lemma_unnamed_definition(definition: ToSchema<'_>, runtime_name: Seq<char>)
    requires
        !(definition.data matches Data::Struct(Fields::Unit)),
        !(definition.data is Union),
        definition.attributes matches Ok(features) && symbol_of(features@) is None && inline_of(
            features@,
        ) != Some(Inline(true)),
        definition.context.schema is Ok,
    ensures
        definition.planned() matches Some(Ok(plan)) && plan.symbol == Some(SymbolExpr::TypeName)
            && SymbolExpr::TypeName.resolved(runtime_name) == replaced(
            runtime_name,
            separator(),
            dot(),
        ),
{
    let features = definition.attributes->Ok_0@;
    lemma_pop_keeps_others(features, FeatureKind::Symbol, FeatureKind::Inline);
}

} // verus!
