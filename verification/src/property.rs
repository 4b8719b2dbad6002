//! The fragment that a builder emits for one field.

use vstd::prelude::*;
use vstd::string::*;
use crate::diag::Diagnostic;
use crate::feature::Feature;

verus! {

/// The derived schema of a type, already written out.
#[derive(Debug)]
pub struct ComponentSchema {
    pub tokens: String,
}

/// The schema of a flattened map field, already written out.
#[derive(Debug)]
pub struct FlattenedMapSchema {
    pub tokens: String,
}

/// The schema of one field.
#[derive(Debug)]
pub enum Property {
    /// Derived from the type of the field.
    Schema(ComponentSchema),
    /// Built by an expression of the user's, which the feature stands for.
    SchemaWith(Feature),
    /// The additional properties of a flattened map.
    FlattenedMap(FlattenedMapSchema),
}

impl Property {
    /// The fragment of the property: the schema as it was written out, or,
    /// where a feature stands in for it, what rendering that feature gave.
    pub open spec fn tokens(&self, rendered: &Result<String, Diagnostic>) -> Result<
        Seq<char>,
        Diagnostic,
    > {
        match self {
            Property::Schema(schema) => Ok(schema.tokens@),
            Property::FlattenedMap(schema) => Ok(schema.tokens@),
            Property::SchemaWith(_) => match rendered {
                Ok(text) => Ok(text@),
                Err(diag) => Err(*diag),
            },
        }
    }

    /// Writes the fragment of the property. `rendered` is the outcome of
    /// rendering the feature of a `SchemaWith` property; it is not looked at
    /// for the other two.
    pub fn try_to_tokens(&self, rendered: &Result<String, Diagnostic>) -> (written: Result<
        String,
        Diagnostic,
    >)
        ensures
            match self.tokens(rendered) {
                Ok(text) => written matches Ok(out) && out@ == text,
                Err(diag) => written matches Err(raised) && raised == diag,
            },
    {
        match self {
            Property::Schema(schema) => Ok(schema.tokens.clone()),
            Property::FlattenedMap(schema) => Ok(schema.tokens.clone()),
            Property::SchemaWith(_) => match rendered {
                Ok(text) => Ok(text.clone()),
                Err(diag) => Err(diag.duplicate()),
            },
        }
    }
}

} // verus!
