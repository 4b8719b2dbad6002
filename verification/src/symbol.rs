//! The name under which a schema is registered: how it is chosen when the
//! implementation is generated, and what it comes to when that runs.

use vstd::prelude::*;
use vstd::string::*;
use crate::feature::{Inline, Symbol};
use crate::text::{find_char, index_of, lemma_index_of_bounds, replace_all, replaced};
use crate::tokens::string_literal;

verus! {

/// How the generated implementation computes the name of its schema.
#[derive(Debug)]
pub enum SymbolExpr {
    /// The explicit name of a type without type parameters.
    Override(String),
    /// The explicit name of a generic type, completed at run time with the
    /// arguments of the instantiation.
    Spliced(String),
    /// The name that the type has at run time.
    TypeName,
}

/// Path separator as it stands in a printed path.
pub open spec fn spaced_separator() -> Seq<char> {
    seq![' ', ':', ':', ' ']
}

/// Path separator as it stands in the name of a type at run time.
pub open spec fn separator() -> Seq<char> {
    seq![':', ':']
}

/// What stands for a path separator in a registered name.
pub open spec fn dot() -> Seq<char> {
    seq!['.']
}

/// The chosen way to the name for a struct with fields or an enum: none for
/// an inline schema, else by the explicit name where there is one, spliced
/// for a generic type. A unit struct is not asked: its schema has no name.
pub open spec fn planned(inline: Option<Inline>, symbol: Option<Symbol>, generic: bool) -> Option<
    SymbolExpr,
> {
    if inline == Some(Inline(true)) {
        None
    } else {
        match symbol {
            Some(name) => if generic {
                Some(SymbolExpr::Spliced(name.0))
            } else {
                Some(SymbolExpr::Override(name.0))
            },
            None => Some(SymbolExpr::TypeName),
        }
    }
}

/// Chooses how the schema of a struct with fields or of an enum gets its
/// name. `generic` says whether the type has type parameters.
pub fn plan_symbol(inline: &Option<Inline>, symbol: &Option<Symbol>, generic: bool) -> (expr:
    Option<SymbolExpr>)
    ensures
        expr == planned(*inline, *symbol, generic),
{
    let is_inline = match inline {
        Some(flag) => flag.0,
        None => false,
    };
    if is_inline {
        None
    } else {
        match symbol {
            Some(name) => if generic {
                Some(SymbolExpr::Spliced(name.0.clone()))
            } else {
                Some(SymbolExpr::Override(name.0.clone()))
            },
            None => Some(SymbolExpr::TypeName),
        }
    }
}

/// The explicit name `symbol` followed by the arguments of `runtime_name`, or
/// `runtime_name` itself where it shows no arguments.
pub open spec fn spliced(symbol: Seq<char>, runtime_name: Seq<char>) -> Seq<char> {
    let at = index_of(runtime_name, '<');
    if at < runtime_name.len() {
        symbol + seq!['<'] + runtime_name.skip(at + 1)
    } else {
        runtime_name
    }
}

impl SymbolExpr {
    /// The name that the schema is registered under when the type's name at
    /// run time is `runtime_name`.
    pub open spec fn resolved(&self, runtime_name: Seq<char>) -> Seq<char> {
        match self {
            SymbolExpr::Override(name) => replaced(name@, spaced_separator(), dot()),
            SymbolExpr::Spliced(name) => spliced(name@, runtime_name),
            SymbolExpr::TypeName => replaced(runtime_name, separator(), dot()),
        }
    }

    /// Computes the name as the generated implementation does at run time.
    pub fn resolve(&self, runtime_name: &str) -> (symbol: String)
        ensures
            symbol@ == self.resolved(runtime_name@),
    {
        proof {
            reveal_strlit(" :: ");
            reveal_strlit("::");
            reveal_strlit(".");
            reveal_strlit("<");
            assert(" :: "@ =~= spaced_separator());
            assert("::"@ =~= separator());
            assert("."@ =~= dot());
            assert("<"@ =~= seq!['<']);
        }
        match self {
            SymbolExpr::Override(name) => replace_all(name.as_str(), " :: ", "."),
            SymbolExpr::Spliced(name) => {
                match find_char(runtime_name, '<') {
                    Some(at) => {
                        let n = runtime_name.unicode_len();
                        let mut symbol = name.clone();
                        symbol.append("<");
                        symbol.append(runtime_name.substring_char(at + 1, n));
                        assert(runtime_name@.subrange(at + 1, n as int) == runtime_name@.skip(
                            at + 1,
                        ));
                        symbol
                    },
                    None => runtime_name.to_owned(),
                }
            },
            SymbolExpr::TypeName => replace_all(runtime_name, "::", "."),
        }
    }
}

impl SymbolExpr {
    /// The expression that computes the name at run time. `literal` is the
    /// string literal of the explicit name, not used where the name is that
    /// of the type; `ty` is the type with its parameters.
    pub open spec fn tokens(&self, literal: Seq<char>, ty: Seq<char>) -> Seq<char> {
        match self {
            SymbolExpr::Override(_) => literal + ".to_string().replace(\" :: \", \".\")"@,
            SymbolExpr::Spliced(_) => "{ let full_name = std::any::type_name::<"@ + ty
                + ">(); if let Some((_, args)) = full_name.split_once('<') { format!(\"{}<{}\", "@
                + literal + ", args) } else { full_name.into() } }"@,
            SymbolExpr::TypeName => "std::any::type_name::<"@ + ty
                + ">().replace(\"::\", \".\")"@,
        }
    }

    /// Writes the expression that computes the name at run time, given the
    /// string literal of the explicit name.
    pub fn to_tokens_with(&self, literal: &str, ty: &str) -> (text: String)
        ensures
            text@ == self.tokens(literal@, ty@),
    {
        match self {
            SymbolExpr::Override(_) => {
                let mut text = literal.to_owned();
                text.append(".to_string().replace(\" :: \", \".\")");
                text
            },
            SymbolExpr::Spliced(_) => {
                let mut text = "{ let full_name = std::any::type_name::<".to_owned();
                text.append(ty);
                text.append(
                    ">(); if let Some((_, args)) = full_name.split_once('<') { format!(\"{}<{}\", ",
                );
                text.append(literal);
                text.append(", args) } else { full_name.into() } }");
                text
            },
            SymbolExpr::TypeName => {
                let mut text = "std::any::type_name::<".to_owned();
                text.append(ty);
                text.append(">().replace(\"::\", \".\")");
                text
            },
        }
    }

    /// Writes the expression that computes the name at run time, with a
    /// string literal that `proc_macro2` writes for the explicit name.
    pub fn to_tokens(&self, ty: &str) -> (text: String)
        ensures
            exists|literal: Seq<char>| text@ == #[trigger] self.tokens(literal, ty@),
    {
        match self {
            SymbolExpr::Override(name) => {
                let literal = string_literal(name.as_str());
                self.to_tokens_with(literal.as_str(), ty)
            },
            SymbolExpr::Spliced(name) => {
                let literal = string_literal(name.as_str());
                self.to_tokens_with(literal.as_str(), ty)
            },
            SymbolExpr::TypeName => self.to_tokens_with("", ty),
        }
    }
}


/// The name of a type without type parameters that has an explicit name is
/// that name, each printed path separator replaced by a dot, whatever the
/// type is called at run time.
pub proof fn lemma_override_symbol(inline: Option<Inline>, name: Symbol, runtime_name: Seq<char>)
    requires
        inline != Some(Inline(true)),
    ensures
        planned(inline, Some(name), false) is Some,
        planned(inline, Some(name), false)->0.resolved(runtime_name) == replaced(
            name.0@,
            spaced_separator(),
            dot(),
        ),
{
}

/// The name of a generic type that has an explicit name is that name, `<`
/// and the text that follows the first `<` of the name at run time.
pub proof fn lemma_spliced_symbol(inline: Option<Inline>, name: Symbol, runtime_name: Seq<char>)
    requires
        inline != Some(Inline(true)),
        runtime_name.contains('<'),
    ensures
        planned(inline, Some(name), true) is Some,
        planned(inline, Some(name), true)->0.resolved(runtime_name) == name.0@ + seq!['<']
            + runtime_name.skip(index_of(runtime_name, '<') + 1),
{
    lemma_index_of_bounds(runtime_name, '<');
    let i = choose|i: int| 0 <= i < runtime_name.len() && runtime_name[i] == '<';
    assert(runtime_name[i] == '<');
}

/// Two instantiations of one generic type, whose names at run time differ
/// only behind the first `<`, are registered under different names.
pub proof fn lemma_spliced_symbols_differ(
    inline: Option<Inline>,
    name: Symbol,
    first: Seq<char>,
    second: Seq<char>,
)
    requires
        inline != Some(Inline(true)),
        first.contains('<'),
        second.contains('<'),
        first.take(index_of(first, '<')) == second.take(index_of(second, '<')),
        first != second,
    ensures
        planned(inline, Some(name), true)->0.resolved(first) != planned(
            inline,
            Some(name),
            true,
        )->0.resolved(second),
{
    lemma_spliced_symbol(inline, name, first);
    lemma_spliced_symbol(inline, name, second);
    lemma_index_of_bounds(first, '<');
    lemma_index_of_bounds(second, '<');
    let i = index_of(first, '<');
    let j = index_of(second, '<');
    let head = name.0@ + seq!['<'];
    let a = first.skip(i + 1);
    let b = second.skip(j + 1);
    assert(first.take(i).len() == i);
    assert(second.take(j).len() == j);
    if head + a == head + b {
        assert(a =~= (head + a).skip(head.len() as int));
        assert(b =~= (head + b).skip(head.len() as int));
        assert(first =~= first.take(i) + seq!['<'] + a);
        assert(second =~= second.take(j) + seq!['<'] + b);
    }
}

/// The name chosen where there is no explicit name and the schema is not
/// inline is the name of the type at run time, each path separator replaced
/// by a dot.
pub proof fn lemma_unnamed_symbol(inline: Option<Inline>, generic: bool, runtime_name: Seq<char>)
    requires
        inline != Some(Inline(true)),
    ensures
        planned(inline, None, generic) is Some,
        planned(inline, None, generic)->0.resolved(runtime_name) == replaced(
            runtime_name,
            separator(),
            dot(),
        ),
{
}

} // verus!
