//! The generic parameters of a type definition and how they print in the
//! header of an implementation.

use vstd::prelude::*;
use vstd::string::*;

verus! {

/// What a generic parameter stands for.
#[derive(Clone, Copy, Debug, PartialEq, Eq, Structural)]
pub enum ParamKind {
    Lifetime,
    Type,
    Const,
}

/// One generic parameter of a type definition.
#[derive(Debug)]
pub struct GenericParam {
    /// The outer attributes of the parameter, as written; empty where it
    /// has none.
    pub attributes: String,
    pub kind: ParamKind,
    /// The parameter as it is used: `'a`, `T`, `N`.
    pub name: String,
    /// What follows the colon in its declaration: the bounds of a lifetime
    /// or type parameter, empty where it has none, or the type of a const
    /// parameter.
    pub bounds: String,
    /// The default that the declaration gives the parameter.
    pub default: Option<String>,
}

/// The generic parameters of a type definition and its where-predicates.
#[derive(Debug)]
pub struct Generics {
    pub params: Vec<GenericParam>,
    pub predicates: Vec<String>,
}

/// A generic parameter as plain text.
pub ghost struct ParamView {
    pub attributes: Seq<char>,
    pub kind: ParamKind,
    pub name: Seq<char>,
    pub bounds: Seq<char>,
    pub default: Option<Seq<char>>,
}

/// Generics as plain text.
pub ghost struct GenericsView {
    pub params: Seq<ParamView>,
    pub predicates: Seq<Seq<char>>,
}

/// The texts of a list of strings.
pub open spec fn texts(strings: Seq<String>) -> Seq<Seq<char>> {
    strings.map_values(|s: String| s@)
}

impl View for GenericParam {
    type V = ParamView;

    open spec fn view(&self) -> ParamView {
        ParamView {
            attributes: self.attributes@,
            kind: self.kind,
            name: self.name@,
            bounds: self.bounds@,
            default: match self.default {
                Some(text) => Some(text@),
                None => None,
            },
        }
    }
}

impl View for Generics {
    type V = GenericsView;

    open spec fn view(&self) -> GenericsView {
        GenericsView {
            params: self.params@.map_values(|p: GenericParam| p@),
            predicates: texts(self.predicates@),
        }
    }
}

impl ParamView {
    /// The parameter without its default.
    pub open spec fn without_default(self) -> ParamView {
        ParamView { default: None, ..self }
    }

    /// The parameter as the header of an implementation declares it,
    /// attributes aside: with its bounds, without its default.
    pub open spec fn bounded(self) -> Seq<char> {
        match self.kind {
            ParamKind::Const => "const "@ + self.name + ": "@ + self.bounds,
            _ => if self.bounds.len() == 0 {
                self.name
            } else {
                self.name + ": "@ + self.bounds
            },
        }
    }

    /// The parameter as the header of an implementation declares it: its
    /// attributes, then the parameter with its bounds, without its default.
    pub open spec fn declared(self) -> Seq<char> {
        if self.attributes.len() == 0 {
            self.bounded()
        } else {
            self.attributes + " "@ + self.bounded()
        }
    }

    /// The parameter as a list of parameters or of arguments prints it.
    pub open spec fn printed(self, names: bool) -> Seq<char> {
        if names {
            self.name
        } else {
            self.declared()
        }
    }

    /// Whether the parameter is a lifetime.
    pub open spec fn is_lifetime(self) -> bool {
        self.kind == ParamKind::Lifetime
    }
}

/// The lifetimes among `params`, in their order.
pub open spec fn lifetimes(params: Seq<ParamView>) -> Seq<ParamView> {
    params.filter(|p: ParamView| p.is_lifetime())
}

/// The type and const parameters among `params`, in their order.
pub open spec fn non_lifetimes(params: Seq<ParamView>) -> Seq<ParamView> {
    params.filter(|p: ParamView| !p.is_lifetime())
}

/// `params` as a list prints them: the lifetimes before the type and const
/// parameters, whatever their order in `params`; each by its name alone
/// where `names` is set, else as it is declared.
pub open spec fn listed(params: Seq<ParamView>, names: bool) -> Seq<Seq<char>> {
    (lifetimes(params) + non_lifetimes(params)).map_values(|p: ParamView| p.printed(names))
}

/// `parts` in order, `separator` between each two.
pub open spec fn joined(parts: Seq<Seq<char>>, separator: Seq<char>) -> Seq<char>
    decreases parts.len(),
{
    if parts.len() == 0 {
        Seq::empty()
    } else if parts.len() == 1 {
        parts[0]
    } else {
        joined(parts.drop_last(), separator) + separator + parts.last()
    }
}

impl GenericsView {
    /// Whether a type parameter is among the parameters.
    pub open spec fn has_type_params(self) -> bool {
        exists|i: int|
            0 <= i < self.params.len() && (#[trigger] self.params[i]).kind == ParamKind::Type
    }

    /// The same generics, no parameter with a default.
    pub open spec fn without_defaults(self) -> GenericsView {
        GenericsView {
            params: self.params.map_values(|p: ParamView| p.without_default()),
            predicates: self.predicates,
        }
    }

    /// The same generics with one more where-predicate.
    pub open spec fn with_predicate(self, predicate: Seq<char>) -> GenericsView {
        GenericsView { params: self.params, predicates: self.predicates.push(predicate) }
    }

    /// The same generics with the predicate `bound` on each of `bounded`.
    pub open spec fn with_bound(self, bounded: Seq<Seq<char>>, bound: Seq<char>) -> GenericsView {
        GenericsView {
            params: self.params,
            predicates: self.predicates + bounded.map_values(|ty: Seq<char>| ty + ": "@ + bound),
        }
    }

    /// The parameter list that follows `impl`, lifetimes first: empty
    /// without parameters.
    pub open spec fn impl_generics(self) -> Seq<char> {
        if self.params.len() == 0 {
            Seq::empty()
        } else {
            "<"@ + joined(listed(self.params, false), ", "@) + ">"@
        }
    }

    /// The argument list that follows the name of the type, lifetimes
    /// first: empty without parameters.
    pub open spec fn ty_generics(self) -> Seq<char> {
        if self.params.len() == 0 {
            Seq::empty()
        } else {
            "<"@ + joined(listed(self.params, true), ", "@) + ">"@
        }
    }

    /// The where-clause, with a space before it: empty without predicates.
    pub open spec fn where_clause(self) -> Seq<char> {
        if self.predicates.len() == 0 {
            Seq::empty()
        } else {
            " where "@ + joined(self.predicates, ", "@)
        }
    }
}

/// `parts` in order, `separator` between each two.
pub fn join(parts: &Vec<String>, separator: &str) -> (text: String)
    ensures
        text@ == joined(texts(parts@), separator@),
{
    let mut text = String::new();
    let mut i: usize = 0;
    while i < parts.len()
        invariant
            i <= parts.len(),
            text@ == joined(texts(parts@).take(i as int), separator@),
        decreases parts.len() - i,
    {
        proof {
            let next = texts(parts@).take(i + 1);
            assert(next.drop_last() == texts(parts@).take(i as int));
            assert(next.last() == parts@[i as int]@);
        }
        if i > 0 {
            text.append(separator);
        }
        text.append(parts[i].as_str());
        i += 1;
    }
    assert(texts(parts@).take(parts.len() as int) == texts(parts@));
    text
}

impl GenericParam {
    /// The parameter without its default.
    pub fn without_default(&self) -> (param: GenericParam)
        ensures
            param@ == self@.without_default(),
    {
        GenericParam {
            attributes: self.attributes.clone(),
            kind: self.kind,
            name: self.name.clone(),
            bounds: self.bounds.clone(),
            default: None,
        }
    }

    /// The parameter as the header of an implementation declares it.
    pub fn declared(&self) -> (text: String)
        ensures
            text@ == self@.declared(),
    {
        let mut text = String::new();
        if self.attributes.as_str().unicode_len() > 0 {
            text.append(self.attributes.as_str());
            text.append(" ");
        }
        match self.kind {
            ParamKind::Const => {
                text.append("const ");
                text.append(self.name.as_str());
                text.append(": ");
                text.append(self.bounds.as_str());
            },
            _ => {
                text.append(self.name.as_str());
                if self.bounds.as_str().unicode_len() > 0 {
                    text.append(": ");
                    text.append(self.bounds.as_str());
                }
            },
        }
        assert(text@ =~= self@.declared());
        text
    }

    /// The parameter as a list of parameters or of arguments prints it.
    pub fn printed(&self, names: bool) -> (text: String)
        ensures
            text@ == self@.printed(names),
    {
        if names {
            self.name.clone()
        } else {
            self.declared()
        }
    }
}

impl Generics {
    /// Whether the type has a type parameter.
    pub fn has_type_params(&self) -> (found: bool)
        ensures
            found == self@.has_type_params(),
    {
        let mut i: usize = 0;
        while i < self.params.len()
            invariant
                i <= self.params.len(),
                forall|j: int| 0 <= j < i ==> (#[trigger] self@.params[j]).kind != ParamKind::Type,
            decreases self.params.len() - i,
        {
            if self.params[i].kind == ParamKind::Type {
                assert(self@.params[i as int].kind == ParamKind::Type);
                return true;
            }
            i += 1;
        }
        false
    }

    /// The same generics, no parameter with a default.
    pub fn without_defaults(&self) -> (stripped: Generics)
        ensures
            stripped@ == self@.without_defaults(),
    {
        let mut params: Vec<GenericParam> = Vec::new();
        let mut i: usize = 0;
        while i < self.params.len()
            invariant
                i <= self.params.len(),
                params@.len() == i,
                forall|j: int|
                    0 <= j < i ==> (#[trigger] params@[j])@ == self.params@[j]@.without_default(),
            decreases self.params.len() - i,
        {
            params.push(self.params[i].without_default());
            i += 1;
        }
        let mut predicates: Vec<String> = Vec::new();
        let mut k: usize = 0;
        while k < self.predicates.len()
            invariant
                k <= self.predicates.len(),
                predicates@.len() == k,
                forall|j: int| 0 <= j < k ==> (#[trigger] predicates@[j])@ == self.predicates@[j]@,
            decreases self.predicates.len() - k,
        {
            predicates.push(self.predicates[k].clone());
            k += 1;
        }
        let stripped = Generics { params, predicates };
        assert(stripped@.params =~= self@.without_defaults().params);
        assert(stripped@.predicates =~= self@.predicates);
        stripped
    }

    /// The same generics with `predicates` as one more where-predicate.
    pub fn with_where_predicates(self, predicates: &str) -> (extended: Generics)
        ensures
            extended@ == self@.with_predicate(predicates@),
    {
        let mut extended = self;
        extended.predicates.push(predicates.to_owned());
        assert(extended@.predicates =~= self@.predicates.push(predicates@));
        extended
    }

    /// The same generics with the predicate `bound` on each of `bounded`.
    pub fn with_bound(self, bounded: &Vec<String>, bound: &str) -> (extended: Generics)
        ensures
            extended@ == self@.with_bound(texts(bounded@), bound@),
    {
        let mut extended = self;
        let mut i: usize = 0;
        while i < bounded.len()
            invariant
                i <= bounded.len(),
                extended@.params == self@.params,
                extended@.predicates == self@.predicates + texts(bounded@).take(
                    i as int,
                ).map_values(|ty: Seq<char>| ty + ": "@ + bound@),
            decreases bounded.len() - i,
        {
            let mut predicate = bounded[i].clone();
            predicate.append(": ");
            predicate.append(bound);
            let ghost before = extended@.predicates;
            extended.predicates.push(predicate);
            assert(extended@.predicates =~= before.push(predicate@));
            assert(extended@.predicates =~= self@.predicates + texts(bounded@).take(
                i + 1,
            ).map_values(|ty: Seq<char>| ty + ": "@ + bound@));
            i += 1;
        }
        assert(texts(bounded@).take(bounded.len() as int) == texts(bounded@));
        extended
    }
}


impl Generics {
    /// The parameters as a list prints them, lifetimes first.
    pub fn listed(&self, names: bool) -> (list: Vec<String>)
        ensures
            texts(list@) == listed(self@.params, names),
    {
        let ghost params = self@.params;
        let ghost print = |p: ParamView| p.printed(names);
        let mut list: Vec<String> = Vec::new();
        let mut i: usize = 0;
        assert(texts(list@) =~= lifetimes(params.take(0)).map_values(print));
        while i < self.params.len()
            invariant
                i <= self.params.len(),
                params == self@.params,
                print == |p: ParamView| p.printed(names),
                texts(list@) == lifetimes(params.take(i as int)).map_values(print),
            decreases self.params.len() - i,
        {
            proof {
                let next = params.take(i + 1);
                assert(next.drop_last() == params.take(i as int));
                assert(next.last() == self.params@[i as int]@);
                reveal(Seq::filter);
            }
            let ghost before = list@;
            if self.params[i].kind == ParamKind::Lifetime {
                list.push(self.params[i].printed(names));
                assert(texts(list@) =~= texts(before).push(print(self.params@[i as int]@)));
                assert(texts(list@) =~= lifetimes(params.take(i + 1)).map_values(print));
            }
            i += 1;
        }
        assert(params.take(self.params.len() as int) == params);
        let ghost first = lifetimes(params).map_values(print);
        let mut k: usize = 0;
        assert(texts(list@) =~= first + non_lifetimes(params.take(0)).map_values(print));
        while k < self.params.len()
            invariant
                k <= self.params.len(),
                params == self@.params,
                print == |p: ParamView| p.printed(names),
                first == lifetimes(params).map_values(print),
                texts(list@) == first + non_lifetimes(params.take(k as int)).map_values(print),
            decreases self.params.len() - k,
        {
            proof {
                let next = params.take(k + 1);
                assert(next.drop_last() == params.take(k as int));
                assert(next.last() == self.params@[k as int]@);
                reveal(Seq::filter);
            }
            let ghost before = list@;
            if self.params[k].kind != ParamKind::Lifetime {
                list.push(self.params[k].printed(names));
                assert(texts(list@) =~= texts(before).push(print(self.params@[k as int]@)));
                assert(texts(list@) =~= first + non_lifetimes(params.take(k + 1)).map_values(
                    print,
                ));
            }
            k += 1;
        }
        assert(params.take(self.params.len() as int) == params);
        assert(texts(list@) =~= listed(params, names));
        list
    }

    /// The parameter list that follows `impl`, lifetimes first.
    pub fn impl_generics(&self) -> (text: String)
        ensures
            text@ == self@.impl_generics(),
    {
        if self.params.len() == 0 {
            return String::new();
        }
        let mut text = "<".to_owned();
        text.append(join(&self.listed(false), ", ").as_str());
        text.append(">");
        text
    }

    /// The argument list that follows the name of the type, lifetimes first.
    pub fn ty_generics(&self) -> (text: String)
        ensures
            text@ == self@.ty_generics(),
    {
        if self.params.len() == 0 {
            return String::new();
        }
        let mut text = "<".to_owned();
        text.append(join(&self.listed(true), ", ").as_str());
        text.append(">");
        text
    }

    /// The where-clause, with a space before it.
    pub fn where_clause(&self) -> (text: String)
        ensures
            text@ == self@.where_clause(),
    {
        if self.predicates.len() == 0 {
            return String::new();
        }
        let mut text = " where ".to_owned();
        text.append(join(&self.predicates, ", ").as_str());
        text
    }
}

} // verus!
