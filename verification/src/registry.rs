//! The registry of named schemas that a generated implementation writes to,
//! and what running such an implementation does to it.

use vstd::prelude::*;
use vstd::string::*;
use crate::symbol::SymbolExpr;

verus! {

/// What a generated implementation returns: a reference to a registered
/// schema, or the schema itself.
#[derive(Debug)]
pub enum RefOr<S> {
    /// Path of a schema in the registry.
    Ref(String),
    /// The schema, embedded.
    T(S),
}

/// The registry: at most one schema under each name.
pub struct Components<S> {
    schemas: Vec<(String, S)>,
}

/// The map that a list of entries stands for, a later entry winning over an
/// earlier one of the same name.
pub open spec fn entries_map<S>(entries: Seq<(String, S)>) -> Map<Seq<char>, S>
    decreases entries.len(),
{
    if entries.len() == 0 {
        Map::empty()
    } else {
        entries_map(entries.drop_last()).insert(entries.last().0@, entries.last().1)
    }
}

/// No two entries have the same name.
pub open spec fn distinct_names<S>(entries: Seq<(String, S)>) -> bool {
    forall|i: int, j: int|
        0 <= i < j < entries.len() ==> (#[trigger] entries[i]).0@ != (#[trigger] entries[j]).0@
}

/// A name that no entry has is not in the map.
proof fn lemma_absent<S>(entries: Seq<(String, S)>, name: Seq<char>)
    requires
        forall|i: int| 0 <= i < entries.len() ==> (#[trigger] entries[i]).0@ != name,
    ensures
        !entries_map(entries).contains_key(name),
    decreases entries.len(),
{
    if entries.len() > 0 {
        let front = entries.drop_last();
        assert forall|i: int| 0 <= i < front.len() implies (#[trigger] front[i]).0@ != name by {
            assert(front[i] == entries[i]);
        }
        lemma_absent(front, name);
        assert(entries.last() == entries[entries.len() - 1]);
    }
}

/// Each entry of a list with distinct names is in the map.
proof fn lemma_present<S>(entries: Seq<(String, S)>, at: int)
    requires
        distinct_names(entries),
        0 <= at < entries.len(),
    ensures
        entries_map(entries).contains_key(entries[at].0@),
        entries_map(entries)[entries[at].0@] == entries[at].1,
    decreases entries.len(),
{
    let front = entries.drop_last();
    if at < entries.len() - 1 {
        assert forall|i: int, j: int| 0 <= i < j < front.len() implies (#[trigger] front[i]).0@ != (
        #[trigger] front[j]).0@ by {
            assert(front[i] == entries[i] && front[j] == entries[j]);
        }
        assert(front[at] == entries[at]);
        lemma_present(front, at);
        assert(entries.last() == entries[entries.len() - 1]);
    }
}

/// Replacing the schema of an entry is an insertion under its name.
proof fn lemma_replaced<S>(entries: Seq<(String, S)>, at: int, name: String, schema: S)
    requires
        distinct_names(entries),
        0 <= at < entries.len(),
        entries[at].0@ == name@,
    ensures
        distinct_names(entries.update(at, (name, schema))),
        entries_map(entries.update(at, (name, schema))) == entries_map(entries).insert(
            name@,
            schema,
        ),
    decreases entries.len(),
{
    let after = entries.update(at, (name, schema));
    assert forall|i: int, j: int| 0 <= i < j < after.len() implies (#[trigger] after[i]).0@ != (
    #[trigger] after[j]).0@ by {
        assert(after[i].0@ == entries[i].0@ && after[j].0@ == entries[j].0@);
    }
    let front = entries.drop_last();
    if at == entries.len() - 1 {
        assert(after.drop_last() == front);
        assert(entries_map(after) =~= entries_map(entries).insert(name@, schema));
    } else {
        assert forall|i: int, j: int| 0 <= i < j < front.len() implies (#[trigger] front[i]).0@ != (
        #[trigger] front[j]).0@ by {
            assert(front[i] == entries[i] && front[j] == entries[j]);
        }
        assert(front[at] == entries[at]);
        lemma_replaced(front, at, name, schema);
        assert(after.drop_last() == front.update(at, (name, schema)));
        assert(after.last() == entries.last());
        assert(entries.last() == entries[entries.len() - 1]);
        assert(entries_map(after) =~= entries_map(entries).insert(name@, schema));
    }
}

impl<S> View for Components<S> {
    type V = Map<Seq<char>, S>;

    closed spec fn view(&self) -> Map<Seq<char>, S> {
        entries_map(self.schemas@)
    }
}

impl<S> Components<S> {
    /// No two schemas are registered under one name.
    pub closed spec fn wf(&self) -> bool {
        distinct_names(self.schemas@)
    }

    /// A registry that holds no schema.
    pub fn new() -> (components: Self)
        ensures
            components.wf(),
            components@ == Map::<Seq<char>, S>::empty(),
    {
        Components { schemas: Vec::new() }
    }

    /// Index of the entry called `name`, if there is one.
    fn find(&self, name: &str) -> (found: Option<usize>)
        ensures
            match found {
                Some(at) => at < self.schemas@.len() && self.schemas@[at as int].0@ == name@,
                None => forall|i: int|
                    0 <= i < self.schemas@.len() ==> (#[trigger] self.schemas@[i]).0@ != name@,
            },
    {
        let wanted = name.to_owned();
        let mut i: usize = 0;
        while i < self.schemas.len()
            invariant
                i <= self.schemas@.len(),
                wanted@ == name@,
                forall|j: int| 0 <= j < i ==> (#[trigger] self.schemas@[j]).0@ != name@,
            decreases self.schemas@.len() - i,
        {
            if self.schemas[i].0 == wanted {
                return Some(i);
            }
            i += 1;
        }
        None
    }

    /// Puts `schema` under `name`; a schema that stood there is replaced.
    pub fn insert(&mut self, name: String, schema: S)
        requires
            old(self).wf(),
        ensures
            final(self).wf(),
            final(self)@ == old(self)@.insert(name@, schema),
    {
        match self.find(name.as_str()) {
            Some(at) => {
                proof {
                    lemma_replaced(self.schemas@, at as int, name, schema);
                }
                self.schemas.set(at, (name, schema));
            },
            None => {
                let ghost before = self.schemas@;
                self.schemas.push((name, schema));
                assert(self.schemas@.drop_last() == before);
            },
        }
    }

    /// The schema registered under `name`.
    pub fn get(&self, name: &str) -> (schema: Option<&S>)
        requires
            self.wf(),
        ensures
            match schema {
                Some(found) => self@.contains_key(name@) && self@[name@] == *found,
                None => !self@.contains_key(name@),
            },
    {
        match self.find(name) {
            Some(at) => {
                proof {
                    lemma_present(self.schemas@, at as int);
                }
                Some(&self.schemas[at].1)
            },
            None => {
                proof {
                    lemma_absent(self.schemas@, name@);
                }
                None
            },
        }
    }

    /// How many schemas are registered.
    pub fn len(&self) -> (count: usize)
        requires
            self.wf(),
        ensures
            count == self@.dom().len(),
    {
        proof {
            lemma_count(self.schemas@);
        }
        self.schemas.len()
    }
}

/// A list with distinct names stands for a map of as many schemas.
proof fn lemma_count<S>(entries: Seq<(String, S)>)
    requires
        distinct_names(entries),
    ensures
        entries_map(entries).dom().finite(),
        entries_map(entries).dom().len() == entries.len(),
    decreases entries.len(),
{
    if entries.len() > 0 {
        let front = entries.drop_last();
        assert forall|i: int, j: int| 0 <= i < j < front.len() implies (#[trigger] front[i]).0@ != (
        #[trigger] front[j]).0@ by {
            assert(front[i] == entries[i] && front[j] == entries[j]);
        }
        lemma_count(front);
        assert forall|i: int| 0 <= i < front.len() implies (#[trigger] front[i]).0@
            != entries.last().0@ by {
            assert(front[i] == entries[i]);
            assert(entries.last() == entries[entries.len() - 1]);
        }
        lemma_absent(front, entries.last().0@);
    }
}


/// Path of the schema registered under `symbol`.
pub open spec fn schema_path(symbol: Seq<char>) -> Seq<char> {
    "#/components/schemas/"@ + symbol
}

/// Path of the schema registered under `symbol`.
pub fn reference_path(symbol: &str) -> (path: String)
    ensures
        path@ == schema_path(symbol@),
{
    let mut path = "#/components/schemas/".to_owned();
    path.append(symbol);
    path
}

/// What a generated implementation does when it runs for a type called
/// `runtime_name`, once its schema is built: without a name it hands the
/// schema back and leaves the registry alone; with one it registers the
/// schema under the resolved name and hands back the reference to it.
pub fn to_schema<S>(
    symbol: &Option<SymbolExpr>,
    runtime_name: &str,
    schema: S,
    components: &mut Components<S>,
) -> (out: RefOr<S>)
    requires
        old(components).wf(),
    ensures
        final(components).wf(),
        match symbol {
            None => out == RefOr::T(schema) && final(components)@ == old(components)@,
            Some(expr) => {
                &&& out matches RefOr::Ref(path)
                &&& path@ == schema_path(expr.resolved(runtime_name@))
                &&& final(components)@ == old(components)@.insert(
                    expr.resolved(runtime_name@),
                    schema,
                )
            },
        },
{
    match symbol {
        None => RefOr::T(schema),
        Some(expr) => {
            let name = expr.resolve(runtime_name);
            let path = reference_path(name.as_str());
            components.insert(name, schema);
            RefOr::Ref(path)
        },
    }
}

/// Registering a schema a second time under the same name leaves the
/// registry as the first registration left it.
pub proof fn lemma_insert_idempotent<S>(registry: Map<Seq<char>, S>, symbol: Seq<char>, schema: S)
    ensures
        registry.insert(symbol, schema).insert(symbol, schema) == registry.insert(symbol, schema),
{
    assert(registry.insert(symbol, schema).insert(symbol, schema) =~= registry.insert(
        symbol,
        schema,
    ));
}

} // verus!
