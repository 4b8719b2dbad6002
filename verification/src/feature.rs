//! Typed features of a type definition and the bag they are popped from.

use vstd::prelude::*;

verus! {

/// Explicit name under which a schema is registered.
#[derive(Debug, PartialEq, Eq)]
pub struct Symbol(pub String);

/// Whether a schema is embedded at each use instead of being registered.
#[derive(Clone, Copy, Debug, PartialEq, Eq, Structural)]
pub struct Inline(pub bool);

/// Explicit where-predicates for the generated implementation.
#[derive(Debug, PartialEq, Eq)]
pub struct Bound(pub String);

/// Whether no bound is added to the generic parameters at all.
#[derive(Clone, Copy, Debug, PartialEq, Eq, Structural)]
pub struct SkipBound(pub bool);

/// One typed annotation of a type definition, as feature extraction yields it.
#[derive(Debug, PartialEq, Eq)]
pub enum Feature {
    Symbol(Symbol),
    Inline(Inline),
    Bound(Bound),
    SkipBound(SkipBound),
    /// Renaming policy for the fields of a record; interpreted by its builder.
    RenameAll(String),
    /// Any other annotation, carried through untouched for the builders.
    Other(String),
}

/// The variant of a [`Feature`], without its value.
#[derive(Clone, Copy, Debug, PartialEq, Eq, Structural)]
pub enum FeatureKind {
    Symbol,
    Inline,
    Bound,
    SkipBound,
    RenameAll,
    Other,
}

impl Feature {
    /// Which variant this feature is.
    pub open spec fn spec_kind(&self) -> FeatureKind {
        match self {
            Feature::Symbol(_) => FeatureKind::Symbol,
            Feature::Inline(_) => FeatureKind::Inline,
            Feature::Bound(_) => FeatureKind::Bound,
            Feature::SkipBound(_) => FeatureKind::SkipBound,
            Feature::RenameAll(_) => FeatureKind::RenameAll,
            Feature::Other(_) => FeatureKind::Other,
        }
    }

    /// Which variant this feature is.
    #[verifier::when_used_as_spec(spec_kind)]
    pub fn kind(&self) -> (k: FeatureKind)
        ensures
            k == self.spec_kind(),
    {
        match self {
            Feature::Symbol(_) => FeatureKind::Symbol,
            Feature::Inline(_) => FeatureKind::Inline,
            Feature::Bound(_) => FeatureKind::Bound,
            Feature::SkipBound(_) => FeatureKind::SkipBound,
            Feature::RenameAll(_) => FeatureKind::RenameAll,
            Feature::Other(_) => FeatureKind::Other,
        }
    }

    /// A copy of this feature.
    pub fn duplicate(&self) -> (copy: Feature)
        ensures
            copy == *self,
    {
        match self {
            Feature::Symbol(s) => Feature::Symbol(Symbol(s.0.clone())),
            Feature::Inline(b) => Feature::Inline(*b),
            Feature::Bound(s) => Feature::Bound(Bound(s.0.clone())),
            Feature::SkipBound(b) => Feature::SkipBound(*b),
            Feature::RenameAll(s) => Feature::RenameAll(s.clone()),
            Feature::Other(s) => Feature::Other(s.clone()),
        }
    }
}

/// Index of the first feature of `kind` in `features`, or the length of
/// `features` where it holds none.
pub open spec fn position(features: Seq<Feature>, kind: FeatureKind) -> int
    decreases features.len(),
{
    if features.len() == 0 {
        0
    } else if features[0].kind() == kind {
        0
    } else {
        1 + position(features.drop_first(), kind)
    }
}

/// The first feature of `kind` in `features`.
pub open spec fn first_of(features: Seq<Feature>, kind: FeatureKind) -> Option<Feature> {
    let i = position(features, kind);
    if i < features.len() {
        Some(features[i])
    } else {
        None
    }
}

/// `features` without its first feature of `kind`; the others keep their order.
pub open spec fn without_first(features: Seq<Feature>, kind: FeatureKind) -> Seq<Feature> {
    let i = position(features, kind);
    if i < features.len() {
        features.remove(i)
    } else {
        features
    }
}

/// `position` is the least index that holds a feature of `kind`.
pub proof fn lemma_position(features: Seq<Feature>, kind: FeatureKind, i: int)
    requires
        0 <= i <= features.len(),
        forall|j: int| 0 <= j < i ==> (#[trigger] features[j]).kind() != kind,
        i < features.len() ==> features[i].kind() == kind,
    ensures
        position(features, kind) == i,
    decreases features.len(),
{
    if features.len() > 0 && i > 0 {
        let rest = features.drop_first();
        assert forall|j: int| 0 <= j < i - 1 implies (#[trigger] rest[j]).kind() != kind by {
            assert(rest[j] == features[j + 1]);
        }
        lemma_position(rest, kind, i - 1);
    }
}

/// `position` stays within the sequence, and nothing before it is of `kind`.
pub proof fn lemma_position_bounds(features: Seq<Feature>, kind: FeatureKind)
    ensures
        0 <= position(features, kind) <= features.len(),
        forall|j: int|
            0 <= j < position(features, kind) ==> (#[trigger] features[j]).kind() != kind,
        position(features, kind) < features.len() ==> features[position(features, kind)].kind()
            == kind,
    decreases features.len(),
{
    if features.len() > 0 && features[0].kind() != kind {
        let rest = features.drop_first();
        lemma_position_bounds(rest, kind);
        assert forall|j: int| 0 <= j < position(features, kind) implies (
        #[trigger] features[j]).kind() != kind by {
            if j > 0 {
                assert(features[j] == rest[j - 1]);
            }
        }
    }
}

/// Removes the first feature of `kind` from the bag and returns it.
pub fn pop_by_kind(features: &mut Vec<Feature>, kind: FeatureKind) -> (popped: Option<Feature>)
    ensures
        popped == first_of(old(features)@, kind),
        final(features)@ == without_first(old(features)@, kind),
{
    let mut i: usize = 0;
    while i < features.len()
        invariant
            i <= features.len(),
            *features == *old(features),
            forall|j: int| 0 <= j < i ==> (#[trigger] features@[j]).kind() != kind,
        decreases features.len() - i,
    {
        if features[i].kind() == kind {
            proof {
                lemma_position(features@, kind, i as int);
            }
            return Some(features.remove(i));
        }
        i += 1;
    }
    proof {
        lemma_position(features@, kind, i as int);
    }
    None
}


/// Popping one kind of feature does not change which feature of another
/// kind comes first.
pub proof fn lemma_pop_keeps_others(features: Seq<Feature>, popped: FeatureKind, kind: FeatureKind)
    requires
        popped != kind,
    ensures
        first_of(without_first(features, popped), kind) == first_of(features, kind),
    decreases features.len(),
{
    if features.len() > 0 {
        let rest = features.drop_first();
        lemma_position_bounds(features, popped);
        lemma_position_bounds(rest, popped);
        lemma_position_bounds(rest, kind);
        if features[0].kind() == popped {
            assert(without_first(features, popped) == rest);
            if position(rest, kind) < rest.len() {
                assert(rest[position(rest, kind)] == features[1 + position(rest, kind)]);
            }
        } else {
            let tail = without_first(rest, popped);
            assert(without_first(features, popped) =~= seq![features[0]] + tail);
            let shorter = seq![features[0]] + tail;
            assert(shorter.drop_first() =~= tail);
            if features[0].kind() != kind {
                lemma_pop_keeps_others(rest, popped, kind);
                lemma_position_bounds(tail, kind);
                if position(tail, kind) < tail.len() {
                    assert(shorter[1 + position(tail, kind)] == tail[position(tail, kind)]);
                }
                if position(rest, kind) < rest.len() {
                    assert(rest[position(rest, kind)] == features[1 + position(rest, kind)]);
                }
            }
        }
    }
}

/// The first `Symbol` feature of `features`, if any.
pub open spec fn symbol_of(features: Seq<Feature>) -> Option<Symbol> {
    match first_of(features, FeatureKind::Symbol) {
        Some(Feature::Symbol(name)) => Some(name),
        _ => None,
    }
}

/// The first `Inline` feature of `features`, if any.
pub open spec fn inline_of(features: Seq<Feature>) -> Option<Inline> {
    match first_of(features, FeatureKind::Inline) {
        Some(Feature::Inline(flag)) => Some(flag),
        _ => None,
    }
}

/// The first `Bound` feature of `features`, if any.
pub open spec fn bound_of(features: Seq<Feature>) -> Option<Bound> {
    match first_of(features, FeatureKind::Bound) {
        Some(Feature::Bound(predicates)) => Some(predicates),
        _ => None,
    }
}

/// The first `SkipBound` feature of `features`, if any.
pub open spec fn skip_bound_of(features: Seq<Feature>) -> Option<SkipBound> {
    match first_of(features, FeatureKind::SkipBound) {
        Some(Feature::SkipBound(flag)) => Some(flag),
        _ => None,
    }
}

/// The policy of the first `RenameAll` feature of `features`, if any.
pub open spec fn rename_all_of(features: Seq<Feature>) -> Option<String> {
    match first_of(features, FeatureKind::RenameAll) {
        Some(Feature::RenameAll(policy)) => Some(policy),
        _ => None,
    }
}

/// Removes the first `Symbol` feature from the bag and returns it.
pub fn pop_symbol(features: &mut Vec<Feature>) -> (symbol: Option<Symbol>)
    ensures
        symbol == symbol_of(old(features)@),
        final(features)@ == without_first(old(features)@, FeatureKind::Symbol),
{
    match pop_by_kind(features, FeatureKind::Symbol) {
        Some(Feature::Symbol(name)) => Some(name),
        _ => None,
    }
}

/// Removes the first `Inline` feature from the bag and returns it.
pub fn pop_inline(features: &mut Vec<Feature>) -> (inline: Option<Inline>)
    ensures
        inline == inline_of(old(features)@),
        final(features)@ == without_first(old(features)@, FeatureKind::Inline),
{
    match pop_by_kind(features, FeatureKind::Inline) {
        Some(Feature::Inline(flag)) => Some(flag),
        _ => None,
    }
}

/// Removes the first `Bound` feature from the bag and returns it.
pub fn pop_bound(features: &mut Vec<Feature>) -> (bound: Option<Bound>)
    ensures
        bound == bound_of(old(features)@),
        final(features)@ == without_first(old(features)@, FeatureKind::Bound),
{
    match pop_by_kind(features, FeatureKind::Bound) {
        Some(Feature::Bound(predicates)) => Some(predicates),
        _ => None,
    }
}

/// Removes the first `SkipBound` feature from the bag and returns it.
pub fn pop_skip_bound(features: &mut Vec<Feature>) -> (skip: Option<SkipBound>)
    ensures
        skip == skip_bound_of(old(features)@),
        final(features)@ == without_first(old(features)@, FeatureKind::SkipBound),
{
    match pop_by_kind(features, FeatureKind::SkipBound) {
        Some(Feature::SkipBound(flag)) => Some(flag),
        _ => None,
    }
}

/// Removes the first `RenameAll` feature from the bag and returns its policy.
pub fn pop_rename_all(features: &mut Vec<Feature>) -> (policy: Option<String>)
    ensures
        policy == rename_all_of(old(features)@),
        final(features)@ == without_first(old(features)@, FeatureKind::RenameAll),
{
    match pop_by_kind(features, FeatureKind::RenameAll) {
        Some(Feature::RenameAll(policy)) => Some(policy),
        _ => None,
    }
}

/// A copy of a bag of features, in the same order.
pub fn duplicate_all(features: &Vec<Feature>) -> (copy: Vec<Feature>)
    ensures
        copy@ == features@,
{
    let mut copy: Vec<Feature> = Vec::new();
    let mut i: usize = 0;
    while i < features.len()
        invariant
            i <= features.len(),
            copy@ == features@.take(i as int),
        decreases features.len() - i,
    {
        copy.push(features[i].duplicate());
        assert(features@.take(i + 1) == features@.take(i as int).push(features@[i as int]));
        i += 1;
    }
    assert(features@.take(features.len() as int) == features@);
    copy
}

/// Parts a bag into its `Symbol` features and all the others, each part in
/// the order of the bag.
pub fn split_for_symbol(features: Vec<Feature>) -> (parts: (Vec<Feature>, Vec<Feature>))
    ensures
        parts.0@ == features@.filter(|f: Feature| f is Symbol),
        parts.1@ == features@.filter(|f: Feature| !(f is Symbol)),
{
    let ghost is_symbol = |f: Feature| f is Symbol;
    let ghost is_other = |f: Feature| !(f is Symbol);
    let mut symbols: Vec<Feature> = Vec::new();
    let mut others: Vec<Feature> = Vec::new();
    let mut i: usize = 0;
    while i < features.len()
        invariant
            i <= features.len(),
            is_symbol == |f: Feature| f is Symbol,
            is_other == |f: Feature| !(f is Symbol),
            symbols@ == features@.take(i as int).filter(is_symbol),
            others@ == features@.take(i as int).filter(is_other),
        decreases features.len() - i,
    {
        let feature = features[i].duplicate();
        proof {
            let next = features@.take(i + 1);
            assert(next.drop_last() == features@.take(i as int));
            assert(next.last() == features@[i as int]);
            reveal(Seq::filter);
        }
        match feature.kind() {
            FeatureKind::Symbol => symbols.push(feature),
            _ => others.push(feature),
        }
        i += 1;
    }
    assert(features@.take(features.len() as int) == features@);
    (symbols, others)
}

} // verus!
