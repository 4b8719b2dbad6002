//! The bounds that the generated implementation puts on the generic
//! parameters of the type.

use vstd::prelude::*;
use vstd::string::*;
use crate::feature::{bound_of, skip_bound_of, without_first, Feature, FeatureKind, SkipBound};
use crate::generics::{texts, Generics, GenericsView};
use crate::shape::SchemaVariant;

verus! {

/// Where the bounds of the generated implementation come from.
#[derive(Debug)]
pub enum BoundPlan {
    /// No bound is added to what the type declares.
    Skip,
    /// The explicit predicates are added.
    Explicit(String),
    /// The default bound is added on each parameter that takes part.
    Default,
}

/// The plan that `features` ask for: `SkipBound` set to true wins over any
/// `Bound`; without either, the default bound.
pub open spec fn planned_bound(features: Seq<Feature>) -> BoundPlan {
    if skip_bound_of(features) == Some(SkipBound(true)) {
        BoundPlan::Skip
    } else {
        match bound_of(without_first(features, FeatureKind::SkipBound)) {
            Some(bound) => BoundPlan::Explicit(bound.0),
            None => BoundPlan::Default,
        }
    }
}

/// `features` once the plan is made: without the first `SkipBound`, and,
/// unless that was set to true, without the first `Bound`.
pub open spec fn after_plan(features: Seq<Feature>) -> Seq<Feature> {
    let rest = without_first(features, FeatureKind::SkipBound);
    if skip_bound_of(features) == Some(SkipBound(true)) {
        rest
    } else {
        without_first(rest, FeatureKind::Bound)
    }
}

/// Pops from the features of `variant` what decides the bounds, `SkipBound`
/// before `Bound`, and says which plan they ask for. A `Bound` beside a
/// `SkipBound` set to true is not popped and not used.
pub fn plan_bound(variant: &mut SchemaVariant<'_>) -> (plan: BoundPlan)
    ensures
        plan == planned_bound(old(variant).features()),
        final(variant).features() == after_plan(old(variant).features()),
        final(variant).same_but_features(old(variant)),
{
    let skip = match variant.pop_skip_bound() {
        Some(flag) => flag.0,
        None => false,
    };
    if skip {
        BoundPlan::Skip
    } else {
        match variant.pop_bound() {
            Some(bound) => BoundPlan::Explicit(bound.0),
            None => BoundPlan::Default,
        }
    }
}

/// The default bound: the capability to build a schema, for as long as the
/// program runs. `oapi` is the path of the crate that defines the capability.
pub open spec fn capability(oapi: Seq<char>) -> Seq<char> {
    oapi + "::oapi::ToSchema + 'static"@
}

/// The generics of the generated implementation: those of the type without
/// defaults, with the predicates that `plan` adds. `bounded` are the types
/// that take part in the default bound.
pub open spec fn signature_generics(
    plan: BoundPlan,
    generics: GenericsView,
    bounded: Seq<Seq<char>>,
    oapi: Seq<char>,
) -> GenericsView {
    let stripped = generics.without_defaults();
    match plan {
        BoundPlan::Skip => stripped,
        BoundPlan::Explicit(predicates) => stripped.with_predicate(predicates@),
        BoundPlan::Default => stripped.with_bound(bounded, capability(oapi)),
    }
}

/// Builds the generics of the generated implementation.
pub fn bound_generics(
    plan: &BoundPlan,
    generics: &Generics,
    bounded: &Vec<String>,
    oapi: &str,
) -> (bound: Generics)
    ensures
        bound@ == signature_generics(*plan, generics@, texts(bounded@), oapi@),
{
    let stripped = generics.without_defaults();
    match plan {
        BoundPlan::Skip => stripped,
        BoundPlan::Explicit(predicates) => stripped.with_where_predicates(predicates.as_str()),
        BoundPlan::Default => {
            let mut bound = oapi.to_owned();
            bound.append("::oapi::ToSchema + 'static");
            stripped.with_bound(bounded, bound.as_str())
        },
    }
}

/// Where `SkipBound` is set, the generated implementation has the generics of
/// the type without defaults and nothing more, whatever `Bound` stands
/// beside it and whichever types would take part in the default bound.
pub proof fn lemma_skip_bound_wins(
    features: Seq<Feature>,
    generics: GenericsView,
    bounded: Seq<Seq<char>>,
    oapi: Seq<char>,
)
    requires
        skip_bound_of(features) == Some(SkipBound(true)),
    ensures
        planned_bound(features) == BoundPlan::Skip,
        signature_generics(planned_bound(features), generics, bounded, oapi)
            == generics.without_defaults(),
        signature_generics(planned_bound(features), generics, bounded, oapi).where_clause()
            == generics.where_clause(),
{
}

} // verus!
