//! Pair expansion: one two-step implementation for each pair of neighbours
//! in the list, so that every stop on the way is reachable by itself.

use vstd::prelude::*;
use crate::direction::Direction;
use crate::model::{texts, ConversionSpec, TypeRef};
use crate::synth::{
    generate_spec, impl_models, implement_route, implementation_along, pair_spec, pairs_spec,
    process_transitive_attr, route, GeneratedImplementation,
};

verus! {

/// The route through one pair of neighbours: the derived type in front for a
/// forward direction, at the back for a backward one.
pub fn pair_route(forward: bool, near: &TypeRef, far: &TypeRef, derived: &TypeRef) -> (route: Vec<
    TypeRef,
>)
    ensures
        texts(route@) == if forward {
            seq![derived@, near@, far@]
        } else {
            seq![near@, far@, derived@]
        },
{
    let mut route: Vec<TypeRef> = Vec::new();
    if forward {
        route.push(derived.clone());
        route.push(near.clone());
        route.push(far.clone());
        assert(texts(route@) =~= seq![derived@, near@, far@]);
    } else {
        route.push(near.clone());
        route.push(far.clone());
        route.push(derived.clone());
        assert(texts(route@) =~= seq![near@, far@, derived@]);
    }
    route
}

/// `into` for one pair: the derived type becomes `target` by way of `interm`.
pub fn create_into_impl(name: &TypeRef, interm: &TypeRef, target: &TypeRef) -> (generated:
    GeneratedImplementation)
    ensures
        generated@ == implementation_along(seq![name@, interm@, target@], false, None),
{
    implement_route(&pair_route(true, interm, target, name), false, None)
}

/// `from` for one pair: `first` becomes the derived type by way of `last`.
pub fn create_from_impl(name: &TypeRef, first: &TypeRef, last: &TypeRef) -> (generated:
    GeneratedImplementation)
    ensures
        generated@ == implementation_along(seq![first@, last@, name@], false, None),
{
    implement_route(&pair_route(false, first, last, name), false, None)
}

/// `try_into` for one pair; the error type is that of the second step.
pub fn create_try_into_impl(name: &TypeRef, interm: &TypeRef, target: &TypeRef) -> (generated:
    GeneratedImplementation)
    ensures
        generated@ == implementation_along(seq![name@, interm@, target@], true, None),
{
    implement_route(&pair_route(true, interm, target, name), true, None)
}

/// `try_from` for one pair; the error type is that of the second step.
pub fn create_try_from_impl(name: &TypeRef, first: &TypeRef, last: &TypeRef) -> (generated:
    GeneratedImplementation)
    ensures
        generated@ == implementation_along(seq![first@, last@, name@], true, None),
{
    implement_route(&pair_route(false, first, last, name), true, None)
}

/// The implementation for one pair of neighbours, by the strategy of the
/// direction.
pub fn create_pair_impl(direction: Direction, name: &TypeRef, near: &TypeRef, far: &TypeRef) -> (
    generated: GeneratedImplementation
)
    ensures
        generated@ == implementation_along(
            route(direction, seq![near@, far@], name@),
            direction.is_fallible(),
            None,
        ),
{
    proof {
        assert(seq![name@] + seq![near@, far@] =~= seq![name@, near@, far@]);
        assert(seq![near@, far@] + seq![name@] =~= seq![near@, far@, name@]);
    }
    match direction {
        Direction::Into => create_into_impl(name, near, far),
        Direction::From => create_from_impl(name, near, far),
        Direction::TryInto => create_try_into_impl(name, near, far),
        Direction::TryFrom => create_try_from_impl(name, near, far),
    }
}

/// All-pairs mode: one implementation for each pair of neighbours in the
/// list, in the order of the list.
pub fn process_transitive_all_attr(spec: &ConversionSpec, derived: &TypeRef) -> (generated: Vec<
    GeneratedImplementation,
>)
    ensures
        impl_models(generated@) == pairs_spec(spec@, derived@),
{
    let types = spec.types();
    let n = types.len();
    assert(texts(types@).len() == n);
    assert(spec@.types.len() >= 2);
    let mut generated: Vec<GeneratedImplementation> = Vec::new();
    let mut at: usize = 0;
    while at < n - 1
        invariant
            n == types.len(),
            n >= 2,
            texts(types@) == spec@.types,
            at <= n - 1,
            generated.len() == at,
            forall|j: int| 0 <= j < at ==> generated@[j]@ == pair_spec(spec@, derived@, j),
        decreases n - at,
    {
        let one = create_pair_impl(spec.direction, derived, &types[at], &types[at + 1]);
        assert(texts(types@)[at as int] == types@[at as int]@);
        assert(texts(types@)[at + 1] == types@[at + 1]@);
        generated.push(one);
        at += 1;
    }
    assert(impl_models(generated@) =~= pairs_spec(spec@, derived@));
    generated
}

/// The dispatcher: everything that one conversion path generates, a single
/// chain or one implementation per pair.
pub fn make_impl(spec: &ConversionSpec, derived: &TypeRef) -> (generated: Vec<
    GeneratedImplementation,
>)
    ensures
        impl_models(generated@) == generate_spec(spec@, derived@),
{
    if spec.expand_all_pairs {
        process_transitive_all_attr(spec, derived)
    } else {
        let mut generated: Vec<GeneratedImplementation> = Vec::new();
        generated.push(process_transitive_attr(spec, derived));
        assert(impl_models(generated@) =~= generate_spec(spec@, derived@));
        generated
    }
}

} // verus!
