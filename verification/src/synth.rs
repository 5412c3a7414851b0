//! The synthesizers: from a validated conversion path to the implementations
//! it stands for, each a chain of single-step conversions along a route.

use vstd::prelude::*;
use crate::direction::Direction;
use crate::model::{texts, ConversionSpec, PathModel, TypeRef};

verus! {

/// One delegated call: the value of type `source` becomes one of type
/// `target`, through `From` or, where `fallible`, through `TryFrom`.
#[derive(Debug, PartialEq, Eq)]
pub struct ConversionStep {
    pub source: TypeRef,
    pub target: TypeRef,
    pub fallible: bool,
}

/// What a [`ConversionStep`] stands for.
pub struct StepModel {
    pub source: Seq<char>,
    pub target: Seq<char>,
    pub fallible: bool,
}

impl View for ConversionStep {
    type V = StepModel;

    open spec fn view(&self) -> StepModel {
        StepModel { source: self.source@, target: self.target@, fallible: self.fallible }
    }
}

/// The error type of a fallible implementation.
#[derive(Debug, PartialEq, Eq)]
pub enum ErrorType {
    /// The type given with `error = ..`; every step's error is converted
    /// into it.
    Custom(TypeRef),
    /// The error type of the single fallible step from `source` to `target`.
    OfStep { source: TypeRef, target: TypeRef },
}

/// What an [`ErrorType`] stands for.
pub enum ErrorModel {
    Custom(Seq<char>),
    OfStep { source: Seq<char>, target: Seq<char> },
}

impl View for ErrorType {
    type V = ErrorModel;

    open spec fn view(&self) -> ErrorModel {
        match self {
            ErrorType::Custom(ty) => ErrorModel::Custom(ty@),
            ErrorType::OfStep { source, target } => ErrorModel::OfStep {
                source: source@,
                target: target@,
            },
        }
    }
}

/// One trait implementation to emit: a conversion from `source_type` to
/// `target_type` that makes the calls of `call_chain` in order.
#[derive(Debug, PartialEq, Eq)]
pub struct GeneratedImplementation {
    pub source_type: TypeRef,
    pub target_type: TypeRef,
    pub error_type: Option<ErrorType>,
    pub call_chain: Vec<ConversionStep>,
}

/// What a [`GeneratedImplementation`] stands for.
pub struct ImplModel {
    pub source: Seq<char>,
    pub target: Seq<char>,
    pub error: Option<ErrorModel>,
    pub chain: Seq<StepModel>,
}

/// What a sequence of steps stands for.
pub open spec fn step_models(steps: Seq<ConversionStep>) -> Seq<StepModel> {
    steps.map_values(|step: ConversionStep| step@)
}

impl View for GeneratedImplementation {
    type V = ImplModel;

    open spec fn view(&self) -> ImplModel {
        ImplModel {
            source: self.source_type@,
            target: self.target_type@,
            error: match self.error_type {
                Some(error) => Some(error@),
                None => None,
            },
            chain: step_models(self.call_chain@),
        }
    }
}

/// What a sequence of implementations stands for.
pub open spec fn impl_models(impls: Seq<GeneratedImplementation>) -> Seq<ImplModel> {
    impls.map_values(|generated: GeneratedImplementation| generated@)
}

/// The types that a value passes through, endpoints included: a forward
/// path starts at the derived type, a backward path ends there.
pub open spec fn route(direction: Direction, types: Seq<Seq<char>>, derived: Seq<char>) -> Seq<
    Seq<char>,
> {
    if direction.is_forward() {
        seq![derived] + types
    } else {
        types + seq![derived]
    }
}

/// One step between each two neighbours of a route.
pub open spec fn steps_along(route: Seq<Seq<char>>, fallible: bool) -> Seq<StepModel> {
    Seq::new(
        (route.len() - 1) as nat,
        |i: int| StepModel { source: route[i], target: route[i + 1], fallible },
    )
}

/// The error type of the last step of a route.
pub open spec fn last_step_error(route: Seq<Seq<char>>) -> ErrorModel {
    ErrorModel::OfStep { source: route[route.len() - 2], target: route[route.len() - 1] }
}

/// The implementation that walks a route of at least two types from end to
/// end.
pub open spec fn implementation_along(
    route: Seq<Seq<char>>,
    fallible: bool,
    custom_error: Option<Seq<char>>,
) -> ImplModel {
    ImplModel {
        source: route.first(),
        target: route.last(),
        error: if !fallible {
            None
        } else {
            match custom_error {
                Some(error) => Some(ErrorModel::Custom(error)),
                None => Some(last_step_error(route)),
            }
        },
        chain: steps_along(route, fallible),
    }
}

/// The single implementation of a path in chain mode.
pub open spec fn chain_spec(path: PathModel, derived: Seq<char>) -> ImplModel {
    implementation_along(
        route(path.direction, path.types, derived),
        path.direction.is_fallible(),
        path.error,
    )
}

/// The implementation for the pair of neighbours at `at` and `at + 1`: a
/// two-step conversion between the derived type and the farther neighbour.
pub open spec fn pair_spec(path: PathModel, derived: Seq<char>, at: int) -> ImplModel {
    implementation_along(
        route(path.direction, seq![path.types[at], path.types[at + 1]], derived),
        path.direction.is_fallible(),
        None,
    )
}

/// The implementations of a path in all-pairs mode: one for each pair of
/// neighbours in the list.
pub open spec fn pairs_spec(path: PathModel, derived: Seq<char>) -> Seq<ImplModel> {
    Seq::new((path.types.len() - 1) as nat, |at: int| pair_spec(path, derived, at))
}

/// Everything that a path generates.
pub open spec fn generate_spec(path: PathModel, derived: Seq<char>) -> Seq<ImplModel> {
    if path.all_pairs {
        pairs_spec(path, derived)
    } else {
        seq![chain_spec(path, derived)]
    }
}

/// Builds the implementation that walks `route` from its first type to its
/// last, one step between each two neighbours.
pub fn implement_route(route: &Vec<TypeRef>, fallible: bool, custom_error: Option<&TypeRef>) -> (
    generated: GeneratedImplementation
)
    requires
        route.len() >= 2,
    ensures
        generated@ == implementation_along(
            texts(route@),
            fallible,
            match custom_error {
                Some(error) => Some(error@),
                None => None,
            },
        ),
{
    let n = route.len();
    let ghost path = texts(route@);
    let mut call_chain: Vec<ConversionStep> = Vec::new();
    let mut i: usize = 0;
    while i < n - 1
        invariant
            n == route.len(),
            n >= 2,
            i <= n - 1,
            path == texts(route@),
            call_chain.len() == i,
            forall|j: int| 0 <= j < i ==> call_chain@[j]@ == steps_along(path, fallible)[j],
        decreases n - i,
    {
        call_chain.push(
            ConversionStep { source: route[i].clone(), target: route[i + 1].clone(), fallible },
        );
        i += 1;
    }
    let error_type = if !fallible {
        None
    } else {
        match custom_error {
            Some(error) => Some(ErrorType::Custom(error.clone())),
            None => Some(
                ErrorType::OfStep { source: route[n - 2].clone(), target: route[n - 1].clone() },
            ),
        }
    };
    let generated = GeneratedImplementation {
        source_type: route[0].clone(),
        target_type: route[n - 1].clone(),
        error_type,
        call_chain,
    };
    assert(generated@.chain =~= steps_along(path, fallible));
    generated
}

/// The route of a forward path: the derived type, then the list.
pub fn forward_route(types: &Vec<TypeRef>, derived: &TypeRef) -> (route: Vec<TypeRef>)
    ensures
        texts(route@) == seq![derived@] + texts(types@),
{
    let mut route: Vec<TypeRef> = Vec::new();
    route.push(derived.clone());
    let n = types.len();
    let mut i: usize = 0;
    while i < n
        invariant
            n == types.len(),
            i <= n,
            route.len() == i + 1,
            route@[0]@ == derived@,
            forall|j: int| 0 <= j < i ==> route@[j + 1]@ == types@[j]@,
        decreases n - i,
    {
        route.push(types[i].clone());
        i += 1;
    }
    assert(texts(route@) =~= seq![derived@] + texts(types@));
    route
}

/// The route of a backward path: the list, then the derived type.
pub fn backward_route(types: &Vec<TypeRef>, derived: &TypeRef) -> (route: Vec<TypeRef>)
    ensures
        texts(route@) == texts(types@) + seq![derived@],
{
    let mut route: Vec<TypeRef> = Vec::new();
    let n = types.len();
    let mut i: usize = 0;
    while i < n
        invariant
            n == types.len(),
            i <= n,
            route.len() == i,
            forall|j: int| 0 <= j < i ==> route@[j]@ == types@[j]@,
        decreases n - i,
    {
        route.push(types[i].clone());
        i += 1;
    }
    route.push(derived.clone());
    assert(texts(route@) =~= texts(types@) + seq![derived@]);
    route
}

/// `into`: the derived type is converted, step by step, into the last type
/// of the list.
pub fn transition_into(spec: &ConversionSpec, derived: &TypeRef) -> (generated:
    GeneratedImplementation)
    ensures
        generated@ == implementation_along(
            route(Direction::Into, spec@.types, derived@),
            false,
            None,
        ),
{
    let route = forward_route(&spec.types(), derived);
    implement_route(&route, false, None)
}

/// `from`: the first type of the list is converted, step by step, into the
/// derived type.
pub fn transition_from(spec: &ConversionSpec, derived: &TypeRef) -> (generated:
    GeneratedImplementation)
    ensures
        generated@ == implementation_along(
            route(Direction::From, spec@.types, derived@),
            false,
            None,
        ),
{
    let route = backward_route(&spec.types(), derived);
    implement_route(&route, false, None)
}

/// `try_into`: as `into`, each step may fail; the error type is the custom
/// one or that of the last step.
pub fn try_transition_into(spec: &ConversionSpec, derived: &TypeRef) -> (generated:
    GeneratedImplementation)
    ensures
        generated@ == implementation_along(
            route(Direction::TryInto, spec@.types, derived@),
            true,
            spec@.error,
        ),
{
    let route = forward_route(&spec.types(), derived);
    implement_route(&route, true, spec.error_type.as_ref())
}

/// `try_from`: as `from`, each step may fail; the error type is the custom
/// one or that of the last step.
pub fn try_transition_from(spec: &ConversionSpec, derived: &TypeRef) -> (generated:
    GeneratedImplementation)
    ensures
        generated@ == implementation_along(
            route(Direction::TryFrom, spec@.types, derived@),
            true,
            spec@.error,
        ),
{
    let route = backward_route(&spec.types(), derived);
    implement_route(&route, true, spec.error_type.as_ref())
}

/// Chain mode: the one implementation that spans the whole list, by the
/// strategy of the path's direction.
pub fn process_transitive_attr(spec: &ConversionSpec, derived: &TypeRef) -> (generated:
    GeneratedImplementation)
    ensures
        generated@ == chain_spec(spec@, derived@),
{
    match spec.direction {
        Direction::Into => transition_into(spec, derived),
        Direction::From => transition_from(spec, derived),
        Direction::TryInto => try_transition_into(spec, derived),
        Direction::TryFrom => try_transition_from(spec, derived),
    }
}

} // verus!
