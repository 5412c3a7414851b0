//! One attribute under a direction that is already known: its arguments are
//! the list itself, plain or inside `all( .. )`.

use vstd::prelude::*;
use crate::annotation::{parse_list_spec, parse_path};
use crate::direction::Direction;
use crate::driver::{is_transitive, AttributeModel, RawAttribute};
use crate::error::ParseError;
use crate::model::TypeRef;
use crate::pairs::make_impl;
use crate::synth::{generate_spec, impl_models, GeneratedImplementation, ImplModel};

verus! {

/// What an attribute generates under a direction: nothing to say of an
/// attribute that is not this library's; a rejection for one without a
/// list; else what its list generates for the type called `name`.
pub open spec fn process_spec(direction: Direction, name: Seq<char>, attribute: AttributeModel)
    -> Option<Result<Seq<ImplModel>, ParseError>> {
    if !is_transitive(attribute) {
        None
    } else {
        Some(
            match attribute.arguments {
                None => Err(ParseError::UnsupportedShape),
                Some(list) => match parse_list_spec(direction, list) {
                    Ok(path) => Ok(generate_spec(path, name)),
                    Err(error) => Err(error),
                },
            },
        )
    }
}

/// What holds of the answer of the functions below.
pub open spec fn processed_as(
    processed: Option<Result<Vec<GeneratedImplementation>, ParseError>>,
    expected: Option<Result<Seq<ImplModel>, ParseError>>,
) -> bool {
    match processed {
        None => expected is None,
        Some(Ok(generated)) => expected == Some(
            Ok::<Seq<ImplModel>, ParseError>(impl_models(generated@)),
        ),
        Some(Err(error)) => expected == Some(Err::<Seq<ImplModel>, ParseError>(error)),
    }
}

/// Processes one attribute of the declaration of `name` under the given
/// direction.
pub fn process_attr(direction: Direction, name: &TypeRef, attribute: &RawAttribute) -> (processed:
    Option<Result<Vec<GeneratedImplementation>, ParseError>>)
    ensures
        processed_as(processed, process_spec(direction, name@, attribute@)),
{
    if !attribute.is_ours() {
        return None;
    }
    let list = match &attribute.arguments {
        Some(list) => list,
        None => {
            return Some(Err(ParseError::UnsupportedShape));
        },
    };
    match parse_path(direction, list.as_str()) {
        Ok(spec) => Some(Ok(make_impl(&spec, name))),
        Err(error) => Some(Err(error)),
    }
}

/// Processes an attribute whose list is an `into` path.
pub fn into_process_attr(name: &TypeRef, attribute: &RawAttribute) -> (processed: Option<
    Result<Vec<GeneratedImplementation>, ParseError>,
>)
    ensures
        processed_as(processed, process_spec(Direction::Into, name@, attribute@)),
{
    process_attr(Direction::Into, name, attribute)
}

/// Processes an attribute whose list is a `from` path.
pub fn from_process_attr(name: &TypeRef, attribute: &RawAttribute) -> (processed: Option<
    Result<Vec<GeneratedImplementation>, ParseError>,
>)
    ensures
        processed_as(processed, process_spec(Direction::From, name@, attribute@)),
{
    process_attr(Direction::From, name, attribute)
}

/// Processes an attribute whose list is a `try_into` path.
pub fn try_into_process_attr(name: &TypeRef, attribute: &RawAttribute) -> (processed: Option<
    Result<Vec<GeneratedImplementation>, ParseError>,
>)
    ensures
        processed_as(processed, process_spec(Direction::TryInto, name@, attribute@)),
{
    process_attr(Direction::TryInto, name, attribute)
}

/// Processes an attribute whose list is a `try_from` path.
pub fn try_from_process_attr(name: &TypeRef, attribute: &RawAttribute) -> (processed: Option<
    Result<Vec<GeneratedImplementation>, ParseError>,
>)
    ensures
        processed_as(processed, process_spec(Direction::TryFrom, name@, attribute@)),
{
    process_attr(Direction::TryFrom, name, attribute)
}

} // verus!
