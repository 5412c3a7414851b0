//! The path parser: from the items of one annotation's list and its direction
//! to a validated conversion path, or to the reason for rejecting the list.

use vstd::prelude::*;
use crate::direction::Direction;
use crate::error::ParseError;
use crate::laws::law_accepted_path;
use crate::model::{item_models, texts, ConversionSpec, Item, ItemModel, PathModel, TypeRef};

verus! {

/// A custom error type can be given for a fallible chain only.
pub open spec fn admits_error(direction: Direction, all_pairs: bool) -> bool {
    direction.is_fallible() && !all_pairs
}

/// An item that the list may not hold at all.
pub open spec fn is_invalid(item: ItemModel, allow_error: bool) -> bool {
    match item {
        ItemModel::Type(_) => false,
        ItemModel::Error(_) => !allow_error,
        ItemModel::Other(_) => true,
    }
}

/// The position of the first invalid item at or after `from`.
pub open spec fn first_invalid_from(items: Seq<ItemModel>, allow_error: bool, from: int) -> Option<
    int,
>
    decreases items.len() - from,
{
    if from < 0 || from >= items.len() {
        None
    } else if is_invalid(items[from], allow_error) {
        Some(from)
    } else {
        first_invalid_from(items, allow_error, from + 1)
    }
}

/// The position of the first invalid item.
pub open spec fn first_invalid(items: Seq<ItemModel>, allow_error: bool) -> Option<int> {
    first_invalid_from(items, allow_error, 0)
}

/// The position of the first `error = ..` item at or after `from`.
pub open spec fn first_error_from(items: Seq<ItemModel>, from: int) -> Option<int>
    decreases items.len() - from,
{
    if from < 0 || from >= items.len() {
        None
    } else if items[from] is Error {
        Some(from)
    } else {
        first_error_from(items, from + 1)
    }
}

/// The position of the first `error = ..` item.
pub open spec fn first_error(items: Seq<ItemModel>) -> Option<int> {
    first_error_from(items, 0)
}

/// The type references among the items, in the order written.
pub open spec fn type_texts(items: Seq<ItemModel>) -> Seq<Seq<char>>
    decreases items.len(),
{
    if items.len() == 0 {
        seq![]
    } else {
        let before = type_texts(items.drop_last());
        match items.last() {
            ItemModel::Type(text) => before.push(text),
            _ => before,
        }
    }
}

/// The custom error type: that of the first `error = ..` item.
pub open spec fn error_text(items: Seq<ItemModel>) -> Option<Seq<char>> {
    match first_error(items) {
        Some(at) => Some(items[at]->Error_0),
        None => None,
    }
}

/// What the path parser answers for a list of items.
///
/// The rules, in the order in which they are applied: no item may be invalid;
/// there are at least two type references; nothing follows an `error = ..`
/// item; a forward chain does not end where it starts.
pub open spec fn parse_items_spec(
    direction: Direction,
    all_pairs: bool,
    items: Seq<ItemModel>,
) -> Result<PathModel, ParseError> {
    let types = type_texts(items);
    if let Some(index) = first_invalid(items, admits_error(direction, all_pairs)) {
        Err(ParseError::InvalidItem { index: index as usize })
    } else if types.len() < 2 {
        Err(ParseError::TooFewTypes { found: types.len() as usize })
    } else if first_error(items) is Some && first_error(items)->0 + 1 < items.len() {
        let index = first_error(items)->0 + 1;
        if items[index] is Error {
            Err(ParseError::DuplicateErrorArg { index: index as usize })
        } else {
            Err(ParseError::MisplacedErrorArg { index: index as usize })
        }
    } else if direction.is_forward() && !all_pairs && types.first() == types.last() {
        Err(ParseError::SameEndpoints)
    } else {
        Ok(PathModel { direction, types, error: error_text(items), all_pairs })
    }
}

/// `first_invalid_from` is the least position of an invalid item.
pub proof fn lemma_first_invalid_is_least(items: Seq<ItemModel>, allow_error: bool, from: int)
    requires
        0 <= from,
    ensures
        match first_invalid_from(items, allow_error, from) {
            Some(at) => from <= at < items.len() && is_invalid(items[at], allow_error)
                && forall|j: int| from <= j < at ==> !is_invalid(#[trigger] items[j], allow_error),
            None => forall|j: int|
                from <= j < items.len() ==> !is_invalid(#[trigger] items[j], allow_error),
        },
    decreases items.len() - from,
{
    if from < items.len() && !is_invalid(items[from], allow_error) {
        lemma_first_invalid_is_least(items, allow_error, from + 1);
    }
}

/// `first_error_from` is the least position of an `error = ..` item.
pub proof fn lemma_first_error_is_least(items: Seq<ItemModel>, from: int)
    requires
        0 <= from,
    ensures
        match first_error_from(items, from) {
            Some(at) => from <= at < items.len() && items[at] is Error && forall|j: int|
                from <= j < at ==> !(#[trigger] items[j] is Error),
            None => forall|j: int| from <= j < items.len() ==> !(#[trigger] items[j] is Error),
        },
    decreases items.len() - from,
{
    if from < items.len() && !(items[from] is Error) {
        lemma_first_error_is_least(items, from + 1);
    }
}

/// There are no more type references than items.
pub proof fn lemma_type_texts_len(items: Seq<ItemModel>)
    ensures
        type_texts(items).len() <= items.len(),
    decreases items.len(),
{
    if items.len() > 0 {
        lemma_type_texts_len(items.drop_last());
    }
}

/// The position of the first invalid item, if there is one.
pub fn find_invalid(items: &Vec<Item>, allow_error: bool) -> (found: Option<usize>)
    ensures
        match found {
            Some(at) => first_invalid(item_models(items@), allow_error) == Some(at as int),
            None => first_invalid(item_models(items@), allow_error) is None,
        },
{
    let n = items.len();
    let ghost models = item_models(items@);
    let mut i: usize = 0;
    while i < n
        invariant
            n == items.len(),
            models == item_models(items@),
            i <= n,
            first_invalid(models, allow_error) == first_invalid_from(models, allow_error, i as int),
        decreases n - i,
    {
        let invalid = match &items[i] {
            Item::Type(_) => false,
            Item::Error(_) => !allow_error,
            Item::Other(_) => true,
        };
        assert(models[i as int] == items@[i as int]@);
        if invalid {
            return Some(i);
        }
        i += 1;
    }
    None
}

/// The position of the first `error = ..` item, if there is one.
pub fn find_error(items: &Vec<Item>) -> (found: Option<usize>)
    ensures
        match found {
            Some(at) => first_error(item_models(items@)) == Some(at as int),
            None => first_error(item_models(items@)) is None,
        },
{
    let n = items.len();
    let ghost models = item_models(items@);
    let mut i: usize = 0;
    while i < n
        invariant
            n == items.len(),
            models == item_models(items@),
            i <= n,
            first_error(models) == first_error_from(models, i as int),
        decreases n - i,
    {
        assert(models[i as int] == items@[i as int]@);
        if let Item::Error(_) = &items[i] {
            return Some(i);
        }
        i += 1;
    }
    None
}

/// The type references among the items, in the order written.
pub fn collect_types(items: &Vec<Item>) -> (types: Vec<TypeRef>)
    ensures
        texts(types@) == type_texts(item_models(items@)),
{
    let n = items.len();
    let ghost models = item_models(items@);
    let mut types: Vec<TypeRef> = Vec::new();
    let mut i: usize = 0;
    assert(models.take(0) =~= Seq::<ItemModel>::empty());
    while i < n
        invariant
            n == items.len(),
            models == item_models(items@),
            i <= n,
            texts(types@) == type_texts(models.take(i as int)),
        decreases n - i,
    {
        let ghost before = texts(types@);
        assert(models.take(i + 1).drop_last() =~= models.take(i as int));
        assert(models.take(i + 1).last() == items@[i as int]@);
        if let Item::Type(ty) = &items[i] {
            types.push(ty.clone());
            assert(texts(types@) =~= before.push(ty@));
        }
        i += 1;
    }
    assert(models.take(n as int) =~= models);
    types
}

/// Checks that a chain does not end where it starts: two references written
/// the same are the same type.
pub fn distinct_types_check(left: &TypeRef, right: &TypeRef) -> (checked: Result<(), ParseError>)
    ensures
        left@ != right@ ==> checked == Ok::<(), ParseError>(()),
        left@ == right@ ==> checked == Err::<(), ParseError>(ParseError::SameEndpoints),
{
    if left.same(right) {
        Err(ParseError::SameEndpoints)
    } else {
        Ok(())
    }
}

/// Validates the items of one annotation's list and builds the conversion
/// path. With `all_pairs` the list stood inside `all( .. )`.
pub fn parse_items(direction: Direction, all_pairs: bool, items: &Vec<Item>) -> (parsed: Result<
    ConversionSpec,
    ParseError,
>)
    ensures
        match parsed {
            Ok(spec) => parse_items_spec(direction, all_pairs, item_models(items@)) == Ok::<
                PathModel,
                ParseError,
            >(spec@),
            Err(error) => parse_items_spec(direction, all_pairs, item_models(items@)) == Err::<
                PathModel,
                ParseError,
            >(error),
        },
        parsed matches Ok(spec) ==> spec@.valid(),
{
    let ghost models = item_models(items@);
    proof {
        if parse_items_spec(direction, all_pairs, models) is Ok {
            law_accepted_path(direction, all_pairs, models);
        }
    }
    let allow_error = direction.fallible() && !all_pairs;
    if let Some(index) = find_invalid(items, allow_error) {
        return Err(ParseError::InvalidItem { index });
    }
    let types = collect_types(items);
    proof {
        lemma_type_texts_len(models);
    }
    if types.len() < 2 {
        return Err(ParseError::TooFewTypes { found: types.len() });
    }
    let error_at = find_error(items);
    let mut error_type: Option<TypeRef> = None;
    if let Some(at) = error_at {
        proof {
            lemma_first_error_is_least(models, 0);
            assert(first_error_from(models, 0) == Some(at as int));
            assert(at < items.len());
            assert(models[at as int] == items@[at as int]@);
        }
        if at + 1 < items.len() {
            let index = at + 1;
            assert(models[index as int] == items@[index as int]@);
            if let Item::Error(_) = &items[index] {
                return Err(ParseError::DuplicateErrorArg { index });
            }
            return Err(ParseError::MisplacedErrorArg { index });
        }
        if let Item::Error(ty) = &items[at] {
            error_type = Some(ty.clone());
        }
    }
    if direction.forward() && !all_pairs {
        if let Err(error) = distinct_types_check(&types[0], &types[types.len() - 1]) {
            return Err(error);
        }
    }
    Ok(ConversionSpec::new(direction, &types, error_type, all_pairs))
}

} // verus!
