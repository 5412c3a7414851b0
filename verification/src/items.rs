//! The items of an annotation's list: where each one ends, and what it is.
//!
//! What a type looks like is the host language's business and is asked of
//! `syn`. The list itself is read here: an item reaches to the first comma at
//! which the text since the last item is a type reference or, where admitted,
//! `error = T`.

use vstd::prelude::*;
use vstd::string::*;
use crate::model::{item_models, Item, ItemModel, TypeRef};
use crate::syntax::{is_type_syntax, parses_as_type};
use crate::text::{
    blank, is_blank, leading_spaces, leading_word, same_text, skip_spaces, skip_word, trim, trimmed,
};

verus! {

/// The `T` of a text of the form `error = T`.
pub open spec fn error_argument(text: Seq<char>) -> Option<Seq<char>> {
    let word = leading_word(text) as int;
    let equals = word + leading_spaces(text.subrange(word, text.len() as int));
    if text.subrange(0, word) == "error"@ && equals < text.len() && text[equals] == '=' {
        Some(text.subrange(equals + 1, text.len() as int))
    } else {
        None
    }
}

/// What a stretch of the list is, blanks around it aside.
pub open spec fn classify(piece: Seq<char>, allow_error: bool) -> ItemModel {
    let text = trim(piece);
    if allow_error && error_argument(text) is Some {
        let ty = trim(error_argument(text)->0);
        if is_type_syntax(ty) {
            ItemModel::Error(ty)
        } else {
            ItemModel::Other(text)
        }
    } else if is_type_syntax(text) {
        ItemModel::Type(text)
    } else {
        ItemModel::Other(text)
    }
}

/// The comma at `at` ends the item that starts at `start`: what stands
/// between them is a type reference or an admitted `error = T`.
pub open spec fn ends_item(list: Seq<char>, start: int, at: int, allow_error: bool) -> bool {
    0 <= start <= at < list.len() && list[at] == ',' && !(classify(
        list.subrange(start, at),
        allow_error,
    ) is Other)
}

/// The items of `list` from `start` on, when no comma between `start` and
/// `at` ends the item that starts at `start`.
///
/// An item ends at the first comma that can end it. What is left after the
/// last such comma is one last item, unless it is blank.
pub open spec fn scan_from(list: Seq<char>, start: int, at: int, allow_error: bool) -> Seq<
    ItemModel,
>
    decreases list.len() - at,
{
    if start < 0 || at < start || at > list.len() {
        seq![]
    } else if at == list.len() {
        let rest = list.subrange(start, list.len() as int);
        if is_blank(rest) {
            seq![]
        } else {
            seq![classify(rest, allow_error)]
        }
    } else if ends_item(list, start, at, allow_error) {
        seq![classify(list.subrange(start, at), allow_error)] + scan_from(
            list,
            at + 1,
            at + 1,
            allow_error,
        )
    } else {
        scan_from(list, start, at + 1, allow_error)
    }
}

/// The items of a list.
pub open spec fn items_of(list: Seq<char>, allow_error: bool) -> Seq<ItemModel> {
    scan_from(list, 0, 0, allow_error)
}

/// The text after `error =`, where the text has that form.
pub fn split_error_argument(text: &str) -> (rest: Option<&str>)
    ensures
        match rest {
            Some(rest) => error_argument(text@) == Some(rest@),
            None => error_argument(text@) is None,
        },
{
    let n = text.unicode_len();
    let word = skip_word(text, 0);
    assert(text@.subrange(0, n as int) =~= text@);
    if !same_text(text.substring_char(0, word), "error") {
        return None;
    }
    let equals = skip_spaces(text, word);
    if equals < n && text.get_char(equals) == '=' {
        Some(text.substring_char(equals + 1, n))
    } else {
        None
    }
}

/// Says what a stretch of the list is.
pub fn classify_item(piece: &str, allow_error: bool) -> (item: Item)
    ensures
        item@ == classify(piece@, allow_error),
{
    let text = trimmed(piece);
    if allow_error {
        if let Some(rest) = split_error_argument(text) {
            let ty = trimmed(rest);
            if parses_as_type(ty) {
                return Item::Error(TypeRef::new(ty));
            }
            return Item::Other(String::from_str(text));
        }
    }
    if parses_as_type(text) {
        Item::Type(TypeRef::new(text))
    } else {
        Item::Other(String::from_str(text))
    }
}

/// Reads the items of a list.
pub fn scan_items(list: &str, allow_error: bool) -> (items: Vec<Item>)
    ensures
        item_models(items@) == items_of(list@, allow_error),
{
    let n = list.unicode_len();
    let mut items: Vec<Item> = Vec::new();
    let mut start: usize = 0;
    let mut at: usize = 0;
    assert(item_models(items@) + scan_from(list@, 0, 0, allow_error) =~= items_of(
        list@,
        allow_error,
    ));
    while at < n
        invariant
            n == list@.len(),
            start <= at <= n,
            item_models(items@) + scan_from(list@, start as int, at as int, allow_error)
                == items_of(list@, allow_error),
        decreases n - at,
    {
        if list.get_char(at) == ',' {
            let item = classify_item(list.substring_char(start, at), allow_error);
            let other = match &item {
                Item::Other(_) => true,
                _ => false,
            };
            if !other {
                let ghost before = item_models(items@);
                let ghost rest = scan_from(list@, at + 1, at + 1, allow_error);
                items.push(item);
                assert(item_models(items@) =~= before.push(item@));
                assert(before.push(item@) + rest =~= before + (seq![item@] + rest));
                start = at + 1;
            }
        }
        at += 1;
    }
    let rest = list.substring_char(start, n);
    if !blank(rest) {
        let ghost before = item_models(items@);
        let item = classify_item(rest, allow_error);
        items.push(item);
        assert(item_models(items@) =~= before.push(item@));
        assert(before.push(item@) =~= before + seq![item@]);
    } else {
        assert(item_models(items@) + Seq::<ItemModel>::empty() =~= item_models(items@));
    }
    items
}

} // verus!
