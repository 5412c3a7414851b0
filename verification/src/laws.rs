//! What holds of the parser, the synthesizers and the driver, whatever the
//! annotation. Each law is proved from the definitions that the contracts of
//! the library's functions are stated with.

use vstd::prelude::*;
use crate::annotation::{
    all_argument, head_shape, instances_from, outcome, parse_list_spec, separator_from, RawModel,
};
use crate::direction::{direction_of, Direction};
use crate::driver::{declared_instances, expand_instances, Diagnostic, ExpansionModel};
use crate::error::ParseError;
use crate::items::{classify, ends_item, items_of, scan_from};
use crate::model::{ItemModel, PathModel};
use crate::path::{
    admits_error, first_error, first_invalid, is_invalid, lemma_first_error_is_least,
    lemma_first_invalid_is_least, parse_items_spec, type_texts,
};
use crate::synth::{chain_spec, generate_spec, pair_spec, route, ErrorModel, ImplModel};
use crate::syntax::is_type_syntax;
use crate::text::{
    is_blank, is_space, leading_spaces, trailing_spaces, lemma_leading_spaces_bound, lemma_leading_spaces_is, lemma_trailing_spaces_bound,
    lemma_trailing_spaces_is, trim, trim_back, trim_front,
};

verus! {

/// Trimming leaves a text that neither starts nor ends with a blank, and
/// trimming again changes nothing.
pub proof fn law_trim_is_tight(s: Seq<char>)
    ensures
        trim(s).len() > 0 ==> !is_space(trim(s)[0]) && !is_space(trim(s).last()),
        trim(trim(s)) == trim(s),
{
    lemma_leading_spaces_bound(s);
    let front = trim_front(s);
    lemma_trailing_spaces_bound(front);
    let tight = trim(s);
    if tight.len() > 0 {
        assert(tight.last() == front[front.len() - trailing_spaces(front) - 1]);
        assert(tight[0] == front[0]);
        assert(front[0] == s[leading_spaces(s) as int]);
        lemma_leading_spaces_is(tight, 0);
        lemma_trailing_spaces_is(tight, 0);
    }
    assert(trim_front(tight) =~= tight);
    assert(trim_back(tight) =~= tight);
}

/// The four keywords are distinct: each direction is recognized from its own
/// keyword, and a keyword that is recognized is that of its direction.
pub proof fn law_keywords_name_directions(direction: Direction)
    ensures
        direction_of(direction.word()) == Some(direction),
        forall|word: Seq<char>| direction_of(word) == Some(direction) ==> word == direction.word(),
{
    reveal_strlit("into");
    reveal_strlit("from");
    reveal_strlit("try_into");
    reveal_strlit("try_from");
    assert("into"@.len() == 4 && "from"@.len() == 4);
    assert("try_into"@.len() == 8 && "try_from"@.len() == 8);
    assert("into"@[0] == 'i' && "from"@[0] == 'f');
    assert("try_into"@[4] == 'i' && "try_from"@[4] == 'f');
}

/// An item reaches to the first comma that can end it: where `end` is the
/// first such comma at or after `at`, the item is what stands between
/// `start` and `end`, and the next item starts after `end`.
pub proof fn law_item_ends_at_first_comma(
    list: Seq<char>,
    start: int,
    at: int,
    end: int,
    allow_error: bool,
)
    requires
        0 <= start <= at <= end,
        ends_item(list, start, end, allow_error),
        forall|k: int| at <= k < end ==> !ends_item(list, start, k, allow_error),
    ensures
        scan_from(list, start, at, allow_error) == seq![
            classify(list.subrange(start, end), allow_error),
        ] + scan_from(list, end + 1, end + 1, allow_error),
    decreases end - at,
{
    if at < end {
        law_item_ends_at_first_comma(list, start, at + 1, end, allow_error);
    }
}

/// Where no comma can end the item that starts at `start`, what is left of
/// the list is the last item, or nothing if it is blank.
pub proof fn law_last_item_reaches_the_end(list: Seq<char>, start: int, at: int, allow_error: bool)
    requires
        0 <= start <= at <= list.len(),
        forall|k: int| at <= k < list.len() ==> !ends_item(list, start, k, allow_error),
    ensures
        scan_from(list, start, at, allow_error) == if is_blank(
            list.subrange(start, list.len() as int),
        ) {
            Seq::<ItemModel>::empty()
        } else {
            seq![classify(list.subrange(start, list.len() as int), allow_error)]
        },
    decreases list.len() - at,
{
    if at < list.len() {
        law_last_item_reaches_the_end(list, start, at + 1, allow_error);
    }
}

/// What the scanner finds in a list: every type reference and every custom
/// error type is a type as the host language writes one, an `error = ..`
/// item is found only where it is admitted, and only the last item found
/// can be one that is neither.
pub proof fn law_items_are_types(list: Seq<char>, start: int, at: int, allow_error: bool)
    ensures
        ({
            let items = scan_from(list, start, at, allow_error);
            &&& forall|i: int|
                0 <= i < items.len() ==> match #[trigger] items[i] {
                    ItemModel::Type(text) => is_type_syntax(text),
                    ItemModel::Error(text) => allow_error && is_type_syntax(text),
                    ItemModel::Other(_) => i == items.len() - 1,
                }
        }),
    decreases list.len() - at,
{
    let items = scan_from(list, start, at, allow_error);
    if start < 0 || at < start || at > list.len() {
    } else if at == list.len() {
    } else if ends_item(list, start, at, allow_error) {
        let tail = scan_from(list, at + 1, at + 1, allow_error);
        law_items_are_types(list, at + 1, at + 1, allow_error);
        assert forall|i: int| 0 <= i < items.len() implies match #[trigger] items[i] {
            ItemModel::Type(text) => is_type_syntax(text),
            ItemModel::Error(text) => allow_error && is_type_syntax(text),
            ItemModel::Other(_) => i == items.len() - 1,
        } by {
            if i > 0 {
                assert(items[i] == tail[i - 1]);
            }
        }
    } else {
        law_items_are_types(list, start, at + 1, allow_error);
    }
}

/// The type references among some items are all type references of the
/// items.
pub proof fn law_type_texts_are_items(items: Seq<ItemModel>)
    ensures
        forall|k: int|
            0 <= k < type_texts(items).len() ==> exists|i: int|
                0 <= i < items.len() && items[i] == ItemModel::Type(#[trigger] type_texts(items)[k]),
    decreases items.len(),
{
    if items.len() > 0 {
        let shorter = items.drop_last();
        law_type_texts_are_items(shorter);
        assert forall|k: int| 0 <= k < type_texts(items).len() implies exists|i: int|
            0 <= i < items.len() && items[i] == ItemModel::Type(
                #[trigger] type_texts(items)[k],
            ) by {
            if k < type_texts(shorter).len() {
                let i = choose|i: int|
                    0 <= i < shorter.len() && shorter[i] == ItemModel::Type(type_texts(shorter)[k]);
                assert(items[i] == shorter[i]);
            } else {
                assert(items[items.len() - 1] == ItemModel::Type(type_texts(items)[k]));
            }
        }
    }
}

/// Every type of an accepted path, and its custom error type, is a type as
/// the host language writes one.
pub proof fn law_accepted_types_are_types(direction: Direction, payload: Seq<char>)
    ensures
        parse_list_spec(direction, payload) matches Ok(path) ==> {
            &&& path.direction == direction
            &&& path.all_pairs == (all_argument(payload) is Some)
            &&& path.types.len() >= 2
            &&& forall|k: int| 0 <= k < path.types.len() ==> is_type_syntax(#[trigger] path.types[k])
            &&& path.error matches Some(error) ==> is_type_syntax(error) && direction.is_fallible()
                && !path.all_pairs
        },
{
    if parse_list_spec(direction, payload) is Ok {
        let path = parse_list_spec(direction, payload)->Ok_0;
        let all_pairs = all_argument(payload) is Some;
        let allow = admits_error(direction, all_pairs);
        let list = if all_pairs {
            all_argument(payload)->0
        } else {
            payload
        };
        let items = items_of(list, allow);
        law_items_are_types(list, 0, 0, allow);
        law_type_texts_are_items(items);
        law_accepted_path(direction, all_pairs, items);
        assert forall|k: int| 0 <= k < path.types.len() implies is_type_syntax(
            #[trigger] path.types[k],
        ) by {
            let i = choose|i: int|
                0 <= i < items.len() && items[i] == ItemModel::Type(type_texts(items)[k]);
            assert(items[i] is Type);
        }
        if path.error is Some {
            lemma_first_error_is_least(items, 0);
            let at = first_error(items)->0;
            assert(items[at] is Error);
        }
    }
}

/// The calls of a chain follow the list in the order of the direction.
///
/// There is one call for each type of the list, each call takes what the one
/// before it gave, the first takes the source of the implementation and the
/// last gives its target. Forward, the calls convert into the types of the
/// list, in order, starting from the derived type; backward, they convert
/// out of the types of the list, in order, and end at the derived type.
pub proof fn law_chain_follows_list(path: PathModel, derived: Seq<char>)
    requires
        path.types.len() >= 2,
    ensures
        ({
            let generated = chain_spec(path, derived);
            let chain = generated.chain;
            &&& chain.len() == path.types.len()
            &&& chain.first().source == generated.source
            &&& chain.last().target == generated.target
            &&& forall|i: int| 0 < i < chain.len() ==> (#[trigger] chain[i]).source == chain[i - 1].target
            &&& forall|i: int|
                0 <= i < chain.len() ==> (#[trigger] chain[i]).fallible
                    == path.direction.is_fallible()
            &&& path.direction.is_forward() ==> generated.source == derived && forall|i: int|
                0 <= i < chain.len() ==> (#[trigger] chain[i]).target == path.types[i]
            &&& !path.direction.is_forward() ==> generated.target == derived && forall|i: int|
                0 <= i < chain.len() ==> (#[trigger] chain[i]).source == path.types[i]
        }),
{
}

/// A list with fewer than two type references is rejected, in every
/// direction and in either mode, whatever else it holds.
pub proof fn law_short_list_rejected(direction: Direction, all_pairs: bool, items: Seq<ItemModel>)
    requires
        type_texts(items).len() < 2,
    ensures
        parse_items_spec(direction, all_pairs, items) is Err,
        first_invalid(items, admits_error(direction, all_pairs)) is None ==> parse_items_spec(
            direction,
            all_pairs,
            items,
        ) == Err::<PathModel, ParseError>(
            ParseError::TooFewTypes { found: type_texts(items).len() as usize },
        ),
{
}

/// One type reference alone, or one followed by `error = E`, is rejected in
/// each of the four directions.
pub proof fn law_single_type_rejected(direction: Direction, ty: Seq<char>, error: Seq<char>)
    ensures
        parse_items_spec(direction, false, seq![ItemModel::Type(ty)]) == Err::<
            PathModel,
            ParseError,
        >(ParseError::TooFewTypes { found: 1 }),
        parse_items_spec(direction, false, seq![ItemModel::Type(ty), ItemModel::Error(error)])
            is Err,
        direction.is_fallible() ==> parse_items_spec(
            direction,
            false,
            seq![ItemModel::Type(ty), ItemModel::Error(error)],
        ) == Err::<PathModel, ParseError>(ParseError::TooFewTypes { found: 1 }),
{
    let one = seq![ItemModel::Type(ty)];
    let two = seq![ItemModel::Type(ty), ItemModel::Error(error)];
    assert(one.drop_last() =~= Seq::<ItemModel>::empty());
    assert(two.drop_last() =~= one);
    assert(type_texts(one.drop_last()) =~= Seq::<Seq<char>>::empty());
    assert(type_texts(one) =~= seq![ty]);
    assert(type_texts(two) =~= seq![ty]);
    let allow = admits_error(direction, false);
    lemma_first_invalid_is_least(one, allow, 0);
    lemma_first_invalid_is_least(two, allow, 0);
    if direction.is_fallible() {
        assert(first_invalid(two, allow) is None);
    }
    assert(first_invalid(one, allow) is None);
}

/// Every type reference of the list is a type of an accepted path, in the
/// same order, and an accepted path has at least two of them.
pub proof fn law_accepted_path(direction: Direction, all_pairs: bool, items: Seq<ItemModel>)
    requires
        parse_items_spec(direction, all_pairs, items) is Ok,
    ensures
        ({
            let path = parse_items_spec(direction, all_pairs, items)->Ok_0;
            &&& path.valid()
            &&& path.direction == direction
            &&& path.all_pairs == all_pairs
            &&& path.types == type_texts(items)
            &&& path.types.len() >= 2
            &&& forall|i: int| 0 <= i < items.len() ==> !((#[trigger] items[i]) is Other)
            &&& path.error is Some ==> direction.is_fallible() && !all_pairs && items.last()
                == ItemModel::Error(path.error->0)
            &&& forall|i: int| 0 <= i < items.len() - 1 ==> (#[trigger] items[i]) is Type
            &&& direction.is_forward() && !all_pairs ==> path.types.first() != path.types.last()
        }),
{
    let allow = admits_error(direction, all_pairs);
    lemma_first_invalid_is_least(items, allow, 0);
    lemma_first_error_is_least(items, 0);
    assert forall|i: int| 0 <= i < items.len() implies !((#[trigger] items[i]) is Other) by {
        assert(!is_invalid(items[i], allow));
    }
    assert forall|i: int| 0 <= i < items.len() - 1 implies (#[trigger] items[i]) is Type by {
        assert(!is_invalid(items[i], allow));
    }
    if first_error(items) is Some {
        assert(!is_invalid(items[first_error(items)->0], allow));
    }
}

/// Forward and backward swap the roles of the ends.
///
/// Over one list, the forward implementation starts at the derived type and
/// ends at the last type of the list; the backward one starts at the first
/// type of the list and ends at the derived type. Written in the opposite
/// order, the list gives the backward implementation the route of the
/// forward one, walked the other way.
pub proof fn law_endpoint_roles(types: Seq<Seq<char>>, derived: Seq<char>, custom: Option<Seq<char>>)
    requires
        types.len() >= 2,
    ensures
        ({
            let forward = chain_spec(
                PathModel { direction: Direction::Into, types, error: custom, all_pairs: false },
                derived,
            );
            let backward = chain_spec(
                PathModel { direction: Direction::From, types, error: custom, all_pairs: false },
                derived,
            );
            let returning = chain_spec(
                PathModel {
                    direction: Direction::From,
                    types: types.reverse(),
                    error: custom,
                    all_pairs: false,
                },
                derived,
            );
            &&& forward.source == derived && forward.target == types.last()
            &&& backward.source == types.first() && backward.target == derived
            &&& returning.source == forward.target && returning.target == forward.source
            &&& returning.chain.len() == forward.chain.len()
            &&& forall|i: int|
                0 <= i < forward.chain.len() ==> (#[trigger] returning.chain[i]).source
                    == forward.chain[forward.chain.len() - 1 - i].target && returning.chain[i].target
                    == forward.chain[forward.chain.len() - 1 - i].source
        }),
        route(Direction::From, types.reverse(), derived) == route(
            Direction::Into,
            types,
            derived,
        ).reverse(),
        route(Direction::TryFrom, types.reverse(), derived) == route(
            Direction::TryInto,
            types,
            derived,
        ).reverse(),
{
    assert(route(Direction::From, types.reverse(), derived) =~= route(
        Direction::Into,
        types,
        derived,
    ).reverse());
    assert(route(Direction::TryFrom, types.reverse(), derived) =~= route(
        Direction::TryInto,
        types,
        derived,
    ).reverse());
}

/// Without a custom error type, a fallible chain has the error type of its
/// last step, and of no other: forward, that is the step into the last type
/// of the list; backward, the step from the last type of the list into the
/// derived type.
pub proof fn law_default_error(path: PathModel, derived: Seq<char>)
    requires
        path.types.len() >= 2,
        path.direction.is_fallible(),
        path.error is None,
    ensures
        ({
            let generated = chain_spec(path, derived);
            let last = generated.chain.last();
            let n = path.types.len() as int;
            &&& generated.error == Some(
                ErrorModel::OfStep { source: last.source, target: last.target },
            )
            &&& path.direction.is_forward() ==> generated.error == Some(
                ErrorModel::OfStep { source: path.types[n - 2], target: path.types[n - 1] },
            )
            &&& !path.direction.is_forward() ==> generated.error == Some(
                ErrorModel::OfStep { source: path.types[n - 1], target: derived },
            )
        }),
{
}

/// With `error = E`, the error type of a fallible chain is `E`, and every
/// step is a fallible one, written with `?`, which converts the step's error
/// into `E` before it is returned. An infallible chain has no error type.
pub proof fn law_custom_error(path: PathModel, derived: Seq<char>)
    requires
        path.types.len() >= 2,
    ensures
        ({
            let generated = chain_spec(path, derived);
            &&& path.direction.is_fallible() && path.error is Some ==> generated.error == Some(
                ErrorModel::Custom(path.error->0),
            ) && forall|i: int| 0 <= i < generated.chain.len() ==> (#[trigger] generated.chain[i]).fallible
            &&& !path.direction.is_fallible() ==> generated.error is None
        }),
{
}

/// All-pairs mode generates one implementation for each pair of neighbours:
/// one less than the list has types. Each is a conversion in two steps with
/// the derived type at one end: forward, from the derived type through the
/// nearer neighbour into the farther; backward, from the nearer neighbour
/// through the farther into the derived type.
pub proof fn law_one_implementation_per_pair(path: PathModel, derived: Seq<char>)
    requires
        path.types.len() >= 2,
        path.all_pairs,
    ensures
        ({
            let generated = generate_spec(path, derived);
            &&& generated.len() == path.types.len() - 1
            &&& forall|at: int|
                0 <= at < generated.len() ==> {
                    let one = #[trigger] generated[at];
                    &&& one == pair_spec(path, derived, at)
                    &&& one.chain.len() == 2
                    &&& one.chain[0].source == one.source
                    &&& one.chain[0].target == one.chain[1].source
                    &&& one.chain[1].target == one.target
                    &&& path.direction.is_forward() ==> one.source == derived && one.chain[0].target
                        == path.types[at] && one.target == path.types[at + 1]
                    &&& !path.direction.is_forward() ==> one.source == path.types[at]
                        && one.chain[0].target == path.types[at + 1] && one.target == derived
                    &&& path.direction.is_fallible() ==> one.error == Some(
                        ErrorModel::OfStep { source: one.chain[1].source, target: one.target },
                    )
                    &&& !path.direction.is_fallible() ==> one.error is None
                }
        }),
        !path.all_pairs ==> generate_spec(path, derived).len() == 1,
{
}

/// Chain mode generates exactly one implementation.
pub proof fn law_one_implementation_per_chain(path: PathModel, derived: Seq<char>)
    requires
        !path.all_pairs,
    ensures
        generate_spec(path, derived) == seq![chain_spec(path, derived)],
{
}

/// What two runs of annotations expand to, put together.
pub open spec fn joined(first: ExpansionModel, second: ExpansionModel) -> ExpansionModel {
    ExpansionModel {
        implementations: first.implementations + second.implementations,
        diagnostics: first.diagnostics + second.diagnostics,
    }
}

/// Annotations are expanded independently: a sequence of them expands to
/// what its front part expands to, followed by what the rest expands to.
/// Nothing that one annotation generates or reports depends on another.
pub proof fn law_annotations_are_independent(
    front: Seq<Option<RawModel>>,
    rest: Seq<Option<RawModel>>,
    derived: Seq<char>,
    first: int,
)
    ensures
        expand_instances(front + rest, derived, first) == joined(
            expand_instances(front, derived, first),
            expand_instances(rest, derived, first + front.len()),
        ),
    decreases rest.len(),
{
    let whole = expand_instances(front + rest, derived, first);
    let head = expand_instances(front, derived, first);
    let tail = expand_instances(rest, derived, first + front.len());
    if rest.len() == 0 {
        assert(front + rest =~= front);
        assert(joined(head, tail).implementations =~= head.implementations);
        assert(joined(head, tail).diagnostics =~= head.diagnostics);
    } else {
        let shorter = rest.drop_last();
        law_annotations_are_independent(front, shorter, derived, first);
        assert((front + rest).drop_last() =~= front + shorter);
        assert((front + rest).last() == rest.last());
        let before = expand_instances(front + shorter, derived, first);
        let tail_before = expand_instances(shorter, derived, first + front.len());
        match outcome(rest.last()) {
            Ok(path) => {
                assert(whole.implementations =~= joined(head, tail).implementations);
                assert(whole.diagnostics =~= joined(head, tail).diagnostics);
            },
            Err(error) => {
                assert(whole.implementations =~= joined(head, tail).implementations);
                assert(whole.diagnostics =~= joined(head, tail).diagnostics);
            },
        }
    }
}

/// Text without the shape of an annotation costs its siblings nothing: it
/// counts as one rejected annotation, and what stands behind the next comma
/// outside parentheses is read as it would be read by itself.
pub proof fn law_misshapen_text_keeps_siblings(text: Seq<char>, start: int, comma: int)
    requires
        0 <= start <= text.len(),
        !is_blank(text.subrange(start, text.len() as int)),
        head_shape(text, start) is None,
        separator_from(text, start, 0) == Some(comma),
    ensures
        instances_from(text, start) == seq![None::<RawModel>] + instances_from(text, comma + 1),
        forall|derived: Seq<char>, first: int|
            #![trigger expand_instances(instances_from(text, start), derived, first)]
            expand_instances(instances_from(text, start), derived, first) == joined(
                expand_instances(seq![None::<RawModel>], derived, first),
                expand_instances(instances_from(text, comma + 1), derived, first + 1),
            ),
{
    assert forall|derived: Seq<char>, first: int|
        #![trigger expand_instances(instances_from(text, start), derived, first)]
        expand_instances(instances_from(text, start), derived, first) == joined(
            expand_instances(seq![None::<RawModel>], derived, first),
            expand_instances(instances_from(text, comma + 1), derived, first + 1),
        ) by {
        law_annotations_are_independent(
            seq![None::<RawModel>],
            instances_from(text, comma + 1),
            derived,
            first,
        );
    }
}

/// The annotations of a declaration are those of its attributes, attribute
/// after attribute: what one attribute holds does not change how another is
/// read.
pub proof fn law_attributes_are_independent(
    front: Seq<Option<Seq<char>>>,
    rest: Seq<Option<Seq<char>>>,
)
    ensures
        declared_instances(front + rest) == declared_instances(front) + declared_instances(rest),
    decreases rest.len(),
{
    if rest.len() == 0 {
        assert(front + rest =~= front);
        assert(declared_instances(front) + declared_instances(rest) =~= declared_instances(front));
    } else {
        law_attributes_are_independent(front, rest.drop_last());
        assert((front + rest).drop_last() =~= front + rest.drop_last());
        assert((front + rest).last() == rest.last());
        assert(declared_instances(front + rest) =~= declared_instances(front) + declared_instances(
            rest,
        ));
    }
}

/// A rejected annotation beside an accepted one: the accepted one generates
/// what it generates alone, and the rejected one is reported once, under its
/// own position, whichever of the two is written first.
pub proof fn law_partial_success(
    rejected: Option<RawModel>,
    accepted: Option<RawModel>,
    derived: Seq<char>,
)
    requires
        outcome(rejected) is Err,
        outcome(accepted) is Ok,
    ensures
        expand_instances(seq![rejected, accepted], derived, 0) == (ExpansionModel {
            implementations: generate_spec(outcome(accepted)->Ok_0, derived),
            diagnostics: seq![Diagnostic { annotation: 0, error: outcome(rejected)->Err_0 }],
        }),
        expand_instances(seq![accepted, rejected], derived, 0) == (ExpansionModel {
            implementations: generate_spec(outcome(accepted)->Ok_0, derived),
            diagnostics: seq![Diagnostic { annotation: 1, error: outcome(rejected)->Err_0 }],
        }),
        expand_instances(seq![accepted], derived, 0).implementations == generate_spec(
            outcome(accepted)->Ok_0,
            derived,
        ),
{
    let empty = Seq::<Option<RawModel>>::empty();
    let only_rejected = seq![rejected];
    let only_accepted = seq![accepted];
    assert(only_rejected.drop_last() =~= empty);
    assert(only_accepted.drop_last() =~= empty);
    assert(seq![rejected, accepted].drop_last() =~= only_rejected);
    assert(seq![accepted, rejected].drop_last() =~= only_accepted);
    let generated = generate_spec(outcome(accepted)->Ok_0, derived);
    assert(Seq::<ImplModel>::empty() + generated =~= generated);
    let nothing = expand_instances(empty, derived, 0);
    assert(nothing.implementations =~= Seq::<ImplModel>::empty());
    assert(nothing.diagnostics =~= Seq::<Diagnostic>::empty());
    let alone_rejected = expand_instances(only_rejected, derived, 0);
    assert(alone_rejected.implementations =~= Seq::<ImplModel>::empty());
    assert(alone_rejected.diagnostics =~= seq![
        Diagnostic { annotation: 0, error: outcome(rejected)->Err_0 },
    ]);
    let alone_accepted = expand_instances(only_accepted, derived, 0);
    assert(alone_accepted.implementations =~= generated);
    assert(alone_accepted.diagnostics =~= Seq::<Diagnostic>::empty());
    let first = expand_instances(seq![rejected, accepted], derived, 0);
    assert(first.diagnostics =~= seq![
        Diagnostic { annotation: 0, error: outcome(rejected)->Err_0 },
    ]);
    assert(first.implementations =~= generated);
    let second = expand_instances(seq![accepted, rejected], derived, 0);
    assert(second.diagnostics =~= seq![
        Diagnostic { annotation: 1, error: outcome(rejected)->Err_0 },
    ]);
    assert(second.implementations =~= generated);
    assert(expand_instances(only_accepted, derived, 0).implementations =~= generated);
}

} // verus!
