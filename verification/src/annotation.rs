//! The annotation grammar: a direction keyword in front of a parenthesized
//! list, several of them separated by commas, and the `all( .. )` modifier
//! around a list.

use vstd::prelude::*;
use vstd::string::*;
use crate::direction::{direction_of, Direction};
use crate::error::ParseError;
use crate::items::{items_of, scan_items};
use crate::model::{ConversionSpec, PathModel};
use crate::path::{parse_items, parse_items_spec};
use crate::text::{
    blank, is_blank, leading_spaces, leading_word, lemma_literal_end_bound, literal_end, same_text,
    skip_literal, skip_spaces, skip_word, trim, trimmed,
};

verus! {

/// One annotation as written: its keyword and the text between its
/// parentheses.
#[derive(Debug, PartialEq, Eq)]
pub struct RawAnnotation {
    pub keyword: String,
    pub payload: String,
}

/// What a [`RawAnnotation`] stands for.
pub struct RawModel {
    pub keyword: Seq<char>,
    pub payload: Seq<char>,
}

impl View for RawAnnotation {
    type V = RawModel;

    open spec fn view(&self) -> RawModel {
        RawModel { keyword: self.keyword@, payload: self.payload@ }
    }
}

/// What one stretch of an attribute's arguments stands for; `None` is text
/// that has not the shape of an annotation.
pub open spec fn instance_model(instance: Option<RawAnnotation>) -> Option<RawModel> {
    match instance {
        Some(raw) => Some(raw@),
        None => None,
    }
}

/// What a sequence of annotations stands for.
pub open spec fn raw_models(raws: Seq<Option<RawAnnotation>>) -> Seq<Option<RawModel>> {
    raws.map_values(|raw: Option<RawAnnotation>| instance_model(raw))
}

/// The list of an annotation: written plainly, or inside `all( .. )`.
#[derive(Debug, PartialEq, Eq)]
pub enum ArgListType {
    /// One implementation for the whole list.
    Simple(String),
    /// One implementation for each pair of neighbours in the list.
    All(String),
}

/// The position of the `)` that closes a parenthesis, looking from `at` on
/// with `depth` further parentheses open. Parentheses inside string, raw
/// string and character literals do not count.
pub open spec fn closing_from(text: Seq<char>, at: int, depth: nat) -> Option<int>
    decreases text.len() - at,
{
    if at < 0 || at >= text.len() {
        None
    } else if text[at] == '(' {
        closing_from(text, at + 1, depth + 1)
    } else if text[at] == ')' {
        if depth == 0 {
            Some(at)
        } else {
            closing_from(text, at + 1, (depth - 1) as nat)
        }
    } else {
        proof {
            lemma_literal_end_bound(text, at);
        }
        closing_from(text, literal_end(text, at), depth)
    }
}

/// The position of the next comma that stands outside parentheses, looking
/// from `at` on with `depth` parentheses open. Commas inside string, raw
/// string and character literals do not count, and a `)` that closes nothing is passed
/// over.
pub open spec fn separator_from(text: Seq<char>, at: int, depth: nat) -> Option<int>
    decreases text.len() - at,
{
    if at < 0 || at >= text.len() {
        None
    } else if text[at] == ',' && depth == 0 {
        Some(at)
    } else if text[at] == '(' {
        separator_from(text, at + 1, depth + 1)
    } else if text[at] == ')' {
        separator_from(text, at + 1, if depth == 0 {
            0
        } else {
            (depth - 1) as nat
        })
    } else {
        proof {
            lemma_literal_end_bound(text, at);
        }
        separator_from(text, literal_end(text, at), depth)
    }
}

pub proof fn lemma_closing_bound(text: Seq<char>, at: int, depth: nat)
    requires
        0 <= at,
    ensures
        closing_from(text, at, depth) matches Some(close) ==> at <= close < text.len()
            && text[close] == ')',
    decreases text.len() - at,
{
    if at < text.len() {
        if text[at] == '(' {
            lemma_closing_bound(text, at + 1, depth + 1);
        } else if text[at] == ')' {
            if depth > 0 {
                lemma_closing_bound(text, at + 1, (depth - 1) as nat);
            }
        } else {
            lemma_literal_end_bound(text, at);
            lemma_closing_bound(text, literal_end(text, at), depth);
        }
    }
}

pub proof fn lemma_separator_bound(text: Seq<char>, at: int, depth: nat)
    requires
        0 <= at,
    ensures
        separator_from(text, at, depth) matches Some(comma) ==> at <= comma < text.len()
            && text[comma] == ',',
    decreases text.len() - at,
{
    if at < text.len() && !(text[at] == ',' && depth == 0) {
        if text[at] == '(' {
            lemma_separator_bound(text, at + 1, depth + 1);
        } else if text[at] == ')' {
            lemma_separator_bound(text, at + 1, if depth == 0 {
                0
            } else {
                (depth - 1) as nat
            });
        } else {
            lemma_literal_end_bound(text, at);
            lemma_separator_bound(text, literal_end(text, at), depth);
        }
    }
}

/// Where the annotation that starts at or after `start` has its keyword,
/// its opening and its closing parenthesis: the positions of the keyword's
/// first character, of the character after it, of `(` and of `)`.
pub open spec fn head_shape(text: Seq<char>, start: int) -> Option<(int, int, int, int)> {
    let len = text.len() as int;
    let word = start + leading_spaces(text.subrange(start, len));
    let after = word + leading_word(text.subrange(word, len));
    let open = after + leading_spaces(text.subrange(after, len));
    if word < after && open < len && text[open] == '(' {
        match closing_from(text, open + 1, 0) {
            Some(close) => Some((word, after, open, close)),
            None => None,
        }
    } else {
        None
    }
}

/// The annotations written in `text` from `start` on, separated by commas.
///
/// Text that has not the shape of an annotation counts as one annotation,
/// `None`, and reaches to the next comma outside parentheses: what stands
/// behind that comma is read as if nothing had gone wrong before it. The
/// same holds of text that follows an annotation where a comma should.
pub open spec fn instances_from(text: Seq<char>, start: int) -> Seq<Option<RawModel>>
    decreases text.len() - start,
{
    let len = text.len() as int;
    if start < 0 || start > len || is_blank(text.subrange(start, len)) {
        seq![]
    } else {
        match head_shape(text, start) {
            None => {
                proof {
                    lemma_separator_bound(text, start, 0);
                }
                match separator_from(text, start, 0) {
                    Some(comma) => seq![None] + instances_from(text, comma + 1),
                    None => seq![None],
                }
            },
            Some((word, after, open, close)) => {
                let this = Some(
                    RawModel {
                        keyword: text.subrange(word, after),
                        payload: text.subrange(open + 1, close),
                    },
                );
                let next = close + 1 + leading_spaces(text.subrange(close + 1, len));
                proof {
                    lemma_closing_bound(text, open + 1, 0);
                    lemma_separator_bound(text, next, 0);
                }
                if next >= len {
                    seq![this]
                } else if text[next] == ',' {
                    seq![this] + instances_from(text, next + 1)
                } else {
                    match separator_from(text, next, 0) {
                        Some(comma) => seq![this, None] + instances_from(text, comma + 1),
                        None => seq![this, None],
                    }
                }
            },
        }
    }
}

/// The annotations written in the arguments of one attribute.
pub open spec fn instances_of(text: Seq<char>) -> Seq<Option<RawModel>> {
    instances_from(text, 0)
}

/// The list inside `all( .. )`, where the whole text has that form.
pub open spec fn all_argument(payload: Seq<char>) -> Option<Seq<char>> {
    let text = trim(payload);
    let word = leading_word(text) as int;
    let open = word + leading_spaces(text.subrange(word, text.len() as int));
    if text.subrange(0, word) == "all"@ && open < text.len() && text[open] == '(' && closing_from(
        text,
        open + 1,
        0,
    ) == Some(text.len() - 1) {
        Some(text.subrange(open + 1, text.len() - 1))
    } else {
        None
    }
}

/// What the parser answers for the text between the parentheses of an
/// annotation, the direction being known: inside `all( .. )` the list is
/// read for all-pairs mode, and admits no `error = ..` item.
pub open spec fn parse_list_spec(direction: Direction, payload: Seq<char>) -> Result<
    PathModel,
    ParseError,
> {
    match all_argument(payload) {
        Some(list) => parse_items_spec(direction, true, items_of(list, false)),
        None => parse_items_spec(direction, false, items_of(payload, direction.is_fallible())),
    }
}

/// What the parser answers for one annotation of the right shape.
pub open spec fn parse_raw_spec(raw: RawModel) -> Result<PathModel, ParseError> {
    match direction_of(raw.keyword) {
        None => Err(ParseError::UnknownDirection),
        Some(direction) => parse_list_spec(direction, raw.payload),
    }
}

/// What the parser answers for one annotation.
pub open spec fn outcome(instance: Option<RawModel>) -> Result<PathModel, ParseError> {
    match instance {
        Some(raw) => parse_raw_spec(raw),
        None => Err(ParseError::UnsupportedShape),
    }
}

/// Finds the `)` that closes the parenthesis opened just before `from`.
pub fn find_closing(text: &str, from: usize) -> (close: Option<usize>)
    requires
        from <= text@.len(),
    ensures
        match close {
            Some(close) => closing_from(text@, from as int, 0) == Some(close as int) && from
                <= close < text@.len(),
            None => closing_from(text@, from as int, 0) is None,
        },
{
    let n = text.unicode_len();
    let mut at: usize = from;
    let mut depth: usize = 0;
    while at < n
        invariant
            n == text@.len(),
            from <= at <= n,
            depth <= at - from,
            closing_from(text@, from as int, 0) == closing_from(text@, at as int, depth as nat),
        decreases n - at,
    {
        let c = text.get_char(at);
        if c == '(' {
            depth += 1;
            at += 1;
        } else if c == ')' {
            if depth == 0 {
                return Some(at);
            }
            depth -= 1;
            at += 1;
        } else {
            at = skip_literal(text, at);
        }
    }
    None
}

/// Finds the next comma outside parentheses at or after `from`.
pub fn find_separator(text: &str, from: usize) -> (comma: Option<usize>)
    requires
        from <= text@.len(),
    ensures
        match comma {
            Some(comma) => separator_from(text@, from as int, 0) == Some(comma as int) && from
                <= comma < text@.len(),
            None => separator_from(text@, from as int, 0) is None,
        },
{
    let n = text.unicode_len();
    let mut at: usize = from;
    let mut depth: usize = 0;
    while at < n
        invariant
            n == text@.len(),
            from <= at <= n,
            depth <= at - from,
            separator_from(text@, from as int, 0) == separator_from(
                text@,
                at as int,
                depth as nat,
            ),
        decreases n - at,
    {
        let c = text.get_char(at);
        if c == ',' && depth == 0 {
            return Some(at);
        } else if c == '(' {
            depth += 1;
            at += 1;
        } else if c == ')' {
            if depth > 0 {
                depth -= 1;
            }
            at += 1;
        } else {
            at = skip_literal(text, at);
        }
    }
    None
}

/// Splits the arguments of one attribute into its annotations.
pub fn split_annotations(text: &str) -> (raws: Vec<Option<RawAnnotation>>)
    ensures
        raw_models(raws@) == instances_of(text@),
{
    let n = text.unicode_len();
    let mut raws: Vec<Option<RawAnnotation>> = Vec::new();
    let mut start: usize = 0;
    assert(raw_models(raws@) + instances_from(text@, 0) =~= instances_of(text@));
    loop
        invariant_except_break
            raw_models(raws@) + instances_from(text@, start as int) == instances_of(text@),
        invariant
            n == text@.len(),
            start <= n,
        ensures
            raw_models(raws@) == instances_of(text@),
        decreases n - start,
    {
        let ghost before = raw_models(raws@);
        if blank(text.substring_char(start, n)) {
            assert(before + Seq::<Option<RawModel>>::empty() =~= before);
            break;
        }
        let word = skip_spaces(text, start);
        let after = skip_word(text, word);
        let open = skip_spaces(text, after);
        let closing = if word < after && open < n && text.get_char(open) == '(' {
            find_closing(text, open + 1)
        } else {
            None
        };
        let resume = match closing {
            None => {
                raws.push(None);
                assert(raw_models(raws@) =~= before + seq![None::<RawModel>]);
                find_separator(text, start)
            },
            Some(close) => {
                let raw = RawAnnotation {
                    keyword: String::from_str(text.substring_char(word, after)),
                    payload: String::from_str(text.substring_char(open + 1, close)),
                };
                let ghost this = Some(raw@);
                raws.push(Some(raw));
                assert(raw_models(raws@) =~= before + seq![this]);
                let next = skip_spaces(text, close + 1);
                if next >= n {
                    break;
                } else if text.get_char(next) == ',' {
                    Some(next)
                } else {
                    raws.push(None);
                    assert(raw_models(raws@) =~= before + seq![this, None::<RawModel>]);
                    find_separator(text, next)
                }
            },
        };
        let ghost found = raw_models(raws@);
        match resume {
            Some(comma) => {
                assert(found + instances_from(text@, comma + 1) =~= instances_of(text@)) by {
                    let rest = instances_from(text@, comma + 1);
                    assert(before + seq![None::<RawModel>] + rest =~= before + (seq![
                        None::<RawModel>,
                    ] + rest));
                    if closing is Some {
                        let this = found[before.len() as int];
                        assert(before + seq![this] + rest =~= before + (seq![this] + rest));
                        assert(before + seq![this, None::<RawModel>] + rest =~= before + (seq![
                            this,
                            None::<RawModel>,
                        ] + rest));
                    }
                }
                start = comma + 1;
            },
            None => {
                break;
            },
        }
    }
    raws
}

impl ArgListType {
    /// The list that the implementations are made from.
    pub open spec fn list(&self) -> Seq<char> {
        match self {
            ArgListType::Simple(list) => list@,
            ArgListType::All(list) => list@,
        }
    }

    /// Tells a plain list from one inside `all( .. )`.
    pub fn parse(payload: &str) -> (args: ArgListType)
        ensures
            match all_argument(payload@) {
                Some(list) => args is All && args.list() == list,
                None => args is Simple && args.list() == payload@,
            },
    {
        let text = trimmed(payload);
        let n = text.unicode_len();
        let word = skip_word(text, 0);
        assert(text@.subrange(0, n as int) =~= text@);
        if same_text(text.substring_char(0, word), "all") {
            let open = skip_spaces(text, word);
            if open < n && text.get_char(open) == '(' {
                if let Some(close) = find_closing(text, open + 1) {
                    if close == n - 1 {
                        return ArgListType::All(
                            String::from_str(text.substring_char(open + 1, close)),
                        );
                    }
                }
            }
        }
        ArgListType::Simple(String::from_str(payload))
    }
}

/// The path parser: from the text between the parentheses of an annotation,
/// the direction being known, to a conversion path.
pub fn parse_path(direction: Direction, payload: &str) -> (parsed: Result<
    ConversionSpec,
    ParseError,
>)
    ensures
        match parsed {
            Ok(spec) => parse_list_spec(direction, payload@) == Ok::<PathModel, ParseError>(
                spec@,
            ),
            Err(error) => parse_list_spec(direction, payload@) == Err::<PathModel, ParseError>(
                error,
            ),
        },
        parsed matches Ok(spec) ==> spec@.valid(),
{
    match ArgListType::parse(payload) {
        ArgListType::All(list) => {
            let items = scan_items(list.as_str(), false);
            parse_items(direction, true, &items)
        },
        ArgListType::Simple(list) => {
            let items = scan_items(list.as_str(), direction.fallible());
            parse_items(direction, false, &items)
        },
    }
}

/// Parses one annotation of the right shape into a conversion path.
pub fn parse_annotation(raw: &RawAnnotation) -> (parsed: Result<ConversionSpec, ParseError>)
    ensures
        match parsed {
            Ok(spec) => parse_raw_spec(raw@) == Ok::<PathModel, ParseError>(spec@),
            Err(error) => parse_raw_spec(raw@) == Err::<PathModel, ParseError>(error),
        },
        parsed matches Ok(spec) ==> spec@.valid(),
{
    match Direction::from_keyword(raw.keyword.as_str()) {
        Some(direction) => parse_path(direction, raw.payload.as_str()),
        None => Err(ParseError::UnknownDirection),
    }
}

/// Parses one annotation, of the right shape or not.
pub fn parse_instance(instance: &Option<RawAnnotation>) -> (parsed: Result<
    ConversionSpec,
    ParseError,
>)
    ensures
        match parsed {
            Ok(spec) => outcome(instance_model(*instance)) == Ok::<PathModel, ParseError>(spec@),
            Err(error) => outcome(instance_model(*instance)) == Err::<PathModel, ParseError>(
                error,
            ),
        },
        parsed matches Ok(spec) ==> spec@.valid(),
{
    match instance {
        Some(raw) => parse_annotation(raw),
        None => Err(ParseError::UnsupportedShape),
    }
}

} // verus!
