//! Character-level helpers for the annotation grammar: blanks, words and
//! slices of a text, each with its meaning as a sequence of characters.

use vstd::prelude::*;
use vstd::string::*;

verus! {

/// A blank: space, tab, line feed or carriage return.
pub open spec fn is_space(c: char) -> bool {
    c == ' ' || c == '\t' || c == '\n' || c == '\r'
}

/// A character of a keyword: an ASCII letter, a digit or an underscore.
pub open spec fn is_word_char(c: char) -> bool {
    ('a' <= c && c <= 'z') || ('A' <= c && c <= 'Z') || ('0' <= c && c <= '9') || c == '_'
}

/// The number of blanks at the front of `s`.
pub open spec fn leading_spaces(s: Seq<char>) -> nat
    decreases s.len(),
{
    if s.len() > 0 && is_space(s[0]) {
        1 + leading_spaces(s.drop_first())
    } else {
        0
    }
}

/// The number of blanks at the back of `s`.
pub open spec fn trailing_spaces(s: Seq<char>) -> nat
    decreases s.len(),
{
    if s.len() > 0 && is_space(s.last()) {
        1 + trailing_spaces(s.drop_last())
    } else {
        0
    }
}

/// The number of keyword characters at the front of `s`.
pub open spec fn leading_word(s: Seq<char>) -> nat
    decreases s.len(),
{
    if s.len() > 0 && is_word_char(s[0]) {
        1 + leading_word(s.drop_first())
    } else {
        0
    }
}

/// `s` without the blanks at its front.
pub open spec fn trim_front(s: Seq<char>) -> Seq<char> {
    s.subrange(leading_spaces(s) as int, s.len() as int)
}

/// `s` without the blanks at its back.
pub open spec fn trim_back(s: Seq<char>) -> Seq<char> {
    s.subrange(0, s.len() - trailing_spaces(s))
}

/// `s` without the blanks at either end.
pub open spec fn trim(s: Seq<char>) -> Seq<char> {
    trim_back(trim_front(s))
}

/// Every character of `s` is a blank.
pub open spec fn is_blank(s: Seq<char>) -> bool {
    forall|i: int| 0 <= i < s.len() ==> is_space(#[trigger] s[i])
}

/// The position after the string literal whose characters start at `from`:
/// after its closing quote, or the end of the text if it has none. A
/// backslash takes the character after it along.
pub open spec fn string_end(text: Seq<char>, from: int) -> int
    decreases text.len() - from,
{
    if from < 0 || from >= text.len() {
        text.len() as int
    } else if text[from] == '"' {
        from + 1
    } else if text[from] == '\\' && from + 1 < text.len() {
        string_end(text, from + 2)
    } else {
        string_end(text, from + 1)
    }
}

/// The position after the first single quote at or after `from`, or the end
/// of the text if there is none.
pub open spec fn quote_end(text: Seq<char>, from: int) -> int
    decreases text.len() - from,
{
    if from < 0 || from >= text.len() {
        text.len() as int
    } else if text[from] == '\'' {
        from + 1
    } else {
        quote_end(text, from + 1)
    }
}

/// The number of `#` that stand in a row from `from` on.
pub open spec fn hashes_from(text: Seq<char>, from: int) -> nat
    decreases text.len() - from,
{
    if 0 <= from < text.len() && text[from] == '#' {
        1 + hashes_from(text, from + 1)
    } else {
        0
    }
}

/// The position after the raw string literal whose characters start at
/// `from`: after the first quote that as many `#` follow as opened the
/// literal, or the end of the text if there is none.
pub open spec fn raw_string_end(text: Seq<char>, from: int, hashes: nat) -> int
    decreases text.len() - from,
{
    if from < 0 || from >= text.len() {
        text.len() as int
    } else if text[from] == '"' && hashes_from(text, from + 1) >= hashes {
        from + 1 + hashes
    } else {
        raw_string_end(text, from + 1, hashes)
    }
}

/// The position after what starts at `at`: a string literal, a raw string
/// literal, a character literal, or else the one character.
///
/// An `r` opens a raw string where a quote follows it, with or without `#`
/// between them. A single quote opens a character literal where a backslash
/// follows it or the character after the next is a single quote again; any
/// other single quote stands for itself, as in a lifetime.
pub open spec fn literal_end(text: Seq<char>, at: int) -> int {
    let hashes = hashes_from(text, at + 1);
    if text[at] == '"' {
        string_end(text, at + 1)
    } else if text[at] == 'r' && at + 1 + hashes < text.len() && text[at + 1 + hashes] == '"' {
        raw_string_end(text, at + 2 + hashes, hashes)
    } else if text[at] == '\'' {
        if at + 1 < text.len() && text[at + 1] == '\\' {
            quote_end(text, at + 3)
        } else if at + 2 < text.len() && text[at + 2] == '\'' {
            at + 3
        } else {
            at + 1
        }
    } else {
        at + 1
    }
}

/// The decimal digit `digit`, as text.
pub open spec fn digit_text(digit: nat) -> Seq<char> {
    if digit == 0 {
        "0"@
    } else if digit == 1 {
        "1"@
    } else if digit == 2 {
        "2"@
    } else if digit == 3 {
        "3"@
    } else if digit == 4 {
        "4"@
    } else if digit == 5 {
        "5"@
    } else if digit == 6 {
        "6"@
    } else if digit == 7 {
        "7"@
    } else if digit == 8 {
        "8"@
    } else {
        "9"@
    }
}

/// The number `n` in decimal digits.
pub open spec fn decimal(n: nat) -> Seq<char>
    decreases n,
{
    if n < 10 {
        digit_text(n)
    } else {
        decimal(n / 10) + digit_text(n % 10)
    }
}

pub proof fn lemma_string_end_bound(text: Seq<char>, from: int)
    requires
        0 <= from <= text.len(),
    ensures
        from <= string_end(text, from) <= text.len(),
    decreases text.len() - from,
{
    if from < text.len() && text[from] != '"' {
        if text[from] == '\\' && from + 1 < text.len() {
            lemma_string_end_bound(text, from + 2);
        } else {
            lemma_string_end_bound(text, from + 1);
        }
    }
}

pub proof fn lemma_quote_end_bound(text: Seq<char>, from: int)
    requires
        0 <= from,
    ensures
        quote_end(text, from) <= text.len(),
        from <= text.len() ==> from <= quote_end(text, from),
    decreases text.len() - from,
{
    if from < text.len() && text[from] != '\'' {
        lemma_quote_end_bound(text, from + 1);
    }
}

pub proof fn lemma_hashes_bound(text: Seq<char>, from: int)
    requires
        0 <= from <= text.len(),
    ensures
        from + hashes_from(text, from) <= text.len(),
        forall|i: int| from <= i < from + hashes_from(text, from) ==> text[i] == '#',
        from + hashes_from(text, from) < text.len() ==> text[from + hashes_from(text, from)]
            != '#',
    decreases text.len() - from,
{
    if from < text.len() && text[from] == '#' {
        lemma_hashes_bound(text, from + 1);
    }
}

pub proof fn lemma_raw_string_end_bound(text: Seq<char>, from: int, hashes: nat)
    requires
        0 <= from <= text.len(),
    ensures
        from <= raw_string_end(text, from, hashes) <= text.len(),
    decreases text.len() - from,
{
    if from < text.len() {
        lemma_hashes_bound(text, from + 1);
        if !(text[from] == '"' && hashes_from(text, from + 1) >= hashes) {
            lemma_raw_string_end_bound(text, from + 1, hashes);
        }
    }
}

/// What starts at a position of the text ends after it and within the text.
pub proof fn lemma_literal_end_bound(text: Seq<char>, at: int)
    requires
        0 <= at < text.len(),
    ensures
        at < literal_end(text, at) <= text.len(),
{
    lemma_string_end_bound(text, at + 1);
    lemma_quote_end_bound(text, at + 3);
    lemma_hashes_bound(text, at + 1);
    let hashes = hashes_from(text, at + 1);
    if at + 1 + hashes < text.len() {
        lemma_raw_string_end_bound(text, at + 2 + hashes, hashes);
    }
}

pub proof fn lemma_leading_spaces_bound(s: Seq<char>)
    ensures
        leading_spaces(s) <= s.len(),
        forall|i: int| 0 <= i < leading_spaces(s) ==> is_space(#[trigger] s[i]),
        leading_spaces(s) < s.len() ==> !is_space(s[leading_spaces(s) as int]),
    decreases s.len(),
{
    if s.len() > 0 && is_space(s[0]) {
        let t = s.drop_first();
        lemma_leading_spaces_bound(t);
        assert forall|i: int| 0 <= i < leading_spaces(s) implies is_space(#[trigger] s[i]) by {
            if i > 0 {
                assert(s[i] == t[i - 1]);
            }
        }
        if leading_spaces(s) < s.len() {
            assert(s[leading_spaces(s) as int] == t[leading_spaces(t) as int]);
        }
    }
}

pub proof fn lemma_trailing_spaces_bound(s: Seq<char>)
    ensures
        trailing_spaces(s) <= s.len(),
        forall|i: int| s.len() - trailing_spaces(s) <= i < s.len() ==> is_space(#[trigger] s[i]),
        trailing_spaces(s) < s.len() ==> !is_space(s[s.len() - trailing_spaces(s) - 1]),
    decreases s.len(),
{
    if s.len() > 0 && is_space(s.last()) {
        let t = s.drop_last();
        lemma_trailing_spaces_bound(t);
        assert forall|i: int| s.len() - trailing_spaces(s) <= i < s.len() implies is_space(
            #[trigger] s[i],
        ) by {
            if i < s.len() - 1 {
                assert(s[i] == t[i]);
            }
        }
        if trailing_spaces(s) < s.len() {
            assert(s[s.len() - trailing_spaces(s) - 1] == t[t.len() - trailing_spaces(t) - 1]);
        }
    }
}

/// A count of characters at the front that all satisfy the blank test and
/// stop at a character that does not is the number of leading blanks.
pub proof fn lemma_leading_spaces_is(s: Seq<char>, n: nat)
    requires
        n <= s.len(),
        forall|i: int| 0 <= i < n ==> is_space(#[trigger] s[i]),
        n < s.len() ==> !is_space(s[n as int]),
    ensures
        leading_spaces(s) == n,
    decreases s.len(),
{
    if n > 0 {
        let t = s.drop_first();
        assert(is_space(s[0]));
        assert forall|i: int| 0 <= i < n - 1 implies is_space(#[trigger] t[i]) by {
            assert(t[i] == s[i + 1]);
        }
        lemma_leading_spaces_is(t, (n - 1) as nat);
    }
}

pub proof fn lemma_trailing_spaces_is(s: Seq<char>, n: nat)
    requires
        n <= s.len(),
        forall|i: int| s.len() - n <= i < s.len() ==> is_space(#[trigger] s[i]),
        n < s.len() ==> !is_space(s[s.len() - n - 1]),
    ensures
        trailing_spaces(s) == n,
    decreases s.len(),
{
    if n > 0 {
        let t = s.drop_last();
        assert(is_space(s[s.len() - 1]));
        assert forall|i: int| t.len() - (n - 1) <= i < t.len() implies is_space(
            #[trigger] t[i],
        ) by {
            assert(t[i] == s[i]);
        }
        lemma_trailing_spaces_is(t, (n - 1) as nat);
    }
}

pub proof fn lemma_leading_word_is(s: Seq<char>, n: nat)
    requires
        n <= s.len(),
        forall|i: int| 0 <= i < n ==> is_word_char(#[trigger] s[i]),
        n < s.len() ==> !is_word_char(s[n as int]),
    ensures
        leading_word(s) == n,
    decreases s.len(),
{
    if n > 0 {
        let t = s.drop_first();
        assert(is_word_char(s[0]));
        assert forall|i: int| 0 <= i < n - 1 implies is_word_char(#[trigger] t[i]) by {
            assert(t[i] == s[i + 1]);
        }
        lemma_leading_word_is(t, (n - 1) as nat);
    }
}

pub fn is_space_char(c: char) -> (b: bool)
    ensures
        b == is_space(c),
{
    c == ' ' || c == '\t' || c == '\n' || c == '\r'
}

pub fn is_word(c: char) -> (b: bool)
    ensures
        b == is_word_char(c),
{
    ('a' <= c && c <= 'z') || ('A' <= c && c <= 'Z') || ('0' <= c && c <= '9') || c == '_'
}

/// Whether two texts hold the same characters.
pub fn same_text(a: &str, b: &str) -> (same: bool)
    ensures
        same == (a@ == b@),
{
    let n = a.unicode_len();
    if n != b.unicode_len() {
        return false;
    }
    let mut i: usize = 0;
    while i < n
        invariant
            n == a@.len(),
            n == b@.len(),
            i <= n,
            forall|j: int| 0 <= j < i ==> a@[j] == b@[j],
        decreases n - i,
    {
        if a.get_char(i) != b.get_char(i) {
            return false;
        }
        i += 1;
    }
    assert(a@ =~= b@);
    true
}

/// The text without the blanks at either end.
pub fn trimmed(s: &str) -> (t: &str)
    ensures
        t@ == trim(s@),
{
    let n = s.unicode_len();
    let mut start: usize = 0;
    while start < n && is_space_char(s.get_char(start))
        invariant
            n == s@.len(),
            start <= n,
            forall|j: int| 0 <= j < start ==> is_space(#[trigger] s@[j]),
        decreases n - start,
    {
        start += 1;
    }
    proof {
        lemma_leading_spaces_is(s@, start as nat);
    }
    let ghost front = trim_front(s@);
    let mut end: usize = n;
    while end > start && is_space_char(s.get_char(end - 1))
        invariant
            n == s@.len(),
            start <= end <= n,
            forall|j: int| end <= j < n ==> is_space(#[trigger] s@[j]),
        decreases end,
    {
        end -= 1;
    }
    proof {
        assert forall|j: int| front.len() - (n - end) <= j < front.len() implies is_space(
            #[trigger] front[j],
        ) by {
            assert(front[j] == s@[j + start]);
        }
        if n - end < front.len() {
            assert(front[front.len() - (n - end) - 1] == s@[end - 1]);
        }
        lemma_trailing_spaces_is(front, (n - end) as nat);
        assert(trim(s@) =~= s@.subrange(start as int, end as int));
    }
    s.substring_char(start, end)
}

/// A text is blank exactly when trimming leaves nothing of it.
pub proof fn lemma_blank_iff_trim_empty(s: Seq<char>)
    ensures
        is_blank(s) <==> trim(s).len() == 0,
        is_blank(s) <==> leading_spaces(s) == s.len(),
{
    lemma_leading_spaces_bound(s);
    let front = trim_front(s);
    lemma_trailing_spaces_bound(front);
    if is_blank(s) {
        lemma_leading_spaces_is(s, s.len());
    }
    if trim(s).len() == 0 && front.len() > 0 {
        assert(is_space(front[0]));
        assert(front[0] == s[leading_spaces(s) as int]);
    }
}

/// The position of the first character at or after `from` that is no blank.
pub fn skip_spaces(s: &str, from: usize) -> (to: usize)
    requires
        from <= s@.len(),
    ensures
        to == from + leading_spaces(s@.subrange(from as int, s@.len() as int)),
        from <= to <= s@.len(),
{
    let n = s.unicode_len();
    let ghost rest = s@.subrange(from as int, n as int);
    let mut to: usize = from;
    while to < n && is_space_char(s.get_char(to))
        invariant
            n == s@.len(),
            from <= to <= n,
            rest == s@.subrange(from as int, n as int),
            forall|j: int| 0 <= j < to - from ==> is_space(#[trigger] rest[j]),
        decreases n - to,
    {
        to += 1;
    }
    proof {
        lemma_leading_spaces_is(rest, (to - from) as nat);
    }
    to
}

/// The position of the first character at or after `from` that belongs to
/// no keyword.
pub fn skip_word(s: &str, from: usize) -> (to: usize)
    requires
        from <= s@.len(),
    ensures
        to == from + leading_word(s@.subrange(from as int, s@.len() as int)),
        from <= to <= s@.len(),
{
    let n = s.unicode_len();
    let ghost rest = s@.subrange(from as int, n as int);
    let mut to: usize = from;
    while to < n && is_word(s.get_char(to))
        invariant
            n == s@.len(),
            from <= to <= n,
            rest == s@.subrange(from as int, n as int),
            forall|j: int| 0 <= j < to - from ==> is_word_char(#[trigger] rest[j]),
        decreases n - to,
    {
        to += 1;
    }
    proof {
        lemma_leading_word_is(rest, (to - from) as nat);
    }
    to
}

/// Whether the text holds nothing but blanks.
pub fn blank(s: &str) -> (b: bool)
    ensures
        b == is_blank(s@),
{
    proof {
        lemma_blank_iff_trim_empty(s@);
        assert(s@.subrange(0, s@.len() as int) =~= s@);
    }
    skip_spaces(s, 0) == s.unicode_len()
}

/// The number of `#` that stand in a row from `from` on.
pub fn count_hashes(text: &str, from: usize) -> (hashes: usize)
    requires
        from <= text@.len(),
    ensures
        hashes == hashes_from(text@, from as int),
        from + hashes <= text@.len(),
{
    let n = text.unicode_len();
    let mut to: usize = from;
    while to < n && text.get_char(to) == '#'
        invariant
            n == text@.len(),
            from <= to <= n,
            hashes_from(text@, from as int) == (to - from) + hashes_from(text@, to as int),
        decreases n - to,
    {
        to += 1;
    }
    to - from
}

/// Whether a quote follows the character at `at`, with or without `#`
/// between them.
pub fn is_raw_string(text: &str, at: usize) -> (raw: bool)
    requires
        at < text@.len(),
    ensures
        raw == (at + 1 + hashes_from(text@, at + 1) < text@.len() && text@[at + 1 + hashes_from(
            text@,
            at + 1,
        )] == '"'),
{
    let n = text.unicode_len();
    let quote = at + 1 + count_hashes(text, at + 1);
    quote < n && text.get_char(quote) == '"'
}

/// The position after what starts at `at`: a string literal, a raw string
/// literal, a character literal, or else the one character.
pub fn skip_literal(text: &str, at: usize) -> (to: usize)
    requires
        at < text@.len(),
    ensures
        to == literal_end(text@, at as int),
        at < to <= text@.len(),
{
    let n = text.unicode_len();
    proof {
        lemma_literal_end_bound(text@, at as int);
    }
    let c = text.get_char(at);
    if c == '"' {
        let mut to: usize = at + 1;
        while to < n
            invariant
                n == text@.len(),
                at < to <= n,
                text@[at as int] == '"',
                string_end(text@, at + 1) == string_end(text@, to as int),
            decreases n - to,
        {
            let d = text.get_char(to);
            if d == '"' {
                return to + 1;
            }
            if d == '\\' && to + 1 < n {
                to += 2;
            } else {
                to += 1;
            }
        }
        n
    } else if c == 'r' && is_raw_string(text, at) {
        let hashes = count_hashes(text, at + 1);
        let mut to: usize = at + 2 + hashes;
        while to < n
            invariant
                n == text@.len(),
                at + 2 + hashes <= to <= n,
                text@[at as int] == 'r',
                hashes == hashes_from(text@, at + 1),
                text@[at + 1 + hashes] == '"',
                raw_string_end(text@, at + 2 + hashes, hashes as nat) == raw_string_end(
                    text@,
                    to as int,
                    hashes as nat,
                ),
            decreases n - to,
        {
            if text.get_char(to) == '"' && count_hashes(text, to + 1) >= hashes {
                return to + 1 + hashes;
            }
            to += 1;
        }
        n
    } else if c == '\'' {
        if at + 1 < n && text.get_char(at + 1) == '\\' {
            if n - at <= 3 {
                return n;
            }
            let mut to: usize = at + 3;
            while to < n
                invariant
                    n == text@.len(),
                    at + 3 <= to <= n,
                    text@[at as int] == '\'',
                    text@[at + 1] == '\\',
                    quote_end(text@, at + 3) == quote_end(text@, to as int),
                decreases n - to,
            {
                if text.get_char(to) == '\'' {
                    return to + 1;
                }
                to += 1;
            }
            n
        } else if n - at > 2 && text.get_char(at + 2) == '\'' {
            at + 3
        } else {
            at + 1
        }
    } else {
        at + 1
    }
}

/// Writes a number in decimal digits.
pub fn decimal_text(n: usize) -> (text: String)
    ensures
        text@ == decimal(n as nat),
    decreases n,
{
    let digit = match n % 10 {
        0 => "0",
        1 => "1",
        2 => "2",
        3 => "3",
        4 => "4",
        5 => "5",
        6 => "6",
        7 => "7",
        8 => "8",
        _ => "9",
    };
    if n < 10 {
        String::from_str(digit)
    } else {
        let mut text = decimal_text(n / 10);
        text.append(digit);
        text
    }
}

} // verus!
