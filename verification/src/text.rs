//! Text operations of the standard library that the bridge relies on, stated over character
//! sequences, together with the few that are worth proving here.

use vstd::prelude::*;
use vstd::utf8::{decode_utf8, encode_utf8, valid_utf8};

verus! {

/// `pattern` occurs in `text` as a contiguous run of characters.
#[verifier::opaque]
pub open spec fn contains_text(text: Seq<char>, pattern: Seq<char>) -> bool {
    exists|i: int|
        0 <= i && i + pattern.len() <= text.len() && #[trigger] text.subrange(
            i,
            i + pattern.len(),
        ) == pattern
}

/// `pattern` opens `text`.
pub open spec fn starts_with_text(text: Seq<char>, pattern: Seq<char>) -> bool {
    pattern.len() <= text.len() && text.subrange(0, pattern.len() as int) == pattern
}

/// The characters with Unicode's `White_Space` property.
pub open spec fn is_white_space(c: char) -> bool {
    let code = c as u32;
    ||| 0x09 <= code <= 0x0d
    ||| code == 0x20
    ||| code == 0x85
    ||| code == 0xa0
    ||| code == 0x1680
    ||| 0x2000 <= code <= 0x200a
    ||| code == 0x2028
    ||| code == 0x2029
    ||| code == 0x202f
    ||| code == 0x205f
    ||| code == 0x3000
}

/// `text` without its leading and trailing white space.
pub open spec fn trimmed(text: Seq<char>) -> Seq<char>
    decreases text.len(),
{
    if text.len() > 0 && is_white_space(text.first()) {
        trimmed(text.drop_first())
    } else if text.len() > 0 && is_white_space(text.last()) {
        trimmed(text.drop_last())
    } else {
        text
    }
}

/// `text` holds nothing but white space.
pub open spec fn is_blank(text: Seq<char>) -> bool {
    trimmed(text).len() == 0
}

/// The lower-case form of an ASCII letter; every other character stands for itself.
pub open spec fn ascii_lowercase_char(c: char) -> char {
    if 'A' <= c && c <= 'Z' {
        (c as u32 + 32) as char
    } else {
        c
    }
}

/// `text` with its ASCII letters in lower case.
pub open spec fn ascii_lowercase(text: Seq<char>) -> Seq<char> {
    text.map_values(|c: char| ascii_lowercase_char(c))
}

/// The decimal digits of `value`, most significant first.
pub open spec fn decimal_text(value: nat) -> Seq<char>
    decreases value,
{
    let digit = (('0' as u32) + value % 10) as char;
    if value < 10 {
        seq![digit]
    } else {
        decimal_text(value / 10).push(digit)
    }
}

/// The decimal digits of `value`, with a minus sign where it is negative.
pub open spec fn signed_decimal_text(value: int) -> Seq<char> {
    if value >= 0 {
        decimal_text(value as nat)
    } else {
        "-"@ + decimal_text((-value) as nat)
    }
}

/// The number that a run of decimal digits denotes; `None` when a character is no digit.
pub open spec fn digits_value(digits: Seq<char>) -> Option<nat>
    decreases digits.len(),
{
    if digits.len() == 0 {
        Some(0)
    } else {
        match digits_value(digits.drop_last()) {
            Some(high) if '0' <= digits.last() && digits.last() <= '9' => Some(
                10 * high + (digits.last() as nat - '0' as nat) as nat,
            ),
            _ => None,
        }
    }
}

/// The unsigned number written in `text`: an optional plus sign followed by at least one digit
/// and nothing else, with a value of at most `maximum`.
pub open spec fn parsed_unsigned(text: Seq<char>, maximum: nat) -> Option<nat> {
    let digits = if text.len() > 0 && text.first() == '+' {
        text.drop_first()
    } else {
        text
    };
    if digits.len() == 0 {
        None
    } else {
        match digits_value(digits) {
            Some(value) if value <= maximum => Some(value),
            _ => None,
        }
    }
}

/// The pieces of `text` between the occurrences of `separator`.
pub open spec fn split_on(text: Seq<char>, separator: char) -> Seq<Seq<char>>
    decreases text.len(),
{
    if text.len() == 0 {
        seq![Seq::<char>::empty()]
    } else {
        let pieces = split_on(text.drop_last(), separator);
        if text.last() == separator {
            pieces.push(Seq::<char>::empty())
        } else {
            pieces.drop_last().push(pieces.last().push(text.last()))
        }
    }
}

/// The view of an optional string.
pub open spec fn optional_text(text: Option<String>) -> Option<Seq<char>> {
    match text {
        Some(value) => Some(value@),
        None => None,
    }
}

/// The view of an optional string slice.
pub open spec fn optional_str(text: Option<&str>) -> Option<Seq<char>> {
    match text {
        Some(value) => Some(value@),
        None => None,
    }
}

/// The views of a list of strings.
pub open spec fn texts(list: Seq<String>) -> Seq<Seq<char>> {
    list.map_values(|text: String| text@)
}

/// Wraps `str`'s `==`: two slices are equal exactly when they hold the same characters.
#[verifier::external_body]
pub(crate) fn same_text(left: &str, right: &str) -> (same: bool)
    ensures
        same == (left@ == right@),
{
    left == right
}

/// Wraps `str::contains` for a string pattern: whether the pattern occurs in the text.
#[verifier::external_body]
pub(crate) fn text_contains(text: &str, pattern: &str) -> (found: bool)
    ensures
        found == contains_text(text@, pattern@),
{
    text.contains(pattern)
}

/// Wraps `str::starts_with` for a string pattern: whether the pattern is a prefix of the text.
#[verifier::external_body]
pub(crate) fn text_starts_with(text: &str, pattern: &str) -> (found: bool)
    ensures
        found == starts_with_text(text@, pattern@),
{
    text.starts_with(pattern)
}

/// Wraps `str::trim`, which removes leading and trailing characters with the `White_Space`
/// property.
#[verifier::external_body]
pub(crate) fn trim_text(text: &str) -> (rest: &str)
    ensures
        rest@ == trimmed(text@),
{
    text.trim()
}

/// Wraps `str::to_ascii_lowercase`, which maps `A` to `Z` to lower case and keeps everything else.
#[verifier::external_body]
pub(crate) fn lowercase_text(text: &str) -> (lowered: String)
    ensures
        lowered@ == ascii_lowercase(text@),
{
    text.to_ascii_lowercase()
}

/// Wraps `u64`'s `to_string`, which writes a number in decimal.
#[verifier::external_body]
pub(crate) fn decimal(value: u64) -> (digits: String)
    ensures
        digits@ == decimal_text(value as nat),
{
    value.to_string()
}

/// Wraps `usize`'s `from_str`: an optional plus sign, then digits only, within range.
#[verifier::external_body]
pub(crate) fn parse_usize(text: &str) -> (parsed: Option<usize>)
    ensures
        match parsed {
            Some(value) => parsed_unsigned(text@, usize::MAX as nat) == Some(value as nat),
            None => parsed_unsigned(text@, usize::MAX as nat) is None,
        },
{
    text.parse::<usize>().ok()
}

/// Wraps `u64`'s `from_str`: an optional plus sign, then digits only, within range.
#[verifier::external_body]
pub(crate) fn parse_u64(text: &str) -> (parsed: Option<u64>)
    ensures
        match parsed {
            Some(value) => parsed_unsigned(text@, u64::MAX as nat) == Some(value as nat),
            None => parsed_unsigned(text@, u64::MAX as nat) is None,
        },
{
    text.parse::<u64>().ok()
}

/// Wraps `String::push`, which appends one character.
#[verifier::external_body]
pub(crate) fn push_char(text: &mut String, c: char)
    ensures
        final(text)@ == old(text)@.push(c),
{
    text.push(c)
}

/// The length of a text in bytes.
pub open spec fn byte_length(text: Seq<char>) -> nat {
    encode_utf8(text).len()
}

/// A byte string as text, with `U+FFFD` in place of what is not UTF-8.
pub uninterp spec fn lossy_text(bytes: Seq<u8>) -> Seq<char>;

/// Wraps `String::from_utf8_lossy`: bytes that are UTF-8 are kept as they are.
#[verifier::external_body]
pub(crate) fn text_from_bytes(bytes: &[u8]) -> (text: String)
    ensures
        text@ == lossy_text(bytes@),
        valid_utf8(bytes@) ==> text@ == decode_utf8(bytes@),
{
    String::from_utf8_lossy(bytes).into_owned()
}

/// A byte string as text: what is UTF-8 as it is, and anything else with `U+FFFD` in place of what is
/// not.
pub open spec fn readable_text(bytes: Seq<u8>) -> Seq<char> {
    if valid_utf8(bytes) {
        decode_utf8(bytes)
    } else {
        lossy_text(bytes)
    }
}

/// Whether a text goes before another: at the first character in which they differ it has the
/// smaller one, or it is a proper prefix.
pub open spec fn text_before(first: Seq<char>, second: Seq<char>) -> bool
    decreases first.len(),
{
    if second.len() == 0 {
        false
    } else if first.len() == 0 {
        true
    } else if first.first() != second.first() {
        first.first() < second.first()
    } else {
        text_before(first.drop_first(), second.drop_first())
    }
}

/// Wraps `str`'s `<`, which orders texts by their code points, first to last.
#[verifier::external_body]
pub(crate) fn text_precedes(first: &str, second: &str) -> (before: bool)
    ensures
        before == text_before(first@, second@),
{
    first < second
}

/// Of two different texts, exactly one goes before the other.
pub proof fn law_texts_are_ordered(first: Seq<char>, second: Seq<char>)
    ensures
        !(text_before(first, second) && text_before(second, first)),
        first != second ==> text_before(first, second) || text_before(second, first),
        first == second ==> !text_before(first, second),
    decreases first.len(),
{
    if first.len() > 0 && second.len() > 0 {
        law_texts_are_ordered(first.drop_first(), second.drop_first());
        if first.drop_first() == second.drop_first() && first.first() == second.first() {
            assert(first =~= seq![first.first()] + first.drop_first());
            assert(second =~= seq![second.first()] + second.drop_first());
        }
    } else if first.len() == 0 && second.len() == 0 {
        assert(first =~= second);
    }
}

/// A text that goes before a second one goes before everything that the second one goes before.
pub proof fn law_text_order_is_transitive(first: Seq<char>, second: Seq<char>, third: Seq<char>)
    requires
        text_before(first, second),
        text_before(second, third),
    ensures
        text_before(first, third),
    decreases first.len(),
{
    if first.len() > 0 && second.len() > 0 && third.len() > 0 && first.first() == second.first()
        && second.first() == third.first() {
        law_text_order_is_transitive(first.drop_first(), second.drop_first(), third.drop_first());
    }
}

/// Whether `text` is empty or white space only.
pub fn text_is_blank(text: &str) -> (blank: bool)
    ensures
        blank == is_blank(text@),
{
    trim_text(text).is_empty()
}

/// `first` followed by `second`.
pub fn joined(first: &str, second: &str) -> (text: String)
    ensures
        text@ == first@ + second@,
{
    let mut text = first.to_owned();
    text.append(second);
    text
}

/// An owned copy of an optional slice.
pub fn owned_text(text: Option<&str>) -> (copy: Option<String>)
    ensures
        optional_text(copy) == optional_str(text),
{
    match text {
        Some(value) => Some(value.to_owned()),
        None => None,
    }
}

/// Whether two optional texts are both absent or both the same.
pub fn same_optional_text(left: &Option<String>, right: &Option<String>) -> (same: bool)
    ensures
        same == (optional_text(*left) == optional_text(*right)),
{
    match (left, right) {
        (Some(first), Some(second)) => same_text(first.as_str(), second.as_str()),
        (None, None) => true,
        _ => false,
    }
}

/// A copy of an optional text.
pub fn copy_text(text: &Option<String>) -> (copy: Option<String>)
    ensures
        copy == *text,
        optional_text(copy) == optional_text(*text),
{
    match text {
        Some(value) => Some(value.clone()),
        None => None,
    }
}

/// The pieces of `text` between the occurrences of `separator`.
pub fn split_text(text: &str, separator: char) -> (pieces: Vec<String>)
    ensures
        texts(pieces@) == split_on(text@, separator),
{
    let mut pieces: Vec<String> = Vec::new();
    let mut current = String::new();
    let ghost characters = text@;
    assert(texts(pieces@).push(current@) =~= split_on(characters.take(0), separator));
    for c in iter: text.chars()
        invariant
            iter.seq() == characters,
            texts(pieces@).push(current@) =~= split_on(characters.take(iter.index()), separator),
    {
        let ghost before = characters.take(iter.index());
        let ghost after = characters.take(iter.index() + 1);
        assert(after.drop_last() =~= before);
        assert(after.last() == c);
        let ghost old_pieces = texts(pieces@);
        let ghost old_current = current@;
        if c == separator {
            pieces.push(current);
            current = String::new();
            assert(texts(pieces@) =~= old_pieces.push(old_current));
        } else {
            push_char(&mut current, c);
            assert(split_on(before, separator).drop_last() =~= old_pieces);
        }
    }
    assert(characters.take(characters.len() as int) =~= characters);
    let ghost old_pieces = texts(pieces@);
    pieces.push(current);
    assert(texts(pieces@) =~= old_pieces.push(current@));
    pieces
}

/// Trimming a second time changes nothing.
pub proof fn law_trimming_is_idempotent(text: Seq<char>)
    ensures
        trimmed(trimmed(text)) == trimmed(text),
    decreases text.len(),
{
    if text.len() > 0 && is_white_space(text.first()) {
        law_trimming_is_idempotent(text.drop_first());
    } else if text.len() > 0 && is_white_space(text.last()) {
        law_trimming_is_idempotent(text.drop_last());
    }
}

/// Different numbers have different decimal digits.
pub proof fn law_decimal_text_is_injective(first: nat, second: nat)
    requires
        decimal_text(first) == decimal_text(second),
    ensures
        first == second,
    decreases first,
{
    lemma_decimal_text_last(first);
    lemma_decimal_text_last(second);
    if first >= 10 && second >= 10 {
        assert(decimal_text(first).drop_last() =~= decimal_text(first / 10));
        assert(decimal_text(second).drop_last() =~= decimal_text(second / 10));
        law_decimal_text_is_injective(first / 10, second / 10);
    }
}

proof fn lemma_decimal_text_last(value: nat)
    ensures
        decimal_text(value).len() > 0,
        decimal_text(value).last() as nat == '0' as nat + value % 10,
        decimal_text(value).len() == 1 <==> value < 10,
    decreases value,
{
    if value >= 10 {
        lemma_decimal_text_last(value / 10);
    }
}

/// Reading the digits of a number gives back the number.
pub proof fn law_numbers_are_read_as_written(value: nat, maximum: nat)
    ensures
        digits_value(decimal_text(value)) == Some(value),
        parsed_unsigned(decimal_text(value), maximum) == (if value <= maximum {
            Some(value)
        } else {
            None
        }),
    decreases value,
{
    let digit = (('0' as u32) + value % 10) as char;
    let written = decimal_text(value);
    assert(written.last() == digit);
    assert('0' <= digit && digit <= '9');
    assert((digit as nat - '0' as nat) as nat == value % 10);
    if value < 10 {
        assert(written.drop_last() =~= Seq::<char>::empty());
        assert(digits_value(written.drop_last()) == Some(0nat));
        assert(digits_value(written) == Some(value));
    } else {
        law_numbers_are_read_as_written(value / 10, maximum);
        assert(written.drop_last() =~= decimal_text(value / 10));
        assert(digits_value(written) == Some(10 * (value / 10) + value % 10));
    }
    lemma_starts_with_digit(value);
    assert(written.first() != '+');
}

proof fn lemma_starts_with_digit(value: nat)
    ensures
        decimal_text(value).len() > 0,
        '0' <= decimal_text(value)[0] <= '9',
    decreases value,
{
    if value >= 10 {
        lemma_starts_with_digit(value / 10);
    }
}

/// The pieces of a text with separators between them.
pub open spec fn with_separators(pieces: Seq<Seq<char>>, separator: char) -> Seq<char>
    decreases pieces.len(),
{
    if pieces.len() == 0 {
        Seq::empty()
    } else if pieces.len() == 1 {
        pieces[0]
    } else {
        with_separators(pieces.drop_last(), separator).push(separator) + pieces.last()
    }
}

/// A text is split at every separator and nowhere else: no piece holds one, and the pieces with
/// separators between them are the text.
pub proof fn law_texts_are_split_at_separators(text: Seq<char>, separator: char)
    ensures
        split_on(text, separator).len() > 0,
        with_separators(split_on(text, separator), separator) == text,
        forall|i: int|
            0 <= i < split_on(text, separator).len() ==> !(#[trigger] split_on(
                text,
                separator,
            )[i]).contains(separator),
    decreases text.len(),
{
    if text.len() > 0 {
        let front = text.drop_last();
        let pieces = split_on(front, separator);
        let all = split_on(text, separator);
        law_texts_are_split_at_separators(front, separator);
        if text.last() == separator {
            assert(all.drop_last() =~= pieces);
            assert(all.last() =~= Seq::<char>::empty());
            assert(with_separators(all, separator) =~= text);
        } else {
            assert(all.drop_last() =~= pieces.drop_last());
            assert(all.last() == pieces.last().push(text.last()));
            assert(with_separators(all, separator) =~= with_separators(pieces, separator).push(
                text.last(),
            ));
            assert(front.push(text.last()) =~= text);
        }
        assert forall|i: int| 0 <= i < all.len() implies !(#[trigger] all[i]).contains(separator) by {
            if i < pieces.len() - 1 {
                assert(all[i] == pieces[i]);
            } else if text.last() == separator {
                if i < pieces.len() {
                    assert(all[i] == pieces[i]);
                }
            } else {
                assert(!pieces[i].contains(separator));
                if all[i].contains(separator) {
                    let k = choose|k: int| 0 <= k < all[i].len() && all[i][k] == separator;
                    assert(pieces[i][k] == separator);
                }
            }
        }
    }
}

/// Trimming takes white space from both ends of a text, and nothing else.
pub proof fn law_trimming_takes_white_space_only(text: Seq<char>) -> (part: (int, int))
    ensures
        is_trimmed_at(text, part.0, part.1),
        trimmed(text).len() > 0 ==> !is_white_space(trimmed(text).first()) && !is_white_space(
            trimmed(text).last(),
        ),
    decreases text.len(),
{
    if text.len() > 0 && is_white_space(text.first()) {
        let rest = text.drop_first();
        let (start, end) = law_trimming_takes_white_space_only(rest);
        lemma_trimmed_front(text, start, end);
        (start + 1, end + 1)
    } else if text.len() > 0 && is_white_space(text.last()) {
        let rest = text.drop_last();
        let (start, end) = law_trimming_takes_white_space_only(rest);
        lemma_trimmed_back(text, start, end);
        (start, end)
    } else {
        assert(text.subrange(0, text.len() as int) =~= text);
        (0, text.len() as int)
    }
}

proof fn lemma_trimmed_front(text: Seq<char>, start: int, end: int)
    requires
        text.len() > 0,
        is_white_space(text.first()),
        is_trimmed_at(text.drop_first(), start, end),
    ensures
        is_trimmed_at(text, start + 1, end + 1),
{
    let rest = text.drop_first();
    assert(text.subrange(start + 1, end + 1) =~= rest.subrange(start, end));
    assert forall|i: int|
        0 <= i < start + 1 || end + 1 <= i < text.len() implies is_white_space(#[trigger] text[i]) by {
        if i > 0 {
            assert(rest[i - 1] == text[i]);
        }
    }
}

proof fn lemma_trimmed_back(text: Seq<char>, start: int, end: int)
    requires
        text.len() > 0,
        !is_white_space(text.first()),
        is_white_space(text.last()),
        is_trimmed_at(text.drop_last(), start, end),
    ensures
        is_trimmed_at(text, start, end),
{
    let rest = text.drop_last();
    assert(text.subrange(start, end) =~= rest.subrange(start, end));
    assert forall|i: int|
        0 <= i < start || end <= i < text.len() implies is_white_space(#[trigger] text[i]) by {
        if i < rest.len() {
            assert(rest[i] == text[i]);
        }
    }
}

/// Whether a text is trimmed to one of its parts, with white space on both sides of it.
pub open spec fn is_trimmed_at(text: Seq<char>, start: int, end: int) -> bool {
    &&& 0 <= start <= end <= text.len()
    &&& trimmed(text) == text.subrange(start, end)
    &&& forall|i: int|
        0 <= i < start || end <= i < text.len() ==> is_white_space(#[trigger] text[i])
}

} // verus!
