//! Helpers on text that several modules share.
use vstd::prelude::*;
use vstd::string::{StrSliceExecFns, StringExecFns, StringSliceAdditionalSpecFns};
use vstd::utf8::{decode_utf8, encode_utf8, is_char_boundary, valid_utf8};

verus! {

/// The lowercase form of a text, as Unicode defines it.
pub uninterp spec fn lowercased(text: Seq<char>) -> Seq<char>;

/// `str::to_lowercase` of std: the lowercase equivalent of the text, which is a
/// function of the text alone; the contract gives it its name.
#[verifier::external_body]
pub(crate) fn lowercase(text: &str) -> (res: String)
    ensures
        res@ == lowercased(text@),
{
    text.to_lowercase()
}

/// The pieces of a text between the occurrences of a separator: one piece more
/// than there are separators, some of them empty where separators stand side
/// by side or at an end.
pub open spec fn split_on(text: Seq<char>, separator: char) -> Seq<Seq<char>>
    decreases text.len(),
{
    if text.len() == 0 {
        seq![Seq::empty()]
    } else {
        let pieces = split_on(text.drop_last(), separator);
        if text.last() == separator {
            pieces.push(Seq::empty())
        } else {
            pieces.update(pieces.len() - 1, pieces.last().push(text.last()))
        }
    }
}

/// What a list of strings stands for.
pub open spec fn texts(strings: Seq<String>) -> Seq<Seq<char>> {
    Seq::new(strings.len(), |i: int| strings[i]@)
}

/// Splits a text at each occurrence of a separator.
pub fn split(text: &str, separator: char) -> (pieces: Vec<String>)
    ensures
        texts(pieces@) == split_on(text@, separator),
        pieces.len() >= 1,
{
    let mut pieces: Vec<String> = Vec::new();
    let mut piece = String::new();
    for c in iter: text.chars()
        invariant
            iter.seq() == text@,
            texts(pieces@).push(piece@) == split_on(
                text@.take(iter.index() as int),
                separator,
            ),
    {
        let ghost seen = text@.take(iter.index() as int);
        let ghost more = text@.take(iter.index() + 1);
        proof {
            assert(more.drop_last() =~= seen);
            assert(more.last() == c);
        }
        if c == separator {
            let ghost before = texts(pieces@);
            pieces.push(piece);
            piece = String::new();
            assert(texts(pieces@) =~= before.push(pieces@.last()@));
        } else {
            let ghost before = piece@;
            piece.push(c);
            assert(texts(pieces@).push(piece@) =~= texts(pieces@).push(before).update(
                pieces@.len() as int,
                before.push(c),
            ));
        }
    }
    assert(text@.take(text@.len() as int) =~= text@);
    let ghost before = texts(pieces@);
    pieces.push(piece);
    assert(texts(pieces@) =~= before.push(pieces@.last()@));
    pieces
}

/// Whether two texts are the same.
pub fn same_text(a: &str, b: &str) -> (same: bool)
    ensures
        same == (a@ == b@),
{
    crate::name_map::order_names(a, b) == crate::name_map::Order::Same
}

/// The number that a text of decimal digits stands for.
pub open spec fn digits_value(digits: Seq<char>) -> int
    decreases digits.len(),
{
    if digits.len() == 0 {
        0
    } else {
        digits_value(digits.drop_last()) * 10 + (digits.last() as int - '0' as int)
    }
}

/// Whether every character is a decimal digit.
pub open spec fn all_digits(digits: Seq<char>) -> bool {
    forall|i: int| 0 <= i < digits.len() ==> '0' <= #[trigger] digits[i] <= '9'
}

/// The number below 256 that a text stands for: the text is a run of decimal
/// digits, with or without a plus sign before it, and the digits stay within the
/// range.
pub open spec fn small_number(text: Seq<char>) -> Option<u8> {
    let digits = if text.len() > 0 && text[0] == '+' {
        text.drop_first()
    } else {
        text
    };
    if digits.len() > 0 && all_digits(digits) && digits_value(digits) <= 255 {
        Some(digits_value(digits) as u8)
    } else {
        None
    }
}

/// More digits never make a number smaller.
pub proof fn lemma_digits_grow(digits: Seq<char>, shorter: int)
    requires
        all_digits(digits),
        0 <= shorter <= digits.len(),
    ensures
        0 <= digits_value(digits.take(shorter)) <= digits_value(digits),
    decreases digits.len() - shorter,
{
    lemma_digits_nonnegative(digits.take(shorter));
    if shorter < digits.len() {
        lemma_digits_grow(digits, shorter + 1);
        assert(digits.take(shorter + 1).drop_last() =~= digits.take(shorter));
    } else {
        assert(digits.take(shorter) =~= digits);
    }
}

/// A text of digits stands for a number that is not negative.
pub proof fn lemma_digits_nonnegative(digits: Seq<char>)
    requires
        all_digits(digits),
    ensures
        digits_value(digits) >= 0,
    decreases digits.len(),
{
    if digits.len() > 0 {
        lemma_digits_nonnegative(digits.drop_last());
    }
}

/// Reads the characters of `text` from place `from` on as a number below 256.
pub fn parse_small_number(text: &str, from: usize) -> (number: Option<u8>)
    requires
        from <= text@.len(),
    ensures
        number == small_number(text@.skip(from as int)),
{
    let length = text.unicode_len();
    let ghost whole = text@.skip(from as int);
    let mut at = from;
    if at < length && text.get_char(at) == '+' {
        at = at + 1;
        assert(text@.skip(at as int) =~= whole.drop_first());
    }
    let ghost digits = text@.skip(at as int);
    assert(digits == if whole.len() > 0 && whole[0] == '+' {
        whole.drop_first()
    } else {
        whole
    });
    if at >= length {
        return None;
    }
    let start = at;
    let mut value: u16 = 0;
    while at < length
        invariant
            start <= at <= length,
            length == text@.len(),
            digits == text@.skip(start as int),
            whole == text@.skip(from as int),
            digits == if whole.len() > 0 && whole[0] == '+' {
                whole.drop_first()
            } else {
                whole
            },
            all_digits(digits.take(at - start)),
            value == digits_value(digits.take(at - start)),
            value <= 255,
        decreases length - at,
    {
        let c = text.get_char(at);
        let ghost seen = digits.take(at - start);
        let ghost more = digits.take(at - start + 1);
        proof {
            assert(more.drop_last() =~= seen);
            assert(more.last() == c);
        }
        if !('0' <= c && c <= '9') {
            assert(!all_digits(digits)) by {
                assert(digits[at - start] == c);
            }
            return None;
        }
        let digit: u16 = (c as u32 - '0' as u32) as u16;
        value = value * 10 + digit;
        at = at + 1;
        if value > 255 {
            proof {
                if all_digits(digits) {
                    lemma_digits_grow(digits, at - start);
                }
            }
            return None;
        }
    }
    assert(digits.take(at - start) =~= digits);
    Some(value as u8)
}

/// The number of lines of a text: each line ends with a line feed, but for the
/// last line, which need not.
pub open spec fn line_count(text: Seq<char>) -> nat
    decreases text.len(),
{
    if text.len() == 0 {
        0
    } else {
        let before = text.drop_last();
        let starts_line: nat = if before.len() == 0 || before.last() == '\n' {
            1
        } else {
            0
        };
        line_count(before) + starts_line
    }
}

/// Counts the lines of a text.
pub fn count_lines(text: &str) -> (count: usize)
    ensures
        count == line_count(text@),
{
    let length = text.unicode_len();
    let mut count: usize = 0;
    let mut at_start = true;
    for c in iter: text.chars()
        invariant
            iter.seq() == text@,
            length == text@.len(),
            count == line_count(text@.take(iter.index() as int)),
            count <= iter.index(),
            at_start == (iter.index() == 0 || text@[iter.index() - 1] == '\n'),
    {
        let ghost seen = text@.take(iter.index() as int);
        proof {
            assert(text@.take(iter.index() + 1).drop_last() =~= seen);
            if iter.index() > 0 {
                assert(seen.last() == text@[iter.index() - 1]);
            }
        }
        if at_start {
            count += 1;
        }
        at_start = c == '\n';
    }
    assert(text@.take(text@.len() as int) =~= text@);
    count
}

/// A line without the carriage return that ends it, if one ends it.
pub open spec fn without_return(line: Seq<char>) -> Seq<char> {
    if line.len() > 0 && line.last() == '\r' {
        line.drop_last()
    } else {
        line
    }
}

/// The lines of a text. A line ends with a line feed, or with a carriage return
/// and a line feed, neither of which belongs to the line; the last line need
/// not end so, and keeps a carriage return at its end.
pub open spec fn text_lines(text: Seq<char>) -> Seq<Seq<char>> {
    let pieces = split_on(text, '\n');
    let ended = pieces.drop_last();
    let lines = Seq::new(ended.len(), |i: int| without_return(ended[i]));
    if pieces.last().len() == 0 {
        lines
    } else {
        lines.push(pieces.last())
    }
}

/// The lines of a text.
pub fn lines(text: &str) -> (lines: Vec<String>)
    ensures
        texts(lines@) == text_lines(text@),
{
    let mut pieces = split(text, '\n');
    let ghost all = texts(pieces@);
    let last = pieces.pop().unwrap();
    assert(texts(pieces@) =~= all.drop_last());
    assert(last@ == all.last());
    let mut lines: Vec<String> = Vec::new();
    let mut i: usize = 0;
    while i < pieces.len()
        invariant
            i <= pieces.len(),
            lines.len() == i,
            forall|k: int| 0 <= k < i ==> (#[trigger] lines[k])@ == without_return(pieces[k]@),
        decreases pieces.len() - i,
    {
        let piece = pieces[i].as_str();
        let length = piece.unicode_len();
        let line = if length > 0 && piece.get_char(length - 1) == '\r' {
            piece.substring_char(0, length - 1).to_owned()
        } else {
            piece.to_owned()
        };
        assert(line@ =~= without_return(piece@));
        lines.push(line);
        i += 1;
    }
    assert(texts(lines@) =~= Seq::new(
        all.drop_last().len(),
        |i: int| without_return(all.drop_last()[i]),
    )) by {
        assert forall|k: int| 0 <= k < pieces.len() implies texts(lines@)[k] == without_return(
            all.drop_last()[k],
        ) by {
            assert(texts(pieces@)[k] == pieces[k]@);
        }
    }
    if last.as_str().unicode_len() > 0 {
        let ghost before = texts(lines@);
        lines.push(last);
        assert(texts(lines@) =~= before.push(all.last()));
    }
    lines
}

/// The decimal digits of a number.
pub open spec fn decimal(number: nat) -> Seq<char>
    decreases number,
{
    if number < 10 {
        seq![(('0' as nat) + number) as char]
    } else {
        decimal(number / 10).push((('0' as nat) + number % 10) as char)
    }
}

/// Writes a number in decimal digits.
pub fn decimal_text(number: u64) -> (text: String)
    ensures
        text@ == decimal(number as nat),
    decreases number,
{
    if number < 10 {
        let mut text = String::new();
        let digit = char::from_u32('0' as u32 + number as u32);
        match digit {
            Some(digit) => text.push(digit),
            None => {},
        }
        assert(text@ =~= decimal(number as nat));
        text
    } else {
        let mut text = decimal_text(number / 10);
        let digit = char::from_u32('0' as u32 + (number % 10) as u32);
        match digit {
            Some(digit) => text.push(digit),
            None => {},
        }
        text
    }
}

/// A text `count` times in a row.
pub open spec fn repeated_text(text: Seq<char>, count: nat) -> Seq<char>
    decreases count,
{
    if count == 0 {
        Seq::empty()
    } else {
        repeated_text(text, (count - 1) as nat) + text
    }
}

/// Writes a text `count` times in a row.
pub fn repeat_text(text: &str, count: usize) -> (res: String)
    ensures
        res@ == repeated_text(text@, count as nat),
{
    let mut res = String::new();
    let mut i: usize = 0;
    while i < count
        invariant
            i <= count,
            res@ == repeated_text(text@, i as nat),
        decreases count - i,
    {
        res.append(text);
        i += 1;
    }
    res
}

/// The uppercase form of a text, as Unicode defines it.
pub uninterp spec fn uppercased(text: Seq<char>) -> Seq<char>;

/// `str::to_uppercase` of std: the uppercase equivalent of the text, which is a
/// function of the text alone; the contract gives it its name.
#[verifier::external_body]
pub(crate) fn uppercase(text: &str) -> (res: String)
    ensures
        res@ == uppercased(text@),
{
    text.to_uppercase()
}

/// A text of `count` times the same character.
pub open spec fn repeated(c: char, count: nat) -> Seq<char> {
    Seq::new(count, |i: int| c)
}

/// Writes a character `count` times.
pub fn repeat(c: char, count: usize) -> (text: String)
    ensures
        text@ == repeated(c, count as nat),
{
    let mut text = String::new();
    let mut i: usize = 0;
    while i < count
        invariant
            i <= count,
            text@ == repeated(c, i as nat),
        decreases count - i,
    {
        text.push(c);
        i += 1;
        assert(text@ =~= repeated(c, i as nat));
    }
    assert(text@ =~= repeated(c, count as nat));
    text
}

/// A text without the white space at its two ends.
pub open spec fn trimmed(text: Seq<char>) -> Seq<char>
    decreases text.len(),
{
    if text.len() == 0 {
        text
    } else if crate::text_counts::is_space(text[0]) {
        trimmed(text.drop_first())
    } else if crate::text_counts::is_space(text.last()) {
        trimmed(text.drop_last())
    } else {
        text
    }
}

/// A character boundary lies within the bytes.
pub proof fn lemma_boundary_bounds(bytes: Seq<u8>, index: int)
    requires
        valid_utf8(bytes),
        is_char_boundary(bytes, index),
    ensures
        0 <= index <= bytes.len(),
    decreases bytes.len(),
{
    if index != 0 {
        if !(index < 0 || bytes.len() < index) {
        }
    }
}

/// The part of a text between two byte offsets, where both offsets stand at the
/// start of a character or at the end of the text and the first does not stand
/// behind the second.
pub open spec fn byte_slice(text: Seq<char>, start: int, end: int) -> Option<Seq<char>> {
    let bytes = encode_utf8(text);
    if 0 <= start <= end && is_char_boundary(bytes, start) && is_char_boundary(bytes, end) {
        Some(decode_utf8(bytes.subrange(start, end)))
    } else {
        None
    }
}

/// The part of a text from a byte offset on, where the offset stands at the
/// start of a character or at the end of the text.
pub open spec fn byte_tail(text: Seq<char>, start: int) -> Option<Seq<char>> {
    let bytes = encode_utf8(text);
    if is_char_boundary(bytes, start) {
        Some(decode_utf8(bytes.subrange(start, bytes.len() as int)))
    } else {
        None
    }
}

/// The part of a text between two byte offsets.
pub fn slice(text: &str, start: usize, end: usize) -> (part: Option<String>)
    ensures
        part is Some <==> byte_slice(text@, start as int, end as int) is Some,
        part is Some ==> part->0@ == byte_slice(text@, start as int, end as int)->0,
{
    let ghost bytes = text.spec_bytes();
    proof {
        vstd::utf8::encode_utf8_valid_utf8(text@);
    }
    if start <= end && text.is_char_boundary(start) && text.is_char_boundary(end) {
        let (head, _) = text.split_at(end);
        proof {
            lemma_boundary_bounds(bytes, end as int);
            assert(head.spec_bytes() =~= bytes.subrange(0, end as int));
            vstd::utf8::valid_utf8_split(bytes, end as int);
            if start < end {
                vstd::utf8::is_char_boundary_iff_not_is_continuation_byte(bytes, start as int);
                vstd::utf8::is_char_boundary_iff_not_is_continuation_byte(
                    head.spec_bytes(),
                    start as int,
                );
                assert(head.spec_bytes()[start as int] == bytes[start as int]);
            } else {
                vstd::utf8::is_char_boundary_start_end_of_seq(head.spec_bytes());
            }
        }
        let (_, part) = head.split_at(start);
        proof {
            assert(part.spec_bytes() =~= bytes.subrange(start as int, end as int));
            vstd::utf8::encode_utf8_decode_utf8(part@);
        }
        Some(part.to_owned())
    } else {
        None
    }
}

/// The part of a text from a byte offset on.
pub fn tail(text: &str, start: usize) -> (part: Option<String>)
    ensures
        part is Some <==> byte_tail(text@, start as int) is Some,
        part is Some ==> part->0@ == byte_tail(text@, start as int)->0,
{
    if text.is_char_boundary(start) {
        let (_, part) = text.split_at(start);
        proof {
            vstd::utf8::encode_utf8_decode_utf8(part@);
        }
        Some(part.to_owned())
    } else {
        None
    }
}

} // verus!
