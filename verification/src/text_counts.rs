//! Counts of the characters and of the words of a text.
use vstd::prelude::*;
use vstd::std_specs::convert::FromSpecImpl;
use vstd::string::StrSliceExecFns;

verus! {

/// A wrapper type representing the number of characters in a string. **All**
/// characters are counted for.
#[derive(Default, Clone, Copy, Debug, PartialEq, Eq, Structural)]
pub struct CharCount(pub usize);

/// A wrapper type representing the number of words in a string: the words that
/// white space separates once the special Markdown characters are taken out.
///
/// Markdown characters: * _ ` < > ? ! [ ] ( ) = ~ # +
#[derive(Default, Clone, Copy, Debug, PartialEq, Eq, Structural)]
pub struct WordCount(pub usize);

/// The characters that do not count towards a word.
pub open spec fn is_special(c: char) -> bool {
    c == '*' || c == '_' || c == '`' || c == '<' || c == '>' || c == '?' || c == '!' || c == '['
        || c == ']' || c == '(' || c == ')' || c == '=' || c == '~' || c == '#' || c == '+'
}

/// The characters with the Unicode property `White_Space`.
pub open spec fn is_space(c: char) -> bool {
    let code = c as int;
    (0x09 <= code <= 0x0D) || code == 0x20 || code == 0x85 || code == 0xA0 || code == 0x1680 || (
    0x2000 <= code <= 0x200A) || code == 0x2028 || code == 0x2029 || code == 0x202F || code
        == 0x205F || code == 0x3000
}

/// The number of words in a text: of the places where a character that is not
/// white space stands first or follows white space.
pub open spec fn word_starts(text: Seq<char>) -> nat
    decreases text.len(),
{
    if text.len() == 0 {
        0
    } else {
        let before = text.drop_last();
        let starts: nat = if !is_space(text.last()) && (before.len() == 0 || is_space(
            before.last(),
        )) {
            1
        } else {
            0
        };
        word_starts(before) + starts
    }
}

/// The text without its special Markdown characters.
pub open spec fn without_special(text: Seq<char>) -> Seq<char> {
    text.filter(|c: char| !is_special(c))
}

/// The number of words of a text.
pub open spec fn count_words(text: Seq<char>) -> nat {
    word_starts(without_special(text))
}

pub fn special(c: char) -> (b: bool)
    ensures
        b == is_special(c),
{
    c == '*' || c == '_' || c == '`' || c == '<' || c == '>' || c == '?' || c == '!' || c == '['
        || c == ']' || c == '(' || c == ')' || c == '=' || c == '~' || c == '#' || c == '+'
}

pub fn space(c: char) -> (b: bool)
    ensures
        b == is_space(c),
{
    let code: u32 = c as u32;
    (0x09 <= code && code <= 0x0D) || code == 0x20 || code == 0x85 || code == 0xA0 || code
        == 0x1680 || (0x2000 <= code && code <= 0x200A) || code == 0x2028 || code == 0x2029
        || code == 0x202F || code == 0x205F || code == 0x3000
}

impl From<usize> for CharCount {
    fn from(value: usize) -> (count: Self)
        ensures
            count.0 == value,
    {
        Self(value)
    }
}

impl FromSpecImpl<usize> for CharCount {
    open spec fn obeys_from_spec() -> bool {
        true
    }

    open spec fn from_spec(value: usize) -> Self {
        CharCount(value)
    }
}

impl From<&str> for CharCount {
    fn from(value: &str) -> (count: Self)
        ensures
            count.0 == value@.len(),
    {
        Self(value.unicode_len())
    }
}

impl FromSpecImpl<&str> for CharCount {
    open spec fn obeys_from_spec() -> bool {
        true
    }

    open spec fn from_spec(value: &str) -> Self {
        CharCount(value@.len() as usize)
    }
}

impl From<CharCount> for usize {
    fn from(value: CharCount) -> (count: usize)
        ensures
            count == value.0,
    {
        value.0
    }
}

impl FromSpecImpl<CharCount> for usize {
    open spec fn obeys_from_spec() -> bool {
        true
    }

    open spec fn from_spec(value: CharCount) -> usize {
        value.0
    }
}

impl From<WordCount> for usize {
    fn from(value: WordCount) -> (count: usize)
        ensures
            count == value.0,
    {
        value.0
    }
}

impl FromSpecImpl<WordCount> for usize {
    open spec fn obeys_from_spec() -> bool {
        true
    }

    open spec fn from_spec(value: WordCount) -> usize {
        value.0
    }
}

impl From<usize> for WordCount {
    fn from(value: usize) -> (count: Self)
        ensures
            count.0 == value,
    {
        Self(value)
    }
}

impl FromSpecImpl<usize> for WordCount {
    open spec fn obeys_from_spec() -> bool {
        true
    }

    open spec fn from_spec(value: usize) -> Self {
        WordCount(value)
    }
}

impl From<&str> for WordCount {
    fn from(value: &str) -> (count: Self)
        ensures
            count.0 == count_words(value@),
    {
        let length = value.unicode_len();
        let mut words: usize = 0;
        let mut in_word = false;
        let ghost keep = |c: char| !is_special(c);
        for c in iter: value.chars()
            invariant
                iter.seq() == value@,
                length == value@.len(),
                keep == (|c: char| !is_special(c)),
                words == word_starts(value@.take(iter.index() as int).filter(keep)),
                words <= iter.index(),
                in_word == ({
                    let seen = value@.take(iter.index() as int).filter(keep);
                    seen.len() > 0 && !is_space(seen.last())
                }),
        {
            let ghost seen = value@.take(iter.index() as int);
            proof {
                assert(value@.take(iter.index() + 1) =~= seen.push(c));
                seen.lemma_filter_push(c, keep);
            }
            if !special(c) {
                assert(seen.push(c).filter(keep).drop_last() =~= seen.filter(keep));
                if space(c) {
                    in_word = false;
                } else {
                    if !in_word {
                        words += 1;
                    }
                    in_word = true;
                }
            }
        }
        assert(value@.take(value@.len() as int) =~= value@);
        Self(words)
    }
}

impl FromSpecImpl<&str> for WordCount {
    open spec fn obeys_from_spec() -> bool {
        true
    }

    open spec fn from_spec(value: &str) -> Self {
        WordCount(count_words(value@) as usize)
    }
}

} // verus!
