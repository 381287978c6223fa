use vstd::prelude::*;
use vstd::string::StrSliceExecFns;

verus! {

/// The symbol that marks a callout of the given kind, for the kinds that have
/// one.
pub open spec fn symbol_of(kind: Seq<char>) -> Option<Seq<char>> {
    if kind == "Note"@ {
        Some("\u{24d8}"@)
    } else if kind == "Warning"@ {
        Some("\u{26a0}"@)
    } else if kind == "Tip"@ {
        Some("\u{2606}"@)
    } else if kind == "Important"@ {
        Some("\u{203c}"@)
    } else if kind == "Caution"@ {
        Some("\u{2297}"@)
    } else {
        None
    }
}

/// The symbol that marks a callout of the given kind.
pub fn callout_symbol(kind: &str) -> (symbol: Option<&'static str>)
    ensures
        symbol is Some <==> symbol_of(kind@) is Some,
        symbol is Some ==> symbol->0@ == symbol_of(kind@)->0,
{
    if crate::text::same_text(kind, "Note") {
        Some("\u{24d8}")
    } else if crate::text::same_text(kind, "Warning") {
        Some("\u{26a0}")
    } else if crate::text::same_text(kind, "Tip") {
        Some("\u{2606}")
    } else if crate::text::same_text(kind, "Important") {
        Some("\u{203c}")
    } else if crate::text::same_text(kind, "Caution") {
        Some("\u{2297}")
    } else {
        None
    }
}

/// The first place at or behind `from` where `[!` stands in the text, if it
/// stands anywhere.
pub open spec fn find_opening(text: Seq<char>, from: int) -> Option<int>
    decreases text.len() - from,
{
    if from < 0 || from + 1 >= text.len() {
        None
    } else if text[from] == '[' && text[from + 1] == '!' {
        Some(from)
    } else {
        find_opening(text, from + 1)
    }
}

/// The first place at or behind `from` where `]` stands in the text, if it
/// stands anywhere.
pub open spec fn find_closing(text: Seq<char>, from: int) -> Option<int>
    decreases text.len() - from,
{
    if from < 0 || from >= text.len() {
        None
    } else if text[from] == ']' {
        Some(from)
    } else {
        find_closing(text, from + 1)
    }
}

/// Whether the first `]` of the text stands before its first `[!`: such a
/// text has no callout type to read.
pub open spec fn closes_early(text: Seq<char>) -> bool {
    find_opening(text, 0) is Some && find_closing(text, 0) is Some && find_closing(text, 0)->0
        < find_opening(text, 0)->0
}

/// The callout type of a text: what stands between its first `[!` and its
/// first `]`, without the white space around it.
pub open spec fn callout_type(text: Seq<char>) -> Option<Seq<char>> {
    match (find_opening(text, 0), find_closing(text, 0)) {
        (Some(start), Some(end)) => if start + 2 <= end {
            Some(crate::text::trimmed(text.subrange(start + 2, end)))
        } else {
            None
        },
        _ => None,
    }
}

/// Reads the callout type of a text such as `[!note] Title`.
pub fn parse_callout_type(text: &str) -> (kind: Option<String>)
    requires
        !closes_early(text@),
    ensures
        kind is Some <==> callout_type(text@) is Some,
        kind is Some ==> kind->0@ == callout_type(text@)->0,
{
    let length = text.unicode_len();
    let mut start: usize = 0;
    let mut found = false;
    while length - start >= 2 && !found
        invariant
            length == text@.len(),
            start <= length,
            find_opening(text@, 0) == find_opening(text@, start as int),
            found ==> start + 1 < length && text@[start as int] == '[' && text@[start + 1]
                == '!',
        decreases length - start, if found { 0int } else { 1int },
    {
        if text.get_char(start) == '[' && text.get_char(start + 1) == '!' {
            found = true;
        } else {
            start += 1;
        }
    }
    if !found {
        return None;
    }
    let mut end: usize = 0;
    while end < length && text.get_char(end) != ']'
        invariant
            length == text@.len(),
            end <= length,
            find_closing(text@, 0) == find_closing(text@, end as int),
        decreases length - end,
    {
        end += 1;
    }
    if end >= length {
        return None;
    }
    let mut from = start + 2;
    let mut to = end;
    let ghost inner = text@.subrange(start + 2, end as int);
    assert(text@.subrange(from as int, to as int) =~= inner);
    while from < to && (crate::text_counts::space(text.get_char(from)) || crate::text_counts::space(
        text.get_char(to - 1),
    ))
        invariant
            length == text@.len(),
            start + 2 <= from <= to <= end < length,
            crate::text::trimmed(inner) == crate::text::trimmed(
                text@.subrange(from as int, to as int),
            ),
        decreases to - from,
    {
        let ghost part = text@.subrange(from as int, to as int);
        if crate::text_counts::space(text.get_char(from)) {
            assert(part.drop_first() =~= text@.subrange(from + 1, to as int));
            from += 1;
        } else {
            assert(part.drop_last() =~= text@.subrange(from as int, to - 1));
            to -= 1;
        }
    }
    let kind = text.substring_char(from, to).to_owned();
    assert(crate::text::trimmed(text@.subrange(from as int, to as int)) == text@.subrange(
        from as int,
        to as int,
    ));
    Some(kind)
}

} // verus!
