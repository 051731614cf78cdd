//! The title convention: an original title, then decoration segments, each
//! introduced by the delimiter `" | "`. A segment that begins with the pin
//! glyph is pinned and survives cleaning.

use crate::text::{
    chars_of, extend_chars, find, find_from, join, join_chars, occurs_here, slice_chars, split,
    split_chars, starts_with, string_of, texts, trim, trim_chars,
};
use vstd::prelude::*;

verus! {

/// The delimiter between the original title and each decoration segment.
pub open spec fn delimiter() -> Seq<char> {
    seq![' ', '|', ' ']
}

/// The glyph that marks a pinned segment (U+1F4CC, a pushpin).
pub open spec fn pin() -> char {
    '\u{1F4CC}'
}

/// The delimiter as characters.
pub fn delimiter_chars() -> (d: Vec<char>)
    ensures
        d@ == delimiter(),
{
    let mut d: Vec<char> = Vec::new();
    d.push(' ');
    d.push('|');
    d.push(' ');
    assert(d@ =~= delimiter());
    d
}

/// A title carrying a decoration: original, delimiter, decoration.
pub open spec fn decorated(original: Seq<char>, emojis: Seq<char>) -> Seq<char> {
    original + delimiter() + emojis
}

/// The text before the first delimiter; the whole title where there is none.
pub open spec fn base_title(title: Seq<char>) -> Seq<char> {
    match find(title, delimiter(), 0) {
        Some(i) => title.take(i),
        None => title,
    }
}

/// Whether a segment is pinned: it begins with the pin glyph.
pub open spec fn is_pinned(segment: Seq<char>) -> bool {
    segment.len() > 0 && segment[0] == pin()
}

/// The pinned ones among `parts`, each trimmed, in their order.
pub open spec fn pinned_among(parts: Seq<Seq<char>>) -> Seq<Seq<char>>
    decreases parts.len(),
{
    if parts.len() == 0 {
        Seq::empty()
    } else {
        let before = pinned_among(parts.drop_last());
        let segment = trim(parts.last());
        if is_pinned(segment) {
            before.push(segment)
        } else {
            before
        }
    }
}

/// The pinned segments of a decoration text.
pub open spec fn pinned_segments(decoration: Seq<char>) -> Seq<Seq<char>> {
    pinned_among(split(decoration, delimiter()))
}

/// The title reduced to its original and its pinned segments. A current
/// title that does not begin with the original is replaced by the original.
pub open spec fn cleaned_title(original: Seq<char>, current: Seq<char>) -> Seq<char> {
    if !starts_with(current, original) {
        original
    } else {
        let pinned = pinned_segments(current.skip(original.len() as int));
        if pinned.len() == 0 {
            original
        } else {
            original + delimiter() + join(pinned, delimiter())
        }
    }
}

/// What follows the original and one delimiter in `title`; empty where the
/// title does not begin that way.
pub open spec fn decoration_suffix(original: Seq<char>, title: Seq<char>) -> Seq<char> {
    let prefix = original + delimiter();
    if starts_with(title, prefix) {
        title.skip(prefix.len() as int)
    } else {
        Seq::empty()
    }
}

/// Composes the decorated title `original | emojis`.
pub fn title_with_emojis(original_title: &str, emojis: &str) -> (title: String)
    ensures
        title@ == decorated(original_title@, emojis@),
{
    let mut out = chars_of(original_title);
    extend_chars(&mut out, &delimiter_chars());
    extend_chars(&mut out, &chars_of(emojis));
    string_of(&out)
}

/// The original title that a possibly decorated title begins with.
pub fn original_from_title(title: &str) -> (original: String)
    ensures
        original@ == base_title(title@),
{
    let chars = chars_of(title);
    match find_from(&chars, &delimiter_chars(), 0) {
        Some(i) => {
            proof {
                crate::text::lemma_find_some(chars@, delimiter(), 0);
            }
            string_of(&slice_chars(&chars, 0, i))
        },
        None => string_of(&chars),
    }
}

/// The pinned ones among `parts`, each trimmed, in their order.
fn pinned_parts(parts: &Vec<Vec<char>>) -> (pinned: Vec<Vec<char>>)
    ensures
        texts(pinned@) == pinned_among(texts(parts@)),
{
    let mut pinned: Vec<Vec<char>> = Vec::new();
    let mut i: usize = 0;
    while i < parts.len()
        invariant
            i <= parts.len(),
            texts(pinned@) == pinned_among(texts(parts@).take(i as int)),
        decreases parts.len() - i,
    {
        let ghost next = texts(parts@).take(i + 1);
        assert(next.drop_last() == texts(parts@).take(i as int));
        assert(next.last() == parts@[i as int]@);
        let segment = trim_chars(&parts[i]);
        if segment.len() > 0 && segment[0] == '\u{1F4CC}' {
            let ghost before = texts(pinned@);
            pinned.push(segment);
            assert(texts(pinned@) == before.push(segment@));
        }
        i += 1;
    }
    assert(texts(parts@).take(parts.len() as int) == texts(parts@));
    pinned
}

/// Whether a decoration text holds a pinned segment.
pub fn decoration_is_pinned(emojis: &str) -> (r: bool)
    ensures
        r == (pinned_segments(emojis@).len() > 0),
{
    let parts = split_chars(&chars_of(emojis), &delimiter_chars());
    let pinned = pinned_parts(&parts);
    assert(texts(pinned@).len() == pinned@.len());
    pinned.len() > 0
}

/// Drops every decoration segment of `current_title` that is not pinned.
pub fn title_with_pinned_segments(original_title: &str, current_title: &str) -> (title: String)
    ensures
        title@ == cleaned_title(original_title@, current_title@),
{
    let original = chars_of(original_title);
    let current = chars_of(current_title);
    if !occurs_here(&current, &original, 0) {
        return string_of(&original);
    }
    let rest = slice_chars(&current, original.len(), current.len());
    assert(rest@ == current@.skip(original@.len() as int));
    let delim = delimiter_chars();
    let parts = split_chars(&rest, &delim);
    let pinned = pinned_parts(&parts);
    assert(texts(pinned@).len() == pinned@.len());
    if pinned.len() == 0 {
        string_of(&original)
    } else {
        let mut out = original;
        extend_chars(&mut out, &delim);
        extend_chars(&mut out, &join_chars(&pinned, &delim));
        string_of(&out)
    }
}

/// The decoration that `title` carries after `original_title`.
pub fn emojis_suffix_from_title(original_title: &str, title: &str) -> (suffix: String)
    ensures
        suffix@ == decoration_suffix(original_title@, title@),
{
    let mut prefix = chars_of(original_title);
    extend_chars(&mut prefix, &delimiter_chars());
    let chars = chars_of(title);
    if occurs_here(&chars, &prefix, 0) {
        let rest = slice_chars(&chars, prefix.len(), chars.len());
        assert(rest@ == chars@.skip(prefix@.len() as int));
        string_of(&rest)
    } else {
        String::new()
    }
}

/// Whether two strings hold the same text.
pub fn same_text(a: &str, b: &str) -> (r: bool)
    ensures
        r == (a@ == b@),
{
    crate::text::same_chars(&chars_of(a), &chars_of(b))
}

} // verus!
