//! Small helpers on strings, which the rest of the library sees as
//! sequences of characters.

use vstd::prelude::*;

verus! {

/// `str::eq` of the standard library: two string slices are equal exactly
/// when they hold the same characters in the same order.
pub assume_specification[ <str as PartialEq>::eq ](a: &str, b: &str) -> (same: bool)
    ensures
        same == (a@ == b@),
;

/// The character sequences of a list of strings.
pub open spec fn texts(list: Seq<String>) -> Seq<Seq<char>> {
    list.map_values(|s: String| s@)
}

/// An independent copy of a list of strings.
pub fn clone_texts(list: &Vec<String>) -> (copy: Vec<String>)
    ensures
        texts(copy@) == texts(list@),
{
    let mut copy: Vec<String> = Vec::new();
    let mut i: usize = 0;
    while i < list.len()
        invariant
            i <= list.len(),
            copy.len() == i,
            forall|j: int| 0 <= j < i ==> copy[j]@ == list[j]@,
        decreases list.len() - i,
    {
        copy.push(list[i].clone());
        i = i + 1;
    }
    assert(texts(copy@) =~= texts(list@));
    copy
}

/// The characters of a string, one by one.
pub fn chars_of(text: &str) -> (list: Vec<char>)
    ensures
        list@ == text@,
{
    broadcast use vstd::string::group_string_axioms;

    let mut list: Vec<char> = Vec::new();
    for c in it: text.chars()
        invariant
            list@ == text@.take(it.index() as int),
            it.seq() == text@,
    {
        list.push(c);
        assert(text@.take(it.index() + 1) =~= text@.take(it.index() as int).push(c));
    }
    assert(text@.take(text@.len() as int) =~= text@);
    list
}

/// `str::contains` of the standard library with a string as the pattern:
/// whether `needle` occurs in `haystack` as a run of consecutive characters.
/// The empty string occurs in every string.
#[verifier::external_body]
pub(crate) fn text_contains(haystack: &str, needle: &str) -> (found: bool)
    ensures
        found == occurs_in(needle@, haystack@),
{
    haystack.contains(needle)
}

/// `needle` occurs in `haystack` as a run of consecutive characters.
pub open spec fn occurs_in(needle: Seq<char>, haystack: Seq<char>) -> bool {
    exists|start: int|
        0 <= start <= haystack.len() - needle.len() && #[trigger] haystack.subrange(
            start,
            start + needle.len(),
        ) == needle
}

/// The character is white space in the sense of Unicode.
pub open spec fn is_space(c: char) -> bool {
    let code = c as u32;
    ||| 0x09 <= code <= 0x0D
    ||| code == 0x20
    ||| code == 0x85
    ||| code == 0xA0
    ||| code == 0x1680
    ||| 0x2000 <= code <= 0x200A
    ||| code == 0x2028
    ||| code == 0x2029
    ||| code == 0x202F
    ||| code == 0x205F
    ||| code == 0x3000
}

/// Whether the character is white space in the sense of Unicode.
pub fn is_space_char(c: char) -> (space: bool)
    ensures
        space == is_space(c),
{
    let code: u32 = c as u32;
    (0x09 <= code && code <= 0x0D) || code == 0x20 || code == 0x85 || code == 0xA0 || code
        == 0x1680 || (0x2000 <= code && code <= 0x200A) || code == 0x2028 || code == 0x2029
        || code == 0x202F || code == 0x205F || code == 0x3000
}

/// `s` without the white space at its start.
pub open spec fn trim_start(s: Seq<char>) -> Seq<char>
    decreases s.len(),
{
    if s.len() > 0 && is_space(s.first()) {
        trim_start(s.drop_first())
    } else {
        s
    }
}

/// `s` without the white space at its end.
pub open spec fn trim_end(s: Seq<char>) -> Seq<char>
    decreases s.len(),
{
    if s.len() > 0 && is_space(s.last()) {
        trim_end(s.drop_last())
    } else {
        s
    }
}

/// `s` without the white space at its start and at its end.
pub open spec fn trim(s: Seq<char>) -> Seq<char> {
    trim_end(trim_start(s))
}

/// A copy of `text` without the white space at its start and at its end.
pub fn trimmed(text: &str) -> (result: String)
    ensures
        result@ == trim(text@),
{
    let chars = chars_of(text);
    let length: usize = chars.len();
    let mut low: usize = 0;
    assert(text@.skip(0) =~= text@);
    while low < length && is_space_char(chars[low])
        invariant
            length == chars.len(),
            chars@ == text@,
            low <= length,
            trim_start(text@) == trim_start(text@.skip(low as int)),
        decreases length - low,
    {
        assert(text@.skip(low as int).drop_first() =~= text@.skip(low + 1));
        low = low + 1;
    }
    let mut high: usize = length;
    while high > low && is_space_char(chars[high - 1])
        invariant
            length == chars.len(),
            chars@ == text@,
            low <= high <= length,
            trim_start(text@) == text@.skip(low as int),
            trim(text@) == trim_end(text@.subrange(low as int, high as int)),
        decreases high,
    {
        assert(text@.subrange(low as int, high as int).drop_last() =~= text@.subrange(
            low as int,
            high - 1,
        ));
        high = high - 1;
    }
    text.substring_char(low, high).to_owned()
}

/// What separates the pieces of a text.
#[derive(Debug, Clone, Copy, PartialEq, Eq, Structural)]
pub enum Separator {
    /// The comma.
    Comma,
    /// Any white space character.
    Whitespace,
    /// The decimal point.
    Point,
}

impl Separator {
    /// The character is a separator of this kind.
    pub open spec fn separates(self, c: char) -> bool {
        match self {
            Separator::Comma => c == ',',
            Separator::Whitespace => is_space(c),
            Separator::Point => c == '.',
        }
    }

    /// Whether the character is a separator of this kind.
    pub fn is_separator(&self, c: char) -> (yes: bool)
        ensures
            yes == self.separates(c),
    {
        match self {
            Separator::Comma => c == ',',
            Separator::Whitespace => is_space_char(c),
            Separator::Point => c == '.',
        }
    }
}

/// The pieces into which the separators cut `s`, read from left to right:
/// a separator ends the current piece and starts an empty one, any other
/// character lengthens the current piece. There is one piece more than
/// there are separators, and a piece may be empty.
pub open spec fn pieces(s: Seq<char>, separator: Separator) -> Seq<Seq<char>>
    decreases s.len(),
{
    if s.len() == 0 {
        seq![Seq::<char>::empty()]
    } else {
        let before = pieces(s.drop_last(), separator);
        if separator.separates(s.last()) {
            before.push(Seq::<char>::empty())
        } else {
            before.update(before.len() - 1, before.last().push(s.last()))
        }
    }
}

/// The pieces into which the separators cut `text`.
pub fn split(text: &str, separator: Separator) -> (list: Vec<String>)
    ensures
        texts(list@) == pieces(text@, separator),
{
    let chars = chars_of(text);
    let length: usize = chars.len();
    let mut list: Vec<String> = Vec::new();
    let mut start: usize = 0;
    let mut k: usize = 0;
    assert(text@.take(0) =~= Seq::<char>::empty());
    assert(texts(list@).push(text@.subrange(0, 0)) =~= seq![Seq::<char>::empty()]);
    while k < length
        invariant
            length == chars.len(),
            chars@ == text@,
            start <= k <= length,
            pieces(text@.take(k as int), separator) == texts(list@).push(
                text@.subrange(start as int, k as int),
            ),
        decreases length - k,
    {
        let ghost before = texts(list@);
        let ghost current = text@.subrange(start as int, k as int);
        assert(text@.take(k + 1).drop_last() =~= text@.take(k as int));
        assert(text@.take(k + 1).last() == chars[k as int]);
        if separator.is_separator(chars[k]) {
            let piece = text.substring_char(start, k).to_owned();
            list.push(piece);
            start = k + 1;
            assert(texts(list@) =~= before.push(current));
            assert(text@.subrange(start as int, k + 1) =~= Seq::<char>::empty());
        } else {
            assert(current.push(chars[k as int]) =~= text@.subrange(start as int, k + 1));
            assert(before.push(current).update(before.len() as int, current.push(chars[k as int]))
                =~= before.push(text@.subrange(start as int, k + 1)));
        }
        k = k + 1;
    }
    assert(text@.take(length as int) =~= text@);
    let ghost before = texts(list@);
    let piece = text.substring_char(start, length).to_owned();
    list.push(piece);
    assert(texts(list@) =~= before.push(text@.subrange(start as int, length as int)));
    list
}

} // verus!
