//! Finding foods by keyword.
//!
//! A food carries keywords. A filter is a list of words, and a word is
//! found in a food when it occurs inside one of the food's keywords.

use vstd::prelude::*;
use crate::text::{occurs_in, pieces, split, text_contains, texts, trim, trimmed, Separator};

verus! {

/// The keywords that a comma-separated text lists: its pieces between the
/// commas, each without the white space around it.
pub open spec fn keywords_of(s: Seq<char>) -> Seq<Seq<char>> {
    pieces(s, Separator::Comma).map_values(|piece: Seq<char>| trim(piece))
}

/// The texts of `list` that are not empty, in order.
pub open spec fn without_empty(list: Seq<Seq<char>>) -> Seq<Seq<char>>
    decreases list.len(),
{
    if list.len() == 0 {
        list
    } else if list.last().len() == 0 {
        without_empty(list.drop_last())
    } else {
        without_empty(list.drop_last()).push(list.last())
    }
}

/// The words of a text: its runs of characters that are not white space.
pub open spec fn words_of(s: Seq<char>) -> Seq<Seq<char>> {
    without_empty(pieces(s, Separator::Whitespace))
}

/// The word occurs inside one of the keywords.
pub open spec fn keyword_found(food_keywords: Seq<Seq<char>>, word: Seq<char>) -> bool {
    exists|i: int| 0 <= i < food_keywords.len() && occurs_in(word, #[trigger] food_keywords[i])
}

/// The keywords pass the filter: an empty filter lets every food pass;
/// otherwise every word of the filter must be found where `match_all` is
/// set, and one of them where it is not.
pub open spec fn keywords_match(
    food_keywords: Seq<Seq<char>>,
    filter_keywords: Seq<Seq<char>>,
    match_all: bool,
) -> bool {
    if filter_keywords.len() == 0 {
        true
    } else if match_all {
        forall|j: int|
            0 <= j < filter_keywords.len() ==> keyword_found(
                food_keywords,
                #[trigger] filter_keywords[j],
            )
    } else {
        exists|j: int|
            0 <= j < filter_keywords.len() && keyword_found(
                food_keywords,
                #[trigger] filter_keywords[j],
            )
    }
}

/// The keywords that a comma-separated text lists.
pub fn parse_keywords(text: &str) -> (list: Vec<String>)
    ensures
        texts(list@) == keywords_of(text@),
{
    let parts = split(text, Separator::Comma);
    let mut list: Vec<String> = Vec::new();
    let mut i: usize = 0;
    while i < parts.len()
        invariant
            i <= parts.len(),
            list.len() == i,
            texts(parts@) == pieces(text@, Separator::Comma),
            forall|j: int| 0 <= j < i ==> (#[trigger] list[j])@ == trim(parts[j]@),
        decreases parts.len() - i,
    {
        list.push(trimmed(parts[i].as_str()));
        i = i + 1;
    }
    assert(texts(list@) =~= keywords_of(text@)) by {
        assert(texts(parts@).len() == parts.len());
        assert forall|j: int| 0 <= j < list.len() implies texts(list@)[j] == keywords_of(text@)[j] by {
            assert(texts(parts@)[j] == parts[j]@);
        }
    }
    list
}

/// The words of a text.
pub fn parse_words(text: &str) -> (list: Vec<String>)
    ensures
        texts(list@) == words_of(text@),
{
    let parts = split(text, Separator::Whitespace);
    let mut list: Vec<String> = Vec::new();
    let mut i: usize = 0;
    assert(texts(parts@).take(0) =~= Seq::<Seq<char>>::empty());
    assert(texts(list@) =~= Seq::<Seq<char>>::empty());
    while i < parts.len()
        invariant
            i <= parts.len(),
            texts(parts@) == pieces(text@, Separator::Whitespace),
            texts(list@) == without_empty(texts(parts@).take(i as int)),
        decreases parts.len() - i,
    {
        let ghost before = texts(list@);
        proof {
            let longer = texts(parts@).take(i + 1);
            assert(longer.drop_last() =~= texts(parts@).take(i as int));
            assert(longer.last() == parts[i as int]@);
        }
        if !parts[i].as_str().is_empty() {
            list.push(parts[i].clone());
            assert(texts(list@) =~= before.push(parts[i as int]@));
        }
        i = i + 1;
    }
    assert(texts(parts@).take(i as int) =~= texts(parts@));
    list
}

/// Whether the word occurs inside one of the keywords.
fn keyword_is_found(food_keywords: &Vec<String>, word: &str) -> (found: bool)
    ensures
        found == keyword_found(texts(food_keywords@), word@),
{
    let mut i: usize = 0;
    while i < food_keywords.len()
        invariant
            i <= food_keywords.len(),
            forall|j: int| 0 <= j < i ==> !occurs_in(word@, #[trigger] texts(food_keywords@)[j]),
        decreases food_keywords.len() - i,
    {
        assert(texts(food_keywords@)[i as int] == food_keywords[i as int]@);
        if text_contains(food_keywords[i].as_str(), word) {
            return true;
        }
        i = i + 1;
    }
    false
}

/// Whether the keywords of a food pass a filter.
pub fn matches_keywords(
    food_keywords: &Vec<String>,
    filter_keywords: &Vec<String>,
    match_all: bool,
) -> (passes: bool)
    ensures
        passes == keywords_match(texts(food_keywords@), texts(filter_keywords@), match_all),
{
    if filter_keywords.len() == 0 {
        return true;
    }
    let mut j: usize = 0;
    while j < filter_keywords.len()
        invariant
            j <= filter_keywords.len(),
            forall|k: int|
                0 <= k < j ==> keyword_found(
                    texts(food_keywords@),
                    #[trigger] texts(filter_keywords@)[k],
                ) == match_all,
        decreases filter_keywords.len() - j,
    {
        assert(texts(filter_keywords@)[j as int] == filter_keywords[j as int]@);
        let found = keyword_is_found(food_keywords, filter_keywords[j].as_str());
        if found != match_all {
            return found;
        }
        j = j + 1;
    }
    match_all
}

} // verus!
