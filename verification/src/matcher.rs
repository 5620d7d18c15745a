//! Detection of the announcement that ends a game: a keyword, in any case,
//! in the first or the last line of a batch of output.

use vstd::prelude::*;
use crate::text::{contains, is_substring, lowercase, lowercase_of};

verus! {

/// One of `keywords` is a substring of `text`.
pub open spec fn any_keyword_in(keywords: Seq<Seq<char>>, text: Seq<char>) -> bool {
    exists|i: int| 0 <= i < keywords.len() && is_substring(#[trigger] keywords[i], text)
}

/// The lowercase form of `line` holds one of `keywords`.
pub open spec fn line_announces(keywords: Seq<Seq<char>>, line: Seq<char>) -> bool {
    any_keyword_in(keywords, lowercase_of(line))
}

/// The last or the first line of `batch` announces an outcome. A batch
/// without lines announces none.
pub open spec fn batch_announces(keywords: Seq<Seq<char>>, batch: Seq<Seq<char>>) -> bool {
    batch.len() > 0 && (line_announces(keywords, batch.last()) || line_announces(
        keywords,
        batch.first(),
    ))
}

/// Whether one of `keywords` is a substring of `text`. Case is not touched
/// here: `text` is compared as it is given.
pub fn contains_any(keywords: &Vec<String>, text: &str) -> (found: bool)
    ensures
        found == any_keyword_in(keywords.deep_view(), text@),
{
    let mut i: usize = 0;
    while i < keywords.len()
        invariant
            i <= keywords.len(),
            forall|j: int| 0 <= j < i ==> !is_substring(#[trigger] keywords.deep_view()[j], text@),
        decreases keywords.len() - i,
    {
        if contains(text, keywords[i].as_str()) {
            assert(is_substring(keywords.deep_view()[i as int], text@));
            return true;
        }
        i += 1;
    }
    false
}

/// Whether `line`, put in lowercase, holds one of `keywords`. The keywords
/// are compared as given, so a keyword with an uppercase letter is found in
/// no line whose lowercase form has none.
pub fn within(keywords: &Vec<String>, line: &str) -> (found: bool)
    ensures
        found == line_announces(keywords.deep_view(), line@),
{
    let lower = lowercase(line);
    contains_any(keywords, lower.as_str())
}

/// Whether the last or the first line of `batch` holds one of `keywords`,
/// whatever the case of its letters.
pub fn announces(batch: &Vec<String>, keywords: &Vec<String>) -> (found: bool)
    ensures
        found == batch_announces(keywords.deep_view(), batch.deep_view()),
{
    let k = batch.len();
    if k == 0 {
        return false;
    }
    within(keywords, batch[k - 1].as_str()) || within(keywords, batch[0].as_str())
}

/// Case is ignored: two lines with the same lowercase form are judged
/// alike.
pub proof fn lemma_case_is_ignored(keywords: Seq<Seq<char>>, a: Seq<char>, b: Seq<char>)
    requires
        lowercase_of(a) == lowercase_of(b),
    ensures
        line_announces(keywords, a) == line_announces(keywords, b),
{
}

/// A keyword is found inside longer words too: a line whose lowercase form
/// holds keyword `i` anywhere, with whatever text before and behind it,
/// announces the outcome.
pub proof fn lemma_keyword_amid_text(
    keywords: Seq<Seq<char>>,
    i: int,
    line: Seq<char>,
    before: Seq<char>,
    behind: Seq<char>,
)
    requires
        0 <= i < keywords.len(),
        lowercase_of(line) == before + keywords[i] + behind,
    ensures
        line_announces(keywords, line),
{
    let text = lowercase_of(line);
    let at = before.len() as int;
    assert(text.subrange(at, at + keywords[i].len()) =~= keywords[i]);
    assert(crate::text::occurs_at(text, keywords[i], at));
    assert(is_substring(keywords[i], text));
}

} // verus!
