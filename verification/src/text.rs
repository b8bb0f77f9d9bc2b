//! Operations on text that the rest of the library shares.

use vstd::prelude::*;
use vstd::string::*;

verus! {

/// The text that follows the prefix, if the text starts with the prefix.
pub fn strip_prefix<'a>(text: &'a str, prefix: &str) -> (rest: Option<&'a str>)
    ensures
        match rest {
            Some(rest) => text@ == prefix@ + rest@,
            None => !prefix@.is_prefix_of(text@),
        },
{
    let prefix_len: usize = prefix.unicode_len();
    let text_len: usize = text.unicode_len();
    if text_len < prefix_len {
        return None;
    }
    let mut i: usize = 0;
    while i < prefix_len
        invariant
            i <= prefix_len <= text_len,
            prefix_len == prefix@.len(),
            text_len == text@.len(),
            forall|j: int| 0 <= j < i ==> text@[j] == prefix@[j],
        decreases prefix_len - i,
    {
        if text.get_char(i) != prefix.get_char(i) {
            assert(text@.subrange(0, prefix@.len() as int)[i as int] != prefix@[i as int]);
            return None;
        }
        i += 1;
    }
    let rest = text.substring_char(prefix_len, text_len);
    assert(text@ =~= prefix@ + rest@);
    Some(rest)
}

/// The text without the characters `c` that it starts with.
pub open spec fn without_leading(text: Seq<char>, c: char) -> Seq<char>
    decreases text.len(),
{
    if text.len() > 0 && text[0] == c {
        without_leading(text.drop_first(), c)
    } else {
        text
    }
}

/// The text without the characters `c` that it ends with.
pub open spec fn without_trailing(text: Seq<char>, c: char) -> Seq<char>
    decreases text.len(),
{
    if text.len() > 0 && text.last() == c {
        without_trailing(text.drop_last(), c)
    } else {
        text
    }
}

/// The text without the characters `c` that it starts with.
pub fn trim_start_matches<'a>(text: &'a str, c: char) -> (rest: &'a str)
    ensures
        rest@ == without_leading(text@, c),
{
    let len: usize = text.unicode_len();
    let mut i: usize = 0;
    assert(text@.skip(0) == text@);
    while i < len && text.get_char(i) == c
        invariant
            i <= len,
            len == text@.len(),
            without_leading(text@, c) == without_leading(text@.skip(i as int), c),
        decreases len - i,
    {
        assert(text@.skip(i as int).drop_first() == text@.skip(i as int + 1));
        i += 1;
    }
    text.substring_char(i, len)
}

/// The text without the characters `c` that it ends with.
pub fn trim_end_matches<'a>(text: &'a str, c: char) -> (rest: &'a str)
    ensures
        rest@ == without_trailing(text@, c),
{
    let mut end: usize = text.unicode_len();
    assert(text@.take(end as int) == text@);
    while end > 0 && text.get_char(end - 1) == c
        invariant
            end <= text@.len(),
            without_trailing(text@, c) == without_trailing(text@.take(end as int), c),
        decreases end,
    {
        assert(text@.take(end as int).drop_last() == text@.take(end as int - 1));
        end -= 1;
    }
    text.substring_char(0, end)
}

/// The texts one after another, with nothing between them.
pub fn concatenated(texts: &Vec<String>) -> (all: String)
    ensures
        all@ == texts.deep_view().flatten(),
{
    let mut all = String::new();
    let mut i: usize = 0;
    while i < texts.len()
        invariant
            i <= texts.len(),
            all@ == texts.deep_view().take(i as int).flatten(),
        decreases texts.len() - i,
    {
        proof {
            let views = texts.deep_view();
            assert(views.take(i as int + 1) == views.take(i as int).push(views[i as int]));
            views.take(i as int).lemma_flatten_push(views[i as int]);
        }
        all.append(texts[i].as_str());
        i += 1;
    }
    assert(texts.deep_view().take(i as int) == texts.deep_view());
    all
}

/// Copies a piece of text that may be absent.
pub fn copy_text(text: &Option<String>) -> (copy: Option<String>)
    ensures
        copy.deep_view() == text.deep_view(),
{
    match text {
        Some(s) => Some(s.clone()),
        None => None,
    }
}

/// Whether two pieces of text, each of which may be absent, are the same.
pub fn same_text(left: &Option<String>, right: &Option<String>) -> (same: bool)
    ensures
        same == (left.deep_view() == right.deep_view()),
{
    match (left, right) {
        (Some(l), Some(r)) => *l == *r,
        (None, None) => true,
        _ => false,
    }
}

} // verus!
