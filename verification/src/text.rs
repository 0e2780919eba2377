//! Text helpers shared by the messages and checks of this crate.

use vstd::prelude::*;
use vstd::std_specs::iter::IteratorSpec;
use vstd::string::*;

verus! {

/// What `{:?}` prints for a string slice: the text in double quotes, with
/// the escapes that the `Debug` impl of `str` applies.
pub uninterp spec fn debug_quoted(text: Seq<char>) -> Seq<char>;

/// The part of `char::is_whitespace` beyond ASCII: whether a character
/// above U+007F has the Unicode property `White_Space`.
pub uninterp spec fn unicode_white_space(c: char) -> bool;

/// The ASCII characters with the property `White_Space`: the space and the
/// controls from the tab to the carriage return.
pub open spec fn ascii_white_space(c: char) -> bool {
    c == ' ' || ('\u{9}' <= c && c <= '\u{d}')
}

/// Whether a character counts as whitespace, as `char::is_whitespace` does.
pub open spec fn is_white_space(c: char) -> bool {
    if c <= '\u{7f}' {
        ascii_white_space(c)
    } else {
        unicode_white_space(c)
    }
}

/// Whether some character of `text` is whitespace.
pub open spec fn has_white_space(text: Seq<char>) -> bool {
    exists|i: int| 0 <= i < text.len() && is_white_space(#[trigger] text[i])
}

/// The length of `text` in bytes once encoded as UTF-8, which is what
/// `str::len` counts.
pub open spec fn byte_len(text: Seq<char>) -> nat {
    vstd::utf8::encode_utf8(text).len()
}

/// `parts` joined by `", "`, as a list is printed.
pub open spec fn comma_joined(parts: Seq<Seq<char>>) -> Seq<char>
    decreases parts.len(),
{
    if parts.len() == 0 {
        Seq::empty()
    } else if parts.len() == 1 {
        parts[0]
    } else {
        comma_joined(parts.drop_last()) + ", "@ + parts.last()
    }
}

/// `parts` as a bracketed list: `[a, b, c]`.
pub open spec fn bracketed_list(parts: Seq<Seq<char>>) -> Seq<char> {
    "["@ + comma_joined(parts) + "]"@
}

/// `char::is_whitespace`. The contract states its result for ASCII, where
/// the whitespace characters are the space and U+0009 to U+000D, and names
/// it for every other character without saying what it is.
pub assume_specification[ char::is_whitespace ](c: char) -> (white: bool)
    ensures
        white == (if c <= '\u{7f}' {
            ascii_white_space(c)
        } else {
            unicode_white_space(c)
        }),
;

/// Formats `text` with `{:?}`, the `Debug` impl of `str`. The contract only
/// names the result: the quoting and escaping are those of the standard
/// library and are not restated here.
#[verifier::external_body]
pub(crate) fn debug_str(text: &str) -> (quoted: String)
    ensures
        quoted@ == debug_quoted(text@),
{
    format!("{:?}", text)
}

/// The length of `text` in bytes.
pub fn utf8_len(text: &str) -> (len: usize)
    ensures
        len == byte_len(text@),
{
    text.as_bytes().len()
}

/// Whether some character of `text` is whitespace.
pub fn contains_whitespace(text: &str) -> (found: bool)
    ensures
        found == has_white_space(text@),
{
    for c in it: text.chars()
        invariant
            it.seq() == text@,
            forall|j: int| 0 <= j < it.index() ==> !is_white_space(#[trigger] text@[j]),
    {
        if c.is_whitespace() {
            return true;
        }
    }
    false
}

/// Whether `prefix` is a prefix of `text`, character by character.
pub fn has_prefix(text: &str, prefix: &str) -> (yes: bool)
    ensures
        yes == prefix@.is_prefix_of(text@),
{
    let mut rest = text.chars();
    for c in it: prefix.chars()
        invariant
            it.seq() == prefix@,
            rest.remaining() == text@.skip(it.index()),
            it.index() <= text@.len(),
            forall|j: int| 0 <= j < it.index() ==> prefix@[j] == text@[j],
    {
        match rest.next() {
            Some(d) => {
                if c != d {
                    return false;
                }
            },
            None => {
                return false;
            },
        }
    }
    assert(prefix@ =~= text@.subrange(0, prefix@.len() as int));
    true
}

/// Whether the two string slices hold the same text.
pub fn same_str(a: &str, b: &str) -> (same: bool)
    ensures
        same == (a@ == b@),
{
    let same = has_prefix(a, b) && has_prefix(b, a);
    proof {
        if same {
            assert(a@ =~= b@);
        }
    }
    same
}

/// Whether the two texts are the same.
pub fn same_text(a: &String, b: &String) -> (same: bool)
    ensures
        same == (a@ == b@),
{
    *a == *b
}

/// Whether both texts are absent, or both are present and the same.
pub fn same_optional_text(a: &Option<String>, b: &Option<String>) -> (same: bool)
    ensures
        same == (a.deep_view() == b.deep_view()),
{
    match (a, b) {
        (Some(a), Some(b)) => same_text(a, b),
        (None, None) => true,
        _ => false,
    }
}

/// A copy of an optional text.
pub fn clone_optional_text(text: &Option<String>) -> (copy: Option<String>)
    ensures
        copy == *text,
{
    match text {
        Some(text) => Some(text.clone()),
        None => None,
    }
}

/// A copy of a list of texts.
pub fn clone_texts(texts: &Vec<String>) -> (copy: Vec<String>)
    ensures
        copy@ == texts@,
{
    let mut copy: Vec<String> = Vec::new();
    let mut i: usize = 0;
    while i < texts.len()
        invariant
            i <= texts.len(),
            copy@ == texts@.take(i as int),
        decreases texts.len() - i,
    {
        copy.push(texts[i].clone());
        assert(texts@.take(i + 1) =~= texts@.take(i as int).push(texts@[i as int]));
        i = i + 1;
    }
    assert(texts@.take(texts.len() as int) =~= texts@);
    copy
}

/// Joins the parts with `", "` and puts them in square brackets.
pub fn list_text(parts: &Vec<String>) -> (text: String)
    ensures
        text@ == bracketed_list(parts.deep_view()),
{
    let ghost all = parts.deep_view();
    let mut text = String::new();
    let mut i: usize = 0;
    while i < parts.len()
        invariant
            i <= parts.len(),
            all == parts.deep_view(),
            text@ == comma_joined(all.take(i as int)),
        decreases parts.len() - i,
    {
        if i > 0 {
            text.append(", ");
        }
        text.append(parts[i].as_str());
        proof {
            let before = all.take(i as int);
            let after = all.take(i + 1);
            assert(after.drop_last() =~= before);
            assert(after.last() == parts@[i as int]@);
            reveal_with_fuel(comma_joined, 2);
            if i == 0 {
                assert(before.len() == 0);
                assert(text@ =~= after[0]);
            }
        }
        i = i + 1;
    }
    assert(all.take(parts.len() as int) =~= all);
    let mut out = String::from_str("[");
    out.append(text.as_str());
    out.append("]");
    out
}

} // verus!
