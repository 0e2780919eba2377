//! The HTML escaper: the five characters that markup gives a meaning to
//! are written as numeric character references.

use vstd::prelude::*;
use vstd::string::*;

verus! {

/// A character as it is written into HTML: the double quote, the ampersand,
/// the single quote and the two angle brackets as numeric character
/// references, any other character as itself.
pub open spec fn escaped_char(c: char) -> Seq<char> {
    if c == '"' {
        "&#34;"@
    } else if c == '&' {
        "&#38;"@
    } else if c == '\'' {
        "&#39;"@
    } else if c == '<' {
        "&#60;"@
    } else if c == '>' {
        "&#62;"@
    } else {
        seq![c]
    }
}

/// A text as it is written into HTML: each character escaped, in order.
pub open spec fn escaped(text: Seq<char>) -> Seq<char>
    decreases text.len(),
{
    if text.len() == 0 {
        Seq::empty()
    } else {
        escaped(text.drop_last()) + escaped_char(text.last())
    }
}

/// `String::push`: appends the character to the end of the text.
#[verifier::external_body]
pub(crate) fn push_char(dest: &mut String, c: char)
    ensures
        final(dest)@ == old(dest)@.push(c),
{
    dest.push(c)
}

/// Appends `c` to `dest`, escaped for HTML.
pub fn write_escaped_char(dest: &mut String, c: char)
    ensures
        final(dest)@ == old(dest)@ + escaped_char(c),
{
    if c == '"' {
        dest.append("&#34;");
    } else if c == '&' {
        dest.append("&#38;");
    } else if c == '\'' {
        dest.append("&#39;");
    } else if c == '<' {
        dest.append("&#60;");
    } else if c == '>' {
        dest.append("&#62;");
    } else {
        push_char(dest, c);
        assert(dest@ =~= old(dest)@ + seq![c]);
    }
}

/// Appends `src` to `dest`, escaped for HTML.
pub fn write_escaped_str(dest: &mut String, src: &str)
    ensures
        final(dest)@ == old(dest)@ + escaped(src@),
{
    assert(dest@ =~= old(dest)@ + escaped(src@.take(0)));
    for c in it: src.chars()
        invariant
            it.seq() == src@,
            dest@ == old(dest)@ + escaped(src@.take(it.index() as int)),
    {
        let ghost before = src@.take(it.index() as int);
        let ghost after = src@.take(it.index() + 1);
        write_escaped_char(dest, c);
        proof {
            assert(after.drop_last() =~= before);
            assert(after.last() == c);
            assert(dest@ =~= old(dest)@ + escaped(after));
        }
    }
    assert(src@.take(src@.len() as int) =~= src@);
}

} // verus!
