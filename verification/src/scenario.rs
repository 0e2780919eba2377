//! Round trips through the HTML escaper: what is escaped and then decoded
//! again should be what it was.

use crate::html::{escaped, push_char, write_escaped_char, write_escaped_str};
use crate::text::{byte_len, debug_quoted, debug_str, same_str, utf8_len};
use vstd::prelude::*;
use vstd::string::*;

verus! {

/// What `html_escape::decode_html_entities_to_string` appends for a text:
/// the text with every character reference that ends in `;` replaced by
/// what it stands for.
pub uninterp spec fn decoded_html(text: Seq<char>) -> Seq<char>;

/// What `{:?}` prints for a character.
pub uninterp spec fn char_quoted(c: char) -> Seq<char>;

/// `html_escape::decode_html_entities_to_string`, into a fresh text. The
/// contract only names the result: which references are known and what they
/// stand for is left to the decoder.
#[verifier::external_body]
pub(crate) fn decode_html(text: &str) -> (decoded: String)
    ensures
        decoded@ == decoded_html(text@),
{
    let mut decoded = String::with_capacity(text.len());
    html_escape::decode_html_entities_to_string(text, &mut decoded);
    decoded
}

/// Formats `c` with `{:?}`, the `Debug` impl of `char`. The contract only
/// names the result.
#[verifier::external_body]
pub(crate) fn debug_char(c: char) -> (quoted: String)
    ensures
        quoted@ == char_quoted(c),
{
    format!("{:?}", c)
}

/// The decimal digit for a number below ten.
pub open spec fn digit_char(digit: nat) -> char {
    if digit == 0 {
        '0'
    } else if digit == 1 {
        '1'
    } else if digit == 2 {
        '2'
    } else if digit == 3 {
        '3'
    } else if digit == 4 {
        '4'
    } else if digit == 5 {
        '5'
    } else if digit == 6 {
        '6'
    } else if digit == 7 {
        '7'
    } else if digit == 8 {
        '8'
    } else {
        '9'
    }
}

/// A number in decimal digits, without leading zeros.
pub open spec fn decimal_text(n: nat) -> Seq<char>
    decreases n,
{
    if n < 10 {
        seq![digit_char(n)]
    } else {
        decimal_text(n / 10).push(digit_char(n % 10))
    }
}

/// The decimal digit for a number below ten.
fn digit(value: usize) -> (c: char)
    requires
        value < 10,
    ensures
        c == digit_char(value as nat),
{
    if value == 0 {
        '0'
    } else if value == 1 {
        '1'
    } else if value == 2 {
        '2'
    } else if value == 3 {
        '3'
    } else if value == 4 {
        '4'
    } else if value == 5 {
        '5'
    } else if value == 6 {
        '6'
    } else if value == 7 {
        '7'
    } else if value == 8 {
        '8'
    } else {
        '9'
    }
}

/// Appends `n` to `dest` in decimal digits.
pub fn write_decimal(dest: &mut String, n: usize)
    ensures
        final(dest)@ == old(dest)@ + decimal_text(n as nat),
    decreases n,
{
    if n >= 10 {
        write_decimal(dest, n / 10);
    }
    push_char(dest, digit(n % 10));
    assert(dest@ =~= old(dest)@ + decimal_text(n as nat));
}

/// A value to escape and decode again.
#[derive(Clone, Copy, Debug)]
pub enum Scenario<'a> {
    String(&'a str),
    Char(char),
}

/// How the source of a test case for a text begins; the length of the
/// text follows.
pub const STRING_CASE_HEAD: &'static str =
    "#[test]\nfn test() {\n    let mut dest = String::with_capacity(";

/// What stands between the length and the text.
pub const STRING_CASE_MIDDLE: &'static str = ");\n    html::write_escaped_str(&mut dest, ";

/// How the source of a test case for a text ends.
pub const STRING_CASE_TAIL: &'static str =
    ").unwrap();\n\n    let mut unescaped = String::with_capacity(src.len());\n    let unescaped = html_escape::decode_html_entities_to_string(dest, &mut unescaped);\n    assert_eq!(src, unescaped);\n}";

/// How the source of a test case for a character begins; the character
/// follows.
pub const CHAR_CASE_HEAD: &'static str =
    "#[test]\nfn test() {\n    let mut dest = String::with_capacity(6);\n    html::write_escaped_char(&mut dest, ";

/// How the source of a test case for a character ends.
pub const CHAR_CASE_TAIL: &'static str =
    ").unwrap();\n\n    let mut src = [0; 4];\n    let src = c.encode_utf8(&mut src);\n    let mut unescaped = String::with_capacity(4);\n    let unescaped = decode_html_entities_to_string(dest, &mut unescaped);\n    assert_eq!(src, unescaped);\n}";

impl<'a> Scenario<'a> {
    /// The text that the scenario is about.
    pub open spec fn text(self) -> Seq<char> {
        match self {
            Scenario::String(src) => src@,
            Scenario::Char(c) => seq![c],
        }
    }

    /// The source of a test case for the scenario, given its value as it
    /// is to be shown.
    pub open spec fn case_text(self, shown: Seq<char>) -> Seq<char> {
        match self {
            Scenario::String(src) => STRING_CASE_HEAD@ + decimal_text(byte_len(src@))
                + STRING_CASE_MIDDLE@ + shown + STRING_CASE_TAIL@,
            Scenario::Char(c) => CHAR_CASE_HEAD@ + shown + CHAR_CASE_TAIL@,
        }
    }

    /// The value as the source of a test case shows it: in the quotes and
    /// with the escapes of `{:?}`.
    pub open spec fn shown(self) -> Seq<char> {
        match self {
            Scenario::String(src) => debug_quoted(src@),
            Scenario::Char(c) => char_quoted(c),
        }
    }

    /// Escapes the value, decodes what comes of it, and says whether that is
    /// the value again.
    pub fn run(&self) -> (holds: bool)
        ensures
            holds == (decoded_html(escaped(self.text())) == self.text()),
    {
        match *self {
            Scenario::String(src) => {
                let mut dest = String::new();
                write_escaped_str(&mut dest, src);
                assert(dest@ =~= escaped(src@));
                let unescaped = decode_html(dest.as_str());
                same_str(src, unescaped.as_str())
            },
            Scenario::Char(c) => {
                let mut dest = String::new();
                write_escaped_char(&mut dest, c);
                proof {
                    let text = seq![c];
                    assert(text.drop_last() =~= Seq::<char>::empty());
                    assert(escaped(text.drop_last()) =~= Seq::<char>::empty());
                    assert(dest@ =~= escaped(text));
                }
                let unescaped = decode_html(dest.as_str());
                let mut src = String::new();
                push_char(&mut src, c);
                assert(src@ =~= seq![c]);
                same_str(src.as_str(), unescaped.as_str())
            },
        }
    }

    /// Writes the source of a test case for the scenario, given its value
    /// as it is to be shown.
    pub fn case_source(&self, shown: &str) -> (source: String)
        ensures
            source@ == self.case_text(shown@),
    {
        match *self {
            Scenario::String(src) => {
                let mut source = String::from_str(STRING_CASE_HEAD);
                write_decimal(&mut source, utf8_len(src));
                source.append(STRING_CASE_MIDDLE);
                source.append(shown);
                source.append(STRING_CASE_TAIL);
                source
            },
            Scenario::Char(_) => {
                let mut source = String::from_str(CHAR_CASE_HEAD);
                source.append(shown);
                source.append(CHAR_CASE_TAIL);
                source
            },
        }
    }

    /// The source of a test case that runs the scenario.
    pub fn test_source(&self) -> (source: String)
        ensures
            source@ == self.case_text(self.shown()),
    {
        let shown = match *self {
            Scenario::String(src) => debug_str(src),
            Scenario::Char(c) => debug_char(c),
        };
        self.case_source(shown.as_str())
    }
}

} // verus!
