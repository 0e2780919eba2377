//! Named sets of delimiters, and the rules that a set has to keep.

use crate::text::{
    is_white_space, byte_len, contains_whitespace, debug_quoted, debug_str, has_prefix, has_white_space, utf8_len,
};
use vstd::prelude::*;
use vstd::string::*;

verus! {

/// The six delimiters by which template markup is recognised.
#[derive(Clone, Debug, PartialEq, Eq, Hash)]
pub struct Syntax {
    pub block_start: String,
    pub block_end: String,
    pub expr_start: String,
    pub expr_end: String,
    pub comment_start: String,
    pub comment_end: String,
}

/// A syntax as text.
pub struct SyntaxView {
    pub block_start: Seq<char>,
    pub block_end: Seq<char>,
    pub expr_start: Seq<char>,
    pub expr_end: Seq<char>,
    pub comment_start: Seq<char>,
    pub comment_end: Seq<char>,
}

/// A syntax as a configuration declares it: a name, and any of the six
/// delimiters. A delimiter that is left out is the built-in one.
#[derive(Clone, Debug, PartialEq, Eq, Hash)]
pub struct SyntaxBuilder {
    pub name: String,
    pub block_start: Option<String>,
    pub block_end: Option<String>,
    pub expr_start: Option<String>,
    pub expr_end: Option<String>,
    pub comment_start: Option<String>,
    pub comment_end: Option<String>,
}

/// A declared syntax as text.
pub struct SyntaxBuilderView {
    pub name: Seq<char>,
    pub block_start: Option<Seq<char>>,
    pub block_end: Option<Seq<char>>,
    pub expr_start: Option<Seq<char>>,
    pub expr_end: Option<Seq<char>>,
    pub comment_start: Option<Seq<char>>,
    pub comment_end: Option<Seq<char>>,
}

/// One of the six delimiters of a syntax, in the order in which they are
/// checked.
#[derive(Clone, Copy, Debug, PartialEq, Eq, Hash, Structural)]
pub enum Delimiter {
    BlockStart,
    BlockEnd,
    ExprStart,
    ExprEnd,
    CommentStart,
    CommentEnd,
}

/// A rule that a syntax breaks, and the delimiter that breaks it.
#[derive(Clone, Copy, Debug, PartialEq, Eq, Hash, Structural)]
pub enum Violation {
    /// The delimiter is shorter than two bytes.
    TooShort(Delimiter),
    /// The delimiter holds a whitespace character.
    ContainsWhitespace(Delimiter),
    /// One of the two opening delimiters is a prefix of the other.
    Clash(Delimiter, Delimiter),
}

impl View for Syntax {
    type V = SyntaxView;

    open spec fn view(&self) -> SyntaxView {
        SyntaxView {
            block_start: self.block_start@,
            block_end: self.block_end@,
            expr_start: self.expr_start@,
            expr_end: self.expr_end@,
            comment_start: self.comment_start@,
            comment_end: self.comment_end@,
        }
    }
}

impl View for SyntaxBuilder {
    type V = SyntaxBuilderView;

    open spec fn view(&self) -> SyntaxBuilderView {
        SyntaxBuilderView {
            name: self.name@,
            block_start: self.block_start.deep_view(),
            block_end: self.block_end.deep_view(),
            expr_start: self.expr_start.deep_view(),
            expr_end: self.expr_end.deep_view(),
            comment_start: self.comment_start.deep_view(),
            comment_end: self.comment_end.deep_view(),
        }
    }
}

/// Whether one of the two texts is a prefix of the other.
pub open spec fn prefix_clash(a: Seq<char>, b: Seq<char>) -> bool {
    a.is_prefix_of(b) || b.is_prefix_of(a)
}

impl Delimiter {
    /// The place of the delimiter in the order of checking.
    pub open spec fn position(self) -> nat {
        match self {
            Delimiter::BlockStart => 0,
            Delimiter::BlockEnd => 1,
            Delimiter::ExprStart => 2,
            Delimiter::ExprEnd => 3,
            Delimiter::CommentStart => 4,
            Delimiter::CommentEnd => 5,
        }
    }

    /// Whether the delimiter opens a block, an expression or a comment.
    pub open spec fn is_opening(self) -> bool {
        self == Delimiter::BlockStart || self == Delimiter::ExprStart || self
            == Delimiter::CommentStart
    }

    /// How messages call the delimiter.
    pub open spec fn label_text(self) -> Seq<char> {
        match self {
            Delimiter::BlockStart => "opening block"@,
            Delimiter::BlockEnd => "closing block"@,
            Delimiter::ExprStart => "opening expression"@,
            Delimiter::ExprEnd => "closing expression"@,
            Delimiter::CommentStart => "opening comment"@,
            Delimiter::CommentEnd => "closing comment"@,
        }
    }

    /// How messages call the kind of markup that the delimiter belongs to.
    pub open spec fn family_text(self) -> Seq<char> {
        match self {
            Delimiter::BlockStart | Delimiter::BlockEnd => "block"@,
            Delimiter::ExprStart | Delimiter::ExprEnd => "expression"@,
            Delimiter::CommentStart | Delimiter::CommentEnd => "comment"@,
        }
    }

    /// How messages call the delimiter.
    pub fn label(self) -> (text: &'static str)
        ensures
            text@ == self.label_text(),
    {
        match self {
            Delimiter::BlockStart => "opening block",
            Delimiter::BlockEnd => "closing block",
            Delimiter::ExprStart => "opening expression",
            Delimiter::ExprEnd => "closing expression",
            Delimiter::CommentStart => "opening comment",
            Delimiter::CommentEnd => "closing comment",
        }
    }

    /// How messages call the kind of markup that the delimiter belongs to.
    pub fn family(self) -> (text: &'static str)
        ensures
            text@ == self.family_text(),
    {
        match self {
            Delimiter::BlockStart | Delimiter::BlockEnd => "block",
            Delimiter::ExprStart | Delimiter::ExprEnd => "expression",
            Delimiter::CommentStart | Delimiter::CommentEnd => "comment",
        }
    }
}

impl SyntaxView {
    /// The text of one delimiter.
    pub open spec fn text_of(self, which: Delimiter) -> Seq<char> {
        match which {
            Delimiter::BlockStart => self.block_start,
            Delimiter::BlockEnd => self.block_end,
            Delimiter::ExprStart => self.expr_start,
            Delimiter::ExprEnd => self.expr_end,
            Delimiter::CommentStart => self.comment_start,
            Delimiter::CommentEnd => self.comment_end,
        }
    }

    /// The rules of a syntax: every delimiter is at least two bytes long and
    /// free of whitespace, and no opening delimiter is a prefix of another.
    pub open spec fn well_formed(self) -> bool {
        &&& forall|which: Delimiter| byte_len(#[trigger] self.text_of(which)) >= 2
        &&& forall|which: Delimiter| !has_white_space(#[trigger] self.text_of(which))
        &&& !prefix_clash(self.block_start, self.expr_start)
        &&& !prefix_clash(self.block_start, self.comment_start)
        &&& !prefix_clash(self.expr_start, self.comment_start)
    }

    /// The built-in delimiters.
    pub open spec fn builtin() -> SyntaxView {
        SyntaxView {
            block_start: "{%"@,
            block_end: "%}"@,
            expr_start: "{{"@,
            expr_end: "}}"@,
            comment_start: "{#"@,
            comment_end: "#}"@,
        }
    }
}

impl Violation {
    /// Whether the syntax breaks the rule at the delimiter named.
    pub open spec fn holds(self, syntax: SyntaxView) -> bool {
        match self {
            Violation::TooShort(which) => byte_len(syntax.text_of(which)) < 2,
            Violation::ContainsWhitespace(which) => has_white_space(syntax.text_of(which)),
            Violation::Clash(first, second) => {
                &&& first.is_opening()
                &&& second.is_opening()
                &&& first.position() < second.position()
                &&& prefix_clash(syntax.text_of(first), syntax.text_of(second))
            },
        }
    }

    /// The order in which violations are looked for: delimiter by
    /// delimiter the length and then the whitespace, and after all six the
    /// pairs of opening delimiters.
    pub open spec fn rank(self) -> nat {
        match self {
            Violation::TooShort(which) => 2 * which.position(),
            Violation::ContainsWhitespace(which) => 2 * which.position() + 1,
            Violation::Clash(first, second) => 12 + first.position() + second.position(),
        }
    }

    /// The rule that a delimiter of `len` bytes breaks, given whether it
    /// holds whitespace: the length is looked at first.
    pub open spec fn of_text(which: Delimiter, len: nat, has_whitespace: bool) -> Option<
        Violation,
    > {
        if len < 2 {
            Some(Violation::TooShort(which))
        } else if has_whitespace {
            Some(Violation::ContainsWhitespace(which))
        } else {
            None
        }
    }

    /// Whether this is the violation that is reported for the syntax: it
    /// holds, and none that holds comes before it.
    pub open spec fn is_first_of(self, syntax: SyntaxView) -> bool {
        &&& self.holds(syntax)
        &&& forall|other: Violation| #[trigger] other.holds(syntax) ==> self.rank() <= other.rank()
    }

    /// The delimiter that the violation names, or the first of the two.
    pub open spec fn spec_first(self) -> Delimiter {
        match self {
            Violation::TooShort(which) => which,
            Violation::ContainsWhitespace(which) => which,
            Violation::Clash(first, _) => first,
        }
    }

    /// The second delimiter of a clash; else the one that is named.
    pub open spec fn spec_second(self) -> Delimiter {
        match self {
            Violation::TooShort(which) => which,
            Violation::ContainsWhitespace(which) => which,
            Violation::Clash(_, second) => second,
        }
    }

    /// The message, given the delimiters it names as they are to be shown.
    pub open spec fn message_with(self, shown_first: Seq<char>, shown_second: Seq<char>) -> Seq<
        char,
    > {
        match self {
            Violation::TooShort(which) => {
                "delimiters must be at least two characters long. The "@ + which.label_text()
                    + " delimiter ("@ + shown_first + ") is too short"@
            },
            Violation::ContainsWhitespace(which) => {
                "delimiters may not contain white spaces. The "@ + which.label_text()
                    + " delimiter ("@ + shown_first + ") contains white spaces"@
            },
            Violation::Clash(first, second) => {
                "an opening delimiter may not be the prefix of another delimiter. The "@
                    + first.family_text() + " delimiter ("@ + shown_first + ") clashes with the "@
                    + second.family_text() + " delimiter ("@ + shown_second + ")"@
            },
        }
    }

    /// The message for a violation of the syntax: the rule, and each
    /// delimiter it names by its role and its text in quotes.
    pub open spec fn message(self, syntax: SyntaxView) -> Seq<char> {
        self.message_with(
            debug_quoted(syntax.text_of(self.spec_first())),
            debug_quoted(syntax.text_of(self.spec_second())),
        )
    }

    /// The delimiter that the violation names, or the first of the two.
    #[verifier::when_used_as_spec(spec_first)]
    pub fn first(self) -> (which: Delimiter)
        ensures
            which == self.spec_first(),
    {
        match self {
            Violation::TooShort(which) => which,
            Violation::ContainsWhitespace(which) => which,
            Violation::Clash(first, _) => first,
        }
    }

    /// The second delimiter of a clash; else the one that is named.
    #[verifier::when_used_as_spec(spec_second)]
    pub fn second(self) -> (which: Delimiter)
        ensures
            which == self.spec_second(),
    {
        match self {
            Violation::TooShort(which) => which,
            Violation::ContainsWhitespace(which) => which,
            Violation::Clash(_, second) => second,
        }
    }

    /// The rule that a delimiter of that length breaks, given whether it
    /// holds whitespace. The length is looked at first.
    pub fn at(which: Delimiter, len: usize, has_whitespace: bool) -> (found: Option<Violation>)
        ensures
            found == Violation::of_text(which, len as nat, has_whitespace),
    {
        if len < 2 {
            Some(Violation::TooShort(which))
        } else if has_whitespace {
            Some(Violation::ContainsWhitespace(which))
        } else {
            None
        }
    }

    /// Writes the message, given the delimiters it names as they are to be
    /// shown.
    pub fn render(self, shown_first: &str, shown_second: &str) -> (msg: String)
        ensures
            msg@ == self.message_with(shown_first@, shown_second@),
    {
        match self {
            Violation::TooShort(which) => {
                let mut msg = String::from_str(
                    "delimiters must be at least two characters long. The ",
                );
                msg.append(which.label());
                msg.append(" delimiter (");
                msg.append(shown_first);
                msg.append(") is too short");
                msg
            },
            Violation::ContainsWhitespace(which) => {
                let mut msg = String::from_str("delimiters may not contain white spaces. The ");
                msg.append(which.label());
                msg.append(" delimiter (");
                msg.append(shown_first);
                msg.append(") contains white spaces");
                msg
            },
            Violation::Clash(first, second) => {
                let mut msg = String::from_str(
                    "an opening delimiter may not be the prefix of another delimiter. The ",
                );
                msg.append(first.family());
                msg.append(" delimiter (");
                msg.append(shown_first);
                msg.append(") clashes with the ");
                msg.append(second.family());
                msg.append(" delimiter (");
                msg.append(shown_second);
                msg.append(")");
                msg
            },
        }
    }
}

impl Syntax {
    /// One delimiter of the syntax.
    pub fn delimiter(&self, which: Delimiter) -> (text: &str)
        ensures
            text@ == self@.text_of(which),
    {
        match which {
            Delimiter::BlockStart => self.block_start.as_str(),
            Delimiter::BlockEnd => self.block_end.as_str(),
            Delimiter::ExprStart => self.expr_start.as_str(),
            Delimiter::ExprEnd => self.expr_end.as_str(),
            Delimiter::CommentStart => self.comment_start.as_str(),
            Delimiter::CommentEnd => self.comment_end.as_str(),
        }
    }

    /// The length and whitespace rules at one delimiter.
    fn check_text(&self, which: Delimiter) -> (found: Option<Violation>)
        ensures
            found == Violation::of_text(
                which,
                byte_len(self@.text_of(which)),
                has_white_space(self@.text_of(which)),
            ),
    {
        let text = self.delimiter(which);
        Violation::at(which, utf8_len(text), contains_whitespace(text))
    }

    /// The prefix rule at two delimiters.
    fn check_pair(&self, first: Delimiter, second: Delimiter) -> (clash: bool)
        ensures
            clash == prefix_clash(self@.text_of(first), self@.text_of(second)),
    {
        let a = self.delimiter(first);
        let b = self.delimiter(second);
        has_prefix(a, b) || has_prefix(b, a)
    }

    /// Holds the syntax to the rules and gives the first violation, if any:
    /// the one that holds and that the order of checking reaches first.
    pub fn validate(&self) -> (found: Option<Violation>)
        ensures
            match found {
                Some(violation) => violation.is_first_of(self@),
                None => self@.well_formed(),
            },
    {
        let found = self.check_text(Delimiter::BlockStart);
        if found.is_some() {
            return found;
        }
        let found = self.check_text(Delimiter::BlockEnd);
        if found.is_some() {
            return found;
        }
        let found = self.check_text(Delimiter::ExprStart);
        if found.is_some() {
            return found;
        }
        let found = self.check_text(Delimiter::ExprEnd);
        if found.is_some() {
            return found;
        }
        let found = self.check_text(Delimiter::CommentStart);
        if found.is_some() {
            return found;
        }
        let found = self.check_text(Delimiter::CommentEnd);
        if found.is_some() {
            return found;
        }
        if self.check_pair(Delimiter::BlockStart, Delimiter::ExprStart) {
            return Some(Violation::Clash(Delimiter::BlockStart, Delimiter::ExprStart));
        }
        if self.check_pair(Delimiter::BlockStart, Delimiter::CommentStart) {
            return Some(Violation::Clash(Delimiter::BlockStart, Delimiter::CommentStart));
        }
        if self.check_pair(Delimiter::ExprStart, Delimiter::CommentStart) {
            return Some(Violation::Clash(Delimiter::ExprStart, Delimiter::CommentStart));
        }
        None
    }

    /// Writes the message for a violation of this syntax.
    pub fn describe(&self, violation: Violation) -> (msg: String)
        ensures
            msg@ == violation.message(self@),
    {
        let shown_first = debug_str(self.delimiter(violation.first()));
        let shown_second = debug_str(self.delimiter(violation.second()));
        violation.render(shown_first.as_str(), shown_second.as_str())
    }
}

impl SyntaxBuilderView {
    /// The syntax that is declared: each delimiter as it is given, or else
    /// the built-in one.
    pub open spec fn resolved(self) -> SyntaxView {
        let builtin = SyntaxView::builtin();
        SyntaxView {
            block_start: or_builtin(self.block_start, builtin.block_start),
            block_end: or_builtin(self.block_end, builtin.block_end),
            expr_start: or_builtin(self.expr_start, builtin.expr_start),
            expr_end: or_builtin(self.expr_end, builtin.expr_end),
            comment_start: or_builtin(self.comment_start, builtin.comment_start),
            comment_end: or_builtin(self.comment_end, builtin.comment_end),
        }
    }
}

/// A delimiter as it is given, or else the built-in one.
pub open spec fn or_builtin(given: Option<Seq<char>>, builtin: Seq<char>) -> Seq<char> {
    match given {
        Some(text) => text,
        None => builtin,
    }
}

/// A delimiter as it is given, or else the built-in one.
fn delimiter_or(given: &Option<String>, builtin: String) -> (text: String)
    ensures
        text@ == or_builtin(given.deep_view(), builtin@),
{
    match given {
        Some(text) => text.clone(),
        None => builtin,
    }
}

impl SyntaxBuilder {
    /// A declaration under `name` that overrides no delimiter.
    pub fn new(name: String) -> (builder: SyntaxBuilder)
        ensures
            builder@ == (SyntaxBuilderView {
                name: name@,
                block_start: None,
                block_end: None,
                expr_start: None,
                expr_end: None,
                comment_start: None,
                comment_end: None,
            }),
    {
        SyntaxBuilder {
            name,
            block_start: None,
            block_end: None,
            expr_start: None,
            expr_end: None,
            comment_start: None,
            comment_end: None,
        }
    }

    /// Builds the syntax that is declared and holds it to the rules. It is
    /// returned exactly when it keeps them all; else the error is the
    /// message for the first violation.
    pub fn to_syntax(&self) -> (res: Result<Syntax, String>)
        ensures
            res is Ok <==> self@.resolved().well_formed(),
            match res {
                Ok(syntax) => syntax@ == self@.resolved(),
                Err(msg) => exists|violation: Violation|
                    violation.is_first_of(self@.resolved()) && msg@ == #[trigger] violation.message(
                        self@.resolved(),
                    ),
            },
    {
        let builtin = Syntax::default();
        let syntax = Syntax {
            block_start: delimiter_or(&self.block_start, builtin.block_start),
            block_end: delimiter_or(&self.block_end, builtin.block_end),
            expr_start: delimiter_or(&self.expr_start, builtin.expr_start),
            expr_end: delimiter_or(&self.expr_end, builtin.expr_end),
            comment_start: delimiter_or(&self.comment_start, builtin.comment_start),
            comment_end: delimiter_or(&self.comment_end, builtin.comment_end),
        };
        match syntax.validate() {
            Some(violation) => {
                proof {
                    lemma_violation_breaks_rules(syntax@, violation);
                }
                Err(syntax.describe(violation))
            },
            None => Ok(syntax),
        }
    }
}

/// A syntax at which some violation holds does not keep the rules, whichever
/// delimiter is too short, holds whitespace, or clashes with another.
pub proof fn lemma_violation_breaks_rules(syntax: SyntaxView, violation: Violation)
    requires
        violation.holds(syntax),
    ensures
        !syntax.well_formed(),
{
    match violation {
        Violation::TooShort(which) => {
            assert(byte_len(syntax.text_of(which)) < 2);
        },
        Violation::ContainsWhitespace(which) => {
            assert(has_white_space(syntax.text_of(which)));
        },
        Violation::Clash(first, second) => {},
    }
}

/// A syntax that does not keep the rules has a violation that is reported:
/// one that holds and that no other comes before.
pub proof fn lemma_broken_rules_are_reported(syntax: SyntaxView)
    requires
        !syntax.well_formed(),
    ensures
        exists|violation: Violation| violation.is_first_of(syntax),
{
    let candidates = seq![
        Violation::TooShort(Delimiter::BlockStart),
        Violation::ContainsWhitespace(Delimiter::BlockStart),
        Violation::TooShort(Delimiter::BlockEnd),
        Violation::ContainsWhitespace(Delimiter::BlockEnd),
        Violation::TooShort(Delimiter::ExprStart),
        Violation::ContainsWhitespace(Delimiter::ExprStart),
        Violation::TooShort(Delimiter::ExprEnd),
        Violation::ContainsWhitespace(Delimiter::ExprEnd),
        Violation::TooShort(Delimiter::CommentStart),
        Violation::ContainsWhitespace(Delimiter::CommentStart),
        Violation::TooShort(Delimiter::CommentEnd),
        Violation::ContainsWhitespace(Delimiter::CommentEnd),
        Violation::Clash(Delimiter::BlockStart, Delimiter::ExprStart),
        Violation::Clash(Delimiter::BlockStart, Delimiter::CommentStart),
        Violation::Clash(Delimiter::ExprStart, Delimiter::CommentStart),
    ];
    assert forall|other: Violation| #[trigger] other.holds(syntax) implies exists|i: int|
        0 <= i < 15 && candidates[i] == other by {
        match other {
            Violation::TooShort(which) => {
                assert(candidates[(2 * which.position()) as int] == other);
            },
            Violation::ContainsWhitespace(which) => {
                assert(candidates[(2 * which.position() + 1) as int] == other);
            },
            Violation::Clash(first, second) => {
                assert(candidates[(11 + (first.position() + second.position()) / 2) as int] == other);
            },
        }
    }
    lemma_least_candidate(syntax, candidates, 0);
}

/// Among the violations listed in the order of checking from `from` on, if
/// any holds, one is first.
proof fn lemma_least_candidate(syntax: SyntaxView, candidates: Seq<Violation>, from: int)
    requires
        0 <= from <= candidates.len(),
        !syntax.well_formed(),
        forall|i: int, j: int|
            0 <= i < j < candidates.len() ==> candidates[i].rank() < candidates[j].rank(),
        forall|other: Violation| #[trigger]
            other.holds(syntax) ==> exists|i: int|
                0 <= i < candidates.len() && candidates[i] == other,
        forall|i: int| 0 <= i < from ==> !candidates[i].holds(syntax),
    ensures
        exists|violation: Violation| violation.is_first_of(syntax),
    decreases candidates.len() - from,
{
    if from == candidates.len() {
        assert forall|which: Delimiter| byte_len(#[trigger] syntax.text_of(which)) >= 2 by {
            if byte_len(syntax.text_of(which)) < 2 {
                assert(Violation::TooShort(which).holds(syntax));
            }
        }
        assert forall|which: Delimiter| !has_white_space(#[trigger] syntax.text_of(which)) by {
            if has_white_space(syntax.text_of(which)) {
                assert(Violation::ContainsWhitespace(which).holds(syntax));
            }
        }
        if prefix_clash(syntax.block_start, syntax.expr_start) {
            assert(Violation::Clash(Delimiter::BlockStart, Delimiter::ExprStart).holds(syntax));
        }
        if prefix_clash(syntax.block_start, syntax.comment_start) {
            assert(Violation::Clash(Delimiter::BlockStart, Delimiter::CommentStart).holds(syntax));
        }
        if prefix_clash(syntax.expr_start, syntax.comment_start) {
            assert(Violation::Clash(Delimiter::ExprStart, Delimiter::CommentStart).holds(syntax));
        }
    } else if candidates[from].holds(syntax) {
        let first = candidates[from];
        assert forall|other: Violation| #[trigger] other.holds(syntax) implies first.rank()
            <= other.rank() by {
            let i = choose|i: int| 0 <= i < candidates.len() && candidates[i] == other;
            assert(from <= i);
        }
        assert(first.is_first_of(syntax));
    } else {
        lemma_least_candidate(syntax, candidates, from + 1);
    }
}

/// Only one violation is reported for a syntax: two that both come first
/// are the same rule at the same delimiter.
pub proof fn lemma_first_violation_is_unique(syntax: SyntaxView, a: Violation, b: Violation)
    requires
        a.is_first_of(syntax),
        b.is_first_of(syntax),
    ensures
        a == b,
{
    assert(a.rank() == b.rank());
}

/// The built-in syntax keeps the rules.
pub proof fn lemma_builtin_is_well_formed()
    ensures
        SyntaxView::builtin().well_formed(),
{
    let builtin = SyntaxView::builtin();
    reveal_strlit("{%");
    reveal_strlit("%}");
    reveal_strlit("{{");
    reveal_strlit("}}");
    reveal_strlit("{#");
    reveal_strlit("#}");
    assert forall|which: Delimiter| byte_len(#[trigger] builtin.text_of(which)) >= 2 by {
        let text = builtin.text_of(which);
        assert(text.len() == 2);
        assert(vstd::utf8::is_ascii_chars(text));
        vstd::utf8::is_ascii_chars_encode_utf8(text);
    }
    assert forall|which: Delimiter| !has_white_space(#[trigger] builtin.text_of(which)) by {
        let text = builtin.text_of(which);
        assert(text.len() == 2);
        assert(!is_white_space(text[0]) && !is_white_space(text[1]));
    }
    assert(builtin.block_start[1] != builtin.expr_start[1]);
    assert(builtin.block_start[1] != builtin.comment_start[1]);
    assert(builtin.expr_start[1] != builtin.comment_start[1]);
}

impl Default for Syntax {
    /// The built-in syntax.
    fn default() -> (syntax: Syntax)
        ensures
            syntax@ == SyntaxView::builtin(),
    {
        Syntax {
            block_start: String::from_str("{%"),
            block_end: String::from_str("%}"),
            expr_start: String::from_str("{{"),
            expr_end: String::from_str("}}"),
            comment_start: String::from_str("{#"),
            comment_end: String::from_str("#}"),
        }
    }
}

} // verus!
