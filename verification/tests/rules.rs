use rinja_config::syntax::{Delimiter, Syntax, SyntaxBuilder, Violation};
use rinja_config::text::{
    contains_whitespace, has_prefix, list_text, same_optional_text, same_str, same_text, utf8_len,
};
use rinja_config::whitespace::{Whitespace, WhitespaceHandling};

fn with(set: impl FnOnce(&mut SyntaxBuilder)) -> SyntaxBuilder {
    let mut builder = SyntaxBuilder::new("custom".to_string());
    set(&mut builder);
    builder
}

#[test]
fn builtin_syntax_is_accepted() {
    let builtin = Syntax::default();
    assert_eq!(builtin.block_start, "{%");
    assert_eq!(builtin.block_end, "%}");
    assert_eq!(builtin.expr_start, "{{");
    assert_eq!(builtin.expr_end, "}}");
    assert_eq!(builtin.comment_start, "{#");
    assert_eq!(builtin.comment_end, "#}");
    assert_eq!(builtin.validate(), None);
    assert_eq!(with(|_| {}).to_syntax(), Ok(builtin));
}

#[test]
fn overrides_replace_only_what_they_name() {
    let syntax = with(|b| {
        b.block_end = Some("%>".to_string());
        b.comment_start = Some("<!--".to_string());
        b.comment_end = Some("-->".to_string());
    })
    .to_syntax()
    .unwrap();
    assert_eq!(syntax.delimiter(Delimiter::BlockStart), "{%");
    assert_eq!(syntax.delimiter(Delimiter::BlockEnd), "%>");
    assert_eq!(syntax.delimiter(Delimiter::ExprStart), "{{");
    assert_eq!(syntax.delimiter(Delimiter::ExprEnd), "}}");
    assert_eq!(syntax.delimiter(Delimiter::CommentStart), "<!--");
    assert_eq!(syntax.delimiter(Delimiter::CommentEnd), "-->");
}

#[test]
fn each_delimiter_is_held_to_the_length() {
    let cases: [(fn(&mut SyntaxBuilder), Delimiter, &str); 6] = [
        (|b| b.block_start = Some("<".into()), Delimiter::BlockStart, "opening block"),
        (|b| b.block_end = Some("<".into()), Delimiter::BlockEnd, "closing block"),
        (|b| b.expr_start = Some("<".into()), Delimiter::ExprStart, "opening expression"),
        (|b| b.expr_end = Some("<".into()), Delimiter::ExprEnd, "closing expression"),
        (|b| b.comment_start = Some("<".into()), Delimiter::CommentStart, "opening comment"),
        (|b| b.comment_end = Some("<".into()), Delimiter::CommentEnd, "closing comment"),
    ];
    for (set, which, label) in cases {
        let builder = with(set);
        assert_eq!(which.label(), label);
        assert_eq!(
            builder.to_syntax(),
            Err(format!(
                "delimiters must be at least two characters long. The {label} delimiter (\"<\") is too short"
            ))
        );
    }
}

#[test]
fn empty_delimiter_is_too_short() {
    let err = with(|b| b.expr_end = Some(String::new())).to_syntax();
    assert_eq!(
        err,
        Err("delimiters must be at least two characters long. The closing expression delimiter (\"\") is too short".to_string())
    );
}

#[test]
fn length_is_counted_in_bytes() {
    // One character of four bytes is long enough.
    let syntax = with(|b| b.block_start = Some("👉".to_string())).to_syntax();
    assert_eq!(syntax.unwrap().block_start, "👉");
    assert_eq!(utf8_len("👉"), 4);
    assert_eq!(utf8_len("{%"), 2);
    assert_eq!(utf8_len(""), 0);
}

#[test]
fn whitespace_is_rejected_wherever_it_stands() {
    for text in ["{ %", " {%", "{%\t", "{\n%", "{\u{a0}%", "{%\u{3000}", "\u{2003}{%"] {
        let builder = with(|b| b.comment_end = Some(text.to_string()));
        assert_eq!(
            builder.to_syntax(),
            Err(format!(
                "delimiters may not contain white spaces. The closing comment delimiter ({text:?}) contains white spaces"
            ))
        );
        assert!(contains_whitespace(text));
    }
    assert!(!contains_whitespace("{%"));
    assert!(!contains_whitespace(""));
    assert!(!contains_whitespace("\u{200b}ab"));
}

#[test]
fn first_violation_is_reported() {
    // The length comes before the whitespace at one delimiter.
    let syntax = Syntax {
        block_start: " ".to_string(),
        ..Syntax::default()
    };
    assert_eq!(
        syntax.validate(),
        Some(Violation::TooShort(Delimiter::BlockStart))
    );
    // An earlier delimiter comes before a later one, whatever the rule.
    let syntax = Syntax {
        block_end: "% }".to_string(),
        expr_start: "{".to_string(),
        ..Syntax::default()
    };
    assert_eq!(
        syntax.validate(),
        Some(Violation::ContainsWhitespace(Delimiter::BlockEnd))
    );
    // Every delimiter is looked at before any pair.
    let syntax = Syntax {
        block_start: "{{".to_string(),
        comment_end: "#".to_string(),
        ..Syntax::default()
    };
    assert_eq!(
        syntax.validate(),
        Some(Violation::TooShort(Delimiter::CommentEnd))
    );
    assert_eq!(
        syntax.describe(Violation::TooShort(Delimiter::CommentEnd)),
        "delimiters must be at least two characters long. The closing comment delimiter (\"#\") is too short"
    );
}

#[test]
fn opening_delimiters_may_not_clash() {
    let clash = |block: &str, expr: &str, comment: &str| {
        Syntax {
            block_start: block.to_string(),
            expr_start: expr.to_string(),
            comment_start: comment.to_string(),
            ..Syntax::default()
        }
        .validate()
    };
    let block_expr = Some(Violation::Clash(Delimiter::BlockStart, Delimiter::ExprStart));
    let block_comment = Some(Violation::Clash(
        Delimiter::BlockStart,
        Delimiter::CommentStart,
    ));
    let expr_comment = Some(Violation::Clash(
        Delimiter::ExprStart,
        Delimiter::CommentStart,
    ));
    assert_eq!(clash("{{", "{{$", "{{#"), block_expr);
    assert_eq!(clash("{{$", "{{", "{#"), block_expr);
    assert_eq!(clash("<%", "<%", "{#"), block_expr);
    assert_eq!(clash("<%", "{{", "<%="), block_comment);
    assert_eq!(clash("<%=", "{{", "<%"), block_comment);
    assert_eq!(clash("<%", "{{", "{{#"), expr_comment);
    assert_eq!(clash("<%", "{{#", "{{"), expr_comment);
    assert_eq!(clash("<%", "<$", "<#"), None);

    let err = with(|b| {
        b.expr_start = Some("<<".to_string());
        b.comment_start = Some("<<!".to_string());
    })
    .to_syntax();
    assert_eq!(
        err,
        Err("an opening delimiter may not be the prefix of another delimiter. The expression delimiter (\"<<\") clashes with the comment delimiter (\"<<!\")".to_string())
    );
}

#[test]
fn closing_delimiters_may_share_a_prefix() {
    let syntax = Syntax {
        block_end: "}}".to_string(),
        expr_end: "}}}".to_string(),
        comment_end: "}}".to_string(),
        ..Syntax::default()
    };
    assert_eq!(syntax.validate(), None);
}

#[test]
fn delimiters_are_quoted_in_messages() {
    let err = with(|b| b.block_start = Some("\"".to_string())).to_syntax();
    assert_eq!(
        err,
        Err("delimiters must be at least two characters long. The opening block delimiter (\"\\\"\") is too short".to_string())
    );
    assert_eq!(
        Violation::TooShort(Delimiter::ExprEnd).render("<a>", "unused"),
        "delimiters must be at least two characters long. The closing expression delimiter (<a>) is too short"
    );
    assert_eq!(
        Violation::ContainsWhitespace(Delimiter::CommentStart).render("<a>", "unused"),
        "delimiters may not contain white spaces. The opening comment delimiter (<a>) contains white spaces"
    );
    assert_eq!(
        Violation::Clash(Delimiter::BlockStart, Delimiter::CommentStart).render("<a>", "<b>"),
        "an opening delimiter may not be the prefix of another delimiter. The block delimiter (<a>) clashes with the comment delimiter (<b>)"
    );
    assert_eq!(Delimiter::BlockEnd.family(), "block");
    assert_eq!(Delimiter::ExprStart.family(), "expression");
    assert_eq!(Delimiter::CommentEnd.family(), "comment");
}

#[test]
fn rule_at_a_delimiter() {
    let which = Delimiter::ExprStart;
    assert_eq!(Violation::at(which, 0, false), Some(Violation::TooShort(which)));
    assert_eq!(Violation::at(which, 1, true), Some(Violation::TooShort(which)));
    assert_eq!(
        Violation::at(which, 2, true),
        Some(Violation::ContainsWhitespace(which))
    );
    assert_eq!(Violation::at(which, 2, false), None);
    let clash = Violation::Clash(Delimiter::BlockStart, Delimiter::ExprStart);
    assert_eq!(clash.first(), Delimiter::BlockStart);
    assert_eq!(clash.second(), Delimiter::ExprStart);
    assert_eq!(Violation::TooShort(which).first(), which);
    assert_eq!(Violation::ContainsWhitespace(which).second(), which);
}

#[test]
fn whitespace_names() {
    assert_eq!(
        WhitespaceHandling::from_name("suppress"),
        Some(WhitespaceHandling::Suppress)
    );
    assert_eq!(
        WhitespaceHandling::from_name("minimize"),
        Some(WhitespaceHandling::Minimize)
    );
    assert_eq!(
        WhitespaceHandling::from_name("preserve"),
        Some(WhitespaceHandling::Preserve)
    );
    for name in ["", "Suppress", "MINIMIZE", "preserve ", "trim", "suppres"] {
        assert_eq!(WhitespaceHandling::from_name(name), None);
    }
    assert_eq!(WhitespaceHandling::default(), WhitespaceHandling::Preserve);
}

#[test]
fn whitespace_of_a_node() {
    assert_eq!(
        Whitespace::from(WhitespaceHandling::Suppress),
        Whitespace::Suppress
    );
    assert_eq!(
        Whitespace::from(WhitespaceHandling::Preserve),
        Whitespace::Preserve
    );
    assert_eq!(
        Whitespace::from(WhitespaceHandling::Minimize),
        Whitespace::Minimize
    );
}

#[test]
fn text_helpers() {
    assert!(has_prefix("{{#", "{{"));
    assert!(has_prefix("{{", "{{"));
    assert!(has_prefix("{{", ""));
    assert!(!has_prefix("{{", "{{#"));
    assert!(!has_prefix("{{", "{#"));
    assert!(has_prefix("👉🙂", "👉"));
    assert!(!has_prefix("👉🙂", "🙂"));

    assert!(same_str("", ""));
    assert!(same_str("abc", "abc"));
    assert!(!same_str("abc", "ab"));
    assert!(!same_str("ab", "abc"));
    assert!(!same_str("abc", "abd"));
    assert!(same_text(&"a".to_string(), &"a".to_string()));
    assert!(!same_text(&"a".to_string(), &"b".to_string()));
    assert!(same_optional_text(&None, &None));
    assert!(!same_optional_text(&Some(String::new()), &None));
    assert!(!same_optional_text(&None, &Some(String::new())));
    assert!(same_optional_text(&Some("a".to_string()), &Some("a".to_string())));

    assert_eq!(list_text(&vec![]), "[]");
    assert_eq!(list_text(&vec!["a".to_string()]), "[a]");
    assert_eq!(
        list_text(&vec!["a".to_string(), String::new(), "c".to_string()]),
        "[a, , c]"
    );
}
