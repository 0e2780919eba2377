use std::path::{Path, PathBuf};

use rinja_config::config::Config;
use rinja_config::error::{CompileError, ErrorKind};
use rinja_config::raw::{General, RawConfig, RawEscaper, TomlError};
use rinja_config::resolver::ConfigCache;
use rinja_config::syntax::{Syntax, SyntaxBuilder};
use rinja_config::whitespace::WhitespaceHandling;

const ROOT: &str = "/project";

/// The files that the search for templates finds.
const FILES: [&str; 4] = ["a.html", "sub/b.html", "sub/c.html", "sub/sub1/d.html"];

fn is_file(path: &String) -> bool {
    let templates = Path::new(ROOT).join("templates");
    FILES.iter().any(|file| templates.join(file) == Path::new(path))
}

fn no_reader(_: &String) -> Result<RawConfig, TomlError> {
    panic!("an empty configuration text is not read")
}

fn general(
    dirs: Option<Vec<&str>>,
    default_syntax: Option<&str>,
    whitespace: WhitespaceHandling,
) -> General {
    General {
        dirs: dirs.map(|dirs| dirs.into_iter().map(String::from).collect()),
        default_syntax: default_syntax.map(String::from),
        whitespace,
    }
}

fn new_config(
    cache: &mut ConfigCache<String>,
    source: &'static str,
    template_whitespace: Option<&str>,
    raw: RawConfig,
) -> Result<usize, CompileError> {
    Config::new(
        cache,
        source,
        None,
        template_whitespace,
        None,
        ROOT,
        move |text: &String| {
            assert_eq!(text, source);
            Ok(raw)
        },
    )
}

fn default_config(cache: &mut ConfigCache<String>) -> usize {
    Config::new(cache, "", None, None, None, ROOT, no_reader).unwrap()
}

fn assert_eq_rooted(actual: &Path, expected: &str) {
    let mut root = PathBuf::from(ROOT);
    root.push("templates");
    let mut inner = PathBuf::new();
    inner.push(expected);
    assert_eq!(actual.strip_prefix(root).unwrap(), inner);
}

#[test]
fn test_default_config() {
    let mut root = PathBuf::from(ROOT);
    root.push("templates");
    let mut cache = ConfigCache::new();
    let slot = default_config(&mut cache);
    let config = cache.get(slot);
    let dirs: Vec<PathBuf> = config.dirs().iter().map(PathBuf::from).collect();
    assert_eq!(dirs, vec![root]);
}

#[test]
fn test_config_dirs() {
    let mut root = PathBuf::from(ROOT);
    root.push("tpl");
    let mut cache = ConfigCache::new();
    let raw = RawConfig {
        general: Some(general(Some(vec!["tpl"]), None, WhitespaceHandling::Preserve)),
        syntax: None,
        escaper: None,
    };
    let slot = new_config(&mut cache, "[general]\ndirs = [\"tpl\"]", None, raw).unwrap();
    let config = cache.get(slot);
    let dirs: Vec<PathBuf> = config.dirs().iter().map(PathBuf::from).collect();
    assert_eq!(dirs, vec![root]);
}

#[test]
fn find_absolute() {
    let mut cache = ConfigCache::new();
    let slot = default_config(&mut cache);
    let config = cache.get(slot);
    let root = config.find_template("a.html", None, None, is_file).unwrap();
    let path = config
        .find_template("sub/b.html", Some(&root), None, is_file)
        .unwrap();
    assert_eq_rooted(Path::new(&path), "sub/b.html");
}

#[test]
#[should_panic]
fn find_relative_nonexistent() {
    let mut cache = ConfigCache::new();
    let slot = default_config(&mut cache);
    let config = cache.get(slot);
    let root = config.find_template("a.html", None, None, is_file).unwrap();
    config
        .find_template("c.html", Some(&root), None, is_file)
        .unwrap();
}

#[test]
fn find_relative() {
    let mut cache = ConfigCache::new();
    let slot = default_config(&mut cache);
    let config = cache.get(slot);
    let root = config
        .find_template("sub/b.html", None, None, is_file)
        .unwrap();
    let path = config
        .find_template("c.html", Some(&root), None, is_file)
        .unwrap();
    assert_eq_rooted(Path::new(&path), "sub/c.html");
}

#[test]
fn find_relative_sub() {
    let mut cache = ConfigCache::new();
    let slot = default_config(&mut cache);
    let config = cache.get(slot);
    let root = config
        .find_template("sub/b.html", None, None, is_file)
        .unwrap();
    let path = config
        .find_template("sub1/d.html", Some(&root), None, is_file)
        .unwrap();
    assert_eq_rooted(Path::new(&path), "sub/sub1/d.html");
}

fn foo_and_bar() -> Vec<SyntaxBuilder> {
    let mut foo = SyntaxBuilder::new("foo".to_string());
    foo.block_start = Some("{<".to_string());
    let mut bar = SyntaxBuilder::new("bar".to_string());
    bar.expr_start = Some("{!".to_string());
    vec![foo, bar]
}

fn check_foo_and_bar(config: &Config<String>) {
    let default_syntax = Syntax::default();
    assert_eq!(config.default_syntax(), "foo");

    let foo = config.syntax("foo").unwrap().syntax();
    assert_eq!(foo.block_start, "{<");
    assert_eq!(foo.block_end, default_syntax.block_end);
    assert_eq!(foo.expr_start, default_syntax.expr_start);
    assert_eq!(foo.expr_end, default_syntax.expr_end);
    assert_eq!(foo.comment_start, default_syntax.comment_start);
    assert_eq!(foo.comment_end, default_syntax.comment_end);

    let bar = config.syntax("bar").unwrap().syntax();
    assert_eq!(bar.block_start, default_syntax.block_start);
    assert_eq!(bar.block_end, default_syntax.block_end);
    assert_eq!(bar.expr_start, "{!");
    assert_eq!(bar.expr_end, default_syntax.expr_end);
    assert_eq!(bar.comment_start, default_syntax.comment_start);
    assert_eq!(bar.comment_end, default_syntax.comment_end);
}

#[test]
fn add_syntax() {
    let raw_config = r#"
        [general]
        default_syntax = "foo"

        [[syntax]]
        name = "foo"
        block_start = "{<"

        [[syntax]]
        name = "bar"
        expr_start = "{!"
        "#;
    let raw = RawConfig {
        general: Some(general(None, Some("foo"), WhitespaceHandling::Preserve)),
        syntax: Some(foo_and_bar()),
        escaper: None,
    };

    let mut cache = ConfigCache::new();
    let slot = new_config(&mut cache, raw_config, None, raw).unwrap();
    check_foo_and_bar(cache.get(slot));
}

#[test]
fn add_syntax_two() {
    let raw_config = r#"
        syntax = [{ name = "foo", block_start = "{<" },
                  { name = "bar", expr_start = "{!" } ]

        [general]
        default_syntax = "foo"
        "#;
    let raw = RawConfig {
        general: Some(general(None, Some("foo"), WhitespaceHandling::Preserve)),
        syntax: Some(foo_and_bar()),
        escaper: None,
    };

    let mut cache = ConfigCache::new();
    let slot = new_config(&mut cache, raw_config, None, raw).unwrap();
    check_foo_and_bar(cache.get(slot));
}

#[test]
fn longer_delimiters() {
    let raw_config = r#"
        [[syntax]]
        name = "emoji"
        block_start = "👉🙂👉"
        block_end = "👈🙃👈"
        expr_start = "🤜🤜"
        expr_end = "🤛🤛"
        comment_start = "👎_(ツ)_👎"
        comment_end = "👍:D👍"

        [general]
        default_syntax = "emoji"
        "#;
    let raw = RawConfig {
        general: Some(general(None, Some("emoji"), WhitespaceHandling::Preserve)),
        syntax: Some(vec![SyntaxBuilder {
            name: "emoji".to_string(),
            block_start: Some("👉🙂👉".to_string()),
            block_end: Some("👈🙃👈".to_string()),
            expr_start: Some("🤜🤜".to_string()),
            expr_end: Some("🤛🤛".to_string()),
            comment_start: Some("👎_(ツ)_👎".to_string()),
            comment_end: Some("👍:D👍".to_string()),
        }]),
        escaper: None,
    };

    let mut cache = ConfigCache::new();
    let slot = new_config(&mut cache, raw_config, None, raw).unwrap();
    let config = cache.get(slot);
    assert_eq!(config.default_syntax(), "emoji");

    let foo = config.syntax("emoji").unwrap().syntax();
    assert_eq!(foo.block_start, "👉🙂👉");
    assert_eq!(foo.block_end, "👈🙃👈");
    assert_eq!(foo.expr_start, "🤜🤜");
    assert_eq!(foo.expr_end, "🤛🤛");
    assert_eq!(foo.comment_start, "👎_(ツ)_👎");
    assert_eq!(foo.comment_end, "👍:D👍");
}

fn expect_err<T, E>(result: Result<T, E>) -> E {
    match result {
        Ok(_) => panic!("should have failed"),
        Err(err) => err,
    }
}

fn declares(syntax: SyntaxBuilder) -> RawConfig {
    RawConfig {
        general: None,
        syntax: Some(vec![syntax]),
        escaper: None,
    }
}

#[test]
fn illegal_delimiters() {
    let raw_config = r#"
        [[syntax]]
        name = "too_short"
        block_start = "<"
        "#;
    let mut too_short = SyntaxBuilder::new("too_short".to_string());
    too_short.block_start = Some("<".to_string());
    let mut cache = ConfigCache::new();
    let config = new_config(&mut cache, raw_config, None, declares(too_short));
    assert_eq!(
        expect_err(config).msg,
        r#"delimiters must be at least two characters long. The opening block delimiter ("<") is too short"#,
    );

    let raw_config = r#"
        [[syntax]]
        name = "contains_ws"
        block_start = " {{ "
        "#;
    let mut contains_ws = SyntaxBuilder::new("contains_ws".to_string());
    contains_ws.block_start = Some(" {{ ".to_string());
    let config = new_config(&mut cache, raw_config, None, declares(contains_ws));
    assert_eq!(
        expect_err(config).msg,
        r#"delimiters may not contain white spaces. The opening block delimiter (" {{ ") contains white spaces"#,
    );

    let raw_config = r#"
        [[syntax]]
        name = "is_prefix"
        block_start = "{{"
        expr_start = "{{$"
        comment_start = "{{#"
        "#;
    let mut is_prefix = SyntaxBuilder::new("is_prefix".to_string());
    is_prefix.block_start = Some("{{".to_string());
    is_prefix.expr_start = Some("{{$".to_string());
    is_prefix.comment_start = Some("{{#".to_string());
    let config = new_config(&mut cache, raw_config, None, declares(is_prefix));
    assert_eq!(
        expect_err(config).msg,
        r#"an opening delimiter may not be the prefix of another delimiter. The block delimiter ("{{") clashes with the expression delimiter ("{{$")"#,
    );
    assert_eq!(cache.len(), 0);
}

#[test]
#[should_panic]
fn use_default_at_syntax_name() {
    let raw_config = r#"
        syntax = [{ name = "default" }]
        "#;

    let mut cache = ConfigCache::new();
    let raw = declares(SyntaxBuilder::new("default".to_string()));
    let _config = new_config(&mut cache, raw_config, None, raw).unwrap();
}

#[test]
#[should_panic]
fn duplicated_syntax_name_on_list() {
    let raw_config = r#"
        syntax = [{ name = "foo", block_start = "~<" },
                  { name = "foo", block_start = "%%" } ]
        "#;

    let mut first = SyntaxBuilder::new("foo".to_string());
    first.block_start = Some("~<".to_string());
    let mut second = SyntaxBuilder::new("foo".to_string());
    second.block_start = Some("%%".to_string());
    let raw = RawConfig {
        general: None,
        syntax: Some(vec![first, second]),
        escaper: None,
    };
    let mut cache = ConfigCache::new();
    let _config = new_config(&mut cache, raw_config, None, raw).unwrap();
}

#[test]
#[should_panic]
fn is_not_exist_default_syntax() {
    let raw_config = r#"
        [general]
        default_syntax = "foo"
        "#;

    let raw = RawConfig {
        general: Some(general(None, Some("foo"), WhitespaceHandling::Preserve)),
        syntax: None,
        escaper: None,
    };
    let mut cache = ConfigCache::new();
    let _config = new_config(&mut cache, raw_config, None, raw).unwrap();
}

fn set(vals: &[&str]) -> Vec<String> {
    rinja_config::config::str_set(vals)
}

#[test]
fn escape_modes() {
    let raw = RawConfig {
        general: None,
        syntax: None,
        escaper: Some(vec![RawEscaper {
            path: "::my_filters::Js".to_string(),
            extensions: vec!["js".to_string()],
        }]),
    };
    let mut cache = ConfigCache::new();
    let slot = new_config(
        &mut cache,
        r#"
            [[escaper]]
            path = "::my_filters::Js"
            extensions = ["js"]
        "#,
        None,
        raw,
    )
    .unwrap();
    let config = cache.get(slot);
    assert_eq!(
        config.escapers(),
        &vec![
            (set(&["js"]), "::my_filters::Js".to_string()),
            (
                set(&["html", "htm", "j2", "jinja", "jinja2", "rinja", "svg", "xml"]),
                "rinja::filters::Html".to_string()
            ),
            (
                set(&["md", "none", "txt", "yml", ""]),
                "rinja::filters::Text".to_string()
            ),
        ]
    );
}

fn whitespace_is(whitespace: WhitespaceHandling) -> RawConfig {
    RawConfig {
        general: Some(general(None, None, whitespace)),
        syntax: None,
        escaper: None,
    }
}

#[test]
fn test_whitespace_parsing() {
    let mut cache = ConfigCache::new();
    let slot = new_config(
        &mut cache,
        r#"
            [general]
            whitespace = "suppress"
            "#,
        None,
        whitespace_is(WhitespaceHandling::Suppress),
    )
    .unwrap();
    assert_eq!(cache.get(slot).whitespace(), WhitespaceHandling::Suppress);

    let slot = Config::new(&mut cache, r#""#, None, None, None, ROOT, no_reader).unwrap();
    assert_eq!(cache.get(slot).whitespace(), WhitespaceHandling::Preserve);

    let slot = new_config(
        &mut cache,
        r#"
            [general]
            whitespace = "preserve"
            "#,
        None,
        whitespace_is(WhitespaceHandling::Preserve),
    )
    .unwrap();
    assert_eq!(cache.get(slot).whitespace(), WhitespaceHandling::Preserve);

    let slot = new_config(
        &mut cache,
        r#"
            [general]
            whitespace = "minimize"
            "#,
        None,
        whitespace_is(WhitespaceHandling::Minimize),
    )
    .unwrap();
    assert_eq!(cache.get(slot).whitespace(), WhitespaceHandling::Minimize);
}

#[test]
fn test_whitespace_in_template() {
    // The choice of the template comes before the general configuration: the
    // template asks for `minimize`, so the policy is `Minimize`.
    let mut cache = ConfigCache::new();
    let slot = new_config(
        &mut cache,
        r#"
            [general]
            whitespace = "suppress"
            "#,
        Some("minimize"),
        whitespace_is(WhitespaceHandling::Suppress),
    )
    .unwrap();
    assert_eq!(cache.get(slot).whitespace(), WhitespaceHandling::Minimize);

    let slot = Config::new(&mut cache, r#""#, None, Some("minimize"), None, ROOT, no_reader)
        .unwrap();
    assert_eq!(cache.get(slot).whitespace(), WhitespaceHandling::Minimize);
}

#[test]
fn test_config_whitespace_error() {
    let mut cache: ConfigCache<String> = ConfigCache::new();
    let config = Config::new(&mut cache, r"", None, Some("trim"), None, ROOT, no_reader);
    if let Err(err) = config {
        assert_eq!(err.msg, "invalid value for `whitespace`: \"trim\"");
        assert_eq!(err.kind, ErrorKind::Validation);
    } else {
        panic!("Config::new should have return an error");
    }
}
