//! The configuration of the template compiler, resolved and validated.

use crate::error::{CompileError, CompileErrorView, ErrorKind};
use crate::once_map::{distinct_keys, slot_of, CacheKey};
use crate::paths::{join_path, path_joined};
use crate::raw::{toml_fault, General, RawConfig, RawConfigView, RawEscaper, TomlError};
use crate::syntax::Syntax;
use crate::syntax::{
    lemma_builtin_is_well_formed, lemma_first_violation_is_unique, SyntaxBuilder,
    SyntaxBuilderView, SyntaxView, Violation,
};
use crate::syntax_cache::{SyntaxAndCache, SyntaxAndCacheKeyView};
use crate::text::{
    clone_optional_text, clone_texts, debug_quoted, debug_str, same_optional_text, same_str,
    same_text,
};
use crate::whitespace::{lemma_whitespace_names, whitespace_named, WhitespaceHandling};
use proc_macro2::Span;
use std::sync::Arc;
use vstd::prelude::*;
use vstd::string::*;

verus! {

/// The name of the syntax that every configuration has.
pub const DEFAULT_SYNTAX_NAME: &'static str = "default";

/// The directory of templates, below the root, where none is configured.
pub const DEFAULT_DIR: &'static str = "templates";

/// What a configuration is made from, and what identifies it: the
/// configuration text, the path of the configuration file if one was named,
/// and the whitespace policy that the template asks for, if any.
#[derive(Clone, Debug, PartialEq, Eq, Hash)]
pub struct ConfigKey {
    pub source: String,
    pub config_path: Option<String>,
    pub template_whitespace: Option<String>,
}

/// A key as text.
pub struct ConfigKeyView {
    pub source: Seq<char>,
    pub config_path: Option<Seq<char>>,
    pub template_whitespace: Option<Seq<char>>,
}

impl View for ConfigKey {
    type V = ConfigKeyView;

    open spec fn view(&self) -> ConfigKeyView {
        ConfigKeyView {
            source: self.source@,
            config_path: self.config_path.deep_view(),
            template_whitespace: self.template_whitespace.deep_view(),
        }
    }
}

impl CacheKey for ConfigKey {
    fn same_key(&self, other: &Self) -> (same: bool) {
        same_text(&self.source, &other.source) && same_optional_text(
            &self.config_path,
            &other.config_path,
        ) && same_optional_text(&self.template_whitespace, &other.template_whitespace)
    }
}

impl ConfigKey {
    /// A key of its own for the same three texts.
    pub fn to_owned(&self) -> (owned: ConfigKey)
        ensures
            owned == *self,
    {
        ConfigKey {
            source: self.source.clone(),
            config_path: clone_optional_text(&self.config_path),
            template_whitespace: clone_optional_text(&self.template_whitespace),
        }
    }
}

/// An entry of the list of escapers: the file extensions it is for, and the
/// path of the escaper.
pub type Escaper = (Vec<String>, String);

/// The texts of a list, in order.
pub open spec fn texts_of(list: Seq<&str>) -> Seq<Seq<char>> {
    Seq::new(list.len(), |i: int| list[i]@)
}

/// The escapers that every configuration ends with: the HTML escaper for
/// the extensions of markup, and the text escaper for those of plain text
/// and for files without an extension.
pub open spec fn builtin_escapers() -> Seq<(Seq<Seq<char>>, Seq<char>)> {
    seq![
        (
            seq!["html"@, "htm"@, "j2"@, "jinja"@, "jinja2"@, "rinja"@, "svg"@, "xml"@],
            "rinja::filters::Html"@,
        ),
        (seq!["md"@, "none"@, "txt"@, "yml"@, ""@], "rinja::filters::Text"@),
    ]
}

/// The values as a list of owned texts.
pub fn str_set(vals: &[&str]) -> (set: Vec<String>)
    ensures
        set.deep_view() == texts_of(vals@),
{
    let mut set: Vec<String> = Vec::new();
    let mut i: usize = 0;
    while i < vals.len()
        invariant
            i <= vals.len(),
            set@.len() == i,
            forall|j: int| 0 <= j < i ==> (#[trigger] set@[j])@ == vals@[j]@,
        decreases vals.len() - i,
    {
        set.push(String::from_str(vals[i]));
        i = i + 1;
    }
    assert(set.deep_view() =~= texts_of(vals@));
    set
}

/// The built-in escapers.
pub fn default_escapers() -> (escapers: Vec<Escaper>)
    ensures
        escapers.deep_view() == builtin_escapers(),
{
    let markup = ["html", "htm", "j2", "jinja", "jinja2", "rinja", "svg", "xml"];
    let plain = ["md", "none", "txt", "yml", ""];
    let mut escapers: Vec<Escaper> = Vec::new();
    escapers.push((str_set(markup.as_slice()), String::from_str("rinja::filters::Html")));
    escapers.push((str_set(plain.as_slice()), String::from_str("rinja::filters::Text")));
    assert(escapers.deep_view()[0].0 =~= builtin_escapers()[0].0);
    assert(escapers.deep_view()[1].0 =~= builtin_escapers()[1].0);
    assert(escapers.deep_view() =~= builtin_escapers());
    escapers
}

/// The configured directories, each below the root; or, where none is
/// configured, the directory `templates` below the root.
pub open spec fn resolved_dirs(root: Seq<char>, raw: RawConfigView) -> Seq<Seq<char>> {
    match raw.general {
        Some(general) => match general.dirs {
            Some(declared) => Seq::new(declared.len(), |i: int| path_joined(root, declared[i])),
            None => seq![path_joined(root, DEFAULT_DIR@)],
        },
        None => seq![path_joined(root, DEFAULT_DIR@)],
    }
}

/// The name of the syntax that templates use unless they choose another:
/// the configured one, or else the reserved name.
pub open spec fn resolved_default_syntax(raw: RawConfigView) -> Seq<char> {
    match raw.general {
        Some(general) => match general.default_syntax {
            Some(name) => name,
            None => DEFAULT_SYNTAX_NAME@,
        },
        None => DEFAULT_SYNTAX_NAME@,
    }
}

/// The whitespace policy of the configuration text alone.
pub open spec fn configured_whitespace(raw: RawConfigView) -> WhitespaceHandling {
    match raw.general {
        Some(general) => general.whitespace,
        None => WhitespaceHandling::Preserve,
    }
}

/// The whitespace policy in force: what the template asks for, if it asks
/// for anything, and only else what the configuration text says.
pub open spec fn resolved_whitespace(
    key: ConfigKeyView,
    raw: RawConfigView,
) -> WhitespaceHandling {
    match key.template_whitespace {
        Some(name) => match whitespace_named(name) {
            Some(policy) => policy,
            None => configured_whitespace(raw),
        },
        None => configured_whitespace(raw),
    }
}

/// The syntaxes by name: the built-in one under the reserved name, then the
/// declared ones in the order of their declaration.
pub open spec fn named_syntaxes(declared: Seq<SyntaxBuilderView>) -> Seq<(Seq<char>, SyntaxView)> {
    seq![(DEFAULT_SYNTAX_NAME@, SyntaxView::builtin())] + Seq::new(
        declared.len(),
        |i: int| (declared[i].name, declared[i].resolved()),
    )
}

/// The syntaxes of a configuration by name.
pub open spec fn resolved_syntaxes(raw: RawConfigView) -> Seq<(Seq<char>, SyntaxView)> {
    named_syntaxes(raw.declared_syntaxes())
}

/// The escapers: the declared ones in the order of their declaration, then
/// the built-in ones.
pub open spec fn resolved_escapers(raw: RawConfigView) -> Seq<(Seq<Seq<char>>, Seq<char>)> {
    let declared = raw.declared_escapers();
    Seq::new(declared.len(), |i: int| (declared[i].extensions, declared[i].path))
        + builtin_escapers()
}

/// Whether the name of the declaration at `at` is the reserved name or that
/// of an earlier declaration.
pub open spec fn name_taken(declared: Seq<SyntaxBuilderView>, at: int) -> bool {
    declared[at].name == DEFAULT_SYNTAX_NAME@ || exists|before: int|
        0 <= before < at && #[trigger] declared[before].name == declared[at].name
}

/// Whether the declaration at `at` is rejected: its name is taken, or its
/// delimiters break a rule.
pub open spec fn syntax_fault_at(declared: Seq<SyntaxBuilderView>, at: int) -> bool {
    0 <= at < declared.len() && (name_taken(declared, at) || !declared[at].resolved().well_formed())
}

/// Whether the declaration at `at` is the first that is rejected.
pub open spec fn is_first_syntax_fault(declared: Seq<SyntaxBuilderView>, at: int) -> bool {
    syntax_fault_at(declared, at) && forall|before: int|
        0 <= before < at ==> !syntax_fault_at(declared, before)
}

/// The place of the first declaration that is rejected, if any is.
pub open spec fn first_syntax_fault(declared: Seq<SyntaxBuilderView>) -> Option<int> {
    if exists|at: int| is_first_syntax_fault(declared, at) {
        Some(choose|at: int| is_first_syntax_fault(declared, at))
    } else {
        None
    }
}

/// The violation that is reported for a syntax that breaks a rule.
pub open spec fn reported_violation(syntax: SyntaxView) -> Violation {
    choose|violation: Violation| violation.is_first_of(syntax)
}

/// Whether a syntax of that name is among `syntaxes`.
pub open spec fn has_syntax(syntaxes: Seq<(Seq<char>, SyntaxView)>, name: Seq<char>) -> bool {
    exists|at: int| 0 <= at < syntaxes.len() && #[trigger] syntaxes[at].0 == name
}

/// The message for a whitespace policy that is none of the three.
pub open spec fn invalid_whitespace_text(value: Seq<char>) -> Seq<char> {
    "invalid value for `whitespace`: \""@ + value + "\""@
}

/// The message for a syntax whose name is taken, given the name as it is
/// to be shown.
pub open spec fn duplicate_syntax_text(shown_name: Seq<char>) -> Seq<char> {
    "syntax "@ + shown_name + " is already defined"@
}

/// The message for a default syntax that no syntax is named as.
pub open spec fn missing_default_text(name: Seq<char>) -> Seq<char> {
    "default syntax \""@ + name + "\" not found"@
}

/// Why the declared syntaxes are rejected, if they are: the error for the
/// first declaration whose name is taken or whose delimiters break a rule.
/// A name that is taken is reported before the delimiters are looked at,
/// and only a broken rule of delimiters is reported at the span.
pub open spec fn declared_fault(
    declared: Seq<SyntaxBuilderView>,
    file: Option<Seq<char>>,
    config_span: Option<Span>,
) -> Option<CompileErrorView> {
    match first_syntax_fault(declared) {
        Some(at) => if name_taken(declared, at) {
            Some(
                CompileErrorView {
                    kind: ErrorKind::Validation,
                    msg: duplicate_syntax_text(debug_quoted(declared[at].name)),
                    file,
                    span: None,
                },
            )
        } else {
            Some(
                CompileErrorView {
                    kind: ErrorKind::Validation,
                    msg: reported_violation(declared[at].resolved()).message(
                        declared[at].resolved(),
                    ),
                    file,
                    span: config_span,
                },
            )
        },
        None => None,
    }
}

/// Whether the template asks for a whitespace policy that is none of the
/// three.
pub open spec fn bad_whitespace(key: ConfigKeyView) -> bool {
    match key.template_whitespace {
        Some(name) => whitespace_named(name) is None,
        None => false,
    }
}

/// Why no configuration comes of `raw` under `key`, if none does. The
/// checks are made in this order and the first that fails is reported: the
/// whitespace policy that the template asks for is one of the three; the
/// declared syntaxes are accepted, declaration by declaration; the default
/// syntax is among the syntaxes.
pub open spec fn config_fault(
    key: ConfigKeyView,
    config_span: Option<Span>,
    raw: RawConfigView,
) -> Option<CompileErrorView> {
    if bad_whitespace(key) {
        Some(
            CompileErrorView {
                kind: ErrorKind::Validation,
                msg: invalid_whitespace_text(key.template_whitespace->0),
                file: key.config_path,
                span: None,
            },
        )
    } else if declared_fault(raw.declared_syntaxes(), key.config_path, config_span) is Some {
        declared_fault(raw.declared_syntaxes(), key.config_path, config_span)
    } else if !has_syntax(resolved_syntaxes(raw), resolved_default_syntax(raw)) {
        Some(
            CompileErrorView {
                kind: ErrorKind::Validation,
                msg: missing_default_text(resolved_default_syntax(raw)),
                file: key.config_path,
                span: None,
            },
        )
    } else {
        None
    }
}

/// What `raw` under `key` resolves to, where nothing is at fault.
pub open spec fn resolved_config(
    key: ConfigKeyView,
    root: Seq<char>,
    raw: RawConfigView,
) -> ConfigView {
    ConfigView {
        dirs: resolved_dirs(root, raw),
        syntaxes: resolved_syntaxes(raw),
        default_syntax: resolved_default_syntax(raw),
        escapers: resolved_escapers(raw),
        whitespace: resolved_whitespace(key, raw),
        key,
    }
}

/// Whether the entry at `at` is the escaper for `extension`: it lists the
/// extension, and no entry before it does.
pub open spec fn is_escaper_for(
    escapers: Seq<(Seq<Seq<char>>, Seq<char>)>,
    extension: Seq<char>,
    at: int,
) -> bool {
    &&& 0 <= at < escapers.len()
    &&& escapers[at].0.contains(extension)
    &&& forall|before: int| 0 <= before < at ==> !(#[trigger] escapers[before]).0.contains(extension)
}

/// A configuration as text.
pub struct ConfigView {
    /// Where templates are searched, in the order of the search.
    pub dirs: Seq<Seq<char>>,
    /// The syntaxes, each under its name.
    pub syntaxes: Seq<(Seq<char>, SyntaxView)>,
    /// The name of the syntax that templates use unless they choose another.
    pub default_syntax: Seq<char>,
    /// The escapers, each with the extensions it is for; the first entry
    /// that lists an extension is the one for it.
    pub escapers: Seq<(Seq<Seq<char>>, Seq<char>)>,
    pub whitespace: WhitespaceHandling,
    /// What the configuration was made from.
    pub key: ConfigKeyView,
}

impl ConfigView {
    /// The invariant of a configuration: no two syntaxes share a name, the
    /// reserved name and the default name each name a syntax, and every
    /// syntax keeps the rules of delimiters.
    pub open spec fn wf(self) -> bool {
        &&& distinct_keys(self.syntaxes)
        &&& has_syntax(self.syntaxes, DEFAULT_SYNTAX_NAME@)
        &&& has_syntax(self.syntaxes, self.default_syntax)
        &&& forall|at: int|
            0 <= at < self.syntaxes.len() ==> (#[trigger] self.syntaxes[at]).1.well_formed()
    }
}

/// A resolved configuration. `T` is the type of a parsed template.
#[derive(Debug)]
pub struct Config<T> {
    dirs: Vec<String>,
    syntaxes: Vec<(String, SyntaxAndCache<T>)>,
    default_syntax: String,
    escapers: Vec<Escaper>,
    whitespace: WhitespaceHandling,
    key: ConfigKey,
}

/// The names and delimiters of a list of syntaxes.
pub open spec fn syntaxes_view<T>(syntaxes: Seq<(String, SyntaxAndCache<T>)>) -> Seq<
    (Seq<char>, SyntaxView),
> {
    Seq::new(syntaxes.len(), |i: int| (syntaxes[i].0@, syntaxes[i].1.delimiters()))
}

impl<T> View for Config<T> {
    type V = ConfigView;

    closed spec fn view(&self) -> ConfigView {
        ConfigView {
            dirs: self.dirs.deep_view(),
            syntaxes: syntaxes_view(self.syntaxes@),
            default_syntax: self.default_syntax@,
            escapers: self.escapers.deep_view(),
            whitespace: self.whitespace,
            key: self.key@,
        }
    }
}

/// The place of the syntax of that name in the list, if it is there.
fn syntax_position<T>(syntaxes: &Vec<(String, SyntaxAndCache<T>)>, name: &str) -> (found: Option<
    usize,
>)
    ensures
        match found {
            Some(at) => at < syntaxes@.len() && syntaxes@[at as int].0@ == name@,
            None => !has_syntax(syntaxes_view(syntaxes@), name@),
        },
{
    let mut at: usize = 0;
    while at < syntaxes.len()
        invariant
            at <= syntaxes.len(),
            forall|before: int| 0 <= before < at ==> syntaxes@[before].0@ != name@,
        decreases syntaxes.len() - at,
    {
        if same_str(syntaxes[at].0.as_str(), name) {
            return Some(at);
        }
        at = at + 1;
    }
    assert forall|i: int| 0 <= i < syntaxes_view(syntaxes@).len() implies #[trigger] syntaxes_view(
        syntaxes@,
    )[i].0 != name@ by {
        assert(syntaxes@[i].0@ != name@);
    }
    None
}

/// Each of the declared directories below the root.
fn rooted_dirs(root: &str, declared: &Vec<String>) -> (dirs: Vec<String>)
    ensures
        dirs.deep_view() == Seq::new(
            declared@.len(),
            |i: int| path_joined(root@, declared.deep_view()[i]),
        ),
{
    let mut dirs: Vec<String> = Vec::new();
    let mut i: usize = 0;
    while i < declared.len()
        invariant
            i <= declared.len(),
            dirs@.len() == i,
            forall|j: int| 0 <= j < i ==> (#[trigger] dirs@[j])@ == path_joined(root@, declared@[j]@),
        decreases declared.len() - i,
    {
        dirs.push(join_path(root, declared[i].as_str()));
        i = i + 1;
    }
    assert(dirs.deep_view() =~= Seq::new(
        declared@.len(),
        |i: int| path_joined(root@, declared.deep_view()[i]),
    ));
    dirs
}

/// Writes the message for a whitespace policy that is none of the three.
pub fn invalid_whitespace_message(value: &str) -> (msg: String)
    ensures
        msg@ == invalid_whitespace_text(value@),
{
    let mut msg = String::from_str("invalid value for `whitespace`: \"");
    msg.append(value);
    msg.append("\"");
    msg
}

/// Writes the message for a syntax whose name is taken, given the name as
/// it is to be shown.
pub fn duplicate_syntax_message(shown_name: &str) -> (msg: String)
    ensures
        msg@ == duplicate_syntax_text(shown_name@),
{
    let mut msg = String::from_str("syntax ");
    msg.append(shown_name);
    msg.append(" is already defined");
    msg
}

/// Writes the message for a default syntax that no syntax is named as.
pub fn missing_default_message(name: &str) -> (msg: String)
    ensures
        msg@ == missing_default_text(name@),
{
    let mut msg = String::from_str("default syntax \"");
    msg.append(name);
    msg.append("\" not found");
    msg
}

/// Whether `res` is what `raw` resolves to under `key`: the error that
/// `config_fault` gives, or, where it gives none, the configuration that
/// `resolved_config` describes, with nothing parsed under any syntax.
pub open spec fn resolves_to<T>(
    res: Result<Config<T>, CompileError>,
    key: ConfigKeyView,
    config_span: Option<Span>,
    root: Seq<char>,
    raw: RawConfigView,
) -> bool {
    match res {
        Ok(config) => {
            &&& config_fault(key, config_span, raw) is None
            &&& config@ == resolved_config(key, root, raw)
            &&& config.wf()
            &&& config.nothing_parsed()
        },
        Err(err) => config_fault(key, config_span, raw) == Some(err@),
    }
}

/// Whether `built` is what resolving the configuration text `source`
/// under `key` gives, where `read` is the reader of the text: for an empty
/// configuration text, what the configuration that declares nothing
/// resolves to; for any other text, what the configuration that `read`
/// hands back resolves to, or the error for what `read` reports.
pub open spec fn resolution_of<T, R: FnOnce(&String) -> Result<RawConfig, TomlError>>(
    built: Result<Config<T>, CompileError>,
    key: ConfigKeyView,
    config_span: Option<Span>,
    root: Seq<char>,
    source: Seq<char>,
    read: R,
) -> bool {
    if source.len() == 0 {
        resolves_to(built, key, config_span, root, RawConfigView::empty())
    } else {
        exists|text: &String, outcome: Result<RawConfig, TomlError>|
            text@ == source && #[trigger] read.ensures((text,), outcome) && match outcome {
                Ok(raw) => resolves_to(built, key, config_span, root, raw@),
                Err(err) => built matches Err(fault) && fault@ == toml_fault(err),
            }
    }
}

/// The first declaration that is rejected is the only one that is the
/// first.
pub proof fn lemma_first_syntax_fault(declared: Seq<SyntaxBuilderView>, at: int)
    requires
        is_first_syntax_fault(declared, at),
    ensures
        first_syntax_fault(declared) == Some(at),
{
    let chosen = choose|other: int| is_first_syntax_fault(declared, other);
    if chosen < at {
        assert(!syntax_fault_at(declared, chosen));
    } else if at < chosen {
        assert(!syntax_fault_at(declared, at));
    }
}

/// The declared escapers as entries of the list of escapers.
fn declared_escapers(declared: &Vec<RawEscaper>) -> (escapers: Vec<Escaper>)
    ensures
        escapers.deep_view() == Seq::new(
            declared@.len(),
            |i: int| (declared@[i]@.extensions, declared@[i]@.path),
        ),
{
    let mut escapers: Vec<Escaper> = Vec::new();
    let mut i: usize = 0;
    while i < declared.len()
        invariant
            i <= declared.len(),
            escapers@.len() == i,
            forall|j: int|
                0 <= j < i ==> (#[trigger] escapers@[j]).deep_view() == (
                    declared@[j]@.extensions,
                    declared@[j]@.path,
                ),
        decreases declared.len() - i,
    {
        let extensions = clone_texts(&declared[i].extensions);
        assert(extensions.deep_view() =~= declared@[i as int].extensions.deep_view());
        escapers.push((extensions, declared[i].path.clone()));
        i = i + 1;
    }
    assert(escapers.deep_view() =~= Seq::new(
        declared@.len(),
        |i: int| (declared@[i]@.extensions, declared@[i]@.path),
    ));
    escapers
}

/// The declarations as text.
pub open spec fn declared_views(declared: Seq<SyntaxBuilder>) -> Seq<SyntaxBuilderView> {
    Seq::new(declared.len(), |i: int| declared[i]@)
}

/// Where no declaration is rejected, no two of the syntaxes share a name.
pub proof fn lemma_named_syntaxes_are_distinct(declared: Seq<SyntaxBuilderView>)
    requires
        first_syntax_fault(declared) is None,
    ensures
        distinct_keys(named_syntaxes(declared)),
{
    let named = named_syntaxes(declared);
    lemma_no_syntax_fault(declared);
    assert forall|a: int, b: int| 0 <= a < b < named.len() implies named[a].0 != named[b].0 by {
        assert(!syntax_fault_at(declared, b - 1));
        assert(!name_taken(declared, b - 1));
        if a > 0 {
            assert(declared[a - 1].name != declared[b - 1].name);
        }
    }
}

/// Where no declaration is the first to be rejected, none is rejected.
pub proof fn lemma_no_syntax_fault(declared: Seq<SyntaxBuilderView>)
    requires
        first_syntax_fault(declared) is None,
    ensures
        forall|at: int| !syntax_fault_at(declared, at),
{
    assert forall|at: int| !syntax_fault_at(declared, at) by {
        if syntax_fault_at(declared, at) {
            lemma_earliest_syntax_fault(declared, at);
        }
    }
}

/// Where a declaration is rejected, one is the first to be rejected.
proof fn lemma_earliest_syntax_fault(declared: Seq<SyntaxBuilderView>, at: int)
    requires
        syntax_fault_at(declared, at),
    ensures
        exists|first: int| is_first_syntax_fault(declared, first),
    decreases at,
{
    if exists|before: int| 0 <= before < at && syntax_fault_at(declared, before) {
        let before = choose|before: int| 0 <= before < at && syntax_fault_at(declared, before);
        lemma_earliest_syntax_fault(declared, before);
    } else {
        assert(is_first_syntax_fault(declared, at));
    }
}

/// The built-in syntax and the declared ones, each under its name and with
/// an empty cache; or the error for the first declaration that is rejected.
fn named_syntaxes_of<T>(
    declared: &Vec<SyntaxBuilder>,
    file_info: &Option<String>,
    config_span: Option<Span>,
) -> (res: Result<Vec<(String, SyntaxAndCache<T>)>, CompileError>)
    ensures
        match res {
            Ok(syntaxes) => {
                &&& declared_fault(
                    declared_views(declared@),
                    file_info.deep_view(),
                    config_span,
                ) is None
                &&& syntaxes_view(syntaxes@) == named_syntaxes(declared_views(declared@))
                &&& forall|at: int|
                    0 <= at < syntaxes@.len() ==> {
                        &&& (#[trigger] syntaxes@[at]).1.wf()
                        &&& syntaxes@[at].1.parsed().len() == 0
                        &&& syntaxes@[at].1.delimiters().well_formed()
                    }
            },
            Err(err) => declared_fault(
                declared_views(declared@),
                file_info.deep_view(),
                config_span,
            ) == Some(err@),
        },
{
    let ghost views = declared_views(declared@);
    let mut syntaxes: Vec<(String, SyntaxAndCache<T>)> = Vec::new();
    syntaxes.push((String::from_str(DEFAULT_SYNTAX_NAME), SyntaxAndCache::default()));
    proof {
        lemma_builtin_is_well_formed();
        assert(syntaxes_view(syntaxes@) =~= named_syntaxes(views).take(1));
    }
    let mut i: usize = 0;
    while i < declared.len()
        invariant
            i <= declared.len(),
            views == declared_views(declared@),
            syntaxes@.len() == i + 1,
            syntaxes_view(syntaxes@) == named_syntaxes(views).take(i + 1),
            forall|j: int| 0 <= j < i ==> !syntax_fault_at(views, j),
            forall|j: int|
                0 <= j < syntaxes@.len() ==> {
                    &&& (#[trigger] syntaxes@[j]).1.wf()
                    &&& syntaxes@[j].1.parsed().len() == 0
                    &&& syntaxes@[j].1.delimiters().well_formed()
                },
        decreases declared.len() - i,
    {
        let builder = &declared[i];
        let ghost so_far = syntaxes_view(syntaxes@);
        assert(builder@ == views[i as int]);
        let taken = syntax_position(&syntaxes, builder.name.as_str());
        proof {
            if taken is Some {
                let at = taken->0 as int;
                assert(so_far[at].0 == builder.name@);
                assert(so_far[at] == named_syntaxes(views)[at]);
                if at > 0 {
                    assert(views[at - 1].name == views[i as int].name);
                }
                assert(name_taken(views, i as int));
            } else {
                assert(!has_syntax(so_far, builder.name@));
                assert(so_far[0].0 != builder.name@);
                assert forall|before: int| 0 <= before < i implies #[trigger] views[before].name
                    != views[i as int].name by {
                    assert(so_far[before + 1].0 == views[before].name);
                }
                assert(!name_taken(views, i as int));
            }
        }
        if taken.is_some() {
            proof {
                lemma_first_syntax_fault(views, i as int);
            }
            let shown = debug_str(builder.name.as_str());
            return Err(
                CompileError::new(
                    ErrorKind::Validation,
                    duplicate_syntax_message(shown.as_str()),
                    clone_optional_text(file_info),
                ),
            );
        }
        match builder.to_syntax() {
            Ok(syntax) => {
                syntaxes.push((builder.name.clone(), SyntaxAndCache::new(syntax)));
                assert(syntaxes_view(syntaxes@) =~= named_syntaxes(views).take(i + 2));
            },
            Err(msg) => {
                proof {
                    lemma_first_syntax_fault(views, i as int);
                    let resolved = views[i as int].resolved();
                    let violation = choose|violation: Violation|
                        violation.is_first_of(resolved) && msg@ == #[trigger] violation.message(
                            resolved,
                        );
                    lemma_first_violation_is_unique(
                        resolved,
                        violation,
                        reported_violation(resolved),
                    );
                }
                return Err(
                    CompileError::new_with_span(
                        ErrorKind::Validation,
                        msg,
                        clone_optional_text(file_info),
                        config_span,
                    ),
                );
            },
        }
        i = i + 1;
    }
    proof {
        assert(named_syntaxes(views).take(declared@.len() as int + 1) =~= named_syntaxes(views));
        if first_syntax_fault(views) is Some {
            let at = first_syntax_fault(views)->0;
            assert(is_first_syntax_fault(views, at));
        }
    }
    Ok(syntaxes)
}

/// Whether `extension` is among the extensions.
fn lists_extension(extensions: &Vec<String>, extension: &str) -> (listed: bool)
    ensures
        listed == extensions.deep_view().contains(extension@),
{
    let mut i: usize = 0;
    while i < extensions.len()
        invariant
            i <= extensions.len(),
            forall|j: int| 0 <= j < i ==> extensions@[j]@ != extension@,
        decreases extensions.len() - i,
    {
        if same_str(extensions[i].as_str(), extension) {
            assert(extensions.deep_view()[i as int] == extension@);
            return true;
        }
        i = i + 1;
    }
    false
}

impl<T> Config<T> {
    /// What was parsed under the syntax at `at`.
    pub closed spec fn parsed(&self, at: int) -> Seq<(SyntaxAndCacheKeyView, Arc<T>)> {
        self.syntaxes@[at].1.parsed()
    }

    /// Whether nothing has been parsed under any syntax yet.
    pub closed spec fn nothing_parsed(&self) -> bool {
        forall|at: int|
            0 <= at < self.syntaxes@.len() ==> (#[trigger] self.syntaxes@[at]).1.parsed().len() == 0
    }

    /// The invariant: that of the view, and that of the cache of each
    /// syntax.
    pub closed spec fn wf(&self) -> bool {
        &&& self@.wf()
        &&& forall|at: int| 0 <= at < self.syntaxes@.len() ==> (#[trigger] self.syntaxes@[at]).1.wf()
    }

    /// Resolves a configuration from what was written down: the
    /// directories below `root`, the default syntax, the whitespace policy
    /// with the template's choice before the configuration's, the built-in
    /// syntax and the declared ones, and the declared escapers before the
    /// built-in ones. The first rule that is broken is the error.
    pub fn from_raw(key: ConfigKey, config_span: Option<Span>, root: &str, raw: RawConfig) -> (res:
        Result<Config<T>, CompileError>)
        ensures
            resolves_to(res, key@, config_span, root@, raw@),
    {
        let ghost raw_view = raw@;
        let ghost declared_view = raw_view.declared_syntaxes();
        let RawConfig { general, syntax, escaper } = raw;
        let (dirs, default_syntax, configured) = match general {
            Some(General { dirs, default_syntax, whitespace }) => (
                match dirs {
                    Some(declared) => rooted_dirs(root, &declared),
                    None => {
                        let mut dirs: Vec<String> = Vec::new();
                        dirs.push(join_path(root, DEFAULT_DIR));
                        dirs
                    },
                },
                match default_syntax {
                    Some(name) => name,
                    None => String::from_str(DEFAULT_SYNTAX_NAME),
                },
                whitespace,
            ),
            None => {
                let mut dirs: Vec<String> = Vec::new();
                dirs.push(join_path(root, DEFAULT_DIR));
                (dirs, String::from_str(DEFAULT_SYNTAX_NAME), WhitespaceHandling::default())
            },
        };
        assert(dirs.deep_view() =~= resolved_dirs(root@, raw_view));
        assert(default_syntax@ == resolved_default_syntax(raw_view));
        let file_info = clone_optional_text(&key.config_path);
        let whitespace = match &key.template_whitespace {
            Some(name) => match WhitespaceHandling::from_name(name.as_str()) {
                Some(policy) => policy,
                None => {
                    return Err(
                        CompileError::new(
                            ErrorKind::Validation,
                            invalid_whitespace_message(name.as_str()),
                            file_info,
                        ),
                    );
                },
            },
            None => configured,
        };
        assert(whitespace == resolved_whitespace(key@, raw_view));
        assert(!bad_whitespace(key@));

        let declared: Vec<SyntaxBuilder> = match syntax {
            Some(declared) => declared,
            None => Vec::new(),
        };
        assert(declared_views(declared@) =~= declared_view);
        let syntaxes: Vec<(String, SyntaxAndCache<T>)> = match named_syntaxes_of(
            &declared,
            &file_info,
            config_span,
        ) {
            Ok(syntaxes) => syntaxes,
            Err(err) => {
                return Err(err);
            },
        };
        let default_at = syntax_position(&syntaxes, default_syntax.as_str());
        proof {
            assert(syntaxes_view(syntaxes@) == resolved_syntaxes(raw_view));
            if default_at is Some {
                assert(syntaxes_view(syntaxes@)[default_at->0 as int].0 == default_syntax@);
            }
        }
        if default_at.is_none() {
            return Err(
                CompileError::new(
                    ErrorKind::Validation,
                    missing_default_message(default_syntax.as_str()),
                    file_info,
                ),
            );
        }
        let mut escapers: Vec<Escaper> = match escaper {
            Some(declared) => {
                let escapers = declared_escapers(&declared);
                assert(escapers.deep_view() =~= resolved_escapers(raw_view).take(
                    declared@.len() as int,
                ));
                escapers
            },
            None => {
                let escapers: Vec<Escaper> = Vec::new();
                assert(escapers.deep_view() =~= resolved_escapers(raw_view).take(0));
                escapers
            },
        };
        let mut builtin = default_escapers();
        let ghost declared_len = escapers@.len();
        let ghost declared_part = escapers.deep_view();
        let ghost builtin_part = builtin.deep_view();
        escapers.append(&mut builtin);
        assert(escapers.deep_view() =~= declared_part + builtin_part);
        assert(escapers.deep_view() =~= resolved_escapers(raw_view));
        let config = Config { dirs, syntaxes, default_syntax, escapers, whitespace, key };
        proof {
            let view = config@;
            lemma_named_syntaxes_are_distinct(declared_view);
            assert(view.syntaxes[0].0 == DEFAULT_SYNTAX_NAME@);
            assert(has_syntax(view.syntaxes, DEFAULT_SYNTAX_NAME@));
            assert forall|at: int| 0 <= at < view.syntaxes.len() implies (
            #[trigger] view.syntaxes[at]).1.well_formed() by {
                assert(syntaxes@[at].1.delimiters().well_formed());
            }
            assert(view =~= resolved_config(key@, root@, raw_view));
            assert(has_syntax(view.syntaxes, view.default_syntax));
        }
        Ok(config)
    }

    /// Resolves the configuration that `key` identifies. An empty
    /// configuration text declares nothing and is not read; any other text
    /// is read with `read`, once, and what `read` hands back is resolved as
    /// `from_raw` says.
    pub fn new_uncached<R>(key: ConfigKey, config_span: Option<Span>, root: &str, read: R) -> (res:
        Result<Config<T>, CompileError>)
        where R: FnOnce(&String) -> Result<RawConfig, TomlError>
        requires
            key.source@.len() > 0 ==> read.requires((&key.source,)),
        ensures
            resolution_of(res, key@, config_span, root@, key.source@, read),
    {
        let raw = if key.source.as_str().is_empty() {
            RawConfig::default()
        } else {
            match RawConfig::from_toml_str(&key.source, read) {
                Ok(raw) => raw,
                Err(fault) => {
                    return Err(fault);
                },
            }
        };
        Config::from_raw(key, config_span, root, raw)
    }

    /// Where templates are searched, in the order of the search.
    pub fn dirs(&self) -> (dirs: &Vec<String>)
        ensures
            dirs.deep_view() == self@.dirs,
    {
        &self.dirs
    }

    /// The name of the syntax that templates use unless they choose
    /// another.
    pub fn default_syntax(&self) -> (name: &str)
        ensures
            name@ == self@.default_syntax,
    {
        self.default_syntax.as_str()
    }

    /// The escapers, in the order in which they are tried.
    pub fn escapers(&self) -> (escapers: &Vec<Escaper>)
        ensures
            escapers.deep_view() == self@.escapers,
    {
        &self.escapers
    }

    /// The whitespace policy.
    pub fn whitespace(&self) -> (policy: WhitespaceHandling)
        ensures
            policy == self@.whitespace,
    {
        self.whitespace
    }

    /// What the configuration was made from.
    pub fn key(&self) -> (key: &ConfigKey)
        ensures
            key@ == self@.key,
    {
        &self.key
    }

    /// The number of syntaxes.
    pub fn syntax_count(&self) -> (count: usize)
        ensures
            count == self@.syntaxes.len(),
    {
        self.syntaxes.len()
    }

    /// The syntax of that name, if there is one.
    pub fn syntax(&self, name: &str) -> (found: Option<&SyntaxAndCache<T>>)
        ensures
            match found {
                Some(syntax) => exists|at: int|
                    0 <= at < self@.syntaxes.len() && #[trigger] self@.syntaxes[at] == (
                        name@,
                        syntax.delimiters(),
                    ) && syntax.parsed() == self.parsed(at),
                None => !has_syntax(self@.syntaxes, name@),
            },
    {
        match syntax_position(&self.syntaxes, name) {
            Some(at) => {
                assert(self@.syntaxes[at as int] == (name@, self.syntaxes@[at as int].1.delimiters()));
                Some(&self.syntaxes[at].1)
            },
            None => None,
        }
    }

    /// The place of the syntax of that name among the syntaxes, if there
    /// is one.
    pub fn syntax_index(&self, name: &str) -> (found: Option<usize>)
        ensures
            match found {
                Some(at) => at < self@.syntaxes.len() && self@.syntaxes[at as int].0 == name@,
                None => !has_syntax(self@.syntaxes, name@),
            },
    {
        syntax_position(&self.syntaxes, name)
    }

    /// The escaper for a file extension: that of the first entry that lists
    /// the extension.
    pub fn find_escaper(&self, extension: &str) -> (found: Option<&str>)
        ensures
            match found {
                Some(path) => exists|at: int| #[trigger]
                    is_escaper_for(self@.escapers, extension@, at) && path@
                        == self@.escapers[at].1,
                None => forall|at: int|
                    0 <= at < self@.escapers.len() ==> !(#[trigger] self@.escapers[at]).0.contains(
                        extension@,
                    ),
            },
    {
        let mut at: usize = 0;
        while at < self.escapers.len()
            invariant
                at <= self.escapers.len(),
                forall|before: int|
                    0 <= before < at ==> !(#[trigger] self@.escapers[before]).0.contains(extension@),
            decreases self.escapers.len() - at,
        {
            if lists_extension(&self.escapers[at].0, extension) {
                assert(is_escaper_for(self@.escapers, extension@, at as int));
                return Some(self.escapers[at].1.as_str());
            }
            at = at + 1;
        }
        None
    }

    /// The tree of a template under the syntax at `at`; see
    /// [`SyntaxAndCache::parse`].
    pub fn parse<E, F>(
        &mut self,
        at: usize,
        source: String,
        source_path: Option<String>,
        parser: F,
    ) -> (res: Result<Arc<T>, E>)
        where F: FnOnce(&String, &Option<String>, &Syntax) -> Result<T, E>
        requires
            old(self).wf(),
            at < old(self)@.syntaxes.len(),
            slot_of(
                old(self).parsed(at as int),
                SyntaxAndCacheKeyView { source: source@, source_path: source_path.deep_view() },
            ) is None ==> forall|syntax: &Syntax|
                syntax@ == old(self)@.syntaxes[at as int].1 ==> parser.requires(
                    (&source, &source_path, syntax),
                ),
        ensures
            final(self).wf(),
            final(self)@ == old(self)@,
            forall|other: int|
                0 <= other < old(self)@.syntaxes.len() && other != at ==> final(self).parsed(other)
                    == old(self).parsed(other),
            ({
                let key = SyntaxAndCacheKeyView {
                    source: source@,
                    source_path: source_path.deep_view(),
                };
                let before = old(self).parsed(at as int);
                let after = final(self).parsed(at as int);
                match slot_of(before, key) {
                    Some(slot) => res == Ok::<Arc<T>, E>(before[slot].1) && after == before,
                    None => exists|syntax: &Syntax, outcome: Result<T, E>|
                        syntax@ == old(self)@.syntaxes[at as int].1 && #[trigger] parser.ensures(
                            (&source, &source_path, syntax),
                            outcome,
                        ) && match outcome {
                            Ok(tree) => res matches Ok(shared) && *shared == tree && after
                                == before.push((key, shared)),
                            Err(err) => res == Err::<Arc<T>, E>(err) && after == before,
                        },
                }
            }),
    {
        let ghost before = self.syntaxes@;
        let res = self.syntaxes[at].1.parse(source, source_path, parser);
        proof {
            assert(syntaxes_view(self.syntaxes@) =~= syntaxes_view(before));
        }
        res
    }
}

/// The whitespace policy that a template asks for always wins: where it
/// names a policy, that is the policy in force, whatever the configuration
/// text says.
pub proof fn lemma_template_whitespace_wins(
    key: ConfigKeyView,
    raw: RawConfigView,
    policy: WhitespaceHandling,
)
    requires
        key.template_whitespace matches Some(name) && whitespace_named(name) == Some(policy),
    ensures
        resolved_whitespace(key, raw) == policy,
{
}

/// A configuration text that says `suppress` under a template that asks
/// for `minimize` resolves to `Minimize`.
pub proof fn lemma_minimize_wins_over_suppress(key: ConfigKeyView, raw: RawConfigView)
    requires
        key.template_whitespace == Some("minimize"@),
        configured_whitespace(raw) == WhitespaceHandling::Suppress,
    ensures
        resolved_whitespace(key, raw) == WhitespaceHandling::Minimize,
{
    lemma_whitespace_names();
}

/// The messages for a whitespace policy that is none of the three, for a
/// syntax whose name is taken and for a default syntax that is not there
/// are told apart by how they begin, whatever they name.
pub proof fn lemma_messages_are_distinct(value: Seq<char>, shown_name: Seq<char>, name: Seq<char>)
    ensures
        invalid_whitespace_text(value) != duplicate_syntax_text(shown_name),
        invalid_whitespace_text(value) != missing_default_text(name),
        duplicate_syntax_text(shown_name) != missing_default_text(name),
{
    reveal_strlit("invalid value for `whitespace`: \"");
    reveal_strlit("syntax ");
    reveal_strlit("default syntax \"");
    assert(invalid_whitespace_text(value)[0] == 'i');
    assert(duplicate_syntax_text(shown_name)[0] == 's');
    assert(missing_default_text(name)[0] == 'd');
}

/// A declared escaper comes before the built-in ones: the declared entry
/// that is the first to list an extension is the escaper for it, whether or
/// not a built-in entry lists it too.
pub proof fn lemma_declared_escaper_wins(raw: RawConfigView, extension: Seq<char>, at: int)
    requires
        0 <= at < raw.declared_escapers().len(),
        raw.declared_escapers()[at].extensions.contains(extension),
        forall|before: int|
            0 <= before < at ==> !(#[trigger] raw.declared_escapers()[before]).extensions.contains(
                extension,
            ),
    ensures
        is_escaper_for(resolved_escapers(raw), extension, at),
        resolved_escapers(raw)[at].1 == raw.declared_escapers()[at].path,
{
    let declared = raw.declared_escapers();
    let all = resolved_escapers(raw);
    assert forall|before: int| 0 <= before < at implies !(#[trigger] all[before]).0.contains(
        extension,
    ) by {
        assert(all[before].0 == declared[before].extensions);
    }
}

/// The built-in escapers still apply to what no declared escaper lists:
/// for such an extension the escaper is the built-in one.
pub proof fn lemma_builtin_escaper_applies(raw: RawConfigView, extension: Seq<char>, at: int)
    requires
        forall|declared: int|
            0 <= declared < raw.declared_escapers().len() ==> !(
            #[trigger] raw.declared_escapers()[declared]).extensions.contains(extension),
        is_escaper_for(builtin_escapers(), extension, at),
    ensures
        is_escaper_for(resolved_escapers(raw), extension, raw.declared_escapers().len() + at),
        resolved_escapers(raw)[raw.declared_escapers().len() + at].1 == builtin_escapers()[at].1,
{
    let declared = raw.declared_escapers();
    let all = resolved_escapers(raw);
    let shifted = declared.len() + at;
    assert(all[shifted] == builtin_escapers()[at]);
    assert forall|before: int| 0 <= before < shifted implies !(#[trigger] all[before]).0.contains(
        extension,
    ) by {
        if before < declared.len() {
            assert(all[before].0 == declared[before].extensions);
        } else {
            assert(all[before] == builtin_escapers()[before - declared.len()]);
        }
    }
}

/// The built-in escaper for `html` is the HTML escaper, and `js` has no
/// built-in escaper.
pub proof fn lemma_builtin_html_escaper()
    ensures
        is_escaper_for(builtin_escapers(), "html"@, 0),
        builtin_escapers()[0].1 == "rinja::filters::Html"@,
        forall|at: int|
            0 <= at < builtin_escapers().len() ==> !(#[trigger] builtin_escapers()[at]).0.contains(
                "js"@,
            ),
{
    let builtin = builtin_escapers();
    assert(builtin[0].0[0] == "html"@);
    reveal_strlit("js");
    reveal_strlit("html");
    reveal_strlit("htm");
    reveal_strlit("j2");
    reveal_strlit("jinja");
    reveal_strlit("jinja2");
    reveal_strlit("rinja");
    reveal_strlit("svg");
    reveal_strlit("xml");
    reveal_strlit("md");
    reveal_strlit("none");
    reveal_strlit("txt");
    reveal_strlit("yml");
    reveal_strlit("");
    assert forall|at: int| 0 <= at < builtin.len() implies !(#[trigger] builtin[at]).0.contains(
        "js"@,
    ) by {
        let listed = builtin[at].0;
        assert forall|i: int| 0 <= i < listed.len() implies listed[i] != "js"@ by {
            if listed[i].len() == 2 {
                assert(listed[i][1] != 's');
            }
        }
    }
}

} // verus!
