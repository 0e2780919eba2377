//! The configuration as it is written down, before any rule is applied.

use crate::error::{CompileError, CompileErrorView, ErrorKind};
use crate::paths::{join_path, path_joined};
use proc_macro2::Span;
use crate::syntax::{SyntaxBuilder, SyntaxBuilderView};
use crate::whitespace::WhitespaceHandling;
use vstd::prelude::*;
use vstd::string::*;

verus! {

/// The name of the configuration file that is read when none is named.
pub const CONFIG_FILE_NAME: &'static str = "rinja.toml";

/// The section of general settings.
#[derive(Clone, Debug, PartialEq, Eq)]
pub struct General {
    pub dirs: Option<Vec<String>>,
    pub default_syntax: Option<String>,
    pub whitespace: WhitespaceHandling,
}

/// The general settings as text.
pub struct GeneralView {
    pub dirs: Option<Seq<Seq<char>>>,
    pub default_syntax: Option<Seq<char>>,
    pub whitespace: WhitespaceHandling,
}

/// An escaper that the configuration declares: the path of the escaper and
/// the file extensions it is for.
#[derive(Clone, Debug, PartialEq, Eq)]
pub struct RawEscaper {
    pub path: String,
    pub extensions: Vec<String>,
}

/// A declared escaper as text.
pub struct RawEscaperView {
    pub path: Seq<char>,
    pub extensions: Seq<Seq<char>>,
}

/// A whole configuration as it is written down.
#[derive(Clone, Debug, PartialEq, Eq)]
pub struct RawConfig {
    pub general: Option<General>,
    pub syntax: Option<Vec<SyntaxBuilder>>,
    pub escaper: Option<Vec<RawEscaper>>,
}

/// A written configuration as text.
pub struct RawConfigView {
    pub general: Option<GeneralView>,
    pub syntax: Option<Seq<SyntaxBuilderView>>,
    pub escaper: Option<Seq<RawEscaperView>>,
}

/// Why a configuration text could not be turned into a [`RawConfig`].
#[derive(Clone, Debug, PartialEq, Eq)]
pub enum TomlError {
    /// No reader for structured configuration text is at hand.
    Unavailable,
    /// The reader rejected the text, with these words.
    Invalid(String),
}

impl View for General {
    type V = GeneralView;

    open spec fn view(&self) -> GeneralView {
        GeneralView {
            dirs: self.dirs.deep_view(),
            default_syntax: self.default_syntax.deep_view(),
            whitespace: self.whitespace,
        }
    }
}

impl View for RawEscaper {
    type V = RawEscaperView;

    open spec fn view(&self) -> RawEscaperView {
        RawEscaperView { path: self.path@, extensions: self.extensions.deep_view() }
    }
}

impl View for RawConfig {
    type V = RawConfigView;

    open spec fn view(&self) -> RawConfigView {
        RawConfigView {
            general: match self.general {
                Some(general) => Some(general@),
                None => None,
            },
            syntax: match self.syntax {
                Some(declared) => Some(Seq::new(declared@.len(), |i: int| declared@[i]@)),
                None => None,
            },
            escaper: match self.escaper {
                Some(declared) => Some(Seq::new(declared@.len(), |i: int| declared@[i]@)),
                None => None,
            },
        }
    }
}

impl RawConfigView {
    /// The syntaxes that are declared, in the order of their declaration.
    pub open spec fn declared_syntaxes(self) -> Seq<SyntaxBuilderView> {
        match self.syntax {
            Some(declared) => declared,
            None => Seq::empty(),
        }
    }

    /// The escapers that are declared, in the order of their declaration.
    pub open spec fn declared_escapers(self) -> Seq<RawEscaperView> {
        match self.escaper {
            Some(declared) => declared,
            None => Seq::empty(),
        }
    }

    /// The configuration that declares nothing.
    pub open spec fn empty() -> RawConfigView {
        RawConfigView { general: None, syntax: None, escaper: None }
    }
}

/// The message for a configuration text that its reader rejected with
/// `reason`.
pub open spec fn invalid_toml_text(reason: Seq<char>) -> Seq<char> {
    "invalid TOML in "@ + CONFIG_FILE_NAME@ + ": "@ + reason
}

/// The error for a configuration text that could not be read as structured
/// text. It names no file and no span.
pub open spec fn toml_fault(err: TomlError) -> CompileErrorView {
    match err {
        TomlError::Unavailable => CompileErrorView {
            kind: ErrorKind::ConfigParse,
            msg: "TOML support not available"@,
            file: None,
            span: None,
        },
        TomlError::Invalid(reason) => CompileErrorView {
            kind: ErrorKind::ConfigParse,
            msg: invalid_toml_text(reason@),
            file: None,
            span: None,
        },
    }
}

impl Default for RawConfig {
    /// The configuration that declares nothing.
    fn default() -> (raw: RawConfig)
        ensures
            raw@ == RawConfigView::empty(),
    {
        RawConfig { general: None, syntax: None, escaper: None }
    }
}

impl RawConfig {
    /// What becomes of the outcome of reading a configuration text: the
    /// configuration as it was read, or the error that says why there is
    /// none.
    pub fn from_toml_outcome(outcome: Result<RawConfig, TomlError>) -> (res: Result<
        RawConfig,
        CompileError,
    >)
        ensures
            match outcome {
                Ok(raw) => res == Ok::<RawConfig, CompileError>(raw),
                Err(err) => res matches Err(fault) && fault@ == toml_fault(err),
            },
    {
        match outcome {
            Ok(raw) => Ok(raw),
            Err(TomlError::Unavailable) => Err(
                CompileError::no_file_info(
                    ErrorKind::ConfigParse,
                    String::from_str("TOML support not available"),
                    None,
                ),
            ),
            Err(TomlError::Invalid(reason)) => {
                let mut msg = String::from_str("invalid TOML in ");
                msg.append(CONFIG_FILE_NAME);
                msg.append(": ");
                msg.append(reason.as_str());
                Err(CompileError::no_file_info(ErrorKind::ConfigParse, msg, None))
            },
        }
    }

    /// Reads a configuration from its text with `read`, the reader of the
    /// structured text format, and turns what `read` reports into the
    /// library's error.
    pub fn from_toml_str<R>(text: &String, read: R) -> (res: Result<RawConfig, CompileError>)
        where R: FnOnce(&String) -> Result<RawConfig, TomlError>
        requires
            read.requires((text,)),
        ensures
            exists|outcome: Result<RawConfig, TomlError>| #[trigger]
                read.ensures((text,), outcome) && match outcome {
                    Ok(raw) => res == Ok::<RawConfig, CompileError>(raw),
                    Err(err) => res matches Err(fault) && fault@ == toml_fault(err),
                },
    {
        RawConfig::from_toml_outcome(read(text))
    }
}

/// The path of the configuration file: the one that is named, or else the
/// file of the usual name, below the root.
pub open spec fn config_file_path(root: Seq<char>, config_path: Option<Seq<char>>) -> Seq<char> {
    match config_path {
        Some(named) => path_joined(root, named),
        None => path_joined(root, CONFIG_FILE_NAME@),
    }
}

/// The message for a configuration file that is there and cannot be read.
pub open spec fn unreadable_text(filename: Seq<char>, reason: Seq<char>) -> Seq<char> {
    "unable to read "@ + filename + ": "@ + reason
}

/// The message for a configuration file that is named and is not there.
pub open spec fn missing_file_text(filename: Seq<char>) -> Seq<char> {
    "`"@ + filename + "` does not exist"@
}

/// The configuration text that comes of a look at the configuration file.
/// `found` is `None` where the file is not there, and else what reading it
/// gave: its text, or the reason why it could not be read. A file that is
/// there gives its text or the error of reading it. A file that is not there
/// is an error if it was named, and an empty configuration text if not.
pub open spec fn config_text_for(
    named: bool,
    filename: Seq<char>,
    span: Option<Span>,
    found: Option<Result<String, String>>,
) -> Result<Seq<char>, CompileErrorView> {
    match found {
        Some(Ok(text)) => Ok(text@),
        Some(Err(reason)) => Err(
            CompileErrorView {
                kind: ErrorKind::Io,
                msg: unreadable_text(filename, reason@),
                file: None,
                span,
            },
        ),
        None => if named {
            Err(
                CompileErrorView {
                    kind: ErrorKind::Io,
                    msg: missing_file_text(filename),
                    file: None,
                    span,
                },
            )
        } else {
            Ok(Seq::empty())
        },
    }
}

/// Whether `res` is the configuration text or the error that
/// `config_text_for` gives.
pub open spec fn is_config_text(
    res: Result<String, CompileError>,
    expected: Result<Seq<char>, CompileErrorView>,
) -> bool {
    match (res, expected) {
        (Ok(text), Ok(wanted)) => text@ == wanted,
        (Err(fault), Err(wanted)) => fault@ == wanted,
        _ => false,
    }
}

/// The configuration text that comes of a look at the configuration file
/// `filename`, which was named or not; see [`config_text_for`].
pub fn config_text(
    named: bool,
    filename: &str,
    span: Option<Span>,
    found: Option<Result<String, String>>,
) -> (res: Result<String, CompileError>)
    ensures
        is_config_text(res, config_text_for(named, filename@, span, found)),
{
    match found {
        Some(Ok(text)) => Ok(text),
        Some(Err(reason)) => {
            let mut msg = String::from_str("unable to read ");
            msg.append(filename);
            msg.append(": ");
            msg.append(reason.as_str());
            Err(CompileError::no_file_info(ErrorKind::Io, msg, span))
        },
        None => {
            if named {
                let mut msg = String::from_str("`");
                msg.append(filename);
                msg.append("` does not exist");
                Err(CompileError::no_file_info(ErrorKind::Io, msg, span))
            } else {
                let text = String::new();
                Ok(text)
            }
        },
    }
}

/// Reads the configuration text: from the file that is named, or else from
/// the file of the usual name, below `root`. `probe` says whether the file
/// is there; only if it is, `read` is called, and gives the text or the
/// reason why there is none.
pub fn read_config_file<P, R>(
    config_path: Option<&str>,
    span: Option<Span>,
    root: &str,
    probe: P,
    read: R,
) -> (res: Result<String, CompileError>)
    where P: FnOnce(&String) -> bool, R: FnOnce(&String) -> Result<String, String>
    requires
        forall|asked: &String| probe.requires((asked,)),
        forall|asked: &String| read.requires((asked,)),
    ensures
        ({
            let filename = config_file_path(
                root@,
                match config_path {
                    Some(named) => Some(named@),
                    None => None,
                },
            );
            exists|asked: &String, there: bool|
                asked@ == filename && #[trigger] probe.ensures((asked,), there) && if there {
                    exists|text: Result<String, String>| #[trigger]
                        read.ensures((asked,), text) && is_config_text(
                            res,
                            config_text_for(config_path is Some, filename, span, Some(text)),
                        )
                } else {
                    is_config_text(
                        res,
                        config_text_for(config_path is Some, filename, span, None),
                    )
                }
        }),
{
    let filename = match config_path {
        Some(named) => join_path(root, named),
        None => join_path(root, CONFIG_FILE_NAME),
    };
    let found = if probe(&filename) {
        Some(read(&filename))
    } else {
        None
    };
    config_text(config_path.is_some(), filename.as_str(), span, found)
}

} // verus!
