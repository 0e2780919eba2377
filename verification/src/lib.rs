//! Configuration resolution and parse memoisation for a compile-time
//! template compiler.
//!
//! A configuration is resolved from its text once and then kept: the
//! directories in which templates are searched, the named syntaxes, the
//! whitespace policy and the escapers. Templates are located in those
//! directories and parsed at most once under each syntax.
//!
//! - [`once_map`]: the map that computes a value at most once.
//! - [`syntax`]: sets of delimiters and the rules they keep.
//! - [`syntax_cache`]: a syntax with the templates parsed under it.
//! - [`raw`]: the configuration as written, and the configuration file.
//! - [`config`]: the resolved configuration and how it comes of the raw one.
//! - [`resolver`]: the cache of resolved configurations.
//! - [`locator`]: the search for the file of a template.
//! - [`html`] and [`scenario`]: the HTML escaper and its round trips.
//! - [`error`], [`paths`], [`text`], [`whitespace`]: what the others share.
//!
//! The library reads no file and no environment. What is outside comes in as
//! an argument: the root of the project, the reader of the configuration
//! text, the probe of the file system and the parser of templates.

pub mod config;
pub mod error;
pub mod html;
pub mod locator;
pub mod once_map;
pub mod paths;
pub mod raw;
pub mod resolver;
pub mod scenario;
pub mod syntax;
pub mod syntax_cache;
pub mod text;
pub mod whitespace;
