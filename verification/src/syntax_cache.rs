//! A syntax together with the templates that were parsed under it.
//!
//! A template is parsed at most once for each pair of source text and
//! source path; every later request gets the tree that the first one built.

use crate::once_map::{distinct_keys, lemma_lookup_is_idempotent, slot_of, CacheKey, OnceMap};
use crate::syntax::{Syntax, SyntaxView};
use crate::text::{clone_optional_text, same_optional_text, same_text};
use std::sync::Arc;
use vstd::prelude::*;

verus! {

/// What identifies a parsed template: its source text, and the path it was
/// read from if it came from a file.
#[derive(Clone, Debug, PartialEq, Eq, Hash)]
pub struct SyntaxAndCacheKey {
    pub source: String,
    pub source_path: Option<String>,
}

/// A key as text.
pub struct SyntaxAndCacheKeyView {
    pub source: Seq<char>,
    pub source_path: Option<Seq<char>>,
}

impl View for SyntaxAndCacheKey {
    type V = SyntaxAndCacheKeyView;

    open spec fn view(&self) -> SyntaxAndCacheKeyView {
        SyntaxAndCacheKeyView {
            source: self.source@,
            source_path: self.source_path.deep_view(),
        }
    }
}

impl CacheKey for SyntaxAndCacheKey {
    fn same_key(&self, other: &Self) -> (same: bool) {
        same_text(&self.source, &other.source) && same_optional_text(
            &self.source_path,
            &other.source_path,
        )
    }
}

/// `Arc::clone`: another handle to the value that `shared` points to.
#[verifier::external_body]
pub(crate) fn share<T>(shared: &Arc<T>) -> (handle: Arc<T>)
    ensures
        handle == *shared,
{
    Arc::clone(shared)
}

/// What parsing on a miss hands to the cache: the key to store under and
/// the shared tree, or the parser's error.
pub type Computed<T, E> = Result<(SyntaxAndCacheKey, Arc<T>), E>;

/// A syntax and the cache of what was parsed under it.
#[derive(Debug)]
pub struct SyntaxAndCache<T> {
    syntax: Syntax,
    cache: OnceMap<SyntaxAndCacheKey, Arc<T>>,
}

impl<T> SyntaxAndCache<T> {
    /// The delimiters, as text.
    pub closed spec fn delimiters(&self) -> SyntaxView {
        self.syntax@
    }

    /// The templates parsed so far, in the order in which they were
    /// parsed, each with its key.
    pub closed spec fn parsed(&self) -> Seq<(SyntaxAndCacheKeyView, Arc<T>)> {
        self.cache@
    }

    /// The invariant of the cache: no key was parsed twice.
    pub open spec fn wf(&self) -> bool {
        distinct_keys(self.parsed())
    }

    /// A syntax under which nothing has been parsed yet.
    pub fn new(syntax: Syntax) -> (fresh: Self)
        ensures
            fresh.delimiters() == syntax@,
            fresh.parsed() == Seq::<(SyntaxAndCacheKeyView, Arc<T>)>::empty(),
            fresh.wf(),
    {
        SyntaxAndCache { syntax, cache: OnceMap::new() }
    }

    /// The delimiters.
    pub fn syntax(&self) -> (syntax: &Syntax)
        ensures
            syntax@ == self.delimiters(),
    {
        &self.syntax
    }

    /// The number of templates parsed so far.
    pub fn parsed_len(&self) -> (len: usize)
        ensures
            len == self.parsed().len(),
    {
        self.cache.len()
    }

    /// The tree for `source` at `source_path`. If that pair was parsed
    /// before, the tree built then is returned and `parser` is not called.
    /// Else `parser` is called once with the source, the path and the
    /// syntax; its tree is stored and returned, its error is handed on and
    /// nothing is stored.
    pub fn parse<E, F>(&mut self, source: String, source_path: Option<String>, parser: F) -> (res:
        Result<Arc<T>, E>)
        where F: FnOnce(&String, &Option<String>, &Syntax) -> Result<T, E>
        requires
            old(self).wf(),
            slot_of(
                old(self).parsed(),
                SyntaxAndCacheKeyView { source: source@, source_path: source_path.deep_view() },
            ) is None ==> forall|syntax: &Syntax|
                syntax@ == old(self).delimiters() ==> parser.requires(
                    (&source, &source_path, syntax),
                ),
        ensures
            final(self).wf(),
            final(self).delimiters() == old(self).delimiters(),
            res is Ok ==> slot_of(
                final(self).parsed(),
                SyntaxAndCacheKeyView { source: source@, source_path: source_path.deep_view() },
            ) is Some,
            ({
                let key = SyntaxAndCacheKeyView {
                    source: source@,
                    source_path: source_path.deep_view(),
                };
                match slot_of(old(self).parsed(), key) {
                    Some(slot) => {
                        &&& res == Ok::<Arc<T>, E>(old(self).parsed()[slot].1)
                        &&& final(self).parsed() == old(self).parsed()
                    },
                    None => exists|syntax: &Syntax, outcome: Result<T, E>|
                        syntax@ == old(self).delimiters() && #[trigger] parser.ensures(
                            (&source, &source_path, syntax),
                            outcome,
                        ) && match outcome {
                            Ok(tree) => {
                                res matches Ok(shared) && *shared == tree
                                    && final(self).parsed() == old(self).parsed().push(
                                    (key, shared),
                                )
                            },
                            Err(err) => {
                                &&& res == Err::<Arc<T>, E>(err)
                                &&& final(self).parsed() == old(self).parsed()
                            },
                        },
                }
            }),
    {
        let key = SyntaxAndCacheKey { source, source_path };
        let syntax = &self.syntax;
        let compute = |key: &SyntaxAndCacheKey| -> (computed: Computed<T, E>)
            requires
                parser.requires((&key.source, &key.source_path, syntax)),
            ensures
                exists|outcome: Result<T, E>| #[trigger]
                    parser.ensures((&key.source, &key.source_path, syntax), outcome)
                        && match outcome {
                        Ok(tree) => computed matches Ok(entry) && entry.0@ == key@ && *entry.1
                            == tree,
                        Err(err) => computed == Err::<(SyntaxAndCacheKey, Arc<T>), E>(err),
                    },
            {
                match parser(&key.source, &key.source_path, syntax) {
                    Ok(tree) => {
                        let owned = SyntaxAndCacheKey {
                            source: key.source.clone(),
                            source_path: clone_optional_text(&key.source_path),
                        };
                        Ok((owned, Arc::new(tree)))
                    },
                    Err(err) => Err(err),
                }
            };
        let adapt = |shared: &Arc<T>| -> (handle: Arc<T>)
            ensures
                handle == *shared,
            { share(shared) };
        proof {
            if slot_of(self.parsed(), key@) is None {
                assert(syntax@ == self.delimiters());
                assert(parser.requires((&key.source, &key.source_path, syntax)));
            }
        }
        self.cache.get_or_try_insert(&key, compute, adapt)
    }
}

impl<T> Default for SyntaxAndCache<T> {
    /// The built-in syntax, with nothing parsed under it.
    fn default() -> (fresh: Self)
        ensures
            fresh.delimiters() == SyntaxView::builtin(),
            fresh.parsed() == Seq::<(SyntaxAndCacheKeyView, Arc<T>)>::empty(),
            fresh.wf(),
    {
        SyntaxAndCache::new(Syntax::default())
    }
}

/// A template is parsed once. Let a request for `key` have found the
/// cache as `before` and left it as `after`, with a tree in hand: a hit,
/// which changes nothing, or a miss that stored `tree`. Then `key` has a
/// slot in `after` and the tree that the request gave stands in it, so that
/// a second request for the same source and path is a hit: the parser is
/// not called again, and the same shared tree is returned.
pub proof fn lemma_parse_is_memoised<T>(
    before: Seq<(SyntaxAndCacheKeyView, Arc<T>)>,
    after: Seq<(SyntaxAndCacheKeyView, Arc<T>)>,
    key: SyntaxAndCacheKeyView,
    tree: Arc<T>,
)
    requires
        distinct_keys(before),
        match slot_of(before, key) {
            Some(slot) => after == before,
            None => after == before.push((key, tree)),
        },
    ensures
        distinct_keys(after),
        match slot_of(before, key) {
            Some(slot) => slot_of(after, key) == Some(slot) && after[slot].1 == before[slot].1,
            None => slot_of(after, key) == Some(before.len() as int) && after[before.len() as int].1
                == tree,
        },
{
    lemma_lookup_is_idempotent(before, after, key, tree);
}

} // verus!
