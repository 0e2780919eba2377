//! The cache of resolved configurations.
//!
//! A configuration is resolved once for each key. It then keeps its slot in
//! the cache for as long as the cache lives, and every later request for
//! the same key is answered with that slot.

use crate::config::{resolution_of, Config, ConfigKey, ConfigKeyView};
use crate::error::CompileError;
use crate::once_map::{distinct_keys, lemma_lookup_is_idempotent, slot_of, OnceMap};
use crate::raw::{RawConfig, TomlError};
use crate::syntax::Syntax;
use crate::syntax_cache::SyntaxAndCacheKeyView;
use proc_macro2::Span;
use std::sync::Arc;
use vstd::prelude::*;
use vstd::string::*;

verus! {

/// The configurations resolved so far.
#[derive(Debug)]
pub struct ConfigCache<T> {
    configs: OnceMap<ConfigKey, Config<T>>,
}

/// What resolving hands to the cache on a miss.
pub type Resolved<T> = Result<(ConfigKey, Config<T>), CompileError>;

/// The key for the three texts that a configuration is made from.
pub open spec fn key_view(
    source: &str,
    config_path: Option<&str>,
    template_whitespace: Option<&str>,
) -> ConfigKeyView {
    ConfigKeyView {
        source: source@,
        config_path: match config_path {
            Some(path) => Some(path@),
            None => None,
        },
        template_whitespace: match template_whitespace {
            Some(name) => Some(name@),
            None => None,
        },
    }
}

/// An owned copy of an optional string slice.
fn owned_optional(text: Option<&str>) -> (owned: Option<String>)
    ensures
        owned.deep_view() == (match text {
            Some(text) => Some(text@),
            None => None,
        }),
{
    match text {
        Some(text) => Some(String::from_str(text)),
        None => None,
    }
}

impl<T> ConfigCache<T> {
    /// The configurations in the order in which they were resolved, each
    /// with its key.
    pub closed spec fn configs(&self) -> Seq<(ConfigKeyView, Config<T>)> {
        self.configs@
    }

    /// The invariant of the cache: no key was resolved twice, and every
    /// configuration is well formed and holds the key it is stored under.
    pub open spec fn wf(&self) -> bool {
        &&& distinct_keys(self.configs())
        &&& forall|slot: int|
            0 <= slot < self.configs().len() ==> {
                &&& (#[trigger] self.configs()[slot]).1.wf()
                &&& self.configs()[slot].1@.key == self.configs()[slot].0
            }
    }

    /// An empty cache.
    pub fn new() -> (cache: Self)
        ensures
            cache.configs() == Seq::<(ConfigKeyView, Config<T>)>::empty(),
            cache.wf(),
    {
        ConfigCache { configs: OnceMap::new() }
    }

    /// The number of configurations resolved so far.
    pub fn len(&self) -> (len: usize)
        ensures
            len == self.configs().len(),
    {
        self.configs.len()
    }

    /// The configuration in a slot.
    pub fn get(&self, slot: usize) -> (config: &Config<T>)
        requires
            slot < self.configs().len(),
        ensures
            *config == self.configs()[slot as int].1,
    {
        self.configs.value(slot)
    }

    /// The slot of the configuration for the three texts, if it was
    /// resolved before.
    pub fn find(
        &self,
        source: &str,
        config_path: Option<&str>,
        template_whitespace: Option<&str>,
    ) -> (found: Option<usize>)
        requires
            self.wf(),
        ensures
            match found {
                Some(slot) => slot_of(
                    self.configs(),
                    key_view(source, config_path, template_whitespace),
                ) == Some(slot as int) && slot < self.configs().len(),
                None => slot_of(
                    self.configs(),
                    key_view(source, config_path, template_whitespace),
                ) is None,
            },
    {
        let key = ConfigKey {
            source: String::from_str(source),
            config_path: owned_optional(config_path),
            template_whitespace: owned_optional(template_whitespace),
        };
        self.configs.slot_of(&key)
    }

    /// The tree of a template under the syntax at `at` of the configuration
    /// in `slot`; see [`Config::parse`]. Nothing else in the cache changes.
    pub fn parse<E, F>(
        &mut self,
        slot: usize,
        at: usize,
        source: String,
        source_path: Option<String>,
        parser: F,
    ) -> (res: Result<Arc<T>, E>)
        where F: FnOnce(&String, &Option<String>, &Syntax) -> Result<T, E>
        requires
            old(self).wf(),
            slot < old(self).configs().len(),
            at < old(self).configs()[slot as int].1@.syntaxes.len(),
            slot_of(
                old(self).configs()[slot as int].1.parsed(at as int),
                SyntaxAndCacheKeyView { source: source@, source_path: source_path.deep_view() },
            ) is None ==> forall|syntax: &Syntax|
                syntax@ == old(self).configs()[slot as int].1@.syntaxes[at as int].1
                    ==> parser.requires((&source, &source_path, syntax)),
        ensures
            final(self).wf(),
            final(self).configs().len() == old(self).configs().len(),
            forall|other: int|
                0 <= other < old(self).configs().len() ==> {
                    &&& (#[trigger] final(self).configs()[other]).0 == old(self).configs()[other].0
                    &&& final(self).configs()[other].1@ == old(self).configs()[other].1@
                    &&& other != slot ==> final(self).configs()[other] == old(self).configs()[other]
                },
            ({
                let key = SyntaxAndCacheKeyView {
                    source: source@,
                    source_path: source_path.deep_view(),
                };
                let before = old(self).configs()[slot as int].1.parsed(at as int);
                let after = final(self).configs()[slot as int].1.parsed(at as int);
                match slot_of(before, key) {
                    Some(hit) => res == Ok::<Arc<T>, E>(before[hit].1) && after == before,
                    None => exists|syntax: &Syntax, outcome: Result<T, E>|
                        syntax@ == old(self).configs()[slot as int].1@.syntaxes[at as int].1
                            && #[trigger] parser.ensures((&source, &source_path, syntax), outcome)
                            && match outcome {
                            Ok(tree) => res matches Ok(shared) && *shared == tree && after
                                == before.push((key, shared)),
                            Err(err) => res == Err::<Arc<T>, E>(err) && after == before,
                        },
                }
            }),
    {
        let config = self.configs.value_mut(slot);
        config.parse(at, source, source_path, parser)
    }
}

impl<T> Default for ConfigCache<T> {
    fn default() -> (cache: Self)
        ensures
            cache.configs() == Seq::<(ConfigKeyView, Config<T>)>::empty(),
            cache.wf(),
    {
        ConfigCache::new()
    }
}

impl<T> Config<T> {
    /// The configuration for the three texts, by its slot in `cache`. If it
    /// was resolved before, that slot is returned and nothing is read or
    /// resolved. Else it is resolved as `new_uncached` says and stored in
    /// the next free slot; an error is handed on and nothing is stored, so
    /// that the next request resolves again.
    pub fn new<R>(
        cache: &mut ConfigCache<T>,
        source: &str,
        config_path: Option<&str>,
        template_whitespace: Option<&str>,
        config_span: Option<Span>,
        root: &str,
        read: R,
    ) -> (res: Result<usize, CompileError>)
        where R: FnOnce(&String) -> Result<RawConfig, TomlError>
        requires
            old(cache).wf(),
            slot_of(old(cache).configs(), key_view(source, config_path, template_whitespace))
                is None && source@.len() > 0 ==> forall|text: &String|
                text@ == source@ ==> read.requires((text,)),
        ensures
            final(cache).wf(),
            res matches Ok(found) ==> slot_of(
                final(cache).configs(),
                key_view(source, config_path, template_whitespace),
            ) == Some(found as int),
            ({
                let key = key_view(source, config_path, template_whitespace);
                let before = old(cache).configs();
                let after = final(cache).configs();
                match slot_of(before, key) {
                    Some(slot) => (res matches Ok(found) && found == slot) && after == before,
                    None => exists|built: Result<Config<T>, CompileError>|
                        {
                            &&& #[trigger] resolution_of(
                                built,
                                key,
                                config_span,
                                root@,
                                source@,
                                read,
                            )
                            &&& match built {
                                Ok(config) => (res matches Ok(found) && found == before.len())
                                    && after == before.push((key, config)),
                                Err(err) => (res matches Err(fault) && fault@ == err@) && after
                                    == before,
                            }
                        },
                }
            }),
    {
        let key = ConfigKey {
            source: String::from_str(source),
            config_path: owned_optional(config_path),
            template_whitespace: owned_optional(template_whitespace),
        };
        assert(key@ == key_view(source, config_path, template_whitespace));
        let compute = |key: &ConfigKey| -> (computed: Resolved<T>)
            requires
                key.source@.len() > 0 ==> read.requires((&key.source,)),
            ensures
                exists|built: Result<Config<T>, CompileError>|
                    {
                        &&& #[trigger] resolution_of(
                            built,
                            key@,
                            config_span,
                            root@,
                            key.source@,
                            read,
                        )
                        &&& match built {
                            Ok(config) => computed matches Ok(entry) && entry.0@ == key@ && entry.1
                                == config,
                            Err(err) => computed matches Err(fault) && fault == err,
                        }
                    },
            {
                let built = Config::new_uncached(key.to_owned(), config_span, root, read);
                match built {
                    Ok(config) => {
                        let owned = config.key().to_owned();
                        Ok((owned, config))
                    },
                    Err(err) => Err(err),
                }
            };
        let res = cache.configs.get_or_try_insert_slot(&key, compute);
        proof {
            let before = old(cache).configs();
            if slot_of(before, key@) is None {
                let computed = choose|computed: Resolved<T>| #[trigger]
                    compute.ensures((&key,), computed) && match computed {
                        Ok(entry) => {
                            &&& res matches Ok(found) && found == before.len()
                            &&& cache.configs() == before.push((entry.0@, entry.1))
                        },
                        Err(err) => res == Err::<usize, CompileError>(err) && cache.configs()
                            == before,
                    };
                let built = choose|built: Result<Config<T>, CompileError>|
                    {
                        &&& #[trigger] resolution_of(
                            built,
                            key@,
                            config_span,
                            root@,
                            key.source@,
                            read,
                        )
                        &&& match built {
                            Ok(config) => computed matches Ok(entry) && entry.0@ == key@ && entry.1
                                == config,
                            Err(err) => computed matches Err(fault) && fault == err,
                        }
                    };
                assert(resolution_of(built, key@, config_span, root@, source@, read));
            }
        }
        res
    }
}

/// Resolving is idempotent. Let a request for `key` have found the cache
/// as `before` and left it as `after`, with a configuration in hand: a hit,
/// which changes nothing, or a miss that stored `config`. Then `key` has a
/// slot in `after`, the one that the request gave, so that a second request
/// for the same three texts is a hit: it gives the same slot, resolves
/// nothing and leaves the cache as it is.
pub proof fn lemma_resolve_is_idempotent<T>(
    before: Seq<(ConfigKeyView, Config<T>)>,
    after: Seq<(ConfigKeyView, Config<T>)>,
    key: ConfigKeyView,
    config: Config<T>,
)
    requires
        distinct_keys(before),
        match slot_of(before, key) {
            Some(slot) => after == before,
            None => after == before.push((key, config)),
        },
    ensures
        distinct_keys(after),
        match slot_of(before, key) {
            Some(slot) => slot_of(after, key) == Some(slot),
            None => slot_of(after, key) == Some(before.len() as int) && after[before.len() as int].1
                == config,
        },
{
    lemma_lookup_is_idempotent(before, after, key, config);
}

} // verus!
