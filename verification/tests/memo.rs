use std::cell::Cell;
use std::sync::Arc;

use rinja_config::config::{Config, ConfigKey};
use rinja_config::error::CompileError;
use rinja_config::once_map::{CacheKey, OnceMap};
use rinja_config::raw::{RawConfig, TomlError};
use rinja_config::resolver::ConfigCache;
use rinja_config::syntax::Syntax;
use rinja_config::syntax_cache::{SyntaxAndCache, SyntaxAndCacheKey};

fn key(source: &str, path: Option<&str>) -> SyntaxAndCacheKey {
    SyntaxAndCacheKey {
        source: source.to_string(),
        source_path: path.map(String::from),
    }
}

fn own(key: &SyntaxAndCacheKey) -> SyntaxAndCacheKey {
    SyntaxAndCacheKey {
        source: key.source.clone(),
        source_path: key.source_path.clone(),
    }
}

#[test]
fn keys_are_compared_by_value() {
    assert!(key("a", None).same_key(&key("a", None)));
    assert!(key("a", Some("p")).same_key(&key("a", Some("p"))));
    assert!(!key("a", Some("p")).same_key(&key("a", None)));
    assert!(!key("a", Some("p")).same_key(&key("a", Some("q"))));
    assert!(!key("a", None).same_key(&key("b", None)));

    let config_key = ConfigKey {
        source: "text".to_string(),
        config_path: Some("rinja.toml".to_string()),
        template_whitespace: None,
    };
    let owned = config_key.to_owned();
    assert_eq!(owned, config_key);
    assert!(owned.same_key(&config_key));
    let mut other = config_key.to_owned();
    other.template_whitespace = Some("minimize".to_string());
    assert!(!other.same_key(&config_key));
    let mut other = config_key.to_owned();
    other.config_path = None;
    assert!(!other.same_key(&config_key));
}

#[test]
fn value_is_computed_once() {
    let calls = Cell::new(0);
    let mut map: OnceMap<SyntaxAndCacheKey, u32> = OnceMap::new();
    assert_eq!(map.len(), 0);

    let first: Result<u32, ()> = map.get_or_try_insert(
        &key("a", None),
        |k| {
            calls.set(calls.get() + 1);
            Ok((own(k), 7))
        },
        |v| *v + 1,
    );
    assert_eq!(first, Ok(8));
    assert_eq!(calls.get(), 1);
    assert_eq!(map.len(), 1);

    let second: Result<u32, ()> = map.get_or_try_insert(
        &key("a", None),
        |_| panic!("the value is there already"),
        |v| *v + 2,
    );
    assert_eq!(second, Ok(9));
    assert_eq!(map.len(), 1);
    assert_eq!(map.get(&key("a", None)), Some(&7));
    assert_eq!(map.get(&key("b", None)), None);
}

#[test]
fn failure_is_not_cached() {
    let mut map: OnceMap<SyntaxAndCacheKey, u32> = OnceMap::new();
    let failed: Result<usize, &str> = map.get_or_try_insert_slot(&key("a", None), |_| Err("not yet"));
    assert_eq!(failed, Err("not yet"));
    assert_eq!(map.len(), 0);
    assert_eq!(map.slot_of(&key("a", None)), None);

    let retried: Result<usize, &str> =
        map.get_or_try_insert_slot(&key("a", None), |k| Ok((own(k), 3)));
    assert_eq!(retried, Ok(0));
    assert_eq!(map.len(), 1);
    assert_eq!(*map.value(0), 3);
}

#[test]
fn slots_are_stable() {
    let mut map: OnceMap<SyntaxAndCacheKey, u32> = OnceMap::default();
    for (n, name) in ["a", "b", "c"].iter().enumerate() {
        let slot: Result<usize, ()> =
            map.get_or_try_insert_slot(&key(name, None), |k| Ok((own(k), n as u32 * 10)));
        assert_eq!(slot, Ok(n));
    }
    assert_eq!(map.slot_of(&key("a", None)), Some(0));
    assert_eq!(map.slot_of(&key("b", None)), Some(1));
    assert_eq!(map.slot_of(&key("c", None)), Some(2));
    assert_eq!(map.slot_of(&key("c", Some("p"))), None);
    let again: Result<usize, ()> =
        map.get_or_try_insert_slot(&key("b", None), |_| panic!("b is there already"));
    assert_eq!(again, Ok(1));
    *map.value_mut(1) += 1;
    assert_eq!(*map.value(1), 11);
    assert_eq!(*map.value(0), 0);
    assert_eq!(*map.value(2), 20);
}

#[test]
fn template_is_parsed_once() {
    let calls = Cell::new(0);
    let mut syntax: SyntaxAndCache<String> = SyntaxAndCache::default();
    assert_eq!(syntax.syntax(), &Syntax::default());
    assert_eq!(syntax.parsed_len(), 0);

    let first: Result<Arc<String>, ()> = syntax.parse(
        "{{ a }}".to_string(),
        Some("a.html".to_string()),
        |source, path, syntax| {
            calls.set(calls.get() + 1);
            assert_eq!(path.as_deref(), Some("a.html"));
            assert_eq!(syntax.expr_start, "{{");
            Ok(format!("tree of {source}"))
        },
    );
    let first = first.unwrap();
    assert_eq!(*first, "tree of {{ a }}");
    assert_eq!(calls.get(), 1);

    // Another copy of the same text at the same path is the same key.
    let copy = String::from("{{ a ") + "}}";
    let second: Result<Arc<String>, ()> = syntax.parse(
        copy,
        Some("a.html".to_string()),
        |_, _, _| panic!("parsed before"),
    );
    let second = second.unwrap();
    assert!(Arc::ptr_eq(&first, &second));
    assert_eq!(syntax.parsed_len(), 1);

    // The same text at another path, or at none, is another key.
    let third: Result<Arc<String>, ()> =
        syntax.parse("{{ a }}".to_string(), None, |_, _, _| Ok("other".to_string()));
    let third = third.unwrap();
    assert!(!Arc::ptr_eq(&first, &third));
    assert_eq!(*third, "other");
    assert_eq!(syntax.parsed_len(), 2);
}

#[test]
fn parse_error_is_not_cached() {
    let mut syntax: SyntaxAndCache<u8> = SyntaxAndCache::new(Syntax::default());
    let failed = syntax.parse("{{".to_string(), None, |_, _, _| Err("unclosed"));
    assert_eq!(failed, Err("unclosed"));
    assert_eq!(syntax.parsed_len(), 0);
    let parsed: Result<Arc<u8>, &str> = syntax.parse("{{".to_string(), None, |_, _, _| Ok(1));
    assert_eq!(parsed.map(|tree| *tree), Ok(1));
    assert_eq!(syntax.parsed_len(), 1);
}

fn never(_: &String) -> Result<RawConfig, TomlError> {
    panic!("nothing is to be read")
}

fn resolve(
    cache: &mut ConfigCache<String>,
    source: &str,
    config_path: Option<&str>,
    template_whitespace: Option<&str>,
    calls: &Cell<u32>,
) -> Result<usize, CompileError> {
    Config::new(
        cache,
        source,
        config_path,
        template_whitespace,
        None,
        "/project",
        |_: &String| {
            calls.set(calls.get() + 1);
            Ok(RawConfig::default())
        },
    )
}

#[test]
fn resolve_is_idempotent() {
    let calls = Cell::new(0);
    let mut cache: ConfigCache<String> = ConfigCache::default();
    assert_eq!(cache.len(), 0);
    assert_eq!(cache.find("# nothing", None, None), None);

    let first = resolve(&mut cache, "# nothing", None, None, &calls).unwrap();
    assert_eq!(calls.get(), 1);
    let text = String::from("# ") + "nothing";
    let second = Config::new(&mut cache, &text, None, None, None, "/elsewhere", never).unwrap();
    assert_eq!(first, second);
    assert_eq!(cache.len(), 1);
    assert_eq!(cache.find("# nothing", None, None), Some(first));
    assert_eq!(cache.get(first).key().source, "# nothing");
    assert_eq!(cache.get(first).dirs(), &vec!["/project/templates".to_string()]);
}

#[test]
fn identity_is_the_whole_key() {
    let calls = Cell::new(0);
    let mut cache: ConfigCache<String> = ConfigCache::new();
    let plain = resolve(&mut cache, "# nothing", None, None, &calls).unwrap();
    let with_path = resolve(&mut cache, "# nothing", Some("a.toml"), None, &calls).unwrap();
    let other_path = resolve(&mut cache, "# nothing", Some("b.toml"), None, &calls).unwrap();
    let with_whitespace =
        resolve(&mut cache, "# nothing", Some("a.toml"), Some("minimize"), &calls).unwrap();
    let empty = resolve(&mut cache, "", None, None, &calls).unwrap();
    assert_eq!(
        (plain, with_path, other_path, with_whitespace, empty),
        (0, 1, 2, 3, 4)
    );
    // The empty text is not read.
    assert_eq!(calls.get(), 4);
    assert_eq!(cache.len(), 5);
    assert_eq!(
        resolve(&mut cache, "# nothing", Some("a.toml"), None, &calls).unwrap(),
        with_path
    );
    assert_eq!(calls.get(), 4);
    assert_eq!(
        cache.get(with_path).key().config_path.as_deref(),
        Some("a.toml")
    );
}

#[test]
fn failed_resolution_is_retried() {
    let mut cache: ConfigCache<String> = ConfigCache::new();
    let failed = Config::new(&mut cache, "dirs =", None, None, None, "/project", |_: &String| {
        Err(TomlError::Invalid("expected a value".to_string()))
    });
    assert_eq!(
        failed.unwrap_err().msg,
        "invalid TOML in rinja.toml: expected a value"
    );
    assert_eq!(cache.len(), 0);
    let calls = Cell::new(0);
    let slot = resolve(&mut cache, "dirs =", None, None, &calls).unwrap();
    assert_eq!((slot, calls.get()), (0, 1));
}

#[test]
fn parse_through_the_cache() {
    let mut cache: ConfigCache<String> = ConfigCache::new();
    let slot = Config::new(&mut cache, "", None, None, None, "/project", never).unwrap();
    let at = cache.get(slot).syntax_index("default").unwrap();
    assert_eq!(at, 0);
    assert_eq!(cache.get(slot).syntax_index("other"), None);
    assert_eq!(cache.get(slot).syntax_count(), 1);

    let first: Result<Arc<String>, ()> = cache.parse(
        slot,
        at,
        "hello".to_string(),
        None,
        |source, _, syntax| Ok(format!("{}{source}{}", syntax.block_start, syntax.block_end)),
    );
    let first = first.unwrap();
    assert_eq!(*first, "{%hello%}");
    let second: Result<Arc<String>, ()> =
        cache.parse(slot, at, "hello".to_string(), None, |_, _, _| panic!("parsed before"));
    assert!(Arc::ptr_eq(&first, &second.unwrap()));
    assert_eq!(cache.get(slot).syntax("default").unwrap().parsed_len(), 1);
}
