use nix_bindings::cache::{OpenAction, OpenEvent, StoreCache, StoreKey};
use nix_bindings::ctext::NulError;
use nix_bindings::error::Error;
use nix_bindings::outputs::Outputs;
use nix_bindings::store::{report_path, OpenCall, Store, StoreCall};
use std::sync::Arc;

/// Stands for a store that the C API gave.
#[derive(Debug, PartialEq)]
struct Handle(u32);

type TestStore = Store<Handle>;

fn store(number: u32) -> TestStore {
    TestStore::open_uncached_reply(Ok(Handle(number))).unwrap()
}

/// What the C API says to a call for the URI of a store: each store has its own.
fn uri_of(call: StoreCall<Handle, ()>) -> Result<String, String> {
    Ok(format!("test://{}", call.store.0))
}

/// Opens a store as a program would. `calls` counts how often the C API is asked.
fn open(
    cache: &mut StoreCache<Handle>,
    key: &StoreKey,
    calls: &mut u32,
    given: Result<Handle, String>,
) -> Result<TestStore, Error> {
    let mut given = Some(given);
    let mut event = OpenEvent::Asked;
    loop {
        event = match TestStore::open(cache, key, event) {
            OpenAction::OpenUncached => {
                *calls += 1;
                OpenEvent::Opened(TestStore::open_uncached_reply(given.take().unwrap()))
            }
            OpenAction::Return(result) => return result,
        };
    }
}

fn bytes(call: &OpenCall) -> (Option<&[u8]>, Vec<Option<(&[u8], &[u8])>>) {
    (
        call.uri.as_ref().map(|u| u.as_bytes_with_nul()),
        call.params
            .iter()
            .map(|param| {
                param
                    .as_ref()
                    .map(|(k, v)| (k.as_bytes_with_nul(), v.as_bytes_with_nul()))
            })
            .collect(),
    )
}

#[test]
fn weak_ref() {
    let store = store(17);
    let uri = store
        .get_uri_reply(Ok(()), uri_of(store.get_uri()))
        .unwrap();
    let weak = store.weak_ref();
    let store2 = weak.upgrade().unwrap();
    assert_eq!(
        store2
            .get_uri_reply(Ok(()), uri_of(store2.get_uri()))
            .unwrap(),
        uri
    );
    assert!(Arc::ptr_eq(store.inner(), store2.inner()));
}

#[test]
fn weak_ref_gone() {
    let weak = {
        let store = store(1);
        store.weak_ref()
    };
    assert!(weak.upgrade().is_none());
    assert!(weak.upgrade().is_none());
}

#[test]
fn weak_refs_of_two_stores_are_apart() {
    let (one, two) = (store(1), store(2));
    let (weak_one, weak_two) = (one.weak_ref(), two.weak_ref());
    assert!(Arc::ptr_eq(weak_one.upgrade().unwrap().inner(), one.inner()));
    assert!(Arc::ptr_eq(weak_two.upgrade().unwrap().inner(), two.inner()));
}

#[test]
fn upgraded_store_keeps_itself_in_use() {
    let first = store(3);
    let weak = first.weak_ref();
    let second = weak.upgrade().unwrap();
    drop(first);
    assert_eq!(**weak.upgrade().unwrap().inner(), Handle(3));
    drop(second);
    assert!(weak.upgrade().is_none());
}

#[test]
fn store_from_a_shared_reference() {
    let shared = Arc::new(Handle(6));
    let store = TestStore::from_shared(Some(shared.clone())).unwrap();
    assert!(Arc::ptr_eq(store.inner(), &shared));
    assert!(TestStore::from_shared(None).is_none());
}

#[test]
fn clone_shares_the_store() {
    let first = store(4);
    let second = first.clone();
    assert!(Arc::ptr_eq(first.inner(), second.inner()));
    let weak = first.weak_ref();
    drop(first);
    assert_eq!(**weak.upgrade().unwrap().inner(), Handle(4));
    drop(second);
    assert!(weak.upgrade().is_none());
}

#[test]
fn uncached_stores_are_apart() {
    let (one, two) = (store(1), store(2));
    assert_eq!(**one.inner(), Handle(1));
    assert_eq!(**two.inner(), Handle(2));
    assert_eq!(Arc::strong_count(one.inner()), 1);
    assert_eq!(Arc::strong_count(two.inner()), 1);
}

#[test]
fn inner_is_stable() {
    let store = store(4);
    assert!(Arc::ptr_eq(store.inner(), store.inner()));
    assert_eq!(**store.inner(), Handle(4));
}

#[test]
fn cache_keeps_no_store_in_use() {
    let mut cache = StoreCache::new();
    let key = StoreKey::new(Some("auto"), &[]);
    let mut calls = 0;
    let store = open(&mut cache, &key, &mut calls, Ok(Handle(1))).unwrap();
    assert_eq!(Arc::strong_count(store.inner()), 1);
    let shared = open(&mut cache, &key, &mut calls, Ok(Handle(2))).unwrap();
    assert_eq!(Arc::strong_count(store.inner()), 2);
    assert!(Arc::ptr_eq(store.inner(), shared.inner()));
    assert_eq!(calls, 1);
}

#[test]
fn found_store_decides_a_step() {
    let mut cache = StoreCache::new();
    let key = StoreKey::new(None, &[]);
    let one = store(1);
    match TestStore::open_found(&mut cache, &key, Some(one.clone()), OpenEvent::Asked) {
        OpenAction::Return(Ok(s)) => assert!(Arc::ptr_eq(s.inner(), one.inner())),
        _ => panic!("expected the store"),
    }
    assert!(matches!(
        TestStore::open_found(&mut cache, &key, None, OpenEvent::Asked),
        OpenAction::OpenUncached
    ));
    assert!(cache.follow(&key).is_none());
    match TestStore::open_found(&mut cache, &key, None, OpenEvent::Opened(Ok(one.clone()))) {
        OpenAction::Return(Ok(s)) => assert!(Arc::ptr_eq(s.inner(), one.inner())),
        _ => panic!("expected the store"),
    }
    assert!(Arc::ptr_eq(cache.follow(&key).unwrap().inner(), one.inner()));
}

#[test]
fn open_asks_once_and_shares() {
    let mut cache = StoreCache::new();
    let key = StoreKey::new(Some("local"), &[("store", "/s"), ("log", "/l")]);
    let mut calls = 0;
    let first = open(&mut cache, &key, &mut calls, Ok(Handle(1))).unwrap();
    let same = StoreKey::new(Some("local"), &[("store", "/s"), ("log", "/l")]);
    let second = open(&mut cache, &same, &mut calls, Ok(Handle(2))).unwrap();
    assert_eq!(calls, 1);
    assert!(Arc::ptr_eq(first.inner(), second.inner()));
}

#[test]
fn open_again_when_gone() {
    let mut cache = StoreCache::new();
    let key = StoreKey::new(None, &[]);
    let mut calls = 0;
    drop(open(&mut cache, &key, &mut calls, Ok(Handle(1))).unwrap());
    let second = open(&mut cache, &key, &mut calls, Ok(Handle(2))).unwrap();
    assert_eq!(calls, 2);
    assert_eq!(**second.inner(), Handle(2));
    let third = open(&mut cache, &key, &mut calls, Ok(Handle(3))).unwrap();
    assert_eq!(calls, 2);
    assert_eq!(**third.inner(), Handle(2));
}

#[test]
fn failed_open_is_not_cached() {
    let mut cache = StoreCache::new();
    let key = StoreKey::new(Some("invalid://uri"), &[]);
    let mut calls = 0;
    let r = open(
        &mut cache,
        &key,
        &mut calls,
        Err("don't know how to open Nix store 'invalid://uri'".to_string()),
    );
    assert_eq!(
        r.unwrap_err().message(),
        "don't know how to open Nix store 'invalid://uri'"
    );
    assert!(cache.get(&key).is_none());
    open(&mut cache, &key, &mut calls, Ok(Handle(5))).unwrap();
    assert_eq!(calls, 2);
    assert!(cache.get(&key).is_some());
}

#[test]
fn failed_reopen_keeps_the_dead_entry() {
    let mut cache = StoreCache::new();
    let key = StoreKey::new(None, &[]);
    let mut calls = 0;
    drop(open(&mut cache, &key, &mut calls, Ok(Handle(1))).unwrap());
    assert!(open(&mut cache, &key, &mut calls, Err("down".to_string())).is_err());
    assert!(cache.get(&key).unwrap().upgrade().is_none());
    assert!(cache.follow(&key).is_none());
}

#[test]
fn different_keys_open_different_stores() {
    let mut cache = StoreCache::new();
    let keys = [
        StoreKey::new(None, &[]),
        StoreKey::new(Some(""), &[]),
        StoreKey::new(Some("local"), &[]),
        StoreKey::new(Some("local"), &[("a", "1"), ("b", "2")]),
        StoreKey::new(Some("local"), &[("b", "2"), ("a", "1")]),
        StoreKey::new(Some("local"), &[("a", "1")]),
        StoreKey::new(Some("local"), &[("a", "2")]),
    ];
    let mut calls = 0;
    let mut stores: Vec<TestStore> = Vec::new();
    for key in &keys {
        let number = calls;
        stores.push(open(&mut cache, key, &mut calls, Ok(Handle(number))).unwrap());
    }
    assert_eq!(calls, 7);
    for (number, key) in keys.iter().enumerate() {
        let again = open(&mut cache, key, &mut calls, Ok(Handle(99))).unwrap();
        assert_eq!(**again.inner(), Handle(number as u32));
    }
    assert_eq!(calls, 7);
}

#[test]
fn key_gives_back_what_it_was_made_of() {
    let key = StoreKey::new(Some("u"), &[("k", "v")]);
    assert_eq!(key.url(), Some("u"));
    assert_eq!(key.params(), &[("k".to_string(), "v".to_string())]);
    assert!(key.same_as(&StoreKey::new(Some("u"), &[("k", "v")])));
    assert!(!key.same_as(&StoreKey::new(Some("u"), &[("k", "w")])));
    assert!(StoreKey::new(None, &[]).url().is_none());
}

#[test]
fn open_call_carries_url_and_params() {
    let key = StoreKey::new(Some("local"), &[("store", "/s"), ("log", "")]);
    let call = TestStore::open_uncached(Ok(()), &key).unwrap();
    let (uri, params) = bytes(&call);
    assert_eq!(uri, Some(&b"local\0"[..]));
    assert_eq!(
        params,
        vec![
            Some((&b"store\0"[..], &b"/s\0"[..])),
            Some((&b"log\0"[..], &b"\0"[..])),
            None
        ]
    );
    let key = StoreKey::new(None, &[("a", "1"), ("b", "2")]);
    let call = TestStore::open_uncached(Ok(()), &key).unwrap();
    assert_eq!(
        bytes(&call),
        (
            None,
            vec![
                Some((&b"a\0"[..], &b"1\0"[..])),
                Some((&b"b\0"[..], &b"2\0"[..])),
                None
            ]
        )
    );
    let call = TestStore::open_uncached(Ok(()), &StoreKey::new(None, &[])).unwrap();
    assert_eq!(bytes(&call), (None, vec![None]));
}

fn nul_position(r: Result<OpenCall, Error>) -> usize {
    match r {
        Err(Error::Nul(NulError { position })) => position,
        _ => panic!("expected a NUL error"),
    }
}

#[test]
fn open_uncached_reports_the_first_problem() {
    let bad = StoreKey::new(Some("a\0"), &[("bb\0", "ccc\0")]);
    match TestStore::open_uncached(Err("no home".to_string()), &bad) {
        Err(e) => assert_eq!(e.message(), "nix_libstore_init error: no home"),
        _ => panic!("expected the initialisation error"),
    }
    assert_eq!(nul_position(TestStore::open_uncached(Ok(()), &bad)), 1);
    let bad = StoreKey::new(None, &[("ok", "ok"), ("bb\0", "ccc\0")]);
    assert_eq!(nul_position(TestStore::open_uncached(Ok(()), &bad)), 2);
    let bad = StoreKey::new(Some("a"), &[("bb", "ccc\0"), ("\0", "")]);
    assert_eq!(nul_position(TestStore::open_uncached(Ok(()), &bad)), 3);
}

#[test]
fn text_replies() {
    let s = store(1);
    let set = || Ok("/nix/store".to_string());
    let unset = || Err("String was not set by Nix C API".to_string());
    assert_eq!(s.get_storedir_reply(Ok(()), set()).unwrap(), "/nix/store");
    assert_eq!(
        s.get_storedir_reply(Ok(()), unset()).unwrap_err().message(),
        "String was not set by Nix C API"
    );
    let down = || Err("daemon is down".to_string());
    assert_eq!(s.get_uri_reply(down(), set()).unwrap_err().message(), "daemon is down");
    assert_eq!(s.get_storedir_reply(down(), unset()).unwrap_err().message(), "daemon is down");
    assert_eq!(s.real_path_reply(down(), set()).unwrap_err().message(), "daemon is down");
    assert_eq!(s.real_path_reply(Ok(()), set()).unwrap(), "/nix/store");
}

#[test]
fn path_and_json_arguments() {
    let s = store(1);
    assert_eq!(
        s.parse_store_path("bash-interactive-5.2p26")
            .unwrap()
            .args
            .as_bytes_with_nul(),
        b"bash-interactive-5.2p26\0"
    );
    assert_eq!(
        s.derivation_from_json("{}").unwrap().args.as_bytes_with_nul(),
        b"{}\0"
    );
    assert_eq!(
        s.parse_store_path("x\0").unwrap_err().message(),
        "nul byte found in provided data at position: 1"
    );
    assert_eq!(
        s.derivation_from_json("\0{}").unwrap_err().message(),
        "nul byte found in provided data at position: 0"
    );
}

#[test]
fn pointer_replies() {
    let s = store(1);
    assert_eq!(s.parse_store_path_reply(Ok(5u8)).unwrap(), 5);
    assert_eq!(
        s.parse_store_path_reply::<u8>(Err("path 'bash-interactive-5.2p26' is not in the Nix store".to_string()))
            .unwrap_err()
            .message(),
        "path 'bash-interactive-5.2p26' is not in the Nix store"
    );
    assert_eq!(s.derivation_from_json_reply(Ok(Some(5u8))).unwrap(), 5);
    assert_eq!(
        s.derivation_from_json_reply::<u8>(Ok(None)).unwrap_err().message(),
        "derivation_from_json returned null"
    );
    assert_eq!(
        s.derivation_from_json_reply::<u8>(Err("bad json".to_string())).unwrap_err().message(),
        "bad json"
    );
    assert_eq!(s.add_derivation_reply(Ok(Some(6u8))).unwrap(), 6);
    assert_eq!(
        s.add_derivation_reply::<u8>(Ok(None)).unwrap_err().message(),
        "add_derivation returned null"
    );
    assert_eq!(
        s.add_derivation_reply::<u8>(Err("read-only".to_string())).unwrap_err().message(),
        "read-only"
    );
}

#[test]
fn realise_multi_output_ordering() {
    let mut outputs = Outputs::new();
    let reported = [
        "outd", "outf", "outg", "outb", "outc", "outi", "outj", "outh", "outa", "oute",
    ];
    for name in reported {
        outputs.report(name.as_bytes(), format!("path of {}", name));
    }
    let outputs = store(1).realise_reply(Ok(()), outputs).unwrap();

    assert_eq!(outputs.get("outa").unwrap(), "path of outa");
    let entries = outputs.into_entries();
    let output_names: Vec<&String> = entries.iter().map(|(name, _)| name).collect();
    let expected_order = vec![
        "outa", "outb", "outc", "outd", "oute", "outf", "outg", "outh", "outi", "outj",
    ];
    assert_eq!(output_names, expected_order);
}

#[test]
fn failed_build_gives_no_outputs() {
    let mut outputs = Outputs::new();
    outputs.report(b"out", 1u8);
    let r = store(1).realise_reply(
        Err("builder failed with exit code 1".to_string()),
        outputs,
    );
    assert_eq!(
        r.unwrap_err().message(),
        "builder failed with exit code 1"
    );
}

#[test]
fn closure_keeps_what_was_reported() {
    let s = store(1);
    let mut paths: Vec<u8> = Vec::new();
    report_path(&mut paths, 3);
    report_path(&mut paths, 1);
    report_path(&mut paths, 2);
    assert_eq!(s.get_fs_closure_reply(Ok(()), paths).unwrap(), vec![3, 1, 2]);
    assert_eq!(
        s.get_fs_closure_reply(Err("gone".to_string()), vec![3u8]).unwrap_err().message(),
        "gone"
    );
}

/// Opens a store in an empty cache and gives back the arguments that the C API got to see.
fn open_fresh(
    url: Option<&str>,
    given: Result<Handle, String>,
) -> (OpenCall, Result<TestStore, Error>) {
    let key = StoreKey::new(url, &[]);
    let call = TestStore::open_uncached(Ok(()), &key).unwrap();
    let mut calls = 0;
    let result = open(&mut StoreCache::new(), &key, &mut calls, given);
    assert_eq!(calls, 1);
    (call, result)
}

#[test]
fn none_works() {
    let (call, res) = open_fresh(None, Ok(Handle(1)));
    assert_eq!(bytes(&call), (None, vec![None]));
    res.unwrap();
}

#[test]
fn auto_works() {
    let (call, res) = open_fresh(Some("auto"), Ok(Handle(1)));
    assert_eq!(bytes(&call), (Some(&b"auto\0"[..]), vec![None]));
    res.unwrap();
}

#[test]
fn invalid_uri_fails() {
    let (call, res) = open_fresh(
        Some("invalid://uri"),
        Err("don't know how to open Nix store 'invalid://uri'".to_string()),
    );
    assert_eq!(bytes(&call), (Some(&b"invalid://uri\0"[..]), vec![None]));
    assert!(res.is_err());
}

#[test]
fn parse_store_path_fail() {
    let store = store(1);
    let store_path_string = "bash-interactive-5.2p26".to_string();
    let argument = store.parse_store_path(store_path_string.as_str()).unwrap().args;
    assert_eq!(argument.as_bytes_with_nul(), b"bash-interactive-5.2p26\0");
    let r: Result<u8, Error> = store.parse_store_path_reply(Err(
        "error: path 'bash-interactive-5.2p26' is not in the Nix store".to_string(),
    ));
    match r {
        Err(e) => {
            assert!(e.message().contains("bash-interactive-5.2p26"));
        }
        _ => panic!("Expected error"),
    }
}

#[test]
fn derivation_from_invalid_json() {
    let store = store(1);
    let argument = store.derivation_from_json("not valid json").unwrap().args;
    assert_eq!(argument.as_bytes_with_nul(), b"not valid json\0");
    let result: Result<u8, Error> =
        store.derivation_from_json_reply(Err("error: parse error at line 1".to_string()));
    assert!(result.is_err());
}

#[test]
fn calls_are_made_on_the_store() {
    let s = store(8);
    assert_eq!(*s.get_uri().store, Handle(8));
    assert_eq!(*s.get_storedir().store, Handle(8));
    assert_eq!(*s.parse_store_path("p").unwrap().store, Handle(8));
    assert_eq!(*s.derivation_from_json("{}").unwrap().store, Handle(8));
    let call = s.real_path("p");
    assert_eq!((call.store, call.args), (&Handle(8), "p"));
    let call = s.add_derivation("d");
    assert_eq!((call.store, call.args), (&Handle(8), "d"));
    let call = s.realise("p");
    assert_eq!((call.store, call.args), (&Handle(8), "p"));
    let call = s.get_fs_closure("p", true, false, true);
    assert_eq!((call.store, call.args.store_path), (&Handle(8), "p"));
    assert!(call.args.flip_direction);
    assert!(!call.args.include_outputs);
    assert!(call.args.include_derivers);
}
