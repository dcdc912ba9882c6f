//! Store operations from the call to the result, with the answers that Nix gives to the calls.
use nix_bindings::cache::{OpenAction, OpenEvent, StoreCache, StoreKey};
use nix_bindings::error::Error;
use nix_bindings::outputs::Outputs;
use nix_bindings::store::{report_path, FsClosureArgs, OpenCall, Store, StoreCall};

const STORE_DIR: &str = "/nix/store";
const DRV_HASH: &str = "1rz4g4znpzjwh1xymhjpm42vipw92pr7";
const OUT_HASH: &str = "rdd4pnr4x9rqc9wgbibhngv217w2xvxl";

/// Stands for a store that the C API gave: its URI.
#[derive(Debug)]
struct Handle(String);

type TestStore = Store<Handle>;

/// How Nix opens a store: without a URI it takes the daemon.
fn nix_store_open(call: &OpenCall) -> Result<Handle, String> {
    assert!(call.params.last().unwrap().is_none());
    Ok(Handle(match &call.uri {
        Some(uri) => text(uri.as_bytes_with_nul()).to_string(),
        None => "daemon".to_string(),
    }))
}

fn open(url: Option<&str>, params: &[(&str, &str)]) -> Result<TestStore, Error> {
    let mut cache = StoreCache::new();
    let key = StoreKey::new(url, params);
    let mut event = OpenEvent::Asked;
    loop {
        event = match TestStore::open(&mut cache, &key, event) {
            OpenAction::OpenUncached => OpenEvent::Opened(
                TestStore::open_uncached(Ok(()), &key)
                    .and_then(|call| TestStore::open_uncached_reply(nix_store_open(&call))),
            ),
            OpenAction::Return(result) => return result,
        };
    }
}

fn create_temp_store() -> TestStore {
    let params = [
        ("store", "/tmp/test/store"),
        ("state", "/tmp/test/state"),
        ("log", "/tmp/test/log"),
    ];
    open(Some("local"), &params).unwrap()
}

#[derive(Clone, Debug, PartialEq)]
struct Path {
    hash: String,
    name: String,
}

impl Path {
    fn new(hash: &str, name: &str) -> Path {
        Path {
            hash: hash.to_string(),
            name: name.to_string(),
        }
    }

    fn name(&self) -> &str {
        &self.name
    }
}

/// A derivation that Nix parsed: its name.
#[derive(Debug)]
struct Drv(String);

fn text(argument: &[u8]) -> &str {
    let (end, text) = argument.split_last().unwrap();
    assert_eq!(*end, 0);
    std::str::from_utf8(text).unwrap()
}

/// How Nix parses a store path: directory, hash of 32 characters, hyphen, name.
fn nix_parse_path(argument: &[u8]) -> Result<Path, String> {
    let path = text(argument);
    let base = path
        .strip_prefix(STORE_DIR)
        .and_then(|rest| rest.strip_prefix('/'))
        .ok_or(format!("path '{}' is not in the Nix store", path))?;
    Ok(Path::new(&base[..32], &base[33..]))
}

fn nix_real_path(call: StoreCall<Handle, &Path>) -> Result<String, String> {
    Ok(format!("{}/{}-{}", STORE_DIR, call.args.hash, call.args.name))
}

/// How Nix parses a derivation; of the whole it keeps the name.
fn nix_parse_derivation(argument: &[u8]) -> Result<Option<Drv>, String> {
    let json = text(argument);
    let (_, rest) = json
        .split_once("\"name\":\"")
        .ok_or("parse error".to_string())?;
    let (name, _) = rest.split_once('"').ok_or("parse error".to_string())?;
    Ok(Some(Drv(name.to_string())))
}

fn nix_add_derivation(call: StoreCall<Handle, &Drv>) -> Result<Option<Path>, String> {
    Ok(Some(Path::new(DRV_HASH, &format!("{}.drv", call.args.0))))
}

/// Builds the one output of a derivation and reports it.
fn nix_realise(call: StoreCall<Handle, &Path>, outputs: &mut Outputs<Path>) -> Result<(), String> {
    let name = call.args.name.strip_suffix(".drv").unwrap();
    outputs.report(b"out", Path::new(OUT_HASH, name));
    Ok(())
}

/// The closure in a store that holds one derivation and its output, neither of which refers to
/// the other: only derivers and outputs lead from one to the other.
fn nix_get_fs_closure(
    call: StoreCall<Handle, FsClosureArgs<&Path>>,
    paths: &mut Vec<Path>,
) -> Result<(), String> {
    let args = call.args;
    let is_drv = args.store_path.name.ends_with(".drv");
    let (to_outputs, to_derivers) = if args.flip_direction {
        (args.include_derivers, args.include_outputs)
    } else {
        (args.include_outputs, args.include_derivers)
    };
    report_path(paths, args.store_path.clone());
    if is_drv && to_outputs {
        let name = args.store_path.name.strip_suffix(".drv").unwrap();
        report_path(paths, Path::new(OUT_HASH, name));
    }
    if !is_drv && to_derivers {
        let name = format!("{}.drv", args.store_path.name);
        report_path(paths, Path::new(DRV_HASH, &name));
    }
    Ok(())
}

fn create_test_derivation_json() -> String {
    concat_json("myname", "echo $name foo > $out", "x86_64-linux")
}

fn concat_json(name: &str, script: &str, system: &str) -> String {
    format!(
        "{{\"args\":[\"-c\",\"{script}\"],\"builder\":\"/bin/sh\",\"env\":{{\"builder\":\"/bin/sh\",\
         \"name\":\"{name}\",\"out\":\"/1rz4g4znpzjwh1xymhjpm42vipw92pr73vdgl6xs1hycac8kf2n9\",\
         \"system\":\"{system}\"}},\"inputs\":{{\"drvs\":{{}},\"srcs\":[]}},\"name\":\"{name}\",\
         \"outputs\":{{\"out\":{{\"hashAlgo\":\"sha256\",\"method\":\"nar\"}}}},\
         \"system\":\"{system}\",\"version\":4}}"
    )
}

fn parse(store: &TestStore, json: &str) -> Result<Drv, Error> {
    let call = store.derivation_from_json(json)?;
    store.derivation_from_json_reply(nix_parse_derivation(call.args.as_bytes_with_nul()))
}

fn add(store: &TestStore, drv: &Drv) -> Result<Path, Error> {
    store.add_derivation_reply(nix_add_derivation(store.add_derivation(drv)))
}

fn build(store: &TestStore, path: &Path) -> Result<Outputs<Path>, Error> {
    let mut outputs = Outputs::new();
    let outcome = nix_realise(store.realise(path), &mut outputs);
    store.realise_reply(outcome, outputs)
}

fn closure(
    store: &TestStore,
    path: &Path,
    flip_direction: bool,
    include_outputs: bool,
    include_derivers: bool,
) -> Result<Vec<Path>, Error> {
    let mut paths = Vec::new();
    let call = store.get_fs_closure(path, flip_direction, include_outputs, include_derivers);
    let outcome = nix_get_fs_closure(call, &mut paths);
    store.get_fs_closure_reply(outcome, paths)
}

#[test]
fn get_uri() {
    let store = open(None, &[]).unwrap();
    let answer = Ok(store.get_uri().store.0.clone());
    let uri = store.get_uri_reply(Ok(()), answer).unwrap();
    assert!(!uri.is_empty());
    // must be ascii
    assert!(uri.is_ascii());
    assert_eq!(uri, "daemon");
}

#[test]
fn parse_store_path_ok() {
    let store = open(Some("dummy://"), &[]).unwrap();
    let store_dir = store
        .get_storedir_reply(Ok(()), Ok(STORE_DIR.to_string()))
        .unwrap();
    let store_path_string =
        format!("{store_dir}/rdd4pnr4x9rqc9wgbibhngv217w2xvxl-bash-interactive-5.2p26");
    let call = store.parse_store_path(store_path_string.as_str()).unwrap();
    let store_path = store
        .parse_store_path_reply(nix_parse_path(call.args.as_bytes_with_nul()))
        .unwrap();
    let answer = nix_real_path(store.real_path(&store_path));
    let real_store_path = store.real_path_reply(Ok(()), answer).unwrap();
    assert_eq!(store_path.name(), "bash-interactive-5.2p26");
    assert_eq!(real_store_path, store_path_string);
}

#[test]
fn derivation_from_json() {
    let store = create_temp_store();
    let drv = parse(&store, &create_test_derivation_json()).unwrap();
    assert_eq!(drv.0, "myname");
}

#[test]
fn add_derivation() {
    let store = create_temp_store();
    let drv = parse(&store, &create_test_derivation_json()).unwrap();
    let drv_path = add(&store, &drv).unwrap();

    // Verify we got a .drv path
    let name = drv_path.name();
    assert!(name.ends_with(".drv"));
}

#[test]
fn realise() {
    let store = create_temp_store();
    let drv = parse(&store, &create_test_derivation_json()).unwrap();
    let drv_path = add(&store, &drv).unwrap();

    // Build the derivation
    let outputs = build(&store, &drv_path).unwrap();

    // Verify we got the expected output
    let out_path = outputs.get("out").unwrap();
    assert_eq!(out_path.name(), "myname");
}

/// Builds a derivation that Nix says `answer` to, and gives the error.
fn failing_build(json: &str, answer: &str) -> String {
    let store = create_temp_store();
    let drv = parse(&store, json).unwrap();
    let drv_path = add(&store, &drv).unwrap();
    assert_eq!(*store.realise(&drv_path).args, drv_path);
    let outputs: Outputs<Path> = Outputs::new();
    match store.realise_reply(Err(answer.to_string()), outputs) {
        Ok(_) => panic!("Build should fail"),
        Err(e) => e.message(),
    }
}

#[test]
fn realise_invalid_system() {
    let err = failing_build(
        &concat_json("myname", "echo $name foo > $out", "bogus65-bogusos"),
        "Cannot build: required system or feature not available",
    );
    assert!(err.contains("required system or feature not available"));
}

#[test]
fn realise_builder_fails() {
    let err = failing_build(
        &concat_json("failing", "exit 1", "x86_64-linux"),
        "Cannot build: builder failed with exit code 1",
    );
    assert!(err.contains("builder failed with exit code 1"));
}

#[test]
fn realise_builder_no_output() {
    let err = failing_build(
        &concat_json("no-output", "true", "x86_64-linux"),
        "builder for 'no-output' failed to produce output path for output 'out'",
    );
    assert!(err.contains("failed to produce output path"));
}

/// A store with one derivation in it and its output.
fn built() -> (TestStore, Path, Path) {
    let store = create_temp_store();
    let drv = parse(&store, &create_test_derivation_json()).unwrap();
    let drv_path = add(&store, &drv).unwrap();
    let out_path = build(&store, &drv_path).unwrap().get("out").unwrap().clone();
    (store, drv_path, out_path)
}

#[test]
fn get_fs_closure_with_outputs() {
    let (store, drv_path, out_path) = built();

    // Get closure with include_outputs=true
    let closure = closure(&store, &drv_path, false, true, false).unwrap();

    // The closure should contain at least the derivation and its output
    assert!(closure.len() >= 2);
    assert!(closure.iter().any(|p| p.name() == out_path.name()));
}

#[test]
fn get_fs_closure_without_outputs() {
    let (store, drv_path, out_path) = built();

    // Get closure with include_outputs=false
    let closure = closure(&store, &drv_path, false, false, false).unwrap();
    assert!(!closure.iter().any(|p| p.name() == out_path.name()));
}

#[test]
fn get_fs_closure_flip_direction() {
    let (store, drv_path, out_path) = built();

    // Get closure with flip_direction=true (reverse dependencies)
    let closure = closure(&store, &drv_path, true, true, false).unwrap();
    assert!(!closure.iter().any(|p| p.name() == out_path.name()));
}

#[test]
fn get_fs_closure_include_derivers() {
    let (store, drv_path, out_path) = built();

    // Get closure of the output path with include_derivers=true
    let closure = closure(&store, &out_path, false, false, true).unwrap();
    assert!(closure.iter().any(|p| p.name() == drv_path.name()));
}
