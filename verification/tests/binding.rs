use std::cell::RefCell;

use flow_rt::binding::{
    attach_libraries, finish_plugin_reload, get_lib_files_in_dir, impl_request_plugin_reload,
    AttachedPlugin, DirectoryEntry, DirectoryListing, PluginDescription, PluginError,
    PluginRegistry,
};
use flow_rt::pipelines::{
    DispatchError, NativeFnContext, NativeFnMetaInfo, NativeFnRegistry, RegisteredFn,
};
use serde_json::Value;

type Handler = fn(NativeFnContext) -> Result<(), DispatchError>;

fn fetch(_ctx: NativeFnContext) -> Result<(), DispatchError> {
    Ok(())
}

fn scan(_ctx: NativeFnContext) -> Result<(), DispatchError> {
    Err(DispatchError::HandlerFailure("scan".to_owned()))
}

fn function(name: &str, handler: Handler) -> RegisteredFn<Handler> {
    RegisteredFn {
        name: name.to_owned(),
        info: NativeFnMetaInfo { handler, schema: Value::String(format!("schema of {name}")) },
    }
}

fn plugin(name: &str, hash: &str, functions: Vec<RegisteredFn<Handler>>) -> AttachedPlugin<Handler> {
    AttachedPlugin {
        name: name.to_owned(),
        description: format!("{name} for tests"),
        cargo_version: "0.1.0".to_owned(),
        functions,
        location: format!("/modules/lib{name}.so"),
        blake3_hash: hash.to_owned(),
    }
}

fn entry(path: &str, is_file: bool) -> DirectoryEntry {
    let file_name = path.rsplit('/').next().unwrap().to_owned();
    DirectoryEntry { path: path.to_owned(), file_name, is_file }
}

fn call(dispatch: &NativeFnRegistry<Handler>, name: &str) -> Result<(), DispatchError> {
    dispatch.invoke(NativeFnContext { name: name.to_owned(), context: Value::Null })
}

#[test]
fn discovery_keeps_regular_files_with_a_module_suffix() {
    let listing = DirectoryListing::Entries(vec![
        entry("/m/libhttp.so", true),
        entry("/m/readme.txt", true),
        entry("/m/nested.so", false),
        entry("/m/scan.dll", true),
        entry("/m/mac.dylib", true),
        entry("/m/.so", true),
        entry("/m/so", true),
        entry("/m/archive.so.bak", true),
        entry("/m/upper.SO", true),
        entry("/m/two.tar.so", true),
        entry("/m/a.dll.", true),
    ]);
    let found = get_lib_files_in_dir(listing).unwrap();
    assert_eq!(found, vec!["/m/libhttp.so", "/m/scan.dll", "/m/mac.dylib", "/m/two.tar.so"]);
}

#[test]
fn discovery_fails_only_for_the_directory_itself() {
    match get_lib_files_in_dir(DirectoryListing::NotADirectory("\"/no/modules\"".to_owned())) {
        Err(PluginError::DirectoryUnavailable(reason)) => {
            assert_eq!(reason, "\"/no/modules\" is not a valid directory")
        }
        other => panic!("{other:?}"),
    }
    match get_lib_files_in_dir(DirectoryListing::Unreadable("permission denied".to_owned())) {
        Err(PluginError::DirectoryUnavailable(reason)) => assert_eq!(reason, "permission denied"),
        other => panic!("{other:?}"),
    }
    assert_eq!(get_lib_files_in_dir(DirectoryListing::Entries(vec![])).unwrap().len(), 0);
}

#[test]
fn one_module_and_one_other_file_give_a_registry_of_one() {
    let listing =
        DirectoryListing::Entries(vec![entry("/m/libhttp.so", true), entry("/m/notes.txt", true)]);
    let candidates = get_lib_files_in_dir(listing).expect("the directory was listed");
    assert_eq!(candidates, vec!["/m/libhttp.so"]);

    let loads: Vec<Result<AttachedPlugin<Handler>, String>> = candidates
        .iter()
        .map(|_| Ok(plugin("http", "h1", vec![function("fetch", fetch)])))
        .collect();
    let mut dispatch: NativeFnRegistry<Handler> = NativeFnRegistry::new();
    let registry = attach_libraries(loads, &mut dispatch);

    assert_eq!(registry.len(), 1);
    let listed = registry.fetch_plugins();
    assert_eq!(listed[0].name, "http");
    assert_eq!(listed[0].version, "0.1.0");
    assert_eq!(listed[0].location, "/modules/libhttp.so");
    assert_eq!(listed[0].blake3_hash, "h1");
    assert_eq!(listed[0].functions.len(), 1);
    assert_eq!(listed[0].functions[0].name, "fetch");
    assert_eq!(listed[0].functions[0].schema, Value::String("schema of fetch".to_owned()));
    assert!(call(&dispatch, "fetch").is_ok());
}

#[test]
fn a_module_that_fails_to_load_is_skipped() {
    let loads: Vec<Result<AttachedPlugin<Handler>, String>> = vec![
        Ok(plugin("http", "h1", vec![function("fetch", fetch)])),
        Err("missing entry symbol".to_owned()),
        Ok(plugin("nmap", "h2", vec![function("nmap_run", scan)])),
    ];
    let mut dispatch: NativeFnRegistry<Handler> = NativeFnRegistry::new();
    let registry = attach_libraries(loads, &mut dispatch);
    let names: Vec<String> = registry.fetch_plugins().into_iter().map(|p| p.name).collect();
    assert_eq!(names, vec!["http", "nmap"]);
    assert_eq!(dispatch.len(), 2);
}

#[test]
fn the_module_attached_last_wins_a_function_name() {
    let mut dispatch: NativeFnRegistry<Handler> = NativeFnRegistry::new();
    let mut registry = PluginRegistry::new();
    registry.add_plugin(plugin("first", "h1", vec![function("run", fetch)]), &mut dispatch);
    registry.add_plugin(plugin("second", "h2", vec![function("run", scan)]), &mut dispatch);
    assert_eq!(registry.len(), 2);
    assert_eq!(dispatch.len(), 1);
    assert!(matches!(call(&dispatch, "run"), Err(DispatchError::HandlerFailure(_))));
}

#[test]
fn unloading_a_module_removes_its_functions_from_dispatch() {
    let mut dispatch: NativeFnRegistry<Handler> = NativeFnRegistry::new();
    let mut registry = PluginRegistry::new();
    registry.add_plugin(plugin("http", "h1", vec![function("fetch", fetch)]), &mut dispatch);
    registry.add_plugin(
        plugin("nmap", "h2", vec![function("nmap_run", scan), function("nmap_check", fetch)]),
        &mut dispatch,
    );

    assert!(registry.unload_plugin("nmap", &mut dispatch));
    assert!(!registry.unload_plugin("nmap", &mut dispatch));

    for name in ["nmap_run", "nmap_check"] {
        match call(&dispatch, name) {
            Err(DispatchError::FunctionNotFound(missing)) => assert_eq!(missing, name),
            other => panic!("{name} still answers: {other:?}"),
        }
    }
    assert!(call(&dispatch, "fetch").is_ok());
    let names: Vec<String> = registry.fetch_plugins().into_iter().map(|p| p.name).collect();
    assert_eq!(names, vec!["http"]);
}

#[test]
fn reload_takes_the_hash_of_the_changed_artifact() {
    let mut dispatch: NativeFnRegistry<Handler> = NativeFnRegistry::new();
    let mut registry = PluginRegistry::new();
    registry.add_plugin(plugin("http", "old-hash", vec![function("fetch", scan)]), &mut dispatch);
    registry.add_plugin(plugin("nmap", "h2", vec![function("nmap_run", scan)]), &mut dispatch);
    let request: PluginDescription = registry.fetch_plugins().remove(0);
    assert_eq!(request.blake3_hash, "old-hash");

    let mut asked_for = String::new();
    let outcome = impl_request_plugin_reload(&mut registry, &mut dispatch, &request, |location| {
        asked_for = location;
        Ok(plugin("http", "new-hash", vec![function("fetch", fetch), function("post", fetch)]))
    });
    assert!(outcome.is_ok());
    assert_eq!(asked_for, "/modules/libhttp.so");

    let listed = registry.fetch_plugins();
    let names: Vec<&str> = listed.iter().map(|p| p.name.as_str()).collect();
    assert_eq!(names, vec!["nmap", "http"]);
    assert_eq!(listed[1].blake3_hash, "new-hash");
    assert!(call(&dispatch, "fetch").is_ok());
    assert!(call(&dispatch, "post").is_ok());
}

#[test]
fn a_reload_that_does_not_load_leaves_the_module_unloaded() {
    let mut dispatch: NativeFnRegistry<Handler> = NativeFnRegistry::new();
    let mut registry = PluginRegistry::new();
    registry.add_plugin(plugin("http", "h1", vec![function("fetch", fetch)]), &mut dispatch);
    let request: PluginDescription = registry.fetch_plugins().remove(0);

    let outcome = impl_request_plugin_reload(&mut registry, &mut dispatch, &request, |_| {
        Err("library not found".to_owned())
    });
    match outcome {
        Err(PluginError::ModuleLoadFailure { name, location, reason }) => {
            assert_eq!(name, "http");
            assert_eq!(location, "/modules/libhttp.so");
            assert_eq!(reason, "library not found");
        }
        other => panic!("{other:?}"),
    }
    assert_eq!(registry.len(), 0);
    assert!(matches!(call(&dispatch, "fetch"), Err(DispatchError::FunctionNotFound(_))));
}

#[test]
fn attaching_a_name_again_replaces_the_record_in_place() {
    let mut dispatch: NativeFnRegistry<Handler> = NativeFnRegistry::new();
    let mut registry = PluginRegistry::new();
    registry.add_plugin(plugin("http", "h1", vec![function("fetch", fetch)]), &mut dispatch);
    registry.add_plugin(plugin("nmap", "h2", vec![]), &mut dispatch);
    registry.add_plugin(plugin("http", "h3", vec![function("fetch", scan)]), &mut dispatch);
    let hashes: Vec<String> = registry.fetch_plugins().into_iter().map(|p| p.blake3_hash).collect();
    assert_eq!(hashes, vec!["h3", "h2"]);
}

#[test]
fn the_old_module_is_unloaded_before_its_file_is_loaded() {
    let dispatch: RefCell<NativeFnRegistry<Handler>> = RefCell::new(NativeFnRegistry::new());
    let mut registry = PluginRegistry::new();
    registry.add_plugin(
        plugin("http", "h1", vec![function("fetch", fetch)]),
        &mut dispatch.borrow_mut(),
    );
    let request: PluginDescription = registry.fetch_plugins().remove(0);

    assert!(registry.unload_plugin("http", &mut dispatch.borrow_mut()));
    let seen_while_loading = dispatch.borrow().resolve("fetch").is_some();
    let loaded = Ok(plugin("http", "h2", vec![function("fetch", fetch)]));
    let outcome =
        finish_plugin_reload(&mut registry, &mut dispatch.borrow_mut(), &request, loaded);

    assert!(outcome.is_ok());
    assert!(!seen_while_loading);
    assert_eq!(registry.fetch_plugins()[0].blake3_hash, "h2");
    assert!(call(&dispatch.borrow(), "fetch").is_ok());
}
