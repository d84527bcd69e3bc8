use node_resolver::chars;
use node_resolver::errors::NodeError;
use node_resolver::host::{AllowAllPermissions, DenyAllPermissions, StaticNpmResolver};
use node_resolver::node_paths;
use node_resolver::paths;
use node_resolver::resolution;
use node_resolver::polyfills::{find_builtin, NodeModulePolyfillSpecifier};

fn empty_resolver() -> StaticNpmResolver {
    StaticNpmResolver { folders: vec![], roots: vec![] }
}

#[test]
fn request_relative_cases() {
    assert_eq!(resolution::is_request_relative("./x"), true);
    assert_eq!(resolution::is_request_relative("foo"), false);
    assert_eq!(resolution::is_request_relative(".."), true);
    assert_eq!(resolution::is_request_relative("../x"), true);
    assert_eq!(resolution::is_request_relative("."), false);
    assert_eq!(resolution::is_request_relative("/abs"), false);
}

#[test]
fn classify_cases() {
    assert_eq!(resolution::classify("./x"), resolution::RequestKind::Relative);
    assert_eq!(resolution::classify("/x"), resolution::RequestKind::Absolute);
    assert_eq!(resolution::classify("#x"), resolution::RequestKind::Imports);
    assert_eq!(resolution::classify("lodash"), resolution::RequestKind::Bare);
}

#[test]
fn parse_package_specifier_cases() {
    let (name, sub) = resolution::parse_package_specifier("pkg/sub/feature").unwrap();
    assert_eq!(name, "pkg");
    assert_eq!(sub, "./sub/feature");
    let (name, sub) = resolution::parse_package_specifier("@scope/name").unwrap();
    assert_eq!(name, "@scope/name");
    assert_eq!(sub, ".");
    let (name, sub) = resolution::parse_package_specifier("@scope/name/x").unwrap();
    assert_eq!(name, "@scope/name");
    assert_eq!(sub, "./x");
    assert!(matches!(
        resolution::parse_package_specifier(""),
        Err(NodeError::InvalidSpecifier(_))
    ));
    assert!(matches!(
        resolution::parse_package_specifier("@scope"),
        Err(NodeError::InvalidSpecifier(_))
    ));
    assert!(matches!(
        resolution::parse_package_specifier("ba%d"),
        Err(NodeError::InvalidSpecifier(_))
    ));
    assert!(matches!(
        resolution::parse_package_specifier("ba\\d"),
        Err(NodeError::InvalidSpecifier(_))
    ));
}

#[test]
fn path_resolve_joins_and_normalizes() {
    let r = paths::path_resolve(&vec![
        "/foo".to_string(),
        "bar".to_string(),
        "baz/asdf".to_string(),
    ]);
    assert_eq!(r, "/foo/bar/baz/asdf");
    let r = paths::path_resolve(&vec!["/a/b".to_string(), "../c".to_string()]);
    assert_eq!(r, "/a/c");
    let r = paths::path_resolve(&vec!["a/./b".to_string(), "..".to_string()]);
    assert_eq!(r, "a");
    let r = paths::path_resolve(&vec!["/x".to_string(), "/y".to_string()]);
    assert_eq!(r, "/y");
}

#[test]
fn path_resolve_idempotent_concrete() {
    let once = paths::path_resolve(&vec!["/a/b/..".to_string(), "c//d/".to_string()]);
    let twice = paths::path_resolve(&vec![once.clone()]);
    assert_eq!(once, twice);
    let once = paths::path_resolve(&vec!["rel/.././x".to_string()]);
    let twice = paths::path_resolve(&vec![once.clone()]);
    assert_eq!(once, twice);
}

#[test]
fn dirname_and_basename() {
    assert_eq!(paths::path_dirname("/a/b/c").unwrap(), "/a/b");
    assert_eq!(paths::path_dirname("/a").unwrap(), "/");
    assert_eq!(paths::path_dirname("a").unwrap(), "");
    assert!(matches!(paths::path_dirname("/"), Err(NodeError::InvalidPath(_))));
    assert_eq!(paths::path_basename("/a/b/c.js").unwrap(), "c.js");
    assert_eq!(paths::path_basename("a/").unwrap(), "a");
    assert!(matches!(paths::path_basename("/"), Err(NodeError::InvalidPath(_))));
    assert!(matches!(paths::path_basename("a/.."), Err(NodeError::InvalidPath(_))));
}

#[test]
fn normalize_path_cases() {
    assert_eq!(paths::normalize_path("/a/./b/../c"), "/a/c");
    assert_eq!(paths::normalize_path("a//b/"), "a/b");
    assert_eq!(paths::normalize_path("/../x"), "/x");
    assert_eq!(paths::normalize_path("../x"), "x");
    assert_eq!(paths::normalize_path("/"), "/");
}

#[test]
fn path_is_absolute_cases() {
    assert!(paths::path_is_absolute("/x"));
    assert!(!paths::path_is_absolute("x/y"));
    assert!(!paths::path_is_absolute(""));
}

#[test]
fn proxy_path_appends_noop_for_directories() {
    assert_eq!(paths::proxy_path("/a/b/"), "/a/b/noop.js");
    assert_eq!(paths::proxy_path("/a/b.js"), "/a/b.js");
}

#[test]
fn node_module_paths_walk() {
    let resolver = empty_resolver();
    let mut perms = AllowAllPermissions {};
    let got = node_paths::node_module_paths(&resolver, &mut perms, "/a/b/c").unwrap();
    assert_eq!(
        got,
        vec![
            "/a/b/c/node_modules".to_string(),
            "/a/b/node_modules".to_string(),
            "/a/node_modules".to_string(),
            "/node_modules".to_string(),
        ]
    );
}

#[test]
fn node_module_paths_root() {
    let resolver = empty_resolver();
    let mut perms = AllowAllPermissions {};
    let got = node_paths::node_module_paths(&resolver, &mut perms, "/").unwrap();
    assert_eq!(got, vec!["/node_modules".to_string()]);
}

#[test]
fn node_module_paths_skips_node_modules_ancestors() {
    let resolver = empty_resolver();
    let mut perms = AllowAllPermissions {};
    let got = node_paths::node_module_paths(&resolver, &mut perms, "/a/node_modules/p").unwrap();
    assert_eq!(
        got,
        vec![
            "/a/node_modules/p/node_modules".to_string(),
            "/a/node_modules".to_string(),
            "/node_modules".to_string(),
        ]
    );
    for e in &got {
        assert!(e.ends_with("/node_modules"));
    }
}

#[test]
fn node_module_paths_permission_denied() {
    let resolver = empty_resolver();
    let mut perms = DenyAllPermissions {};
    let got = node_paths::node_module_paths(&resolver, &mut perms, "/a/b");
    assert!(matches!(got, Err(NodeError::PermissionDenied(_))));
}

#[test]
fn resolve_lookup_paths_cases() {
    let got = resolution_lookup("./x", None, "/a/b/file.js");
    assert_eq!(got, Some(vec!["/a/b".to_string()]));
    let got = resolution_lookup("foo", Some(vec!["/p".to_string()]), "/a/b/file.js");
    assert_eq!(got, Some(vec!["/p".to_string()]));
    let got = resolution_lookup("foo", Some(vec![]), "/a/b/file.js");
    assert_eq!(got, None);
    let got = resolution_lookup("foo", None, "/a/b/file.js");
    assert_eq!(got, None);
}

fn resolution_lookup(
    request: &str,
    parents: Option<Vec<String>>,
    parent_filename: &str,
) -> Option<Vec<String>> {
    node_paths::resolve_lookup_paths(request, parents, parent_filename)
}

#[test]
fn as_file_path_cases() {
    assert_eq!(resolution::as_file_path("file:///a/b.js"), "/a/b.js");
    assert_eq!(resolution::as_file_path("file:///a%20b"), "/a b");
    assert_eq!(resolution::as_file_path("file:///p%2Fq"), "/p/q");
    assert_eq!(resolution::as_file_path("/plain/path"), "/plain/path");
    assert_eq!(resolution::as_file_path("https://x/y"), "https://x/y");
    // a truncated escape, and an escape for a multi-byte character's byte,
    // pass through unchanged
    assert_eq!(resolution::as_file_path("file:///a%2"), "file:///a%2");
    assert_eq!(resolution::as_file_path("file:///%E2%82%AC"), "file:///%E2%82%AC");
}

#[test]
fn env_allowlist_and_global_name() {
    assert!(node_resolver::node_env_var_allowed("NODE_DEBUG"));
    assert!(node_resolver::node_env_var_allowed("NODE_OPTIONS"));
    assert!(!node_resolver::node_env_var_allowed("PATH"));
    assert_eq!(
        node_resolver::node_global_this_name(1234),
        "__DENO_NODE_GLOBAL_THIS_1234__"
    );
    assert_eq!(node_resolver::init_paths(), Vec::<String>::new());
}

#[test]
fn chars_round_trip() {
    let v = chars::str_to_chars("héllo");
    assert_eq!(chars::chars_to_string(&v), "héllo");
    assert!(chars::str_equals("abc", "abc"));
    assert!(!chars::str_equals("abc", "abd"));
}

#[test]
fn find_builtin_cases() {
    match find_builtin("fs/promises") {
        Some(NodeModulePolyfillSpecifier::StdNode(p)) => assert_eq!(p, "node/fs/promises.ts"),
        _ => panic!("fs/promises should be registered"),
    }
    match find_builtin("module") {
        Some(NodeModulePolyfillSpecifier::Embedded(p)) => {
            assert_eq!(p, "internal:deno_node/module_es_shim.js")
        }
        _ => panic!("module should be embedded"),
    }
    assert!(find_builtin("not_a_module").is_none());
    assert!(find_builtin("fs2").is_none());
    match find_builtin("assert") {
        Some(NodeModulePolyfillSpecifier::StdNode(p)) => assert_eq!(p, "node/assert.ts"),
        _ => panic!("assert should be registered"),
    }
    match find_builtin("path/win32") {
        Some(NodeModulePolyfillSpecifier::StdNode(p)) => assert_eq!(p, "node/path/win32.ts"),
        _ => panic!("path/win32 should be registered"),
    }
    match find_builtin("zlib") {
        Some(NodeModulePolyfillSpecifier::StdNode(p)) => assert_eq!(p, "node/zlib.ts"),
        _ => panic!("zlib should be registered"),
    }
    let table = node_resolver::polyfills::supported_builtin_node_modules();
    assert_eq!(table.len(), 45);
    assert_eq!(table[0].name, "assert");
    assert_eq!(table[44].name, "zlib");
}

#[test]
fn error_messages_name_the_error() {
    let e = NodeError::ModuleNotFound("/x".to_string());
    assert_eq!(e.message(), "module not found: /x");
    let e = NodeError::PackageNotFound("p".to_string(), "/r".to_string());
    assert_eq!(e.message(), "package not found: p from /r");
    let e = NodeError::PackageImportNotDefined("/pkg/package.json".to_string(), "#a".to_string());
    assert_eq!(e.message(), "package import not defined in /pkg/package.json: #a");
}
