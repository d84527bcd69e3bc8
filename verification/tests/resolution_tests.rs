use node_resolver::errors::NodeError;
use node_resolver::host::{
    AllowAllPermissions, DenyAllPermissions, FileKind, FsEntry, InMemoryFileSystem,
    NpmFolderEntry, StaticNpmResolver,
};
use node_resolver::json::{json_parse, JsonValue};
use node_resolver::package_json::{self, PackageJsonCache};
use node_resolver::resolution::{
    self, NodeModuleKind, NodeResolutionMode,
};

fn file(path: &str, text: &str) -> FsEntry {
    FsEntry { path: path.to_string(), kind: FileKind::File, text: text.to_string() }
}

fn dir(path: &str) -> FsEntry {
    FsEntry { path: path.to_string(), kind: FileKind::Dir, text: String::new() }
}

fn resolver_for(name: &str, folder: &str) -> StaticNpmResolver {
    StaticNpmResolver {
        folders: vec![NpmFolderEntry { specifier: name.to_string(), folder: folder.to_string() }],
        roots: vec![folder.to_string()],
    }
}

fn resolve(
    fs: &InMemoryFileSystem,
    resolver: &StaticNpmResolver,
    request: &str,
    referrer: &str,
) -> Result<String, NodeError> {
    let mut perms = AllowAllPermissions {};
    let mut cache = PackageJsonCache::new();
    let conditions = resolution::require_conditions();
    resolution::package_resolve(
        fs,
        resolver,
        &mut perms,
        &mut cache,
        request,
        referrer,
        NodeModuleKind::Cjs,
        &conditions,
        NodeResolutionMode::Execution,
    )
}

#[test]
fn json_parse_basics() {
    match json_parse("{\"a\": 1, \"b\": [true, null, \"x\"]}") {
        Some(JsonValue::Obj(ms)) => {
            assert_eq!(ms.len(), 2);
            assert_eq!(ms[0].0, "a");
            assert!(matches!(&ms[0].1, JsonValue::Num(n) if n == "1"));
            match &ms[1].1 {
                JsonValue::Arr(items) => {
                    assert_eq!(items.len(), 3);
                    assert!(matches!(items[0], JsonValue::Bool(true)));
                    assert!(matches!(items[1], JsonValue::Null));
                    assert!(matches!(&items[2], JsonValue::Str(s) if s == "x"));
                }
                _ => panic!("b should be an array"),
            }
        }
        _ => panic!("should parse to an object"),
    }
}

#[test]
fn json_parse_escapes_and_errors() {
    match json_parse("\"a\\n\\\"b\\\"\"") {
        Some(JsonValue::Str(s)) => assert_eq!(s, "a\n\"b\""),
        _ => panic!("escaped string should parse"),
    }
    assert!(json_parse("{\"a\": }").is_none());
    assert!(json_parse("[1,]").is_none());
    assert!(json_parse("{} trailing").is_none());
    match json_parse("\"\\u0041\"") {
        Some(JsonValue::Str(s)) => assert_eq!(s, "A"),
        _ => panic!("a \\u escape should decode"),
    }
    match json_parse("\"\\uD83D\\uDE00\"") {
        Some(JsonValue::Str(s)) => assert_eq!(s, "\u{1F600}"),
        _ => panic!("a surrogate pair should decode to one character"),
    }
    assert!(json_parse("\"\\uD83D\"").is_none());
    assert!(json_parse("\"\\uDE00\"").is_none());
    assert!(json_parse("\"\\u12G4\"").is_none());
    assert!(json_parse("-12.5e3").is_some());
    assert!(json_parse("01").is_some());
    assert!(json_parse("--1").is_none());
}

#[test]
fn json_preserves_member_order() {
    match json_parse("{\"z\": 1, \"a\": 2, \"m\": 3}") {
        Some(JsonValue::Obj(ms)) => {
            let keys: Vec<&str> = ms.iter().map(|m| m.0.as_str()).collect();
            assert_eq!(keys, vec!["z", "a", "m"]);
        }
        _ => panic!("should parse"),
    }
}

#[test]
fn exports_exact_subpath() {
    let fs = InMemoryFileSystem {
        entries: vec![file(
            "/pkg/package.json",
            "{\"name\": \"p\", \"exports\": {\".\": \"./main.js\", \"./sub\": \"./s.js\"}}",
        )],
    };
    let resolver = resolver_for("p", "/pkg");
    assert_eq!(resolve(&fs, &resolver, "p/sub", "/x/index.js").unwrap(), "/pkg/s.js");
    assert_eq!(resolve(&fs, &resolver, "p", "/x/index.js").unwrap(), "/pkg/main.js");
}

#[test]
fn exports_conditions_follow_the_condition_set() {
    let fs = InMemoryFileSystem {
        entries: vec![file(
            "/pkg/package.json",
            "{\"exports\": {\".\": {\"node\": \"./n.js\", \"default\": \"./d.js\"}}}",
        )],
    };
    let resolver = resolver_for("p", "/pkg");
    // node, require, default: the node branch wins
    assert_eq!(resolve(&fs, &resolver, "p", "/x/i.js").unwrap(), "/pkg/n.js");
    // with only default, the default branch wins
    let mut perms = AllowAllPermissions {};
    let mut cache = PackageJsonCache::new();
    let conditions = vec!["default".to_string()];
    let got = resolution::package_resolve(
        &fs,
        &resolver,
        &mut perms,
        &mut cache,
        "p",
        "/x/i.js",
        NodeModuleKind::Cjs,
        &conditions,
        NodeResolutionMode::Execution,
    )
    .unwrap();
    assert_eq!(got, "/pkg/d.js");
}

#[test]
fn exports_wildcard_substitution() {
    let fs = InMemoryFileSystem {
        entries: vec![file("/pkg/package.json", "{\"exports\": {\"./a/*\": \"./impl/*.js\"}}")],
    };
    let resolver = resolver_for("p", "/pkg");
    assert_eq!(resolve(&fs, &resolver, "p/a/x", "/x/i.js").unwrap(), "/pkg/impl/x.js");
    assert_eq!(resolve(&fs, &resolver, "p/a/y/z", "/x/i.js").unwrap(), "/pkg/impl/y/z.js");
}

#[test]
fn exports_wildcard_specificity() {
    let fs = InMemoryFileSystem {
        entries: vec![file(
            "/pkg/package.json",
            "{\"exports\": {\"./a/*\": \"./wide/*.js\", \"./a/b/*\": \"./narrow/*.js\"}}",
        )],
    };
    let resolver = resolver_for("p", "/pkg");
    assert_eq!(resolve(&fs, &resolver, "p/a/b/c", "/x/i.js").unwrap(), "/pkg/narrow/c.js");
    assert_eq!(resolve(&fs, &resolver, "p/a/q", "/x/i.js").unwrap(), "/pkg/wide/q.js");
}

#[test]
fn exports_not_exported_and_null() {
    let fs = InMemoryFileSystem {
        entries: vec![file(
            "/pkg/package.json",
            "{\"exports\": {\".\": \"./main.js\", \"./blocked\": null}}",
        )],
    };
    let resolver = resolver_for("p", "/pkg");
    assert!(matches!(
        resolve(&fs, &resolver, "p/other", "/x/i.js"),
        Err(NodeError::PackagePathNotExported(_, _))
    ));
    assert!(matches!(
        resolve(&fs, &resolver, "p/blocked", "/x/i.js"),
        Err(NodeError::PackagePathNotExported(_, _))
    ));
}

#[test]
fn exports_invalid_target_rejected() {
    let fs = InMemoryFileSystem {
        entries: vec![file("/pkg/package.json", "{\"exports\": {\".\": \"../escape.js\"}}")],
    };
    let resolver = resolver_for("p", "/pkg");
    assert!(matches!(
        resolve(&fs, &resolver, "p", "/x/i.js"),
        Err(NodeError::InvalidPackageTarget(_, _))
    ));
    let fs = InMemoryFileSystem {
        entries: vec![file("/pkg/package.json", "{\"exports\": {\"./a/*\": \"./i/*.js\"}}")],
    };
    // a binding that climbs out of the package is rejected too
    assert!(matches!(
        resolve(&fs, &resolver, "p/a/../../x", "/x/i.js"),
        Err(NodeError::InvalidPackageTarget(_, _))
    ));
}

#[test]
fn exports_array_takes_first_resolvable() {
    let fs = InMemoryFileSystem {
        entries: vec![file(
            "/pkg/package.json",
            "{\"exports\": {\".\": [\"../bad.js\", \"./good.js\"]}}",
        )],
    };
    let resolver = resolver_for("p", "/pkg");
    assert_eq!(resolve(&fs, &resolver, "p", "/x/i.js").unwrap(), "/pkg/good.js");
}

#[test]
fn mixed_exports_keys_fail_load() {
    let fs = InMemoryFileSystem {
        entries: vec![file(
            "/pkg/package.json",
            "{\"exports\": {\".\": \"./a.js\", \"node\": \"./b.js\"}}",
        )],
    };
    let resolver = resolver_for("p", "/pkg");
    let mut perms = AllowAllPermissions {};
    let mut cache = PackageJsonCache::new();
    let got = package_json::load(&fs, &resolver, &mut perms, &mut cache, "/pkg/package.json");
    assert!(matches!(got, Err(NodeError::InvalidPackageConfig(_))));
    assert!(matches!(
        resolve(&fs, &resolver, "p", "/x/i.js"),
        Err(NodeError::InvalidPackageConfig(_))
    ));
}

#[test]
fn unparseable_package_json_fails_load() {
    let fs = InMemoryFileSystem {
        entries: vec![file("/pkg/package.json", "{not json")],
    };
    let resolver = resolver_for("p", "/pkg");
    assert!(matches!(
        resolve(&fs, &resolver, "p", "/x/i.js"),
        Err(NodeError::InvalidPackageConfig(_))
    ));
}

#[test]
fn second_load_returns_the_same_document() {
    let fs = InMemoryFileSystem {
        entries: vec![file("/pkg/package.json", "{\"name\": \"p\", \"main\": \"m.js\"}")],
    };
    let resolver = resolver_for("p", "/pkg");
    let mut perms = AllowAllPermissions {};
    let mut cache = PackageJsonCache::new();
    let first =
        package_json::load(&fs, &resolver, &mut perms, &mut cache, "/pkg/package.json").unwrap();
    let second =
        package_json::load(&fs, &resolver, &mut perms, &mut cache, "/pkg/package.json").unwrap();
    assert_eq!(first.name, second.name);
    assert_eq!(first.main, second.main);
    assert_eq!(first.path, second.path);
    assert_eq!(first.base, second.base);
    assert_eq!(first.exists, second.exists);
    assert_eq!(cache.entries.len(), 1);
}

#[test]
fn absent_package_json_loads_as_empty_document() {
    let fs = InMemoryFileSystem { entries: vec![] };
    let resolver = StaticNpmResolver { folders: vec![], roots: vec![] };
    let mut perms = AllowAllPermissions {};
    let mut cache = PackageJsonCache::new();
    let doc =
        package_json::load(&fs, &resolver, &mut perms, &mut cache, "/pkg/package.json").unwrap();
    assert!(!doc.exists);
    assert_eq!(doc.base, "/pkg");
    assert!(doc.name.is_none());
    assert!(doc.exports.is_none());
}

#[test]
fn package_resolve_is_deterministic_whatever_the_cache() {
    let fs = InMemoryFileSystem {
        entries: vec![file("/pkg/package.json", "{\"exports\": {\".\": \"./m.js\"}}")],
    };
    let resolver = resolver_for("p", "/pkg");
    let first = resolve(&fs, &resolver, "p", "/x/i.js").unwrap();
    // a second run, now with a cache warmed by an unrelated load first
    let mut perms = AllowAllPermissions {};
    let mut cache = PackageJsonCache::new();
    let _ = package_json::load(&fs, &resolver, &mut perms, &mut cache, "/pkg/package.json");
    let conditions = resolution::require_conditions();
    let second = resolution::package_resolve(
        &fs,
        &resolver,
        &mut perms,
        &mut cache,
        "p",
        "/x/i.js",
        NodeModuleKind::Cjs,
        &conditions,
        NodeResolutionMode::Execution,
    )
    .unwrap();
    assert_eq!(first, second);
}

#[test]
fn imports_null_target_is_not_defined() {
    let fs = InMemoryFileSystem {
        entries: vec![file("/pkg/package.json", "{\"imports\": {\"#a\": null}}")],
    };
    let resolver = resolver_for("p", "/pkg");
    let mut perms = AllowAllPermissions {};
    let mut cache = PackageJsonCache::new();
    let got = resolution::package_imports_resolve(
        &fs,
        &resolver,
        &mut perms,
        &mut cache,
        "/pkg",
        "#a",
    );
    assert!(matches!(got, Err(NodeError::PackageImportNotDefined(_, _))));
}

#[test]
fn imports_path_and_bare_targets() {
    let fs = InMemoryFileSystem {
        entries: vec![
            file(
                "/pkg/package.json",
                "{\"imports\": {\"#in\": \"./lib/in.js\", \"#dep\": \"q\"}}",
            ),
            file("/q/package.json", "{\"exports\": {\".\": \"./qmain.js\"}}"),
        ],
    };
    let resolver = StaticNpmResolver {
        folders: vec![NpmFolderEntry { specifier: "q".to_string(), folder: "/q".to_string() }],
        roots: vec!["/pkg".to_string(), "/q".to_string()],
    };
    let mut perms = AllowAllPermissions {};
    let mut cache = PackageJsonCache::new();
    let got = resolution::package_imports_resolve(
        &fs,
        &resolver,
        &mut perms,
        &mut cache,
        "/pkg",
        "#in",
    )
    .unwrap();
    assert_eq!(got, Some("file:///pkg/lib/in.js".to_string()));
    let got = resolution::package_imports_resolve(
        &fs,
        &resolver,
        &mut perms,
        &mut cache,
        "/pkg",
        "#dep",
    )
    .unwrap();
    assert_eq!(got, Some("file:///q/qmain.js".to_string()));
}

#[test]
fn imports_via_package_resolve_uses_closest_package() {
    let fs = InMemoryFileSystem {
        entries: vec![file("/pkg/package.json", "{\"imports\": {\"#a/*\": \"./int/*.js\"}}")],
    };
    let resolver = StaticNpmResolver {
        folders: vec![],
        roots: vec!["/pkg".to_string()],
    };
    assert_eq!(
        resolve(&fs, &resolver, "#a/x", "/pkg/src/file.js").unwrap(),
        "/pkg/int/x.js"
    );
}

#[test]
fn legacy_main_prefers_the_file_over_the_directory() {
    let fs = InMemoryFileSystem {
        entries: vec![
            file("/pkg/package.json", "{\"main\": \"lib/x\"}"),
            file("/pkg/lib/x.js", ""),
            file("/pkg/lib/x/index.js", ""),
        ],
    };
    let resolver = resolver_for("p", "/pkg");
    assert_eq!(resolve(&fs, &resolver, "p", "/x/i.js").unwrap(), "/pkg/lib/x.js");
}

#[test]
fn legacy_main_falls_back_to_index() {
    let fs = InMemoryFileSystem {
        entries: vec![file("/pkg/package.json", "{}"), file("/pkg/index.js", "")],
    };
    let resolver = resolver_for("p", "/pkg");
    assert_eq!(resolve(&fs, &resolver, "p", "/x/i.js").unwrap(), "/pkg/index.js");
}

#[test]
fn legacy_main_nothing_found() {
    let fs = InMemoryFileSystem {
        entries: vec![file("/pkg/package.json", "{\"main\": \"gone\"}")],
    };
    let resolver = resolver_for("p", "/pkg");
    assert!(matches!(
        resolve(&fs, &resolver, "p", "/x/i.js"),
        Err(NodeError::ModuleNotFound(_))
    ));
}

#[test]
fn bare_subpath_without_exports_probes_file_then_index() {
    let fs = InMemoryFileSystem {
        entries: vec![
            file("/pkg/package.json", "{}"),
            file("/pkg/lib/a.js", ""),
            dir("/pkg/lib/d"),
            file("/pkg/lib/d/index.json", ""),
        ],
    };
    let resolver = resolver_for("p", "/pkg");
    assert_eq!(resolve(&fs, &resolver, "p/lib/a.js", "/x/i.js").unwrap(), "/pkg/lib/a.js");
    assert_eq!(
        resolve(&fs, &resolver, "p/lib/d", "/x/i.js").unwrap(),
        "/pkg/lib/d/index.json"
    );
    assert!(matches!(
        resolve(&fs, &resolver, "p/lib/missing", "/x/i.js"),
        Err(NodeError::ModuleNotFound(_))
    ));
}

#[test]
fn unknown_package_is_not_found() {
    let fs = InMemoryFileSystem { entries: vec![] };
    let resolver = StaticNpmResolver { folders: vec![], roots: vec![] };
    assert!(matches!(
        resolve(&fs, &resolver, "nope", "/x/i.js"),
        Err(NodeError::PackageNotFound(_, _))
    ));
}

#[test]
fn relative_and_absolute_requests_normalize() {
    let fs = InMemoryFileSystem { entries: vec![] };
    let resolver = StaticNpmResolver { folders: vec![], roots: vec![] };
    assert_eq!(
        resolve(&fs, &resolver, "./util.js", "/a/b/file.js").unwrap(),
        "/a/b/util.js"
    );
    assert_eq!(
        resolve(&fs, &resolver, "../up.js", "/a/b/file.js").unwrap(),
        "/a/up.js"
    );
    assert_eq!(resolve(&fs, &resolver, "/abs/x.js", "/a/b/file.js").unwrap(), "/abs/x.js");
}

#[test]
fn types_mode_probes_declarations() {
    let fs = InMemoryFileSystem {
        entries: vec![file("/a/b/util.d.ts", "")],
    };
    let resolver = StaticNpmResolver { folders: vec![], roots: vec![] };
    let mut perms = AllowAllPermissions {};
    let mut cache = PackageJsonCache::new();
    let conditions = resolution::require_conditions();
    let got = resolution::package_resolve(
        &fs,
        &resolver,
        &mut perms,
        &mut cache,
        "./util.js",
        "/a/b/file.js",
        NodeModuleKind::Cjs,
        &conditions,
        NodeResolutionMode::Types,
    )
    .unwrap();
    assert_eq!(got, "/a/b/util.d.ts");
}

#[test]
fn declaration_probe_order() {
    let fs = InMemoryFileSystem {
        entries: vec![file("/m/x.js.d.ts", "")],
    };
    // replacing the extension finds nothing, appending does
    let got = resolution::path_to_declaration_path(&fs, "/m/x.js", NodeModuleKind::Cjs);
    assert_eq!(got, "/m/x.js.d.ts");
    let fs = InMemoryFileSystem { entries: vec![] };
    let got = resolution::path_to_declaration_path(&fs, "/m/x.js", NodeModuleKind::Cjs);
    assert_eq!(got, "/m/x.js");
    let fs = InMemoryFileSystem {
        entries: vec![file("/m/ext/index.d.ts", "")],
    };
    let got = resolution::path_to_declaration_path(&fs, "/m/ext", NodeModuleKind::Cjs);
    assert_eq!(got, "/m/ext/index.d.ts");
}

#[test]
fn try_self_resolves_own_package_name() {
    let fs = InMemoryFileSystem {
        entries: vec![file(
            "/pkg/package.json",
            "{\"name\": \"self\", \"exports\": {\".\": \"./main.js\", \"./x\": \"./sx.js\"}}",
        )],
    };
    let resolver = StaticNpmResolver {
        folders: vec![],
        roots: vec!["/pkg".to_string()],
    };
    let mut perms = AllowAllPermissions {};
    let mut cache = PackageJsonCache::new();
    let parent = Some("/pkg/inner/file.js".to_string());
    let got = resolution::try_self(&fs, &resolver, &mut perms, &mut cache, &parent, "self")
        .unwrap();
    assert_eq!(got, Some("/pkg/main.js".to_string()));
    let got = resolution::try_self(&fs, &resolver, &mut perms, &mut cache, &parent, "self/x")
        .unwrap();
    assert_eq!(got, Some("/pkg/sx.js".to_string()));
    let got = resolution::try_self(&fs, &resolver, &mut perms, &mut cache, &parent, "other")
        .unwrap();
    assert_eq!(got, None);
    let got = resolution::try_self(&fs, &resolver, &mut perms, &mut cache, &None, "self")
        .unwrap();
    assert_eq!(got, None);
}

#[test]
fn resolve_exports_op_appends_the_name_outside_managed_trees() {
    let fs = InMemoryFileSystem {
        entries: vec![file(
            "/proj/node_modules/q/package.json",
            "{\"exports\": {\".\": \"./qq.js\"}}",
        )],
    };
    let resolver = StaticNpmResolver { folders: vec![], roots: vec![] };
    let mut perms = AllowAllPermissions {};
    let mut cache = PackageJsonCache::new();
    let got = resolution::resolve_exports(
        &fs,
        &resolver,
        &mut perms,
        &mut cache,
        false,
        "/proj/node_modules",
        "q",
        "",
    )
    .unwrap();
    assert_eq!(got, Some("/proj/node_modules/q/qq.js".to_string()));
}

#[test]
fn try_self_parent_path_cases() {
    let resolver = StaticNpmResolver { folders: vec![], roots: vec![] };
    let mut perms = AllowAllPermissions {};
    let got = resolution::try_self_parent_path(
        &resolver,
        &mut perms,
        false,
        &None,
        &None,
        &None,
    )
    .unwrap();
    assert_eq!(got, None);
    let got = resolution::try_self_parent_path(
        &resolver,
        &mut perms,
        true,
        &Some("/p/f.js".to_string()),
        &None,
        &None,
    )
    .unwrap();
    assert_eq!(got, Some("/p/f.js".to_string()));
    let got = resolution::try_self_parent_path(
        &resolver,
        &mut perms,
        true,
        &None,
        &Some("<repl>".to_string()),
        &Some("/cwd".to_string()),
    )
    .unwrap();
    assert_eq!(got, Some("/cwd".to_string()));
}

#[test]
fn file_urls_escape_and_round_trip() {
    assert_eq!(resolution::to_file_url("/a b/x.js"), "file:///a%20b/x.js");
    assert_eq!(resolution::to_file_url("/plain/x.js"), "file:///plain/x.js");
    assert_eq!(resolution::as_file_path(&resolution::to_file_url("/a b/x.js")), "/a b/x.js");
}

#[test]
fn imports_op_renders_a_file_url_with_escapes() {
    let fs = InMemoryFileSystem {
        entries: vec![file("/p kg/package.json", "{\"imports\": {\"#a\": \"./s p.js\"}}")],
    };
    let resolver = StaticNpmResolver { folders: vec![], roots: vec![] };
    let mut perms = AllowAllPermissions {};
    let mut cache = PackageJsonCache::new();
    let got = resolution::package_imports_resolve(
        &fs,
        &resolver,
        &mut perms,
        &mut cache,
        "/p kg",
        "#a",
    )
    .unwrap();
    assert_eq!(got, Some("file:///p%20kg/s%20p.js".to_string()));
}

#[test]
fn closest_package_json_gate_refusal_names_the_directory() {
    let fs = InMemoryFileSystem {
        entries: vec![file("/pkg/package.json", "{}")],
    };
    let resolver = StaticNpmResolver { folders: vec![], roots: vec![] };
    let mut perms = DenyAllPermissions {};
    let mut cache = PackageJsonCache::new();
    let got = package_json::get_closest_package_json(
        &fs,
        &resolver,
        &mut perms,
        &mut cache,
        "/pkg/src/file.js",
    );
    match got {
        Err(NodeError::PermissionDenied(p)) => assert_eq!(p, "/pkg/src"),
        _ => panic!("the refusal should name the referrer's directory"),
    }
    assert_eq!(cache.entries.len(), 0);
}

#[test]
fn try_self_parent_path_repl_cases() {
    let resolver = StaticNpmResolver { folders: vec![], roots: vec![] };
    let mut perms = AllowAllPermissions {};
    // a parent id outside the repl/preload pair yields nothing
    let got = resolution::try_self_parent_path(
        &resolver,
        &mut perms,
        true,
        &None,
        &Some("other/id".to_string()),
        &Some("/cwd".to_string()),
    )
    .unwrap();
    assert_eq!(got, None);
    // the repl id with a refused working directory surfaces the refusal
    let mut deny = DenyAllPermissions {};
    let got = resolution::try_self_parent_path(
        &resolver,
        &mut deny,
        true,
        &None,
        &Some("<repl>".to_string()),
        &Some("/cwd".to_string()),
    );
    assert!(matches!(got, Err(NodeError::PermissionDenied(_))));
}

#[test]
fn relative_requests_need_no_permission() {
    let fs = InMemoryFileSystem { entries: vec![] };
    let resolver = StaticNpmResolver { folders: vec![], roots: vec![] };
    let mut perms = DenyAllPermissions {};
    let mut cache = PackageJsonCache::new();
    let conditions = resolution::require_conditions();
    let got = resolution::package_resolve(
        &fs,
        &resolver,
        &mut perms,
        &mut cache,
        "./x.js",
        "/a/b/f.js",
        NodeModuleKind::Cjs,
        &conditions,
        NodeResolutionMode::Execution,
    )
    .unwrap();
    assert_eq!(got, "/a/b/x.js");
}

#[test]
fn stat_read_and_real_path() {
    let fs = InMemoryFileSystem {
        entries: vec![file("/f.txt", "hello"), dir("/d")],
    };
    let resolver = StaticNpmResolver { folders: vec![], roots: vec![] };
    let mut perms = AllowAllPermissions {};
    assert_eq!(resolution::stat(&fs, &resolver, &mut perms, "/f.txt").unwrap(), 0);
    assert_eq!(resolution::stat(&fs, &resolver, &mut perms, "/d").unwrap(), 1);
    assert_eq!(resolution::stat(&fs, &resolver, &mut perms, "/gone").unwrap(), -1);
    assert_eq!(
        resolution::read_file(&fs, &resolver, &mut perms, "/f.txt").unwrap(),
        "hello"
    );
    assert!(matches!(
        resolution::read_file(&fs, &resolver, &mut perms, "/gone"),
        Err(NodeError::Io(_))
    ));
    assert_eq!(
        resolution::real_path(&fs, &resolver, &mut perms, "/f.txt").unwrap(),
        "/f.txt"
    );
}

#[test]
fn condition_precedence_is_key_insertion_order() {
    // `default` listed first wins even though `node` also matches
    let fs = InMemoryFileSystem {
        entries: vec![file(
            "/pkg/package.json",
            "{\"exports\": {\".\": {\"default\": \"./d.js\", \"node\": \"./n.js\"}}}",
        )],
    };
    let resolver = resolver_for("p", "/pkg");
    assert_eq!(resolve(&fs, &resolver, "p", "/x/i.js").unwrap(), "/pkg/d.js");
}

#[test]
fn whole_exports_value_stands_for_the_dot_subpath() {
    let fs = InMemoryFileSystem {
        entries: vec![file("/pkg/package.json", "{\"exports\": \"./only.js\"}")],
    };
    let resolver = resolver_for("p", "/pkg");
    assert_eq!(resolve(&fs, &resolver, "p", "/x/i.js").unwrap(), "/pkg/only.js");
    assert!(matches!(
        resolve(&fs, &resolver, "p/sub", "/x/i.js"),
        Err(NodeError::PackagePathNotExported(_, _))
    ));
}

#[test]
fn esm_conditions_pick_the_import_branch() {
    let fs = InMemoryFileSystem {
        entries: vec![file(
            "/pkg/package.json",
            "{\"exports\": {\".\": {\"require\": \"./r.js\", \"import\": \"./i.js\"}}}",
        )],
    };
    let resolver = resolver_for("p", "/pkg");
    let mut perms = AllowAllPermissions {};
    let mut cache = PackageJsonCache::new();
    let conditions = resolution::default_conditions();
    let got = resolution::package_resolve(
        &fs,
        &resolver,
        &mut perms,
        &mut cache,
        "p",
        "/x/i.js",
        NodeModuleKind::Esm,
        &conditions,
        NodeResolutionMode::Execution,
    )
    .unwrap();
    assert_eq!(got, "/pkg/i.js");
}

#[test]
fn malformed_import_requests_are_invalid() {
    let fs = InMemoryFileSystem {
        entries: vec![file("/pkg/package.json", "{\"imports\": {\"#a\": \"./a.js\"}}")],
    };
    let resolver = resolver_for("p", "/pkg");
    let mut perms = AllowAllPermissions {};
    let mut cache = PackageJsonCache::new();
    let got = resolution::package_imports_resolve(
        &fs,
        &resolver,
        &mut perms,
        &mut cache,
        "/pkg",
        "#",
    );
    assert!(matches!(got, Err(NodeError::InvalidSpecifier(_))));
    let got = resolution::package_imports_resolve(
        &fs,
        &resolver,
        &mut perms,
        &mut cache,
        "/pkg",
        "#/x",
    );
    assert!(matches!(got, Err(NodeError::InvalidSpecifier(_))));
}

#[test]
fn locator_wrappers_answer_from_the_tables() {
    let resolver = resolver_for("p", "/pkg");
    assert_eq!(
        resolution::resolve_npm_package_folder(&resolver, "p", "/x/i.js"),
        Some("/pkg".to_string())
    );
    assert_eq!(resolution::resolve_npm_package_folder(&resolver, "q", "/x/i.js"), None);
    assert!(resolution::is_inside_npm_package(&resolver, "/pkg/deep/file.js"));
    assert!(!resolution::is_inside_npm_package(&resolver, "/elsewhere"));
}
