//! `package.json` documents: loading, validation and the process-wide cache.
//! A failed read yields an empty-but-present document; a text that does not
//! parse, or whose `exports` object mixes subpath keys with condition keys,
//! is an invalid package config. Loading is a function of the filesystem
//! contents alone, and every cache entry equals what a fresh load returns.

use vstd::prelude::*;
use vstd::string::*;
use crate::errors::{ErrModel, NodeError};
use crate::json::{
    find_member, jm_of, jm_of_members, json_clone, json_parse, spec_json_parse, JsonModel,
    JsonValue,
};
use crate::host::{ensure_read_permission, FileSystem, NodePermissions, RequireNpmResolver};

verus! {

/// A `package.json` document. An absent file is represented by a document
/// with `exists` false and every optional field empty.
pub struct PackageJson {
    pub exists: bool,
    /// The absolute path of the `package.json` file itself.
    pub path: String,
    /// The directory containing it: the package root.
    pub base: String,
    pub name: Option<String>,
    pub main: Option<String>,
    pub module: Option<String>,
    pub exports: Option<JsonValue>,
    pub imports: Option<JsonValue>,
    pub bin: Option<JsonValue>,
    /// The `type` field, `none` when missing.
    pub typ: String,
    pub types: Option<String>,
}

/// Spec-level image of `PackageJson`.
pub struct PackageJsonModel {
    pub exists: bool,
    pub path: Seq<char>,
    pub base: Seq<char>,
    pub name: Option<Seq<char>>,
    pub main: Option<Seq<char>>,
    pub module: Option<Seq<char>>,
    pub exports: Option<JsonModel>,
    pub imports: Option<JsonModel>,
    pub bin: Option<JsonModel>,
    pub typ: Seq<char>,
    pub types: Option<Seq<char>>,
}

impl View for PackageJson {
    type V = PackageJsonModel;

    open spec fn view(&self) -> PackageJsonModel {
        PackageJsonModel {
            exists: self.exists,
            path: self.path@,
            base: self.base@,
            name: match self.name {
                Option::Some(s) => Option::Some(s@),
                Option::None => Option::None,
            },
            main: match self.main {
                Option::Some(s) => Option::Some(s@),
                Option::None => Option::None,
            },
            module: match self.module {
                Option::Some(s) => Option::Some(s@),
                Option::None => Option::None,
            },
            exports: match self.exports {
                Option::Some(v) => Option::Some(jm_of(v)),
                Option::None => Option::None,
            },
            imports: match self.imports {
                Option::Some(v) => Option::Some(jm_of(v)),
                Option::None => Option::None,
            },
            bin: match self.bin {
                Option::Some(v) => Option::Some(jm_of(v)),
                Option::None => Option::None,
            },
            typ: self.typ@,
            types: match self.types {
                Option::Some(s) => Option::Some(s@),
                Option::None => Option::None,
            },
        }
    }
}

/// The directory of a path, or empty for a path without segments.
pub open spec fn base_of(path: Seq<char>) -> Seq<char> {
    match crate::paths::spec_dirname(path) {
        Option::Some(d) => d,
        Option::None => Seq::empty(),
    }
}

/// The document standing for an absent `package.json`.
pub open spec fn spec_empty_doc(path: Seq<char>) -> PackageJsonModel {
    PackageJsonModel {
        exists: false,
        path: path,
        base: base_of(path),
        name: Option::None,
        main: Option::None,
        module: Option::None,
        exports: Option::None,
        imports: Option::None,
        bin: Option::None,
        typ: "none"@,
        types: Option::None,
    }
}

/// The members of a parsed document, when it is an object.
pub open spec fn doc_members(m: JsonModel) -> Seq<(Seq<char>, JsonModel)> {
    match m {
        JsonModel::Obj(ms) => ms,
        _ => Seq::empty(),
    }
}

/// The string value of a member, when present and a string.
pub open spec fn spec_get_str(ms: Seq<(Seq<char>, JsonModel)>, key: Seq<char>) -> Option<
    Seq<char>,
> {
    match find_member(ms, key) {
        Option::Some(JsonModel::Str(s)) => Option::Some(s),
        _ => Option::None,
    }
}

/// A subpath key: one beginning with `.`.
pub open spec fn key_is_subpath(k: Seq<char>) -> bool {
    k.len() > 0 && k[0] == '.'
}

/// The `exports` object mixes subpath keys and condition keys.
pub open spec fn spec_exports_mixed(ms: Seq<(Seq<char>, JsonModel)>) -> bool {
    (exists|i: int| 0 <= i < ms.len() && key_is_subpath((#[trigger] ms[i]).0)) && (exists|i: int|
        0 <= i < ms.len() && !key_is_subpath((#[trigger] ms[i]).0))
}

/// The parsed document, the exports invariant checked: what a load of
/// `path` yields from the filesystem `contents`.
pub open spec fn spec_load(contents: Map<Seq<char>, Seq<char>>, path: Seq<char>) -> Result<
    PackageJsonModel,
    ErrModel,
> {
    if !contents.contains_key(path) {
        Result::Ok(spec_empty_doc(path))
    } else {
        match spec_json_parse(contents[path]) {
            Option::None => Result::Err(ErrModel::InvalidPackageConfig(path)),
            Option::Some(m) => {
                let ms = doc_members(m);
                if (find_member(ms, "exports"@) matches Option::Some(JsonModel::Obj(ems))
                    && spec_exports_mixed(ems)) {
                    Result::Err(ErrModel::InvalidPackageConfig(path))
                } else {
                    Result::Ok(
                        PackageJsonModel {
                            exists: true,
                            path: path,
                            base: base_of(path),
                            name: spec_get_str(ms, "name"@),
                            main: spec_get_str(ms, "main"@),
                            module: spec_get_str(ms, "module"@),
                            exports: match find_member(ms, "exports"@) {
                                Option::Some(v) => Option::Some(v),
                                Option::None => Option::None,
                            },
                            imports: match find_member(ms, "imports"@) {
                                Option::Some(v) => Option::Some(v),
                                Option::None => Option::None,
                            },
                            bin: match find_member(ms, "bin"@) {
                                Option::Some(v) => Option::Some(v),
                                Option::None => Option::None,
                            },
                            typ: match spec_get_str(ms, "type"@) {
                                Option::Some(t) => t,
                                Option::None => "none"@,
                            },
                            types: spec_get_str(ms, "types"@),
                        },
                    )
                }
            },
        }
    }
}

/// The law: an `exports` object mixing subpath keys with condition keys
/// makes the load fail with an invalid-package-config error.
pub proof fn lemma_mixed_exports_rejected(
    contents: Map<Seq<char>, Seq<char>>,
    path: Seq<char>,
    m: JsonModel,
)
    requires
        contents.contains_key(path),
        spec_json_parse(contents[path]) == Option::Some(m),
        find_member(doc_members(m), "exports"@) matches Option::Some(JsonModel::Obj(ems))
            && spec_exports_mixed(ems),
    ensures
        spec_load(contents, path) == Result::<PackageJsonModel, ErrModel>::Err(
            ErrModel::InvalidPackageConfig(path),
        ),
{
}

/// The memoized documents, keyed by the path of their `package.json`.
pub struct PackageJsonCache {
    pub entries: Vec<(String, PackageJson)>,
}

/// The first cached document for the path.
pub open spec fn find_cached(entries: Seq<(String, PackageJson)>, p: Seq<char>) -> Option<
    PackageJsonModel,
>
    decreases entries.len(),
{
    if entries.len() == 0 {
        Option::None
    } else if entries[0].0@ == p {
        Option::Some(entries[0].1@)
    } else {
        find_cached(entries.skip(1), p)
    }
}

/// Every cached document equals what a fresh load returns.
pub open spec fn cache_coherent(
    entries: Seq<(String, PackageJson)>,
    contents: Map<Seq<char>, Seq<char>>,
) -> bool {
    forall|i: int|
        0 <= i < entries.len() ==> spec_load(contents, (#[trigger] entries[i]).0@)
            == Result::<PackageJsonModel, ErrModel>::Ok(entries[i].1@)
}

/// The cache grew only at the end: every old entry stands unchanged at its
/// old place. This is the insert-only discipline of the store.
pub open spec fn cache_extends(
    grown: Seq<(String, PackageJson)>,
    older: Seq<(String, PackageJson)>,
) -> bool {
    older.len() <= grown.len() && grown.take(older.len() as int) == older
}

/// A cache extends itself.
pub proof fn lemma_cache_extends_refl(e: Seq<(String, PackageJson)>)
    ensures
        cache_extends(e, e),
{
    assert(e.take(e.len() as int) =~= e);
}

/// Extension is transitive.
pub proof fn lemma_cache_extends_trans(
    a: Seq<(String, PackageJson)>,
    b: Seq<(String, PackageJson)>,
    c: Seq<(String, PackageJson)>,
)
    requires
        cache_extends(b, a),
        cache_extends(c, b),
    ensures
        cache_extends(c, a),
{
    assert forall|i: int| 0 <= i < a.len() implies c.take(a.len() as int)[i] == a[i] by {
        assert(b.take(a.len() as int)[i] == a[i]);
        assert(c.take(b.len() as int)[i] == b[i]);
    }
    assert(c.take(a.len() as int) =~= a);
}

/// The law: a cache hit returns exactly what a fresh load of the same path
/// would, so the cache never changes a result.
pub proof fn lemma_cache_hit_matches_load(
    entries: Seq<(String, PackageJson)>,
    contents: Map<Seq<char>, Seq<char>>,
    p: Seq<char>,
    d: PackageJsonModel,
)
    requires
        cache_coherent(entries, contents),
        find_cached(entries, p) == Option::Some(d),
    ensures
        spec_load(contents, p) == Result::<PackageJsonModel, ErrModel>::Ok(d),
    decreases entries.len(),
{
    if entries.len() > 0 {
        if entries[0].0@ == p {
        } else {
            assert forall|i: int| 0 <= i < entries.skip(1).len() implies spec_load(
                contents,
                (#[trigger] entries.skip(1)[i]).0@,
            ) == Result::<PackageJsonModel, ErrModel>::Ok(entries.skip(1)[i].1@) by {
                assert(entries.skip(1)[i] == entries[i + 1]);
            }
            lemma_cache_hit_matches_load(entries.skip(1), contents, p, d);
        }
    }
}

impl PackageJsonCache {
    /// An empty cache.
    pub fn new() -> (r: PackageJsonCache)
        ensures
            r.entries@.len() == 0,
    {
        PackageJsonCache { entries: Vec::new() }
    }
}

/// A copy of a document, equal in model.
pub fn clone_doc(d: &PackageJson) -> (r: PackageJson)
    ensures
        r@ == d@,
{
    PackageJson {
        exists: d.exists,
        path: d.path.clone(),
        base: d.base.clone(),
        name: match &d.name {
            Option::Some(s) => Option::Some(s.clone()),
            Option::None => Option::None,
        },
        main: match &d.main {
            Option::Some(s) => Option::Some(s.clone()),
            Option::None => Option::None,
        },
        module: match &d.module {
            Option::Some(s) => Option::Some(s.clone()),
            Option::None => Option::None,
        },
        exports: match &d.exports {
            Option::Some(v) => Option::Some(json_clone(v)),
            Option::None => Option::None,
        },
        imports: match &d.imports {
            Option::Some(v) => Option::Some(json_clone(v)),
            Option::None => Option::None,
        },
        bin: match &d.bin {
            Option::Some(v) => Option::Some(json_clone(v)),
            Option::None => Option::None,
        },
        typ: d.typ.clone(),
        types: match &d.types {
            Option::Some(s) => Option::Some(s.clone()),
            Option::None => Option::None,
        },
    }
}

/// The directory of a path, or empty for a path without segments.
pub fn base_of_exec(path: &str) -> (r: String)
    ensures
        r@ == base_of(path@),
{
    let v = crate::chars::str_to_chars(path);
    let abs = v.len() > 0 && v[0] == '/';
    let mut segs = crate::paths::parse_segments(&v);
    if segs.len() == 0 {
        proof {
            assert(crate::paths::spec_dirname(path@) is None);
        }
        let r = String::new();
        proof {
            assert(r@ =~= Seq::<char>::empty());
        }
        return r;
    }
    let ghost before = crate::paths::segs_view(segs@);
    let _ = segs.pop();
    proof {
        assert(crate::paths::segs_view(segs@) =~= before.drop_last());
    }
    let out = crate::paths::unparse_path_exec(abs, &segs);
    crate::chars::chars_to_string(&out)
}

/// Builds the document standing for an absent `package.json`.
fn empty_doc(path: &str) -> (r: PackageJson)
    ensures
        r@ == spec_empty_doc(path@),
{
    let p = crate::chars::chars_to_string(&crate::chars::str_to_chars(path));
    let base = base_of_exec(path);
    PackageJson {
        exists: false,
        path: p,
        base,
        name: Option::None,
        main: Option::None,
        module: Option::None,
        exports: Option::None,
        imports: Option::None,
        bin: Option::None,
        typ: String::from_str("none"),
        types: Option::None,
    }
}

/// The string value of a member, when present and a string.
fn get_str_field(members: &Vec<(String, JsonValue)>, key: &str) -> (r: Option<String>)
    ensures
        match r {
            Option::Some(s) => spec_get_str(jm_of_members(members@), key@) == Option::Some(s@),
            Option::None => spec_get_str(jm_of_members(members@), key@) is None,
        },
{
    match crate::json::obj_get(members, key) {
        Option::Some(v) => match v {
            JsonValue::Str(s) => Option::Some(s.clone()),
            _ => Option::None,
        },
        Option::None => Option::None,
    }
}

/// A copy of a member's value, when present.
fn get_val_field(members: &Vec<(String, JsonValue)>, key: &str) -> (r: Option<JsonValue>)
    ensures
        match r {
            Option::Some(v) => find_member(jm_of_members(members@), key@) == Option::Some(v@),
            Option::None => find_member(jm_of_members(members@), key@) is None,
        },
{
    match crate::json::obj_get(members, key) {
        Option::Some(v) => Option::Some(json_clone(v)),
        Option::None => Option::None,
    }
}

/// Whether the members mix subpath keys and condition keys.
fn exports_mixed_exec(members: &Vec<(String, JsonValue)>) -> (r: bool)
    ensures
        r == spec_exports_mixed(jm_of_members(members@)),
{
    let ghost model = jm_of_members(members@);
    proof {
        crate::json::lemma_jm_of_members_index(members@);
    }
    let mut has_dot = false;
    let mut has_plain = false;
    let mut i: usize = 0;
    while i < members.len()
        invariant
            i <= members@.len(),
            model == jm_of_members(members@),
            model.len() == members@.len(),
            forall|j: int|
                0 <= j < members@.len() ==> model[j] == ((#[trigger] members@[j]).0@, jm_of(
                    members@[j].1,
                )),
            has_dot == (exists|j: int| 0 <= j < i && key_is_subpath((#[trigger] model[j]).0)),
            has_plain == (exists|j: int| 0 <= j < i && !key_is_subpath((#[trigger] model[j]).0)),
        decreases members@.len() - i,
    {
        let k = crate::chars::str_to_chars(members[i].0.as_str());
        if k.len() > 0 && k[0] == '.' {
            proof {
                assert(key_is_subpath(model[i as int].0));
            }
            has_dot = true;
        } else {
            proof {
                assert(!key_is_subpath(model[i as int].0));
            }
            has_plain = true;
        }
        i = i + 1;
    }
    has_dot && has_plain
}

/// Loads, validates and memoizes the document at `path`. What comes back is
/// a function of the filesystem contents alone; the cache only saves work.
/// Fails when the permission gate refuses, when the text does not parse, or
/// when its `exports` mixes subpath and condition keys.
pub fn load<F: FileSystem, R: RequireNpmResolver, P: NodePermissions>(
    fs: &F,
    resolver: &R,
    permissions: &mut P,
    cache: &mut PackageJsonCache,
    path: &str,
) -> (r: Result<PackageJson, NodeError>)
    requires
        cache_coherent(old(cache).entries@, fs.contents()),
    ensures
        cache_coherent(final(cache).entries@, fs.contents()),
        cache_extends(final(cache).entries@, old(cache).entries@),
        r is Err ==> final(cache).entries@ == old(cache).entries@,
        match r {
            Result::Ok(d) => spec_load(fs.contents(), path@) == Result::<
                PackageJsonModel,
                ErrModel,
            >::Ok(d@) && find_cached(final(cache).entries@, path@) == Option::Some(d@),
            Result::Err(e) => e@ == ErrModel::PermissionDenied(path@) || spec_load(
                fs.contents(),
                path@,
            ) == Result::<PackageJsonModel, ErrModel>::Err(e@),
        },
{
    proof {
        lemma_cache_extends_refl(old(cache).entries@);
    }
    match ensure_read_permission(resolver, permissions, path) {
        Result::Err(e) => {
            return Result::Err(e);
        },
        Result::Ok(()) => {},
    }
    let pv = crate::chars::str_to_chars(path);

    // A cache hit is returned as-is; coherence makes it equal a fresh load.
    let mut i: usize = 0;
    proof {
        assert(cache.entries@.skip(0) =~= cache.entries@);
    }
    while i < cache.entries.len()
        invariant
            i <= cache.entries@.len(),
            pv@ == path@,
            cache == old(cache),
            cache_coherent(cache.entries@, fs.contents()),
            find_cached(cache.entries@, path@) == find_cached(
                cache.entries@.skip(i as int),
                path@,
            ),
        decreases cache.entries@.len() - i,
    {
        proof {
            assert(cache.entries@.skip(i as int)[0] == cache.entries@[i as int]);
        }
        let cand = crate::chars::str_to_chars(cache.entries[i].0.as_str());
        if crate::chars::chars_eq(&cand, &pv) {
            let d = clone_doc(&cache.entries[i].1);
            proof {
                lemma_cache_hit_matches_load(cache.entries@, fs.contents(), path@, d@);
                lemma_cache_extends_refl(cache.entries@);
            }
            return Result::Ok(d);
        }
        proof {
            assert(cache.entries@.skip(i as int).skip(1) =~= cache.entries@.skip(i as int + 1));
        }
        i = i + 1;
    }
    proof {
        assert(cache.entries@.skip(i as int).len() == 0);
        assert(find_cached(cache.entries@, path@) is None);
    }

    let doc = match fs.read_text_file(path) {
        Result::Err(_) => empty_doc(path),
        Result::Ok(text) => {
            match json_parse(text.as_str()) {
                Option::None => {
                    return Result::Err(
                        NodeError::InvalidPackageConfig(crate::chars::chars_to_string(&pv)),
                    );
                },
                Option::Some(parsed) => {
                    let members: &Vec<(String, JsonValue)> = match &parsed {
                        JsonValue::Obj(ms) => ms,
                        _ => &Vec::new(),
                    };
                    proof {
                        if !(parsed@ matches JsonModel::Obj(_)) {
                            assert(jm_of_members(Seq::<(String, JsonValue)>::empty())
                                =~= Seq::<(Seq<char>, JsonModel)>::empty());
                        }
                    }
                    let mixed = match crate::json::obj_get(members, "exports") {
                        Option::Some(ex) => match ex {
                            JsonValue::Obj(ems) => exports_mixed_exec(ems),
                            _ => false,
                        },
                        Option::None => false,
                    };
                    if mixed {
                        return Result::Err(
                            NodeError::InvalidPackageConfig(crate::chars::chars_to_string(&pv)),
                        );
                    }
                    let typ = match get_str_field(members, "type") {
                        Option::Some(t) => t,
                        Option::None => String::from_str("none"),
                    };
                    PackageJson {
                        exists: true,
                        path: crate::chars::chars_to_string(&pv),
                        base: base_of_exec(path),
                        name: get_str_field(members, "name"),
                        main: get_str_field(members, "main"),
                        module: get_str_field(members, "module"),
                        exports: get_val_field(members, "exports"),
                        imports: get_val_field(members, "imports"),
                        bin: get_val_field(members, "bin"),
                        typ,
                        types: get_str_field(members, "types"),
                    }
                },
            }
        },
    };
    let key = crate::chars::chars_to_string(&pv);
    let ghost old_entries = cache.entries@;
    cache.entries.push((key, doc));
    let ghost pushed = cache.entries@;
    proof {
        assert forall|j: int| 0 <= j < pushed.len() implies spec_load(
            fs.contents(),
            (#[trigger] pushed[j]).0@,
        ) == Result::<PackageJsonModel, ErrModel>::Ok(pushed[j].1@) by {
            if j < old_entries.len() {
                assert(pushed[j] == old_entries[j]);
            } else {
                assert(pushed[j] == (key, doc));
            }
        }
        lemma_find_cached_no_match_push(old_entries, key, doc, path@);
        assert(pushed.take(old_entries.len() as int) =~= old_entries);
    }
    let last = cache.entries.len() - 1;
    let out = clone_doc(&cache.entries[last].1);
    Result::Ok(out)
}

/// Pushing a new entry for an uncached path makes it the cached document.
proof fn lemma_find_cached_no_match_push(
    entries: Seq<(String, PackageJson)>,
    key: String,
    doc: PackageJson,
    p: Seq<char>,
)
    requires
        find_cached(entries, p) is None,
        key@ == p,
    ensures
        find_cached(entries.push((key, doc)), p) == Option::Some(doc@),
    decreases entries.len(),
{
    if entries.len() == 0 {
        assert(entries.push((key, doc))[0] == (key, doc));
    } else {
        assert(entries.push((key, doc))[0] == entries[0]);
        assert(entries.push((key, doc)).skip(1) =~= entries.skip(1).push((key, doc)));
        lemma_find_cached_no_match_push(entries.skip(1), key, doc, p);
    }
}

/// `d` lies within the tree rooted at `root`: it is the root itself or
/// below it.
pub open spec fn dir_within(d: Seq<char>, root: Seq<char>) -> bool {
    d == root || crate::chars::is_prefix_of(root + seq!['/'], d)
}

/// `d` lies within the tree rooted at `root`.
pub fn dir_within_exec(d: &Vec<char>, root: &Vec<char>) -> (r: bool)
    ensures
        r == dir_within(d@, root@),
{
    if crate::chars::chars_eq(d, root) {
        return true;
    }
    let n = root.len();
    let mut with_slash = crate::chars::subrange_chars(root, 0, n);
    with_slash.push('/');
    proof {
        assert(root@.subrange(0, root@.len() as int) =~= root@);
        assert(with_slash@ =~= root@ + seq!['/']);
    }
    crate::chars::starts_with_chars(d, &with_slash)
}

/// The first `package.json` above the directory with the given segments,
/// ascending only while the directory stays within `root`.
pub open spec fn closest_ascend(
    files: Map<Seq<char>, crate::host::FileKind>,
    segs: Seq<Seq<char>>,
    root: Seq<char>,
) -> Option<Seq<char>>
    decreases segs.len(),
{
    if segs.len() == 0 {
        Option::None
    } else {
        let parent_segs = segs.drop_last();
        let pdir = crate::paths::unparse_path(true, parent_segs);
        if !dir_within(pdir, root) {
            Option::None
        } else {
            let cand = crate::resolution::join_dir(pdir, "package.json"@);
            if files.contains_key(cand) && files[cand] is File {
                Option::Some(cand)
            } else {
                closest_ascend(files, parent_segs, root)
            }
        }
    }
}

/// The `package.json` the walk from `file` finds: the one beside it, or
/// the nearest one above within the managed package tree.
pub open spec fn spec_closest_found(
    files: Map<Seq<char>, crate::host::FileKind>,
    file: Seq<char>,
    root_opt: Option<Seq<char>>,
) -> Option<Seq<char>> {
    let dsegs = parent_segs(file);
    let dir0 = crate::paths::unparse_path(true, dsegs);
    let cand0 = crate::resolution::join_dir(dir0, "package.json"@);
    if files.contains_key(cand0) && files[cand0] is File {
        Option::Some(cand0)
    } else {
        match root_opt {
            Option::None => Option::None,
            Option::Some(root) => closest_ascend(files, dsegs, root),
        }
    }
}

/// The path whose load answers a closest-package query: the found
/// `package.json`, or the one beside the file (whose load then yields the
/// empty document).
pub open spec fn spec_closest_target(
    files: Map<Seq<char>, crate::host::FileKind>,
    file: Seq<char>,
    root_opt: Option<Seq<char>>,
) -> Seq<char> {
    match spec_closest_found(files, file, root_opt) {
        Option::Some(p) => p,
        Option::None => {
            let dir0 = crate::paths::unparse_path(true, parent_segs(file));
            crate::resolution::join_dir(dir0, "package.json"@)
        },
    }
}

/// The directory containing `file`, as the walk writes it.
pub open spec fn spec_parent_dir(file: Seq<char>) -> Seq<char> {
    crate::paths::unparse_path(true, parent_segs(file))
}

/// The segments of the directory containing `file`.
pub open spec fn parent_segs(file: Seq<char>) -> Seq<Seq<char>> {
    let p = crate::paths::parse_segs(file, 0);
    if p.len() == 0 {
        p
    } else {
        p.drop_last()
    }
}

/// Ascends from the file's directory, probing each directory for a
/// `package.json`; the first existing one wins, the walk stopping at the
/// filesystem root or on leaving the managed package tree the file lies
/// in. Read permission on the file's directory is checked before any
/// probing. Absence is no error: the result is then the empty document.
pub fn get_closest_package_json<
    F: FileSystem,
    R: RequireNpmResolver,
    P: NodePermissions,
>(
    fs: &F,
    resolver: &R,
    permissions: &mut P,
    cache: &mut PackageJsonCache,
    file_path: &str,
) -> (r: Result<PackageJson, NodeError>)
    requires
        cache_coherent(old(cache).entries@, fs.contents()),
    ensures
        cache_coherent(final(cache).entries@, fs.contents()),
        cache_extends(final(cache).entries@, old(cache).entries@),
        r is Err ==> final(cache).entries@ == old(cache).entries@,
        match r {
            Result::Ok(d) => spec_load(
                fs.contents(),
                spec_closest_target(fs.files(), file_path@, resolver.package_root_of(file_path@)),
            ) == Result::<PackageJsonModel, ErrModel>::Ok(d@),
            Result::Err(e) => e@ == ErrModel::PermissionDenied(spec_parent_dir(file_path@)) || e@
                == ErrModel::PermissionDenied(
                spec_closest_target(fs.files(), file_path@, resolver.package_root_of(file_path@)),
            ) || spec_load(
                fs.contents(),
                spec_closest_target(fs.files(), file_path@, resolver.package_root_of(file_path@)),
            ) == Result::<PackageJsonModel, ErrModel>::Err(e@),
        },
{
    let fv = crate::chars::str_to_chars(file_path);
    let mut segs = crate::paths::parse_segments(&fv);
    if segs.len() > 0 {
        let ghost before = crate::paths::segs_view(segs@);
        let _ = segs.pop();
        proof {
            assert(crate::paths::segs_view(segs@) =~= before.drop_last());
        }
    }
    let ghost dsegs = crate::paths::segs_view(segs@);
    proof {
        assert(dsegs =~= parent_segs(file_path@));
    }
    let dir0 = crate::paths::unparse_path_exec(true, &segs);
    let dir0_s = crate::chars::chars_to_string(&dir0);
    match ensure_read_permission(resolver, permissions, dir0_s.as_str()) {
        Result::Err(e) => {
            proof {
                lemma_cache_extends_refl(cache.entries@);
            }
            return Result::Err(e);
        },
        Result::Ok(()) => {},
    }
    let pj = crate::chars::str_to_chars("package.json");
    let cand0v = crate::resolution::join_dir_exec(&dir0, &pj);
    let cand0 = crate::chars::chars_to_string(&cand0v);
    proof {
        assert(cand0@ == crate::resolution::join_dir(
            crate::paths::unparse_path(true, parent_segs(file_path@)),
            "package.json"@,
        ));
    }
    if fs.stat(cand0.as_str()) == 0 {
        return load(fs, resolver, permissions, cache, cand0.as_str());
    }
    match resolver.resolve_package_folder_from_path(file_path) {
        Option::None => load(fs, resolver, permissions, cache, cand0.as_str()),
        Option::Some(root) => {
            let rootv = crate::chars::str_to_chars(root.as_str());
            let ghost all = dsegs;
            while segs.len() > 0
                invariant
                    cache_coherent(cache.entries@, fs.contents()),
                    cache.entries@ == old(cache).entries@,
                    resolver.package_root_of(file_path@) == Option::Some(rootv@),
                    all == parent_segs(file_path@),
                    cand0@ == crate::resolution::join_dir(
                        crate::paths::unparse_path(true, parent_segs(file_path@)),
                        "package.json"@,
                    ),
                    !(fs.files().contains_key(cand0@) && fs.files()[cand0@] is File),
                    crate::paths::segs_view(segs@) =~= all.take(segs@.len() as int),
                    segs@.len() <= all.len(),
                    pj@ == "package.json"@,
                    closest_ascend(fs.files(), all, rootv@) == closest_ascend(
                        fs.files(),
                        crate::paths::segs_view(segs@),
                        rootv@,
                    ),
                decreases segs@.len(),
            {
                let ghost cur = crate::paths::segs_view(segs@);
                let _ = segs.pop();
                proof {
                    assert(crate::paths::segs_view(segs@) =~= cur.drop_last());
                    assert(cur.drop_last() =~= all.take(segs@.len() as int));
                }
                let pdir = crate::paths::unparse_path_exec(true, &segs);
                if !dir_within_exec(&pdir, &rootv) {
                    proof {
                        assert(closest_ascend(fs.files(), cur, rootv@) is None);
                        assert(cand0@ == crate::resolution::join_dir(
                            crate::paths::unparse_path(true, parent_segs(file_path@)),
                            "package.json"@,
                        ));
                        assert(spec_closest_found(fs.files(), file_path@, resolver.package_root_of(file_path@)) is None);
                        assert(spec_closest_target(fs.files(), file_path@, resolver.package_root_of(file_path@)) == cand0@);
                    }
                    return load(fs, resolver, permissions, cache, cand0.as_str());
                }
                let candv = crate::resolution::join_dir_exec(&pdir, &pj);
                let cand = crate::chars::chars_to_string(&candv);
                if fs.stat(cand.as_str()) == 0 {
                    proof {
                        assert(closest_ascend(fs.files(), cur, rootv@) == Option::Some(cand@));
                        assert(spec_closest_target(fs.files(), file_path@, resolver.package_root_of(file_path@)) == cand@);
                    }
                    return load(fs, resolver, permissions, cache, cand.as_str());
                }
            }
            proof {
                assert(crate::paths::segs_view(segs@).len() == 0);
                assert(closest_ascend(fs.files(), crate::paths::segs_view(segs@), rootv@)
                    is None);
            }
            load(fs, resolver, permissions, cache, cand0.as_str())
        },
    }
}

/// The `package.json` of the managed package the referrer lies in, if the
/// locator knows one.
pub fn get_package_scope_config<
    F: FileSystem,
    R: RequireNpmResolver,
    P: NodePermissions,
>(
    fs: &F,
    resolver: &R,
    permissions: &mut P,
    cache: &mut PackageJsonCache,
    referrer: &str,
) -> (r: Result<Option<PackageJson>, NodeError>)
    requires
        cache_coherent(old(cache).entries@, fs.contents()),
    ensures
        cache_coherent(final(cache).entries@, fs.contents()),
        cache_extends(final(cache).entries@, old(cache).entries@),
        r is Err ==> final(cache).entries@ == old(cache).entries@,
        resolver.package_root_of(referrer@) is None ==> (r matches Result::Ok(p) && p is None),
        match r {
            Result::Ok(Option::None) => resolver.package_root_of(referrer@) is None,
            Result::Ok(Option::Some(d)) => match resolver.package_root_of(referrer@) {
                Option::Some(root) => spec_load(
                    fs.contents(),
                    crate::resolution::join_dir(root, "package.json"@),
                ) == Result::<PackageJsonModel, ErrModel>::Ok(d@),
                Option::None => false,
            },
            Result::Err(e) => match resolver.package_root_of(referrer@) {
                Option::Some(root) => e@ == ErrModel::PermissionDenied(
                    crate::resolution::join_dir(root, "package.json"@),
                ) || spec_load(
                    fs.contents(),
                    crate::resolution::join_dir(root, "package.json"@),
                ) == Result::<PackageJsonModel, ErrModel>::Err(e@),
                Option::None => false,
            },
        },
{
    match resolver.resolve_package_folder_from_path(referrer) {
        Option::None => {
            proof {
                lemma_cache_extends_refl(cache.entries@);
            }
            Result::Ok(Option::None)
        },
        Option::Some(root) => {
            let rootv = crate::chars::str_to_chars(root.as_str());
            let pj = crate::chars::str_to_chars("package.json");
            let candv = crate::resolution::join_dir_exec(&rootv, &pj);
            let cand = crate::chars::chars_to_string(&candv);
            match load(fs, resolver, permissions, cache, cand.as_str()) {
                Result::Ok(d) => Result::Ok(Option::Some(d)),
                Result::Err(e) => Result::Err(e),
            }
        },
    }
}

} // verus!
