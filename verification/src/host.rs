//! The interfaces the core consumes from its host — the permission checker,
//! the npm-package locator, and the filesystem — together with in-memory
//! implementations. Each trait carries a specification model, so everything
//! resolved through it is pinned by the model of the implementation at hand.

use vstd::prelude::*;
use crate::errors::{ErrModel, NodeError};
use crate::resolution::NodeResolutionMode;

verus! {

/// What a path names on disk.
#[derive(Clone, Copy, PartialEq, Eq, Structural, Debug)]
pub enum FileKind {
    File,
    Dir,
}

/// The stat code the host surface uses: `0` file, `1` directory, `-1` missing.
pub open spec fn spec_stat(files: Map<Seq<char>, FileKind>, p: Seq<char>) -> i32 {
    if files.contains_key(p) {
        if files[p] is File {
            0
        } else {
            1
        }
    } else {
        -1i32
    }
}

/// The host's permission object. A check may be refused for any path at any
/// time (the host can prompt and upgrade), so nothing is promised of which
/// paths pass; a refusal is always a permission-denied error.
pub trait NodePermissions {
    fn check_read(&mut self, path: &str) -> (r: Result<(), NodeError>)
        ensures
            r matches Result::Err(e) ==> e@ == ErrModel::PermissionDenied(path@),
    ;
}

/// The npm-package folder locator the host provides. Its answers are
/// pinned by the three model functions, so a resolution through it is a
/// function of the model.
pub trait RequireNpmResolver {
    /// Which folder the locator maps a bare specifier to, from a referrer.
    spec fn folder_for(
        &self,
        specifier: Seq<char>,
        referrer: Seq<char>,
        mode: NodeResolutionMode,
    ) -> Option<Seq<char>>;

    /// The root folder of the managed package a path lies in, if any.
    spec fn package_root_of(&self, path: Seq<char>) -> Option<Seq<char>>;

    /// Whether a path lies inside a managed package tree.
    spec fn in_package(&self, path: Seq<char>) -> bool;

    fn resolve_package_folder_from_package(
        &self,
        specifier: &str,
        referrer: &str,
        mode: NodeResolutionMode,
    ) -> (r: Option<String>)
        ensures
            match r {
                Option::Some(f) => self.folder_for(specifier@, referrer@, mode) == Option::Some(
                    f@,
                ),
                Option::None => self.folder_for(specifier@, referrer@, mode) is None,
            },
    ;

    fn resolve_package_folder_from_path(&self, path: &str) -> (r: Option<String>)
        ensures
            match r {
                Option::Some(f) => self.package_root_of(path@) == Option::Some(f@),
                Option::None => self.package_root_of(path@) is None,
            },
    ;

    fn in_npm_package(&self, path: &str) -> (r: bool)
        ensures
            r == self.in_package(path@),
    ;
}

/// The host's filesystem. `files` gives what each path names, `contents`
/// the text of each readable file, and `canon` the canonical form of each
/// resolvable path.
pub trait FileSystem {
    /// What each existing path names.
    spec fn files(&self) -> Map<Seq<char>, FileKind>;

    /// The text behind each readable file path.
    spec fn contents(&self) -> Map<Seq<char>, Seq<char>>;

    /// The canonical form of each resolvable path.
    spec fn canon(&self) -> Map<Seq<char>, Seq<char>>;

    fn stat(&self, path: &str) -> (r: i32)
        ensures
            r == spec_stat(self.files(), path@),
    ;

    fn read_text_file(&self, path: &str) -> (r: Result<String, NodeError>)
        ensures
            match r {
                Result::Ok(s) => self.contents().contains_key(path@) && s@ == self.contents()[
                    path@
                ],
                Result::Err(e) => !self.contents().contains_key(path@) && e@ == ErrModel::Io(
                    path@,
                ),
            },
    ;

    fn canonicalize(&self, path: &str) -> (r: Result<String, NodeError>)
        ensures
            match r {
                Result::Ok(s) => self.canon().contains_key(path@) && s@ == self.canon()[path@],
                Result::Err(e) => !self.canon().contains_key(path@) && e@ == ErrModel::Io(path@),
            },
    ;
}

/// The permission gate: the npm-resolver is consulted first, since it may
/// grant implicit read access inside managed package trees; only outside
/// them is the host's permission object asked.
pub fn ensure_read_permission<R: RequireNpmResolver, P: NodePermissions>(
    resolver: &R,
    permissions: &mut P,
    path: &str,
) -> (r: Result<(), NodeError>)
    ensures
        resolver.in_package(path@) ==> r is Ok,
        r matches Result::Err(e) ==> e@ == ErrModel::PermissionDenied(path@),
{
    if resolver.in_npm_package(path) {
        Result::Ok(())
    } else {
        permissions.check_read(path)
    }
}

/// A permission object that grants every read.
pub struct AllowAllPermissions {}

impl NodePermissions for AllowAllPermissions {
    fn check_read(&mut self, path: &str) -> (r: Result<(), NodeError>)
        ensures
            r is Ok,
    {
        Result::Ok(())
    }
}

/// A permission object that refuses every read.
pub struct DenyAllPermissions {}

impl NodePermissions for DenyAllPermissions {
    fn check_read(&mut self, path: &str) -> (r: Result<(), NodeError>)
        ensures
            r matches Result::Err(e) ==> e@ == ErrModel::PermissionDenied(path@),
            r is Err,
    {
        let v = crate::chars::str_to_chars(path);
        Result::Err(NodeError::PermissionDenied(crate::chars::chars_to_string(&v)))
    }
}

/// One filesystem entry of the in-memory filesystem.
pub struct FsEntry {
    pub path: String,
    pub kind: FileKind,
    pub text: String,
}

/// The first entry with the given path.
pub open spec fn find_entry(entries: Seq<FsEntry>, p: Seq<char>) -> Option<FsEntry>
    decreases entries.len(),
{
    if entries.len() == 0 {
        Option::None
    } else if entries[0].path@ == p {
        Option::Some(entries[0])
    } else {
        find_entry(entries.skip(1), p)
    }
}

/// An in-memory filesystem: a list of entries, the first with a given path
/// winning. Canonicalization is the identity on existing paths.
pub struct InMemoryFileSystem {
    pub entries: Vec<FsEntry>,
}

impl InMemoryFileSystem {
    /// An empty filesystem.
    pub fn new() -> (r: InMemoryFileSystem)
        ensures
            r.entries@.len() == 0,
    {
        InMemoryFileSystem { entries: Vec::new() }
    }

    /// Appends a regular file holding `text`.
    pub fn add_file(&mut self, path: &str, text: &str)
        ensures
            final(self).entries@.len() == old(self).entries@.len() + 1,
            final(self).entries@.take(old(self).entries@.len() as int) == old(self).entries@,
            final(self).entries@.last().path@ == path@,
            final(self).entries@.last().kind is File,
            final(self).entries@.last().text@ == text@,
    {
        let p = crate::chars::chars_to_string(&crate::chars::str_to_chars(path));
        let t = crate::chars::chars_to_string(&crate::chars::str_to_chars(text));
        self.entries.push(FsEntry { path: p, kind: FileKind::File, text: t });
        proof {
            assert(self.entries@.take(self.entries@.len() - 1) =~= old(self).entries@);
        }
    }

    /// Appends a directory.
    pub fn add_dir(&mut self, path: &str)
        ensures
            final(self).entries@.len() == old(self).entries@.len() + 1,
            final(self).entries@.take(old(self).entries@.len() as int) == old(self).entries@,
            final(self).entries@.last().path@ == path@,
            final(self).entries@.last().kind is Dir,
    {
        let p = crate::chars::chars_to_string(&crate::chars::str_to_chars(path));
        let t = String::new();
        self.entries.push(FsEntry { path: p, kind: FileKind::Dir, text: t });
        proof {
            assert(self.entries@.take(self.entries@.len() - 1) =~= old(self).entries@);
        }
    }

    /// The first entry with the given path, if any.
    fn lookup(&self, path: &str) -> (r: Option<usize>)
        ensures
            match r {
                Option::Some(i) => i < self.entries@.len() && self.entries@[i as int].path@
                    == path@ && find_entry(self.entries@, path@) == Option::Some(
                    self.entries@[i as int],
                ),
                Option::None => find_entry(self.entries@, path@) is None,
            },
    {
        let v = crate::chars::str_to_chars(path);
        let mut i: usize = 0;
        proof {
            assert(self.entries@.skip(0) =~= self.entries@);
        }
        while i < self.entries.len()
            invariant
                i <= self.entries@.len(),
                v@ == path@,
                find_entry(self.entries@, path@) == find_entry(
                    self.entries@.skip(i as int),
                    path@,
                ),
            decreases self.entries@.len() - i,
        {
            let cand = crate::chars::str_to_chars(self.entries[i].path.as_str());
            proof {
                assert(self.entries@.skip(i as int)[0] == self.entries@[i as int]);
            }
            if crate::chars::chars_eq(&cand, &v) {
                return Option::Some(i);
            }
            proof {
                assert(self.entries@.skip(i as int).skip(1) =~= self.entries@.skip(i as int + 1));
            }
            i = i + 1;
        }
        proof {
            assert(self.entries@.skip(i as int).len() == 0);
        }
        Option::None
    }
}

impl FileSystem for InMemoryFileSystem {
    open spec fn files(&self) -> Map<Seq<char>, FileKind> {
        Map::new(
            |p: Seq<char>| find_entry(self.entries@, p) is Some,
            |p: Seq<char>| find_entry(self.entries@, p)->Some_0.kind,
        )
    }

    open spec fn contents(&self) -> Map<Seq<char>, Seq<char>> {
        Map::new(
            |p: Seq<char>|
                find_entry(self.entries@, p) matches Option::Some(e) && e.kind is File,
            |p: Seq<char>| find_entry(self.entries@, p)->Some_0.text@,
        )
    }

    open spec fn canon(&self) -> Map<Seq<char>, Seq<char>> {
        Map::new(|p: Seq<char>| find_entry(self.entries@, p) is Some, |p: Seq<char>| p)
    }

    fn stat(&self, path: &str) -> (r: i32)
        ensures
            r == spec_stat(self.files(), path@),
    {
        match self.lookup(path) {
            Option::Some(i) => {
                if matches!(self.entries[i].kind, FileKind::File) {
                    0
                } else {
                    1
                }
            },
            Option::None => -1,
        }
    }

    fn read_text_file(&self, path: &str) -> (r: Result<String, NodeError>)
        ensures
            match r {
                Result::Ok(s) => self.contents().contains_key(path@) && s@ == self.contents()[
                    path@
                ],
                Result::Err(e) => !self.contents().contains_key(path@) && e@ == ErrModel::Io(
                    path@,
                ),
            },
    {
        match self.lookup(path) {
            Option::Some(i) => {
                if matches!(self.entries[i].kind, FileKind::File) {
                    let t = crate::chars::str_to_chars(self.entries[i].text.as_str());
                    Result::Ok(crate::chars::chars_to_string(&t))
                } else {
                    let v = crate::chars::str_to_chars(path);
                    Result::Err(NodeError::Io(crate::chars::chars_to_string(&v)))
                }
            },
            Option::None => {
                let v = crate::chars::str_to_chars(path);
                Result::Err(NodeError::Io(crate::chars::chars_to_string(&v)))
            },
        }
    }

    fn canonicalize(&self, path: &str) -> (r: Result<String, NodeError>)
        ensures
            match r {
                Result::Ok(s) => self.canon().contains_key(path@) && s@ == self.canon()[path@],
                Result::Err(e) => !self.canon().contains_key(path@) && e@ == ErrModel::Io(path@),
            },
    {
        match self.lookup(path) {
            Option::Some(_) => {
                let v = crate::chars::str_to_chars(path);
                Result::Ok(crate::chars::chars_to_string(&v))
            },
            Option::None => {
                let v = crate::chars::str_to_chars(path);
                Result::Err(NodeError::Io(crate::chars::chars_to_string(&v)))
            },
        }
    }
}

/// One mapping of the static npm-locator: a specifier and its folder.
pub struct NpmFolderEntry {
    pub specifier: String,
    pub folder: String,
}

/// The first folder mapped to the given specifier.
pub open spec fn find_folder(entries: Seq<NpmFolderEntry>, s: Seq<char>) -> Option<Seq<char>>
    decreases entries.len(),
{
    if entries.len() == 0 {
        Option::None
    } else if entries[0].specifier@ == s {
        Option::Some(entries[0].folder@)
    } else {
        find_folder(entries.skip(1), s)
    }
}

/// The first root that contains the path: the root itself, or a prefix of
/// it followed by `/`.
pub open spec fn find_root(roots: Seq<String>, p: Seq<char>) -> Option<Seq<char>>
    decreases roots.len(),
{
    if roots.len() == 0 {
        Option::None
    } else if roots[0]@ == p || crate::chars::is_prefix_of(roots[0]@ + seq!['/'], p) {
        Option::Some(roots[0]@)
    } else {
        find_root(roots.skip(1), p)
    }
}

/// An npm locator over fixed tables: specifier-to-folder mappings and the
/// roots of the managed package trees. Referrer and mode do not influence
/// its answers.
pub struct StaticNpmResolver {
    pub folders: Vec<NpmFolderEntry>,
    pub roots: Vec<String>,
}

impl RequireNpmResolver for StaticNpmResolver {
    open spec fn folder_for(
        &self,
        specifier: Seq<char>,
        referrer: Seq<char>,
        mode: NodeResolutionMode,
    ) -> Option<Seq<char>> {
        find_folder(self.folders@, specifier)
    }

    open spec fn package_root_of(&self, path: Seq<char>) -> Option<Seq<char>> {
        find_root(self.roots@, path)
    }

    open spec fn in_package(&self, path: Seq<char>) -> bool {
        find_root(self.roots@, path) is Some
    }

    fn resolve_package_folder_from_package(
        &self,
        specifier: &str,
        referrer: &str,
        mode: NodeResolutionMode,
    ) -> (r: Option<String>)
        ensures
            match r {
                Option::Some(f) => self.folder_for(specifier@, referrer@, mode) == Option::Some(
                    f@,
                ),
                Option::None => self.folder_for(specifier@, referrer@, mode) is None,
            },
    {
        let v = crate::chars::str_to_chars(specifier);
        let mut i: usize = 0;
        proof {
            assert(self.folders@.skip(0) =~= self.folders@);
        }
        while i < self.folders.len()
            invariant
                i <= self.folders@.len(),
                v@ == specifier@,
                find_folder(self.folders@, specifier@) == find_folder(
                    self.folders@.skip(i as int),
                    specifier@,
                ),
            decreases self.folders@.len() - i,
        {
            proof {
                assert(self.folders@.skip(i as int)[0] == self.folders@[i as int]);
            }
            let cand = crate::chars::str_to_chars(self.folders[i].specifier.as_str());
            if crate::chars::chars_eq(&cand, &v) {
                let f = crate::chars::str_to_chars(self.folders[i].folder.as_str());
                return Option::Some(crate::chars::chars_to_string(&f));
            }
            proof {
                assert(self.folders@.skip(i as int).skip(1) =~= self.folders@.skip(i as int + 1));
            }
            i = i + 1;
        }
        proof {
            assert(self.folders@.skip(i as int).len() == 0);
        }
        Option::None
    }

    fn resolve_package_folder_from_path(&self, path: &str) -> (r: Option<String>)
        ensures
            match r {
                Option::Some(f) => self.package_root_of(path@) == Option::Some(f@),
                Option::None => self.package_root_of(path@) is None,
            },
    {
        let v = crate::chars::str_to_chars(path);
        let mut i: usize = 0;
        proof {
            assert(self.roots@.skip(0) =~= self.roots@);
        }
        while i < self.roots.len()
            invariant
                i <= self.roots@.len(),
                v@ == path@,
                find_root(self.roots@, path@) == find_root(self.roots@.skip(i as int), path@),
            decreases self.roots@.len() - i,
        {
            proof {
                assert(self.roots@.skip(i as int)[0] == self.roots@[i as int]);
            }
            let root = crate::chars::str_to_chars(self.roots[i].as_str());
            let mut with_slash = crate::chars::subrange_chars(&root, 0, root.len());
            with_slash.push('/');
            proof {
                assert(root@.subrange(0, root@.len() as int) =~= root@);
                assert(with_slash@ =~= self.roots@[i as int]@ + seq!['/']);
            }
            if crate::chars::chars_eq(&root, &v) || crate::chars::starts_with_chars(
                &v,
                &with_slash,
            ) {
                return Option::Some(crate::chars::chars_to_string(&root));
            }
            proof {
                assert(self.roots@.skip(i as int).skip(1) =~= self.roots@.skip(i as int + 1));
            }
            i = i + 1;
        }
        proof {
            assert(self.roots@.skip(i as int).len() == 0);
        }
        Option::None
    }

    fn in_npm_package(&self, path: &str) -> (r: bool)
        ensures
            r == self.in_package(path@),
    {
        match self.resolve_package_folder_from_path(path) {
            Option::Some(_) => true,
            Option::None => false,
        }
    }
}

} // verus!
