//! Request classification and the resolution algorithms: `exports` /
//! `imports` conditional matching, the legacy `main` fallback, and the
//! top-level package resolver.

use vstd::prelude::*;
use vstd::string::*;

verus! {

/// Whether the caller resolves as an ES module or a CommonJS module;
/// selects the matching condition set.
#[derive(Clone, Copy, PartialEq, Eq, Structural, Debug)]
pub enum NodeModuleKind {
    Esm,
    Cjs,
}

/// Whether resolution is for execution or for type declarations; the latter
/// turns on declaration-file probing and the `types` condition.
#[derive(Clone, Copy, PartialEq, Eq, Structural, Debug)]
pub enum NodeResolutionMode {
    Execution,
    Types,
}

/// The condition set for ES-module callsites.
pub open spec fn spec_default_conditions() -> Seq<Seq<char>> {
    seq!["node"@, "import"@, "default"@]
}

/// The condition set for CommonJS callsites.
pub open spec fn spec_require_conditions() -> Seq<Seq<char>> {
    seq!["node"@, "require"@, "default"@]
}

/// The condition set for ES-module callsites: `node`, `import`, `default`.
pub fn default_conditions() -> (r: Vec<String>)
    ensures
        crate::paths::strs_view(r@) == spec_default_conditions(),
{
    let mut r: Vec<String> = Vec::new();
    r.push(String::from_str("node"));
    r.push(String::from_str("import"));
    r.push(String::from_str("default"));
    proof {
        assert(crate::paths::strs_view(r@) =~= spec_default_conditions());
    }
    r
}

/// The condition set for CommonJS callsites: `node`, `require`, `default`.
pub fn require_conditions() -> (r: Vec<String>)
    ensures
        crate::paths::strs_view(r@) == spec_require_conditions(),
{
    let mut r: Vec<String> = Vec::new();
    r.push(String::from_str("node"));
    r.push(String::from_str("require"));
    r.push(String::from_str("default"));
    proof {
        assert(crate::paths::strs_view(r@) =~= spec_require_conditions());
    }
    r
}

/// A request that names a file relative to the referrer.
pub open spec fn spec_is_request_relative(s: Seq<char>) -> bool {
    crate::chars::is_prefix_of("./"@, s) || crate::chars::is_prefix_of("../"@, s) || s == ".."@
}

/// Whether the request is relative: it begins with `./` or `../`, or is `..`.
pub fn is_request_relative(request: &str) -> (r: bool)
    ensures
        r == spec_is_request_relative(request@),
{
    let v = crate::chars::str_to_chars(request);
    if crate::chars::starts_with_str(&v, "./") {
        return true;
    }
    if crate::chars::starts_with_str(&v, "../") {
        return true;
    }
    crate::chars::chars_eq_str(&v, "..")
}

/// How a request is to be resolved.
#[derive(Clone, Copy, PartialEq, Eq, Structural, Debug)]
pub enum RequestKind {
    /// Begins with `./` or `../`, or is `..`.
    Relative,
    /// Syntactically absolute.
    Absolute,
    /// Begins with `#`: resolved through the referrer package's `imports`.
    Imports,
    /// A bare package specifier.
    Bare,
}

/// The class of a request.
pub open spec fn spec_classify(s: Seq<char>) -> RequestKind {
    if spec_is_request_relative(s) {
        RequestKind::Relative
    } else if crate::paths::path_is_abs(s) {
        RequestKind::Absolute
    } else if s.len() > 0 && s[0] == '#' {
        RequestKind::Imports
    } else {
        RequestKind::Bare
    }
}

/// Classifies a request as relative, absolute, an imports reference, or bare.
pub fn classify(request: &str) -> (r: RequestKind)
    ensures
        r == spec_classify(request@),
{
    let v = crate::chars::str_to_chars(request);
    if is_request_relative(request) {
        RequestKind::Relative
    } else if v.len() > 0 && v[0] == '/' {
        RequestKind::Absolute
    } else if v.len() > 0 && v[0] == '#' {
        RequestKind::Imports
    } else {
        RequestKind::Bare
    }
}

/// Splits a bare specifier into package name and subpath: the name is the
/// first segment (two for a scoped `@scope/name`), the subpath is `.` or
/// `./` plus the rest. Rejected: an empty request, a scoped name without
/// its second segment, and a name that is empty, begins with `.`, or holds
/// `%` or `\`.
pub open spec fn spec_parse_package(s: Seq<char>) -> Option<(Seq<char>, Seq<char>)> {
    if s.len() == 0 {
        Option::None
    } else {
        let scoped = s[0] == '@';
        let first = crate::chars::find_char(s, '/', 0);
        if scoped && first >= s.len() {
            Option::None
        } else {
            let end = if scoped {
                crate::chars::find_char(s, '/', first + 1)
            } else {
                first
            };
            let name = s.take(end);
            if name.len() == 0 || name[0] == '.' || crate::chars::spec_contains_char(name, '%')
                || crate::chars::spec_contains_char(name, '\\') {
                Option::None
            } else if end >= s.len() {
                Option::Some((name, "."@))
            } else {
                Option::Some((name, seq!['.'] + s.skip(end)))
            }
        }
    }
}

/// Splits a bare specifier into `(name, subpath)`.
pub fn parse_package_specifier(specifier: &str) -> (r: Result<
    (String, String),
    crate::errors::NodeError,
>)
    ensures
        match r {
            Result::Ok(p) => spec_parse_package(specifier@) == Option::Some((p.0@, p.1@)),
            Result::Err(e) => spec_parse_package(specifier@) is None && e@
                == crate::errors::ErrModel::InvalidSpecifier(specifier@),
        },
{
    let v = crate::chars::str_to_chars(specifier);
    if v.len() == 0 {
        return Result::Err(crate::errors::NodeError::InvalidSpecifier(
            crate::chars::chars_to_string(&v),
        ));
    }
    let scoped = v[0] == '@';
    let first = crate::chars::find_char_exec(&v, '/', 0);
    if scoped && first == v.len() {
        return Result::Err(crate::errors::NodeError::InvalidSpecifier(
            crate::chars::chars_to_string(&v),
        ));
    }
    let end = if scoped {
        crate::chars::find_char_exec(&v, '/', first + 1)
    } else {
        first
    };
    let name = crate::chars::subrange_chars(&v, 0, end);
    proof {
        assert(name@ =~= v@.take(end as int));
    }
    if name.len() == 0 || name[0] == '.' || crate::chars::contains_char(&name, '%')
        || crate::chars::contains_char(&name, '\\') {
        return Result::Err(crate::errors::NodeError::InvalidSpecifier(
            crate::chars::chars_to_string(&v),
        ));
    }
    if end == v.len() {
        let name_s = crate::chars::chars_to_string(&name);
        return Result::Ok((name_s, String::from_str(".")));
    }
    let mut sub: Vec<char> = Vec::new();
    sub.push('.');
    let rest = crate::chars::subrange_chars(&v, end, v.len());
    let sub2 = crate::chars::concat_chars(&sub, &rest);
    proof {
        assert(rest@ =~= v@.skip(end as int));
        assert(sub2@ =~= seq!['.'] + v@.skip(end as int));
    }
    Result::Ok((crate::chars::chars_to_string(&name), crate::chars::chars_to_string(&sub2)))
}

/// A resolved target: a path under the package, or a bare specifier to be
/// resolved as a package in its own right (only `imports` targets yield
/// the latter).
pub enum ResolvedTarget {
    Path(String),
    Bare(String),
}

/// Spec-level image of `ResolvedTarget`.
pub enum ResolvedTargetModel {
    Path(Seq<char>),
    Bare(Seq<char>),
}

impl View for ResolvedTarget {
    type V = ResolvedTargetModel;

    open spec fn view(&self) -> ResolvedTargetModel {
        match self {
            ResolvedTarget::Path(s) => ResolvedTargetModel::Path(s@),
            ResolvedTarget::Bare(s) => ResolvedTargetModel::Bare(s@),
        }
    }
}

/// The key holds exactly one `*`.
pub open spec fn one_star(k: Seq<char>) -> bool {
    let f = crate::chars::find_char(k, '*', 0);
    f < k.len() && crate::chars::find_char(k, '*', f + 1) >= k.len()
}

/// The key holds a `*` somewhere.
pub open spec fn has_star(k: Seq<char>) -> bool {
    crate::chars::spec_contains_char(k, '*')
}

/// Every `*` of `t` replaced by `sub`.
pub open spec fn subst_star(t: Seq<char>, sub: Seq<char>) -> Seq<char>
    decreases t.len(),
{
    if t.len() == 0 {
        Seq::empty()
    } else if t[0] == '*' {
        sub + subst_star(t.skip(1), sub)
    } else {
        seq![t[0]] + subst_star(t.skip(1), sub)
    }
}

/// Every `*` of `t` replaced by `sub`.
pub fn subst_star_exec(t: &Vec<char>, sub: &Vec<char>) -> (r: Vec<char>)
    ensures
        r@ == subst_star(t@, sub@),
{
    let mut out: Vec<char> = Vec::new();
    let mut i: usize = 0;
    proof {
        assert(t@.skip(0) =~= t@);
    }
    while i < t.len()
        invariant
            i <= t@.len(),
            out@ + subst_star(t@.skip(i as int), sub@) == subst_star(t@, sub@),
        decreases t@.len() - i,
    {
        let ghost tail = t@.skip(i as int);
        proof {
            assert(tail[0] == t@[i as int]);
            assert(tail.skip(1) =~= t@.skip(i as int + 1));
        }
        if t[i] == '*' {
            let ghost old_out = out@;
            let mut j: usize = 0;
            while j < sub.len()
                invariant
                    j <= sub@.len(),
                    out@ == old_out + sub@.take(j as int),
                decreases sub@.len() - j,
            {
                out.push(sub[j]);
                j = j + 1;
                proof {
                    assert(out@ =~= old_out + sub@.take(j as int));
                }
            }
            proof {
                assert(sub@.take(sub@.len() as int) =~= sub@);
                assert(out@ + subst_star(t@.skip(i as int + 1), sub@) =~= old_out + subst_star(
                    tail,
                    sub@,
                ));
            }
        } else {
            let ghost old_out = out@;
            out.push(t[i]);
            proof {
                assert(out@ =~= old_out.push(t@[i as int]));
                assert(out@ + subst_star(t@.skip(i as int + 1), sub@) =~= old_out + subst_star(
                    tail,
                    sub@,
                ));
            }
        }
        i = i + 1;
    }
    proof {
        assert(t@.skip(t@.len() as int).len() == 0);
        assert(subst_star(t@.skip(i as int), sub@) =~= Seq::<char>::empty());
        assert(out@ + Seq::<char>::empty() =~= out@);
    }
    out
}

/// The wildcard key matches the text, binding a non-empty substring.
pub open spec fn pattern_matches(k: Seq<char>, text: Seq<char>) -> bool {
    let f = crate::chars::find_char(k, '*', 0);
    let before = k.take(f);
    let after = k.skip(f + 1);
    one_star(k) && text.len() > before.len() + after.len() && crate::chars::is_prefix_of(
        before,
        text,
    ) && crate::chars::is_suffix_of(after, text)
}

/// What the `*` binds when the key matches.
pub open spec fn pattern_binding(k: Seq<char>, text: Seq<char>) -> Seq<char> {
    let f = crate::chars::find_char(k, '*', 0);
    let after_len = k.len() - f - 1;
    text.subrange(f, text.len() - after_len)
}

/// Whether the wildcard key matches, and what its `*` binds.
pub fn pattern_match_exec(k: &Vec<char>, text: &Vec<char>) -> (r: Option<Vec<char>>)
    ensures
        match r {
            Option::Some(s) => pattern_matches(k@, text@) && s@ == pattern_binding(k@, text@),
            Option::None => !pattern_matches(k@, text@),
        },
{
    let f = crate::chars::find_char_exec(k, '*', 0);
    if f == k.len() {
        return Option::None;
    }
    let f2 = crate::chars::find_char_exec(k, '*', f + 1);
    if f2 < k.len() {
        return Option::None;
    }
    let before = crate::chars::subrange_chars(k, 0, f);
    let after = crate::chars::subrange_chars(k, f + 1, k.len());
    proof {
        assert(before@ =~= k@.take(f as int));
        assert(after@ =~= k@.skip(f as int + 1));
    }
    if text.len() <= before.len() + after.len() {
        return Option::None;
    }
    if !crate::chars::starts_with_chars(text, &before) {
        return Option::None;
    }
    if !crate::chars::ends_with_chars(text, &after) {
        return Option::None;
    }
    let bound = crate::chars::subrange_chars(text, f, text.len() - after.len());
    Option::Some(bound)
}

/// The condition key matches: it is `default`, a member of the condition
/// set, or `types` when resolving for type declarations.
pub open spec fn key_matches_conditions(
    k: Seq<char>,
    conds: Seq<Seq<char>>,
    mode: NodeResolutionMode,
) -> bool {
    k == "default"@ || conds.contains(k) || (mode is Types && k == "types"@)
}

/// The condition key matches the condition set.
pub fn key_matches_exec(k: &Vec<char>, conditions: &Vec<String>, mode: NodeResolutionMode) -> (r:
    bool)
    ensures
        r == key_matches_conditions(k@, crate::paths::strs_view(conditions@), mode),
{
    if crate::chars::chars_eq_str(k, "default") {
        return true;
    }
    if matches!(mode, NodeResolutionMode::Types) {
        if crate::chars::chars_eq_str(k, "types") {
            return true;
        }
    }
    let ghost cs = crate::paths::strs_view(conditions@);
    let mut i: usize = 0;
    while i < conditions.len()
        invariant
            i <= conditions@.len(),
            cs == crate::paths::strs_view(conditions@),
            forall|j: int| 0 <= j < i ==> cs[j] != k@,
        decreases conditions@.len() - i,
    {
        let cv = crate::chars::str_to_chars(conditions[i].as_str());
        proof {
            assert(cs[i as int] == conditions@[i as int]@);
        }
        if crate::chars::chars_eq(&cv, k) {
            proof {
                assert(cs.contains(k@)) by {
                    assert(cs[i as int] == k@);
                }
            }
            return true;
        }
        i = i + 1;
    }
    proof {
        assert(!cs.contains(k@)) by {
            if cs.contains(k@) {
                let j = choose|j: int| 0 <= j < cs.len() && cs[j] == k@;
                assert(cs[j] != k@);
            }
        }
    }
    false
}

/// `base` and `name` joined with exactly one `/` between them.
pub open spec fn join_dir(base: Seq<char>, name: Seq<char>) -> Seq<char> {
    if base.len() > 0 && base.last() == '/' {
        base + name
    } else {
        base + seq!['/'] + name
    }
}

/// `base` and `name` joined with exactly one `/` between them.
pub fn join_dir_exec(base: &Vec<char>, name: &Vec<char>) -> (r: Vec<char>)
    ensures
        r@ == join_dir(base@, name@),
{
    if base.len() > 0 && base[base.len() - 1] == '/' {
        crate::chars::concat_chars(base, name)
    } else {
        let mut slash: Vec<char> = Vec::new();
        slash.push('/');
        let with_slash = crate::chars::concat_chars(base, &slash);
        let r = crate::chars::concat_chars(&with_slash, name);
        proof {
            assert(r@ =~= base@ + seq!['/'] + name@);
        }
        r
    }
}

/// Every `/`-separated piece of the target tail is allowed: none is `.`,
/// `..` or `node_modules` (empty pieces only collapse when joined).
pub open spec fn target_segs_ok(s: Seq<char>, i: int) -> bool
    decreases s.len() - i,
    via target_segs_ok_decreases
{
    if i < 0 || i >= s.len() {
        true
    } else {
        let j = crate::paths::seg_end(s, i);
        let seg = s.subrange(i, j);
        let next = if j + 1 > s.len() {
            s.len() as int
        } else {
            j + 1
        };
        seg != "."@ && seg != ".."@ && seg != "node_modules"@ && target_segs_ok(s, next)
    }
}

#[via_fn]
proof fn target_segs_ok_decreases(s: Seq<char>, i: int) {
    if 0 <= i < s.len() {
        crate::paths::lemma_seg_end_bounds(s, i);
    }
}

/// Every piece of the target tail is allowed.
pub fn target_segs_ok_exec(s: &Vec<char>, i: usize) -> (r: bool)
    requires
        i <= s@.len(),
    ensures
        r == target_segs_ok(s@, i as int),
    decreases s@.len() - i,
{
    if i == s.len() {
        true
    } else {
        proof {
            crate::paths::lemma_seg_end_bounds(s@, i as int);
        }
        let j = crate::paths::seg_end_exec(s, i);
        let seg = crate::chars::subrange_chars(s, i, j);
        if crate::chars::chars_eq_str(&seg, ".") || crate::chars::chars_eq_str(&seg, "..")
            || crate::chars::chars_eq_str(&seg, "node_modules") {
            return false;
        }
        let next = if j == s.len() {
            j
        } else {
            j + 1
        };
        target_segs_ok_exec(s, next)
    }
}

/// The text put in an invalid-target error for a non-string target.
pub open spec fn target_text(t: crate::json::JsonModel) -> Seq<char> {
    match t {
        crate::json::JsonModel::Num(s) => s,
        crate::json::JsonModel::Str(s) => s,
        _ => Seq::empty(),
    }
}

/// Resolves one target value against the package at `base`. A string must
/// begin with `./` and, once the wildcard is substituted, hold no `.`,
/// `..` or `node_modules` piece; in `imports` (and only there) a string
/// not beginning with `./`, `../` or `/` is a bare specifier to resolve
/// anew. An array tries its elements in order, the first resolved path
/// winning and the last error surfacing when none resolves; a conditional
/// object resolves the value of its first key that is `default` or in the
/// condition set; `null` and an unmatched object resolve to nothing.
pub open spec fn spec_target_resolve(
    pkg_path: Seq<char>,
    base: Seq<char>,
    target: crate::json::JsonModel,
    sub: Seq<char>,
    pattern: bool,
    internal: bool,
    conds: Seq<Seq<char>>,
    mode: NodeResolutionMode,
) -> Result<Option<ResolvedTargetModel>, crate::errors::ErrModel>
    decreases target, 0int, 0int,
{
    match target {
        crate::json::JsonModel::Null => Result::Ok(Option::None),
        crate::json::JsonModel::Str(t) => spec_target_string(
            pkg_path,
            base,
            t,
            sub,
            pattern,
            internal,
        ),
        crate::json::JsonModel::Arr(items) => spec_target_arr(
            pkg_path,
            base,
            items,
            0,
            Option::None,
            sub,
            pattern,
            internal,
            conds,
            mode,
        ),
        crate::json::JsonModel::Obj(ms) => spec_target_obj(
            pkg_path,
            base,
            ms,
            0,
            sub,
            pattern,
            internal,
            conds,
            mode,
        ),
        _ => Result::Err(
            crate::errors::ErrModel::InvalidPackageTarget(pkg_path, target_text(target)),
        ),
    }
}

/// Resolves a string target.
pub open spec fn spec_target_string(
    pkg_path: Seq<char>,
    base: Seq<char>,
    t: Seq<char>,
    sub: Seq<char>,
    pattern: bool,
    internal: bool,
) -> Result<Option<ResolvedTargetModel>, crate::errors::ErrModel> {
    if crate::chars::is_prefix_of("./"@, t) {
        let tail = if pattern {
            subst_star(t.skip(2), sub)
        } else {
            t.skip(2)
        };
        if target_segs_ok(tail, 0) {
            Result::Ok(Option::Some(ResolvedTargetModel::Path(join_dir(base, tail))))
        } else {
            Result::Err(crate::errors::ErrModel::InvalidPackageTarget(pkg_path, t))
        }
    } else if internal && !crate::chars::is_prefix_of("../"@, t) && !crate::paths::path_is_abs(
        t,
    ) {
        let whole = if pattern {
            subst_star(t, sub)
        } else {
            t
        };
        Result::Ok(Option::Some(ResolvedTargetModel::Bare(whole)))
    } else {
        Result::Err(crate::errors::ErrModel::InvalidPackageTarget(pkg_path, t))
    }
}

/// Tries the elements of an array target in order.
pub open spec fn spec_target_arr(
    pkg_path: Seq<char>,
    base: Seq<char>,
    items: Seq<crate::json::JsonModel>,
    k: int,
    last: Option<crate::errors::ErrModel>,
    sub: Seq<char>,
    pattern: bool,
    internal: bool,
    conds: Seq<Seq<char>>,
    mode: NodeResolutionMode,
) -> Result<Option<ResolvedTargetModel>, crate::errors::ErrModel>
    decreases items, 1int, items.len() - k,
{
    if k < 0 || k >= items.len() {
        match last {
            Option::Some(e) => Result::Err(e),
            Option::None => Result::Ok(Option::None),
        }
    } else {
        match spec_target_resolve(pkg_path, base, items[k], sub, pattern, internal, conds, mode) {
            Result::Ok(Option::Some(p)) => Result::Ok(Option::Some(p)),
            Result::Ok(Option::None) => spec_target_arr(
                pkg_path,
                base,
                items,
                k + 1,
                last,
                sub,
                pattern,
                internal,
                conds,
                mode,
            ),
            Result::Err(e) => spec_target_arr(
                pkg_path,
                base,
                items,
                k + 1,
                Option::Some(e),
                sub,
                pattern,
                internal,
                conds,
                mode,
            ),
        }
    }
}

/// Resolves the first matching condition of an object target.
pub open spec fn spec_target_obj(
    pkg_path: Seq<char>,
    base: Seq<char>,
    ms: Seq<(Seq<char>, crate::json::JsonModel)>,
    k: int,
    sub: Seq<char>,
    pattern: bool,
    internal: bool,
    conds: Seq<Seq<char>>,
    mode: NodeResolutionMode,
) -> Result<Option<ResolvedTargetModel>, crate::errors::ErrModel>
    decreases ms, 1int, ms.len() - k,
{
    if k < 0 || k >= ms.len() {
        Result::Ok(Option::None)
    } else if key_matches_conditions(ms[k].0, conds, mode) {
        spec_target_resolve(pkg_path, base, ms[k].1, sub, pattern, internal, conds, mode)
    } else {
        spec_target_obj(pkg_path, base, ms, k + 1, sub, pattern, internal, conds, mode)
    }
}

/// `base`, ending in `/`.
pub open spec fn base_slash(base: Seq<char>) -> Seq<char> {
    if base.len() > 0 && base.last() == '/' {
        base
    } else {
        base + seq!['/']
    }
}

/// A resolved path target lies within the package: the law behind the
/// no-escape guarantee of `exports` resolution.
pub proof fn lemma_target_within(
    pkg_path: Seq<char>,
    base: Seq<char>,
    target: crate::json::JsonModel,
    sub: Seq<char>,
    pattern: bool,
    internal: bool,
    conds: Seq<Seq<char>>,
    mode: NodeResolutionMode,
)
    ensures
        spec_target_resolve(pkg_path, base, target, sub, pattern, internal, conds, mode) matches
            Result::Ok(Option::Some(ResolvedTargetModel::Path(p)))
            ==> crate::chars::is_prefix_of(base_slash(base), p),
    decreases target, 0int, 0int,
{
    match target {
        crate::json::JsonModel::Str(t) => {
            if crate::chars::is_prefix_of("./"@, t) {
                let tail = if pattern {
                    subst_star(t.skip(2), sub)
                } else {
                    t.skip(2)
                };
                if target_segs_ok(tail, 0) {
                    let p = join_dir(base, tail);
                    assert(p == base_slash(base) + tail);
                    assert(p.take(base_slash(base).len() as int) =~= base_slash(base));
                }
            }
        },
        crate::json::JsonModel::Arr(items) => {
            lemma_target_arr_within(
                pkg_path,
                base,
                items,
                0,
                Option::None,
                sub,
                pattern,
                internal,
                conds,
                mode,
            );
        },
        crate::json::JsonModel::Obj(ms) => {
            lemma_target_obj_within(pkg_path, base, ms, 0, sub, pattern, internal, conds, mode);
        },
        _ => {},
    }
}

proof fn lemma_target_arr_within(
    pkg_path: Seq<char>,
    base: Seq<char>,
    items: Seq<crate::json::JsonModel>,
    k: int,
    last: Option<crate::errors::ErrModel>,
    sub: Seq<char>,
    pattern: bool,
    internal: bool,
    conds: Seq<Seq<char>>,
    mode: NodeResolutionMode,
)
    ensures
        spec_target_arr(pkg_path, base, items, k, last, sub, pattern, internal, conds, mode)
            matches Result::Ok(Option::Some(ResolvedTargetModel::Path(p)))
            ==> crate::chars::is_prefix_of(base_slash(base), p),
    decreases items, 1int, items.len() - k,
{
    if 0 <= k < items.len() {
        lemma_target_within(pkg_path, base, items[k], sub, pattern, internal, conds, mode);
        match spec_target_resolve(pkg_path, base, items[k], sub, pattern, internal, conds, mode) {
            Result::Ok(Option::Some(_)) => {},
            Result::Ok(Option::None) => {
                lemma_target_arr_within(
                    pkg_path,
                    base,
                    items,
                    k + 1,
                    last,
                    sub,
                    pattern,
                    internal,
                    conds,
                    mode,
                );
            },
            Result::Err(e) => {
                lemma_target_arr_within(
                    pkg_path,
                    base,
                    items,
                    k + 1,
                    Option::Some(e),
                    sub,
                    pattern,
                    internal,
                    conds,
                    mode,
                );
            },
        }
    }
}

proof fn lemma_target_obj_within(
    pkg_path: Seq<char>,
    base: Seq<char>,
    ms: Seq<(Seq<char>, crate::json::JsonModel)>,
    k: int,
    sub: Seq<char>,
    pattern: bool,
    internal: bool,
    conds: Seq<Seq<char>>,
    mode: NodeResolutionMode,
)
    ensures
        spec_target_obj(pkg_path, base, ms, k, sub, pattern, internal, conds, mode) matches
            Result::Ok(Option::Some(ResolvedTargetModel::Path(p)))
            ==> crate::chars::is_prefix_of(base_slash(base), p),
    decreases ms, 1int, ms.len() - k,
{
    if 0 <= k < ms.len() {
        if key_matches_conditions(ms[k].0, conds, mode) {
            lemma_target_within(pkg_path, base, ms[k].1, sub, pattern, internal, conds, mode);
        } else {
            lemma_target_obj_within(pkg_path, base, ms, k + 1, sub, pattern, internal, conds, mode);
        }
    }
}

/// Resolves one target value against the package at `base`.
#[verifier::loop_isolation(false)]
pub fn target_resolve(
    pkg_path: &str,
    base: &str,
    target: &crate::json::JsonValue,
    sub: &Vec<char>,
    pattern: bool,
    internal: bool,
    conditions: &Vec<String>,
    mode: NodeResolutionMode,
) -> (r: Result<Option<ResolvedTarget>, crate::errors::NodeError>)
    ensures
        match r {
            Result::Ok(Option::Some(p)) => spec_target_resolve(
                pkg_path@,
                base@,
                target@,
                sub@,
                pattern,
                internal,
                crate::paths::strs_view(conditions@),
                mode,
            ) == Result::<Option<ResolvedTargetModel>, crate::errors::ErrModel>::Ok(
                Option::Some(p@),
            ),
            Result::Ok(Option::None) => spec_target_resolve(
                pkg_path@,
                base@,
                target@,
                sub@,
                pattern,
                internal,
                crate::paths::strs_view(conditions@),
                mode,
            ) == Result::<Option<ResolvedTargetModel>, crate::errors::ErrModel>::Ok(Option::None),
            Result::Err(e) => spec_target_resolve(
                pkg_path@,
                base@,
                target@,
                sub@,
                pattern,
                internal,
                crate::paths::strs_view(conditions@),
                mode,
            ) == Result::<Option<ResolvedTargetModel>, crate::errors::ErrModel>::Err(e@),
        },
    decreases target, 0int, 0int,
{
    broadcast use vstd::std_specs::vec::group_vec_axioms;

    let ghost conds = crate::paths::strs_view(conditions@);
    match target {
        crate::json::JsonValue::Null => Result::Ok(Option::None),
        crate::json::JsonValue::Bool(_) => {
            let pv = crate::chars::str_to_chars(pkg_path);
            let empty = String::new();
            proof {
                assert(empty@ =~= Seq::<char>::empty());
            }
            Result::Err(
                crate::errors::NodeError::InvalidPackageTarget(
                    crate::chars::chars_to_string(&pv),
                    empty,
                ),
            )
        },
        crate::json::JsonValue::Num(s) => {
            let pv = crate::chars::str_to_chars(pkg_path);
            Result::Err(
                crate::errors::NodeError::InvalidPackageTarget(
                    crate::chars::chars_to_string(&pv),
                    s.clone(),
                ),
            )
        },
        crate::json::JsonValue::Str(t) => {
            let tv = crate::chars::str_to_chars(t.as_str());
            let pv = crate::chars::str_to_chars(pkg_path);
            if crate::chars::starts_with_str(&tv, "./") {
                proof {
                    reveal_strlit("./");
                }
                let after = crate::chars::subrange_chars(&tv, 2, tv.len());
                proof {
                    assert(after@ =~= tv@.skip(2));
                }
                let tail = if pattern {
                    subst_star_exec(&after, sub)
                } else {
                    after
                };
                if target_segs_ok_exec(&tail, 0) {
                    let bv = crate::chars::str_to_chars(base);
                    let joined = join_dir_exec(&bv, &tail);
                    Result::Ok(
                        Option::Some(
                            ResolvedTarget::Path(crate::chars::chars_to_string(&joined)),
                        ),
                    )
                } else {
                    Result::Err(
                        crate::errors::NodeError::InvalidPackageTarget(
                            crate::chars::chars_to_string(&pv),
                            t.clone(),
                        ),
                    )
                }
            } else if internal && !crate::chars::starts_with_str(&tv, "../") && !(tv.len() > 0
                && tv[0] == '/') {
                let whole = if pattern {
                    subst_star_exec(&tv, sub)
                } else {
                    tv
                };
                Result::Ok(
                    Option::Some(ResolvedTarget::Bare(crate::chars::chars_to_string(&whole))),
                )
            } else {
                Result::Err(
                    crate::errors::NodeError::InvalidPackageTarget(
                        crate::chars::chars_to_string(&pv),
                        t.clone(),
                    ),
                )
            }
        },
        crate::json::JsonValue::Arr(items) => {
            let ghost im = crate::json::jm_of_seq(items@);
            proof {
                crate::json::lemma_jm_of_seq_index(items@);
            }
            let mut last: Option<crate::errors::NodeError> = Option::None;
            let mut k: usize = 0;
            while k < items.len()
                invariant
                    k <= items@.len(),
                    spec_target_arr(
                        pkg_path@,
                        base@,
                        im,
                        k as int,
                        match last {
                            Option::Some(e) => Option::Some(e@),
                            Option::None => Option::None,
                        },
                        sub@,
                        pattern,
                        internal,
                        conds,
                        mode,
                    ) == spec_target_arr(
                        pkg_path@,
                        base@,
                        im,
                        0,
                        Option::None,
                        sub@,
                        pattern,
                        internal,
                        conds,
                        mode,
                    ),
                decreases items@.len() - k,
            {
                match target_resolve(
                    pkg_path,
                    base,
                    &items[k],
                    sub,
                    pattern,
                    internal,
                    conditions,
                    mode,
                ) {
                    Result::Ok(Option::Some(p)) => {
                        return Result::Ok(Option::Some(p));
                    },
                    Result::Ok(Option::None) => {},
                    Result::Err(e) => {
                        last = Option::Some(e);
                    },
                }
                k = k + 1;
            }
            match last {
                Option::Some(e) => Result::Err(e),
                Option::None => Result::Ok(Option::None),
            }
        },
        crate::json::JsonValue::Obj(members) => {
            let ghost mm = crate::json::jm_of_members(members@);
            proof {
                crate::json::lemma_jm_of_members_index(members@);
            }
            let mut k: usize = 0;
            while k < members.len()
                invariant
                    k <= members@.len(),
                    spec_target_obj(
                        pkg_path@,
                        base@,
                        mm,
                        k as int,
                        sub@,
                        pattern,
                        internal,
                        conds,
                        mode,
                    ) == spec_target_obj(
                        pkg_path@,
                        base@,
                        mm,
                        0,
                        sub@,
                        pattern,
                        internal,
                        conds,
                        mode,
                    ),
                decreases members@.len() - k,
            {
                let kv = crate::chars::str_to_chars(members[k].0.as_str());
                if key_matches_exec(&kv, conditions, mode) {
                    return target_resolve(
                        pkg_path,
                        base,
                        &members[k].1,
                        sub,
                        pattern,
                        internal,
                        conditions,
                        mode,
                    );
                }
                k = k + 1;
            }
            Result::Ok(Option::None)
        },
    }
}

/// The length of the literal prefix before the key's `*`.
pub open spec fn star_prefix_len(k: Seq<char>) -> int {
    crate::chars::find_char(k, '*', 0)
}

/// The length of the literal suffix after the key's `*`.
pub open spec fn star_suffix_len(k: Seq<char>) -> int {
    k.len() - crate::chars::find_char(k, '*', 0) - 1
}

/// `k1` is more specific than `k2`: a longer literal prefix, or an equal
/// prefix and a longer literal suffix.
pub open spec fn better_pat(k1: Seq<char>, k2: Seq<char>) -> bool {
    star_prefix_len(k1) > star_prefix_len(k2) || (star_prefix_len(k1) == star_prefix_len(k2)
        && star_suffix_len(k1) > star_suffix_len(k2))
}

/// The key takes part in wildcard matching of `text`.
pub open spec fn pat_eligible(k: Seq<char>, text: Seq<char>, need_dot: bool) -> bool {
    (!need_dot || crate::chars::is_prefix_of("./"@, k)) && pattern_matches(k, text)
}

/// The most specific wildcard key matching `text`, among the members from
/// `k` on; ties keep the earlier key.
pub open spec fn best_pat_idx(
    ms: Seq<(Seq<char>, crate::json::JsonModel)>,
    text: Seq<char>,
    need_dot: bool,
    k: int,
    cur: Option<int>,
) -> Option<int>
    decreases ms.len() - k,
{
    if k < 0 || k >= ms.len() {
        cur
    } else {
        let key = ms[k].0;
        let take_it = pat_eligible(key, text, need_dot) && (match cur {
            Option::None => true,
            Option::Some(c) => better_pat(key, ms[c].0),
        });
        best_pat_idx(
            ms,
            text,
            need_dot,
            k + 1,
            if take_it {
                Option::Some(k)
            } else {
                cur
            },
        )
    }
}

/// The most specific wildcard key matching `text`.
pub fn best_pattern_key(
    members: &Vec<(String, crate::json::JsonValue)>,
    text: &Vec<char>,
    need_dot: bool,
) -> (r: Option<usize>)
    ensures
        match r {
            Option::Some(i) => best_pat_idx(
                crate::json::jm_of_members(members@),
                text@,
                need_dot,
                0,
                Option::None,
            ) == Option::Some(i as int) && i < members@.len(),
            Option::None => best_pat_idx(
                crate::json::jm_of_members(members@),
                text@,
                need_dot,
                0,
                Option::None,
            ) is None,
        },
{
    let ghost model = crate::json::jm_of_members(members@);
    proof {
        crate::json::lemma_jm_of_members_index(members@);
    }
    let mut cur: Option<usize> = Option::None;
    let mut k: usize = 0;
    while k < members.len()
        invariant
            k <= members@.len(),
            model == crate::json::jm_of_members(members@),
            model.len() == members@.len(),
            forall|j: int|
                0 <= j < members@.len() ==> model[j] == ((#[trigger] members@[j]).0@,
                crate::json::jm_of(members@[j].1)),
            match cur {
                Option::Some(c) => c < k,
                Option::None => true,
            },
            best_pat_idx(
                model,
                text@,
                need_dot,
                k as int,
                match cur {
                    Option::Some(c) => Option::Some(c as int),
                    Option::None => Option::None,
                },
            ) == best_pat_idx(model, text@, need_dot, 0, Option::None),
        decreases members@.len() - k,
    {
        let kv = crate::chars::str_to_chars(members[k].0.as_str());
        let eligible = if need_dot && !crate::chars::starts_with_str(&kv, "./") {
            false
        } else {
            match pattern_match_exec(&kv, text) {
                Option::Some(_) => true,
                Option::None => false,
            }
        };
        let take_it = if !eligible {
            false
        } else {
            match cur {
                Option::None => true,
                Option::Some(c) => {
                    let cv = crate::chars::str_to_chars(members[c].0.as_str());
                    let f1 = crate::chars::find_char_exec(&kv, '*', 0);
                    let f2 = crate::chars::find_char_exec(&cv, '*', 0);
                    f1 > f2 || (f1 == f2 && kv.len() - f1 > cv.len() - f2)
                },
            }
        };
        proof {
            let curm = match cur {
                Option::Some(c) => Option::Some(c as int),
                Option::None => Option::<int>::None,
            };
            assert(take_it == (pat_eligible(model[k as int].0, text@, need_dot) && (match curm {
                Option::None => true,
                Option::Some(c) => better_pat(model[k as int].0, model[c].0),
            })));
        }
        if take_it {
            cur = Option::Some(k);
        }
        k = k + 1;
    }
    cur
}

/// The `exports` value maps subpaths: it is an object with a key beginning
/// with `.`. Anything else stands for the `.` subpath as a whole.
pub open spec fn exports_subpath_keys(ex: crate::json::JsonModel) -> bool {
    ex matches crate::json::JsonModel::Obj(ms) && (exists|i: int|
        0 <= i < ms.len() && crate::package_json::key_is_subpath((#[trigger] ms[i]).0))
}

/// Turns a target outcome into the result of an exports resolution: a bare
/// outcome cannot arise outside `imports` and counts as an invalid target,
/// and an unmatched target means the subpath is not exported.
pub open spec fn exports_finish(
    pkg_path: Seq<char>,
    subpath: Seq<char>,
    r: Result<Option<ResolvedTargetModel>, crate::errors::ErrModel>,
) -> Result<Seq<char>, crate::errors::ErrModel> {
    match r {
        Result::Ok(Option::Some(ResolvedTargetModel::Path(p))) => Result::Ok(p),
        Result::Ok(Option::Some(ResolvedTargetModel::Bare(b))) => Result::Err(
            crate::errors::ErrModel::InvalidPackageTarget(pkg_path, b),
        ),
        Result::Ok(Option::None) => Result::Err(
            crate::errors::ErrModel::PackagePathNotExported(pkg_path, subpath),
        ),
        Result::Err(e) => Result::Err(e),
    }
}

/// Resolves `subpath` through the package's `exports` value: an exact
/// subpath key first, then the most specific wildcard key, the whole value
/// standing for `.` when no key begins with `.`; an unmatched or `null`
/// outcome is a not-exported error.
pub open spec fn spec_exports_resolve(
    pkg_path: Seq<char>,
    base: Seq<char>,
    ex: crate::json::JsonModel,
    subpath: Seq<char>,
    conds: Seq<Seq<char>>,
    mode: NodeResolutionMode,
) -> Result<Seq<char>, crate::errors::ErrModel> {
    if exports_subpath_keys(ex) {
        let ms = crate::package_json::doc_members(ex);
        if !has_star(subpath) && crate::json::find_member(ms, subpath) is Some {
            exports_finish(
                pkg_path,
                subpath,
                spec_target_resolve(
                    pkg_path,
                    base,
                    crate::json::find_member(ms, subpath)->Some_0,
                    Seq::empty(),
                    false,
                    false,
                    conds,
                    mode,
                ),
            )
        } else {
            match best_pat_idx(ms, subpath, true, 0, Option::None) {
                Option::Some(i) => exports_finish(
                    pkg_path,
                    subpath,
                    spec_target_resolve(
                        pkg_path,
                        base,
                        ms[i].1,
                        pattern_binding(ms[i].0, subpath),
                        true,
                        false,
                        conds,
                        mode,
                    ),
                ),
                Option::None => Result::Err(
                    crate::errors::ErrModel::PackagePathNotExported(pkg_path, subpath),
                ),
            }
        }
    } else if subpath != "."@ {
        Result::Err(crate::errors::ErrModel::PackagePathNotExported(pkg_path, subpath))
    } else {
        exports_finish(
            pkg_path,
            subpath,
            spec_target_resolve(pkg_path, base, ex, Seq::empty(), false, false, conds, mode),
        )
    }
}

/// Whether any key of the members begins with `.`.
fn any_subpath_key(members: &Vec<(String, crate::json::JsonValue)>) -> (r: bool)
    ensures
        r == (exists|i: int|
            0 <= i < crate::json::jm_of_members(members@).len()
                && crate::package_json::key_is_subpath(
                (#[trigger] crate::json::jm_of_members(members@)[i]).0,
            )),
{
    let ghost model = crate::json::jm_of_members(members@);
    proof {
        crate::json::lemma_jm_of_members_index(members@);
    }
    let mut i: usize = 0;
    while i < members.len()
        invariant
            i <= members@.len(),
            model == crate::json::jm_of_members(members@),
            model.len() == members@.len(),
            forall|j: int|
                0 <= j < members@.len() ==> model[j] == ((#[trigger] members@[j]).0@,
                crate::json::jm_of(members@[j].1)),
            forall|j: int| 0 <= j < i ==> !crate::package_json::key_is_subpath((#[trigger] model[j]).0),
        decreases members@.len() - i,
    {
        let kv = crate::chars::str_to_chars(members[i].0.as_str());
        if kv.len() > 0 && kv[0] == '.' {
            proof {
                assert(crate::package_json::key_is_subpath(model[i as int].0));
            }
            return true;
        }
        i = i + 1;
    }
    false
}

/// Resolves `subpath` through the package's `exports` value. A returned
/// path always lies within the package root `base`.
pub fn package_exports_resolve(
    pkg_path: &str,
    base: &str,
    exports: &crate::json::JsonValue,
    subpath: &str,
    conditions: &Vec<String>,
    mode: NodeResolutionMode,
) -> (r: Result<String, crate::errors::NodeError>)
    ensures
        match r {
            Result::Ok(p) => spec_exports_resolve(
                pkg_path@,
                base@,
                exports@,
                subpath@,
                crate::paths::strs_view(conditions@),
                mode,
            ) == Result::<Seq<char>, crate::errors::ErrModel>::Ok(p@)
                && crate::chars::is_prefix_of(base_slash(base@), p@),
            Result::Err(e) => spec_exports_resolve(
                pkg_path@,
                base@,
                exports@,
                subpath@,
                crate::paths::strs_view(conditions@),
                mode,
            ) == Result::<Seq<char>, crate::errors::ErrModel>::Err(e@),
        },
{
    let ghost conds = crate::paths::strs_view(conditions@);
    let sv = crate::chars::str_to_chars(subpath);
    let pv = crate::chars::str_to_chars(pkg_path);
    let empty_sub: Vec<char> = Vec::new();
    proof {
        assert(empty_sub@ =~= Seq::<char>::empty());
    }
    let subpath_map = match exports {
        crate::json::JsonValue::Obj(members) => any_subpath_key(members),
        _ => false,
    };
    if subpath_map {
        let members = match exports {
            crate::json::JsonValue::Obj(members) => members,
            _ => {
                proof {
                    assert(false);
                }
                return Result::Err(
                    crate::errors::NodeError::InvalidPackageConfig(
                        crate::chars::chars_to_string(&pv),
                    ),
                );
            },
        };
        let exact = if crate::chars::contains_char(&sv, '*') {
            Option::None
        } else {
            crate::json::obj_get(members, subpath)
        };
        match exact {
            Option::Some(target) => {
                let out = target_resolve(
                    pkg_path,
                    base,
                    target,
                    &empty_sub,
                    false,
                    false,
                    conditions,
                    mode,
                );
                proof {
                    lemma_target_within(
                        pkg_path@,
                        base@,
                        target@,
                        empty_sub@,
                        false,
                        false,
                        conds,
                        mode,
                    );
                }
                finish_exports_exec(&pv, &sv, out)
            },
            Option::None => {
                match best_pattern_key(members, &sv, true) {
                    Option::Some(i) => {
                        let kv = crate::chars::str_to_chars(members[i].0.as_str());
                        let bound = match pattern_match_exec(&kv, &sv) {
                            Option::Some(b) => b,
                            Option::None => {
                                proof {
                                    lemma_best_pat_eligible(
                                        crate::json::jm_of_members(members@),
                                        sv@,
                                        true,
                                        0,
                                        Option::None,
                                        i as int,
                                    );
                                    crate::json::lemma_jm_of_members_index(members@);
                                    assert(false);
                                }
                                return Result::Err(
                                    crate::errors::NodeError::InvalidPackageConfig(
                                        crate::chars::chars_to_string(&pv),
                                    ),
                                );
                            },
                        };
                        proof {
                            crate::json::lemma_jm_of_members_index(members@);
                        }
                        let out = target_resolve(
                            pkg_path,
                            base,
                            &members[i].1,
                            &bound,
                            true,
                            false,
                            conditions,
                            mode,
                        );
                        proof {
                            lemma_target_within(
                                pkg_path@,
                                base@,
                                crate::json::jm_of_members(members@)[i as int].1,
                                bound@,
                                true,
                                false,
                                conds,
                                mode,
                            );
                        }
                        finish_exports_exec(&pv, &sv, out)
                    },
                    Option::None => Result::Err(
                        crate::errors::NodeError::PackagePathNotExported(
                            crate::chars::chars_to_string(&pv),
                            crate::chars::chars_to_string(&sv),
                        ),
                    ),
                }
            },
        }
    } else if !crate::chars::chars_eq_str(&sv, ".") {
        Result::Err(
            crate::errors::NodeError::PackagePathNotExported(
                crate::chars::chars_to_string(&pv),
                crate::chars::chars_to_string(&sv),
            ),
        )
    } else {
        let out = target_resolve(pkg_path, base, exports, &empty_sub, false, false, conditions, mode);
        proof {
            lemma_target_within(pkg_path@, base@, exports@, empty_sub@, false, false, conds, mode);
        }
        finish_exports_exec(&pv, &sv, out)
    }
}

/// The chosen wildcard key is eligible: it matches the text.
proof fn lemma_best_pat_eligible(
    ms: Seq<(Seq<char>, crate::json::JsonModel)>,
    text: Seq<char>,
    need_dot: bool,
    k: int,
    cur: Option<int>,
    found: int,
)
    requires
        best_pat_idx(ms, text, need_dot, k, cur) == Option::Some(found),
        match cur {
            Option::Some(c) => 0 <= c < ms.len() && pat_eligible(ms[c].0, text, need_dot),
            Option::None => true,
        },
    ensures
        0 <= found < ms.len() && pat_eligible(ms[found].0, text, need_dot),
    decreases ms.len() - k,
{
    if 0 <= k < ms.len() {
        let key = ms[k].0;
        let take_it = pat_eligible(key, text, need_dot) && (match cur {
            Option::None => true,
            Option::Some(c) => better_pat(key, ms[c].0),
        });
        lemma_best_pat_eligible(
            ms,
            text,
            need_dot,
            k + 1,
            if take_it {
                Option::Some(k)
            } else {
                cur
            },
            found,
        );
    }
}

/// Turns a target outcome into the exports result.
fn finish_exports_exec(
    pv: &Vec<char>,
    sv: &Vec<char>,
    out: Result<Option<ResolvedTarget>, crate::errors::NodeError>,
) -> (r: Result<String, crate::errors::NodeError>)
    ensures
        ({
            let o = match out {
                Result::Ok(Option::Some(p)) => Result::Ok(Option::Some(p@)),
                Result::Ok(Option::None) => Result::Ok(Option::None),
                Result::Err(e) => Result::Err(e@),
            };
            match r {
                Result::Ok(p) => exports_finish(pv@, sv@, o) == Result::<
                    Seq<char>,
                    crate::errors::ErrModel,
                >::Ok(p@) && (out matches Result::Ok(Option::Some(ResolvedTarget::Path(q)))
                    && q@ == p@),
                Result::Err(e) => exports_finish(pv@, sv@, o) == Result::<
                    Seq<char>,
                    crate::errors::ErrModel,
                >::Err(e@),
            }
        }),
{
    match out {
        Result::Ok(Option::Some(ResolvedTarget::Path(p))) => Result::Ok(p),
        Result::Ok(Option::Some(ResolvedTarget::Bare(b))) => Result::Err(
            crate::errors::NodeError::InvalidPackageTarget(
                crate::chars::chars_to_string(pv),
                b,
            ),
        ),
        Result::Ok(Option::None) => Result::Err(
            crate::errors::NodeError::PackagePathNotExported(
                crate::chars::chars_to_string(pv),
                crate::chars::chars_to_string(sv),
            ),
        ),
        Result::Err(e) => Result::Err(e),
    }
}

/// The law: a successful `exports` resolution lies within the package root
/// (no `..` escape is possible).
pub proof fn lemma_exports_resolve_within(
    pkg_path: Seq<char>,
    base: Seq<char>,
    ex: crate::json::JsonModel,
    subpath: Seq<char>,
    conds: Seq<Seq<char>>,
    mode: NodeResolutionMode,
)
    ensures
        spec_exports_resolve(pkg_path, base, ex, subpath, conds, mode) matches Result::Ok(p)
            ==> crate::chars::is_prefix_of(base_slash(base), p),
{
    if exports_subpath_keys(ex) {
        let ms = crate::package_json::doc_members(ex);
        if !has_star(subpath) && crate::json::find_member(ms, subpath) is Some {
            lemma_target_within(
                pkg_path,
                base,
                crate::json::find_member(ms, subpath)->Some_0,
                Seq::empty(),
                false,
                false,
                conds,
                mode,
            );
        } else {
            match best_pat_idx(ms, subpath, true, 0, Option::None) {
                Option::Some(i) => {
                    lemma_best_pat_eligible(ms, subpath, true, 0, Option::None, i);
                    lemma_target_within(
                        pkg_path,
                        base,
                        ms[i].1,
                        pattern_binding(ms[i].0, subpath),
                        true,
                        false,
                        conds,
                        mode,
                    );
                },
                Option::None => {},
            }
        }
    } else if subpath == "."@ {
        lemma_target_within(pkg_path, base, ex, Seq::empty(), false, false, conds, mode);
    }
}

/// Turns a target outcome into the result of an imports resolution: an
/// unmatched or `null` outcome means the import is not defined.
pub open spec fn imports_finish(
    pkg_path: Seq<char>,
    request: Seq<char>,
    r: Result<Option<ResolvedTargetModel>, crate::errors::ErrModel>,
) -> Result<ResolvedTargetModel, crate::errors::ErrModel> {
    match r {
        Result::Ok(Option::Some(x)) => Result::Ok(x),
        Result::Ok(Option::None) => Result::Err(
            crate::errors::ErrModel::PackageImportNotDefined(pkg_path, request),
        ),
        Result::Err(e) => Result::Err(e),
    }
}

/// Resolves a `#` request through the package's `imports` object: an exact
/// key first, then the most specific wildcard key. `#` itself and `#/…`
/// are malformed; an unmatched request or a `null` target means the import
/// is not defined. A bare outcome is to be resolved as a package.
pub open spec fn spec_imports_resolve(
    pkg_path: Seq<char>,
    base: Seq<char>,
    imports: crate::json::JsonModel,
    request: Seq<char>,
    conds: Seq<Seq<char>>,
    mode: NodeResolutionMode,
) -> Result<ResolvedTargetModel, crate::errors::ErrModel> {
    if request.len() == 0 || request[0] != '#' || request == "#"@ || crate::chars::is_prefix_of(
        "#/"@,
        request,
    ) {
        Result::Err(crate::errors::ErrModel::InvalidSpecifier(request))
    } else {
        let ms = crate::package_json::doc_members(imports);
        if !has_star(request) && crate::json::find_member(ms, request) is Some {
            imports_finish(
                pkg_path,
                request,
                spec_target_resolve(
                    pkg_path,
                    base,
                    crate::json::find_member(ms, request)->Some_0,
                    Seq::empty(),
                    false,
                    true,
                    conds,
                    mode,
                ),
            )
        } else {
            match best_pat_idx(ms, request, false, 0, Option::None) {
                Option::Some(i) => imports_finish(
                    pkg_path,
                    request,
                    spec_target_resolve(
                        pkg_path,
                        base,
                        ms[i].1,
                        pattern_binding(ms[i].0, request),
                        true,
                        true,
                        conds,
                        mode,
                    ),
                ),
                Option::None => Result::Err(
                    crate::errors::ErrModel::PackageImportNotDefined(pkg_path, request),
                ),
            }
        }
    }
}

/// Resolves a `#` request through one package's `imports` object.
pub fn imports_resolve_in(
    pkg_path: &str,
    base: &str,
    imports: &crate::json::JsonValue,
    request: &str,
    conditions: &Vec<String>,
    mode: NodeResolutionMode,
) -> (r: Result<ResolvedTarget, crate::errors::NodeError>)
    ensures
        match r {
            Result::Ok(x) => spec_imports_resolve(
                pkg_path@,
                base@,
                imports@,
                request@,
                crate::paths::strs_view(conditions@),
                mode,
            ) == Result::<ResolvedTargetModel, crate::errors::ErrModel>::Ok(x@),
            Result::Err(e) => spec_imports_resolve(
                pkg_path@,
                base@,
                imports@,
                request@,
                crate::paths::strs_view(conditions@),
                mode,
            ) == Result::<ResolvedTargetModel, crate::errors::ErrModel>::Err(e@),
        },
{
    let rv = crate::chars::str_to_chars(request);
    let pv = crate::chars::str_to_chars(pkg_path);
    let empty_sub: Vec<char> = Vec::new();
    proof {
        assert(empty_sub@ =~= Seq::<char>::empty());
    }
    if rv.len() == 0 || rv[0] != '#' || crate::chars::chars_eq_str(&rv, "#")
        || crate::chars::starts_with_str(&rv, "#/") {
        return Result::Err(
            crate::errors::NodeError::InvalidSpecifier(crate::chars::chars_to_string(&rv)),
        );
    }
    let default_members: Vec<(String, crate::json::JsonValue)> = Vec::new();
    proof {
        assert(crate::json::jm_of_members(default_members@)
            =~= Seq::<(Seq<char>, crate::json::JsonModel)>::empty());
    }
    let members = match imports {
        crate::json::JsonValue::Obj(ms) => ms,
        _ => &default_members,
    };
    let exact = if crate::chars::contains_char(&rv, '*') {
        Option::None
    } else {
        crate::json::obj_get(members, request)
    };
    match exact {
        Option::Some(target) => {
            let out = target_resolve(
                pkg_path,
                base,
                target,
                &empty_sub,
                false,
                true,
                conditions,
                mode,
            );
            finish_imports_exec(&pv, &rv, out)
        },
        Option::None => {
            match best_pattern_key(members, &rv, false) {
                Option::Some(i) => {
                    let kv = crate::chars::str_to_chars(members[i].0.as_str());
                    let bound = match pattern_match_exec(&kv, &rv) {
                        Option::Some(b) => b,
                        Option::None => {
                            proof {
                                lemma_best_pat_eligible(
                                    crate::json::jm_of_members(members@),
                                    rv@,
                                    false,
                                    0,
                                    Option::None,
                                    i as int,
                                );
                                crate::json::lemma_jm_of_members_index(members@);
                                assert(false);
                            }
                            return Result::Err(
                                crate::errors::NodeError::InvalidPackageConfig(
                                    crate::chars::chars_to_string(&pv),
                                ),
                            );
                        },
                    };
                    proof {
                        crate::json::lemma_jm_of_members_index(members@);
                    }
                    let out = target_resolve(
                        pkg_path,
                        base,
                        &members[i].1,
                        &bound,
                        true,
                        true,
                        conditions,
                        mode,
                    );
                    finish_imports_exec(&pv, &rv, out)
                },
                Option::None => Result::Err(
                    crate::errors::NodeError::PackageImportNotDefined(
                        crate::chars::chars_to_string(&pv),
                        crate::chars::chars_to_string(&rv),
                    ),
                ),
            }
        },
    }
}

/// Turns a target outcome into the imports result.
fn finish_imports_exec(
    pv: &Vec<char>,
    rv: &Vec<char>,
    out: Result<Option<ResolvedTarget>, crate::errors::NodeError>,
) -> (r: Result<ResolvedTarget, crate::errors::NodeError>)
    ensures
        ({
            let o = match out {
                Result::Ok(Option::Some(p)) => Result::Ok(Option::Some(p@)),
                Result::Ok(Option::None) => Result::Ok(Option::None),
                Result::Err(e) => Result::Err(e@),
            };
            match r {
                Result::Ok(x) => imports_finish(pv@, rv@, o) == Result::<
                    ResolvedTargetModel,
                    crate::errors::ErrModel,
                >::Ok(x@),
                Result::Err(e) => imports_finish(pv@, rv@, o) == Result::<
                    ResolvedTargetModel,
                    crate::errors::ErrModel,
                >::Err(e@),
            }
        }),
{
    match out {
        Result::Ok(Option::Some(x)) => Result::Ok(x),
        Result::Ok(Option::None) => Result::Err(
            crate::errors::NodeError::PackageImportNotDefined(
                crate::chars::chars_to_string(pv),
                crate::chars::chars_to_string(rv),
            ),
        ),
        Result::Err(e) => Result::Err(e),
    }
}

/// The ordered probe candidates of the legacy `main` fallback: the `types`
/// entry when resolving for declarations, then the `main` entry with its
/// extension and index variants, or the bare index files without a `main`.
pub open spec fn spec_legacy_candidates(
    pkg: crate::package_json::PackageJsonModel,
    mode: NodeResolutionMode,
) -> Seq<Seq<char>> {
    let types_part: Seq<Seq<char>> = match pkg.types {
        Option::Some(t) => if mode is Types {
            seq![join_dir(pkg.base, t)]
        } else {
            Seq::empty()
        },
        Option::None => Seq::empty(),
    };
    let main_part: Seq<Seq<char>> = match pkg.main {
        Option::Some(m) => seq![
            join_dir(pkg.base, m),
            join_dir(pkg.base, m + ".js"@),
            join_dir(pkg.base, m + ".json"@),
            join_dir(pkg.base, m + ".node"@),
            join_dir(pkg.base, m + "/index.js"@),
            join_dir(pkg.base, m + "/index.json"@),
            join_dir(pkg.base, m + "/index.node"@),
        ],
        Option::None => seq![
            join_dir(pkg.base, "index.js"@),
            join_dir(pkg.base, "index.json"@),
            join_dir(pkg.base, "index.node"@),
        ],
    };
    types_part + main_part
}

/// The first candidate the filesystem holds as a regular file.
pub open spec fn spec_first_existing(
    files: Map<Seq<char>, crate::host::FileKind>,
    cands: Seq<Seq<char>>,
    k: int,
) -> Option<Seq<char>>
    decreases cands.len() - k,
{
    if k < 0 || k >= cands.len() {
        Option::None
    } else if files.contains_key(cands[k]) && files[cands[k]] is File {
        Option::Some(cands[k])
    } else {
        spec_first_existing(files, cands, k + 1)
    }
}

/// The legacy `main` resolution: the first existing candidate, or a
/// module-not-found error naming the package root.
pub open spec fn spec_legacy_main(
    files: Map<Seq<char>, crate::host::FileKind>,
    pkg: crate::package_json::PackageJsonModel,
    mode: NodeResolutionMode,
) -> Result<Seq<char>, crate::errors::ErrModel> {
    match spec_first_existing(files, spec_legacy_candidates(pkg, mode), 0) {
        Option::Some(p) => Result::Ok(p),
        Option::None => Result::Err(crate::errors::ErrModel::ModuleNotFound(pkg.base)),
    }
}

/// Builds one candidate: `base` / `name` + `suffix`.
fn cand(base: &Vec<char>, name: &Vec<char>, suffix: &str) -> (r: String)
    ensures
        r@ == join_dir(base@, name@ + suffix@),
{
    let sv = crate::chars::str_to_chars(suffix);
    let n2 = crate::chars::concat_chars(name, &sv);
    let j = join_dir_exec(base, &n2);
    crate::chars::chars_to_string(&j)
}

/// Resolves the package entry without `exports`: the `types` entry when
/// resolving declarations, then `main` with extension and index variants,
/// else the index files; the first that exists as a file wins.
pub fn legacy_main_resolve<F: crate::host::FileSystem>(
    fs: &F,
    pkg: &crate::package_json::PackageJson,
    mode: NodeResolutionMode,
) -> (r: Result<String, crate::errors::NodeError>)
    ensures
        match r {
            Result::Ok(p) => spec_legacy_main(fs.files(), pkg@, mode) == Result::<
                Seq<char>,
                crate::errors::ErrModel,
            >::Ok(p@),
            Result::Err(e) => spec_legacy_main(fs.files(), pkg@, mode) == Result::<
                Seq<char>,
                crate::errors::ErrModel,
            >::Err(e@),
        },
{
    let bv = crate::chars::str_to_chars(pkg.base.as_str());
    let mut cands: Vec<String> = Vec::new();
    match &pkg.types {
        Option::Some(t) => {
            if matches!(mode, NodeResolutionMode::Types) {
                let tv = crate::chars::str_to_chars(t.as_str());
                let j = join_dir_exec(&bv, &tv);
                cands.push(crate::chars::chars_to_string(&j));
            }
        },
        Option::None => {},
    }
    let ghost types_part = crate::paths::strs_view(cands@);
    proof {
        assert(types_part =~= (match pkg@.types {
            Option::Some(t) => if mode is Types {
                seq![join_dir(pkg@.base, t)]
            } else {
                Seq::<Seq<char>>::empty()
            },
            Option::None => Seq::<Seq<char>>::empty(),
        }));
    }
    match &pkg.main {
        Option::Some(m) => {
            let mv = crate::chars::str_to_chars(m.as_str());
            let j0 = join_dir_exec(&bv, &mv);
            cands.push(crate::chars::chars_to_string(&j0));
            cands.push(cand(&bv, &mv, ".js"));
            cands.push(cand(&bv, &mv, ".json"));
            cands.push(cand(&bv, &mv, ".node"));
            cands.push(cand(&bv, &mv, "/index.js"));
            cands.push(cand(&bv, &mv, "/index.json"));
            cands.push(cand(&bv, &mv, "/index.node"));
        },
        Option::None => {
            let empty: Vec<char> = Vec::new();
            proof {
                assert(empty@ =~= Seq::<char>::empty());
                assert(Seq::<char>::empty() + "index.js"@ =~= "index.js"@);
                assert(Seq::<char>::empty() + "index.json"@ =~= "index.json"@);
                assert(Seq::<char>::empty() + "index.node"@ =~= "index.node"@);
            }
            cands.push(cand(&bv, &empty, "index.js"));
            cands.push(cand(&bv, &empty, "index.json"));
            cands.push(cand(&bv, &empty, "index.node"));
        },
    }
    proof {
        assert(crate::paths::strs_view(cands@) =~= spec_legacy_candidates(pkg@, mode));
    }
    let ghost cl = crate::paths::strs_view(cands@);
    let mut k: usize = 0;
    while k < cands.len()
        invariant
            k <= cands@.len(),
            cl == crate::paths::strs_view(cands@),
            cl == spec_legacy_candidates(pkg@, mode),
            spec_first_existing(fs.files(), cl, 0) == spec_first_existing(
                fs.files(),
                cl,
                k as int,
            ),
        decreases cands@.len() - k,
    {
        proof {
            assert(cl[k as int] == cands@[k as int]@);
        }
        if fs.stat(cands[k].as_str()) == 0 {
            let out = cands[k].clone();
            return Result::Ok(out);
        }
        k = k + 1;
    }
    Result::Err(crate::errors::NodeError::ModuleNotFound(pkg.base.clone()))
}

/// The declaration-file candidates for a resolved path: the extension's
/// declaration counterpart first for `.js`, `.mjs` and `.cjs`, then the
/// path with `.d.ts` appended; for any other path, the appended `.d.ts`
/// and an `index.d.ts` below it.
pub open spec fn spec_declaration_candidates(path: Seq<char>) -> Seq<Seq<char>> {
    if crate::chars::is_suffix_of(".js"@, path) {
        seq![path.take(path.len() - 3) + ".d.ts"@, path + ".d.ts"@]
    } else if crate::chars::is_suffix_of(".mjs"@, path) {
        seq![path.take(path.len() - 4) + ".d.mts"@, path + ".d.ts"@]
    } else if crate::chars::is_suffix_of(".cjs"@, path) {
        seq![path.take(path.len() - 4) + ".d.cts"@, path + ".d.ts"@]
    } else {
        seq![path + ".d.ts"@, path + "/index.d.ts"@]
    }
}

/// The declaration file for a resolved path: the first candidate that
/// exists, or the path itself.
pub open spec fn spec_declaration_path(
    files: Map<Seq<char>, crate::host::FileKind>,
    path: Seq<char>,
) -> Seq<char> {
    match spec_first_existing(files, spec_declaration_candidates(path), 0) {
        Option::Some(p) => p,
        Option::None => path,
    }
}

/// `a` + `suffix` as a string.
fn append_str(a: &Vec<char>, suffix: &str) -> (r: String)
    ensures
        r@ == a@ + suffix@,
{
    let sv = crate::chars::str_to_chars(suffix);
    let j = crate::chars::concat_chars(a, &sv);
    crate::chars::chars_to_string(&j)
}

/// Locates the declaration file next to a resolved path, trying the
/// extension's declaration counterpart and an appended `.d.ts` (an
/// `index.d.ts` below an extensionless path); the probe order does not
/// depend on the module kind.
pub fn path_to_declaration_path<F: crate::host::FileSystem>(
    fs: &F,
    path: &str,
    kind: NodeModuleKind,
) -> (r: String)
    ensures
        r@ == spec_declaration_path(fs.files(), path@),
{
    let pv = crate::chars::str_to_chars(path);
    let mut cands: Vec<String> = Vec::new();
    if crate::chars::ends_with_str(&pv, ".js") {
        proof {
            reveal_strlit(".js");
        }
        let stem = crate::chars::subrange_chars(&pv, 0, pv.len() - 3);
        proof {
            assert(stem@ =~= pv@.take(pv@.len() - 3));
        }
        cands.push(append_str(&stem, ".d.ts"));
        cands.push(append_str(&pv, ".d.ts"));
    } else if crate::chars::ends_with_str(&pv, ".mjs") {
        proof {
            reveal_strlit(".mjs");
        }
        let stem = crate::chars::subrange_chars(&pv, 0, pv.len() - 4);
        proof {
            assert(stem@ =~= pv@.take(pv@.len() - 4));
        }
        cands.push(append_str(&stem, ".d.mts"));
        cands.push(append_str(&pv, ".d.ts"));
    } else if crate::chars::ends_with_str(&pv, ".cjs") {
        proof {
            reveal_strlit(".cjs");
        }
        let stem = crate::chars::subrange_chars(&pv, 0, pv.len() - 4);
        proof {
            assert(stem@ =~= pv@.take(pv@.len() - 4));
        }
        cands.push(append_str(&stem, ".d.cts"));
        cands.push(append_str(&pv, ".d.ts"));
    } else {
        cands.push(append_str(&pv, ".d.ts"));
        cands.push(append_str(&pv, "/index.d.ts"));
    }
    proof {
        assert(crate::paths::strs_view(cands@) =~= spec_declaration_candidates(path@));
    }
    let ghost cl = crate::paths::strs_view(cands@);
    let mut k: usize = 0;
    while k < cands.len()
        invariant
            k <= cands@.len(),
            cl == crate::paths::strs_view(cands@),
            cl == spec_declaration_candidates(path@),
            spec_first_existing(fs.files(), cl, 0) == spec_first_existing(
                fs.files(),
                cl,
                k as int,
            ),
        decreases cands@.len() - k,
    {
        proof {
            assert(cl[k as int] == cands@[k as int]@);
        }
        if fs.stat(cands[k].as_str()) == 0 {
            let out = cands[k].clone();
            return out;
        }
        k = k + 1;
    }
    crate::chars::chars_to_string(&pv)
}

/// Resolves a bare specifier: the locator gives the package folder, its
/// `package.json` is loaded, and the subpath goes through `exports`, the
/// legacy `main` fallback, or a direct file or index probe.
pub open spec fn spec_package_resolve_bare<R: crate::host::RequireNpmResolver>(
    files: Map<Seq<char>, crate::host::FileKind>,
    contents: Map<Seq<char>, Seq<char>>,
    resolver: &R,
    request: Seq<char>,
    referrer: Seq<char>,
    conds: Seq<Seq<char>>,
    mode: NodeResolutionMode,
) -> Result<Seq<char>, crate::errors::ErrModel> {
    match spec_parse_package(request) {
        Option::None => Result::Err(crate::errors::ErrModel::InvalidSpecifier(request)),
        Option::Some((name, subpath)) => match resolver.folder_for(name, referrer, mode) {
            Option::None => Result::Err(
                crate::errors::ErrModel::PackageNotFound(name, referrer),
            ),
            Option::Some(folder) => {
                let pkg_path = join_dir(folder, "package.json"@);
                match crate::package_json::spec_load(contents, pkg_path) {
                    Result::Err(e) => Result::Err(e),
                    Result::Ok(doc) => match doc.exports {
                        Option::Some(ex) => spec_exports_resolve(
                            doc.path,
                            doc.base,
                            ex,
                            subpath,
                            conds,
                            mode,
                        ),
                        Option::None => {
                            if subpath == "."@ {
                                spec_legacy_main(files, doc, mode)
                            } else {
                                let joined = join_dir(folder, subpath.skip(2));
                                if files.contains_key(joined) && files[joined] is File {
                                    Result::Ok(joined)
                                } else if files.contains_key(joined) && files[joined] is Dir {
                                    match spec_first_existing(
                                        files,
                                        seq![
                                            join_dir(joined, "index.js"@),
                                            join_dir(joined, "index.json"@),
                                            join_dir(joined, "index.node"@),
                                        ],
                                        0,
                                    ) {
                                        Option::Some(p) => Result::Ok(p),
                                        Option::None => Result::Err(
                                            crate::errors::ErrModel::ModuleNotFound(joined),
                                        ),
                                    }
                                } else {
                                    Result::Err(crate::errors::ErrModel::ModuleNotFound(joined))
                                }
                            }
                        },
                    },
                }
            },
        },
    }
}

/// The one permission denial a bare resolution can meet: a refusal to
/// read the located package's `package.json`. The errors before that
/// point are exact (a malformed specifier, a package the locator does not
/// know), and past it no permission is asked.
pub open spec fn spec_bare_denial<R: crate::host::RequireNpmResolver>(
    resolver: &R,
    request: Seq<char>,
    referrer: Seq<char>,
    mode: NodeResolutionMode,
    e: crate::errors::ErrModel,
) -> bool {
    match spec_parse_package(request) {
        Option::None => false,
        Option::Some((name, _)) => match resolver.folder_for(name, referrer, mode) {
            Option::None => false,
            Option::Some(folder) => e == crate::errors::ErrModel::PermissionDenied(
                join_dir(folder, "package.json"@),
            ),
        },
    }
}

/// The permission denials a full resolution can surface: none for a
/// relative or absolute request; for a `#` request, the referrer's
/// directory, the closest `package.json`, or the package a bare target
/// leads on to; for a bare request, its package's `package.json`.
pub open spec fn spec_resolve_denial<R: crate::host::RequireNpmResolver>(
    files: Map<Seq<char>, crate::host::FileKind>,
    contents: Map<Seq<char>, Seq<char>>,
    resolver: &R,
    request: Seq<char>,
    referrer: Seq<char>,
    conds: Seq<Seq<char>>,
    mode: NodeResolutionMode,
    e: crate::errors::ErrModel,
) -> bool {
    let k = spec_classify(request);
    if k is Relative || k is Absolute {
        false
    } else if k is Imports {
        let target = crate::package_json::spec_closest_target(
            files,
            referrer,
            resolver.package_root_of(referrer),
        );
        e == crate::errors::ErrModel::PermissionDenied(
            crate::package_json::spec_parent_dir(referrer),
        ) || e == crate::errors::ErrModel::PermissionDenied(target) || (match crate::package_json::spec_load(
            contents,
            target,
        ) {
            Result::Ok(doc) => match doc.imports {
                Option::Some(im) => match spec_imports_resolve(
                    doc.path,
                    doc.base,
                    im,
                    request,
                    conds,
                    mode,
                ) {
                    Result::Ok(ResolvedTargetModel::Bare(b)) => spec_bare_denial(
                        resolver,
                        b,
                        referrer,
                        mode,
                        e,
                    ),
                    _ => false,
                },
                Option::None => false,
            },
            Result::Err(_) => false,
        })
    } else {
        spec_bare_denial(resolver, request, referrer, mode, e)
    }
}

/// Resolves a request from a referrer: a relative or absolute request is
/// joined and normalized (and, when resolving declarations, probed for a
/// declaration file); a `#` request goes through the closest package's
/// `imports`; a bare specifier goes through the package resolution above.
pub open spec fn spec_package_resolve<R: crate::host::RequireNpmResolver>(
    files: Map<Seq<char>, crate::host::FileKind>,
    contents: Map<Seq<char>, Seq<char>>,
    resolver: &R,
    request: Seq<char>,
    referrer: Seq<char>,
    conds: Seq<Seq<char>>,
    mode: NodeResolutionMode,
) -> Result<Seq<char>, crate::errors::ErrModel> {
    let k = spec_classify(request);
    if k is Relative || k is Absolute {
        let resolved = crate::paths::spec_path_resolve(
            seq![crate::package_json::base_of(referrer), request],
        );
        if mode is Types {
            Result::Ok(spec_declaration_path(files, resolved))
        } else {
            Result::Ok(resolved)
        }
    } else if k is Imports {
        let target_path = crate::package_json::spec_closest_target(
            files,
            referrer,
            resolver.package_root_of(referrer),
        );
        match crate::package_json::spec_load(contents, target_path) {
            Result::Err(e) => Result::Err(e),
            Result::Ok(doc) => match doc.imports {
                Option::None => Result::Err(
                    crate::errors::ErrModel::PackageImportNotDefined(doc.path, request),
                ),
                Option::Some(im) => match spec_imports_resolve(
                    doc.path,
                    doc.base,
                    im,
                    request,
                    conds,
                    mode,
                ) {
                    Result::Err(e) => Result::Err(e),
                    Result::Ok(ResolvedTargetModel::Path(p)) => Result::Ok(p),
                    Result::Ok(ResolvedTargetModel::Bare(b)) => spec_package_resolve_bare(
                        files,
                        contents,
                        resolver,
                        b,
                        referrer,
                        conds,
                        mode,
                    ),
                },
            },
        }
    } else {
        spec_package_resolve_bare(files, contents, resolver, request, referrer, conds, mode)
    }
}

/// Resolves a bare specifier through the package folder the locator names.
#[verifier::loop_isolation(false)]
pub fn package_resolve_bare<
    F: crate::host::FileSystem,
    R: crate::host::RequireNpmResolver,
    P: crate::host::NodePermissions,
>(
    fs: &F,
    resolver: &R,
    permissions: &mut P,
    cache: &mut crate::package_json::PackageJsonCache,
    request: &str,
    referrer: &str,
    conditions: &Vec<String>,
    mode: NodeResolutionMode,
) -> (r: Result<String, crate::errors::NodeError>)
    requires
        crate::package_json::cache_coherent(old(cache).entries@, fs.contents()),
    ensures
        crate::package_json::cache_coherent(final(cache).entries@, fs.contents()),
        crate::package_json::cache_extends(final(cache).entries@, old(cache).entries@),
        match r {
            Result::Ok(p) => spec_package_resolve_bare(
                fs.files(),
                fs.contents(),
                resolver,
                request@,
                referrer@,
                crate::paths::strs_view(conditions@),
                mode,
            ) == Result::<Seq<char>, crate::errors::ErrModel>::Ok(p@),
            Result::Err(e) => spec_package_resolve_bare(
                fs.files(),
                fs.contents(),
                resolver,
                request@,
                referrer@,
                crate::paths::strs_view(conditions@),
                mode,
            ) == Result::<Seq<char>, crate::errors::ErrModel>::Err(e@) || spec_bare_denial(
                resolver,
                request@,
                referrer@,
                mode,
                e@,
            ),
        },
{
    proof {
        crate::package_json::lemma_cache_extends_refl(cache.entries@);
    }
    let (name, subpath) = match parse_package_specifier(request) {
        Result::Err(e) => {
            return Result::Err(e);
        },
        Result::Ok(p) => p,
    };
    let folder = match resolver.resolve_package_folder_from_package(
        name.as_str(),
        referrer,
        mode,
    ) {
        Option::None => {
            let rv = crate::chars::str_to_chars(referrer);
            return Result::Err(
                crate::errors::NodeError::PackageNotFound(
                    name,
                    crate::chars::chars_to_string(&rv),
                ),
            );
        },
        Option::Some(f) => f,
    };
    let fv = crate::chars::str_to_chars(folder.as_str());
    let pj = crate::chars::str_to_chars("package.json");
    let pkg_path_v = join_dir_exec(&fv, &pj);
    let pkg_path = crate::chars::chars_to_string(&pkg_path_v);
    let doc = match crate::package_json::load(fs, resolver, permissions, cache, pkg_path.as_str())
    {
        Result::Err(e) => {
            return Result::Err(e);
        },
        Result::Ok(d) => d,
    };
    match &doc.exports {
        Option::Some(ex) => package_exports_resolve(
            doc.path.as_str(),
            doc.base.as_str(),
            ex,
            subpath.as_str(),
            conditions,
            mode,
        ),
        Option::None => {
            let sv = crate::chars::str_to_chars(subpath.as_str());
            if crate::chars::chars_eq_str(&sv, ".") {
                legacy_main_resolve(fs, &doc, mode)
            } else {
                proof {
                    reveal_strlit(".");
                    let s = request@;
                    let first = crate::chars::find_char(s, '/', 0);
                    crate::chars::lemma_find_char_bounds(s, '/', 0);
                    if first + 1 <= s.len() {
                        crate::chars::lemma_find_char_bounds(s, '/', first + 1);
                    }
                    assert(sv@.len() >= 2);
                }
                let tail = crate::chars::subrange_chars(&sv, 2, sv.len());
                proof {
                    assert(tail@ =~= sv@.skip(2));
                }
                let joined_v = join_dir_exec(&fv, &tail);
                let joined = crate::chars::chars_to_string(&joined_v);
                let st = fs.stat(joined.as_str());
                if st == 0 {
                    Result::Ok(joined)
                } else if st == 1 {
                    let mut cands: Vec<String> = Vec::new();
                    cands.push(cand(&joined_v, &Vec::new(), "index.js"));
                    cands.push(cand(&joined_v, &Vec::new(), "index.json"));
                    cands.push(cand(&joined_v, &Vec::new(), "index.node"));
                    let ghost cl = crate::paths::strs_view(cands@);
                    proof {
                        assert(Seq::<char>::empty() + "index.js"@ =~= "index.js"@);
                        assert(Seq::<char>::empty() + "index.json"@ =~= "index.json"@);
                        assert(Seq::<char>::empty() + "index.node"@ =~= "index.node"@);
                        assert(cl =~= seq![
                            join_dir(joined@, "index.js"@),
                            join_dir(joined@, "index.json"@),
                            join_dir(joined@, "index.node"@),
                        ]);
                    }
                    let mut k: usize = 0;
                    while k < cands.len()
                        invariant
                            k <= cands@.len(),
                            cl == crate::paths::strs_view(cands@),
                            spec_first_existing(fs.files(), cl, 0) == spec_first_existing(
                                fs.files(),
                                cl,
                                k as int,
                            ),
                        decreases cands@.len() - k,
                    {
                        proof {
                            assert(cl[k as int] == cands@[k as int]@);
                        }
                        if fs.stat(cands[k].as_str()) == 0 {
                            let out = cands[k].clone();
                            return Result::Ok(out);
                        }
                        k = k + 1;
                    }
                    Result::Err(crate::errors::NodeError::ModuleNotFound(joined))
                } else {
                    Result::Err(crate::errors::NodeError::ModuleNotFound(joined))
                }
            }
        },
    }
}

/// Resolves a request from a referrer. The behavior of each class of
/// request is pinned to the specification above: the result is a function
/// of the filesystem and locator models alone, never of the cache.
pub fn package_resolve<
    F: crate::host::FileSystem,
    R: crate::host::RequireNpmResolver,
    P: crate::host::NodePermissions,
>(
    fs: &F,
    resolver: &R,
    permissions: &mut P,
    cache: &mut crate::package_json::PackageJsonCache,
    request: &str,
    referrer: &str,
    kind: NodeModuleKind,
    conditions: &Vec<String>,
    mode: NodeResolutionMode,
) -> (r: Result<String, crate::errors::NodeError>)
    requires
        crate::package_json::cache_coherent(old(cache).entries@, fs.contents()),
    ensures
        crate::package_json::cache_coherent(final(cache).entries@, fs.contents()),
        crate::package_json::cache_extends(final(cache).entries@, old(cache).entries@),
        match r {
            Result::Ok(p) => spec_package_resolve(
                fs.files(),
                fs.contents(),
                resolver,
                request@,
                referrer@,
                crate::paths::strs_view(conditions@),
                mode,
            ) == Result::<Seq<char>, crate::errors::ErrModel>::Ok(p@),
            Result::Err(e) => spec_package_resolve(
                fs.files(),
                fs.contents(),
                resolver,
                request@,
                referrer@,
                crate::paths::strs_view(conditions@),
                mode,
            ) == Result::<Seq<char>, crate::errors::ErrModel>::Err(e@) || spec_resolve_denial(
                fs.files(),
                fs.contents(),
                resolver,
                request@,
                referrer@,
                crate::paths::strs_view(conditions@),
                mode,
                e@,
            ),
        },
{
    proof {
        crate::package_json::lemma_cache_extends_refl(cache.entries@);
    }
    let class = classify(request);
    if matches!(class, RequestKind::Relative) || matches!(class, RequestKind::Absolute) {
        let base = crate::package_json::base_of_exec(referrer);
        let mut parts: Vec<String> = Vec::new();
        parts.push(base);
        parts.push(crate::chars::chars_to_string(&crate::chars::str_to_chars(request)));
        let resolved = crate::paths::path_resolve(&parts);
        proof {
            assert(crate::paths::strs_view(parts@) =~= seq![
                crate::package_json::base_of(referrer@),
                request@,
            ]);
        }
        if matches!(mode, NodeResolutionMode::Types) {
            Result::Ok(path_to_declaration_path(fs, resolved.as_str(), kind))
        } else {
            Result::Ok(resolved)
        }
    } else if matches!(class, RequestKind::Imports) {
        let doc = match crate::package_json::get_closest_package_json(
            fs,
            resolver,
            permissions,
            cache,
            referrer,
        ) {
            Result::Err(e) => {
                return Result::Err(e);
            },
            Result::Ok(d) => d,
        };
        match &doc.imports {
            Option::None => {
                let rv = crate::chars::str_to_chars(request);
                Result::Err(
                    crate::errors::NodeError::PackageImportNotDefined(
                        doc.path.clone(),
                        crate::chars::chars_to_string(&rv),
                    ),
                )
            },
            Option::Some(im) => {
                match imports_resolve_in(
                    doc.path.as_str(),
                    doc.base.as_str(),
                    im,
                    request,
                    conditions,
                    mode,
                ) {
                    Result::Err(e) => Result::Err(e),
                    Result::Ok(ResolvedTarget::Path(p)) => Result::Ok(p),
                    Result::Ok(ResolvedTarget::Bare(b)) => {
                        let ghost mid = cache.entries@;
                        let out = package_resolve_bare(
                            fs,
                            resolver,
                            permissions,
                            cache,
                            b.as_str(),
                            referrer,
                            conditions,
                            mode,
                        );
                        proof {
                            crate::package_json::lemma_cache_extends_trans(
                                old(cache).entries@,
                                mid,
                                cache.entries@,
                            );
                        }
                        out
                    },
                }
            },
        }
    } else {
        package_resolve_bare(
            fs,
            resolver,
            permissions,
            cache,
            request,
            referrer,
            conditions,
            mode,
        )
    }
}

/// Self-resolution: when the referrer's own package names the request (its
/// `name` equals the request or prefixes it), the request resolves through
/// that package's `exports`; in every other case there is no result.
pub open spec fn spec_try_self<R: crate::host::RequireNpmResolver>(
    files: Map<Seq<char>, crate::host::FileKind>,
    contents: Map<Seq<char>, Seq<char>>,
    resolver: &R,
    parent_path: Option<Seq<char>>,
    request: Seq<char>,
) -> Result<Option<Seq<char>>, crate::errors::ErrModel> {
    match parent_path {
        Option::None => Result::Ok(Option::None),
        Option::Some(pp) => match resolver.package_root_of(pp) {
            Option::None => Result::Ok(Option::None),
            Option::Some(root) => match crate::package_json::spec_load(
                contents,
                join_dir(root, "package.json"@),
            ) {
                Result::Err(e) => Result::Err(e),
                Result::Ok(doc) => match (doc.exports, doc.name) {
                    (Option::Some(ex), Option::Some(name)) => {
                        if request == name {
                            spec_try_self_finish(doc, ex, "."@)
                        } else if crate::chars::is_prefix_of(name + seq!['/'], request) {
                            spec_try_self_finish(
                                doc,
                                ex,
                                seq!['.'] + request.skip(name.len() as int),
                            )
                        } else {
                            Result::Ok(Option::None)
                        }
                    },
                    _ => Result::Ok(Option::None),
                },
            },
        },
    }
}

/// The exports resolution at the end of a self-resolution.
pub open spec fn spec_try_self_finish(
    doc: crate::package_json::PackageJsonModel,
    ex: crate::json::JsonModel,
    expansion: Seq<char>,
) -> Result<Option<Seq<char>>, crate::errors::ErrModel> {
    match spec_exports_resolve(
        doc.path,
        doc.base,
        ex,
        expansion,
        spec_require_conditions(),
        NodeResolutionMode::Execution,
    ) {
        Result::Ok(p) => Result::Ok(Option::Some(p)),
        Result::Err(e) => Result::Err(e),
    }
}

/// Self-resolution of a request against the referrer package's `exports`.
pub fn try_self<
    F: crate::host::FileSystem,
    R: crate::host::RequireNpmResolver,
    P: crate::host::NodePermissions,
>(
    fs: &F,
    resolver: &R,
    permissions: &mut P,
    cache: &mut crate::package_json::PackageJsonCache,
    parent_path: &Option<String>,
    request: &str,
) -> (r: Result<Option<String>, crate::errors::NodeError>)
    requires
        crate::package_json::cache_coherent(old(cache).entries@, fs.contents()),
    ensures
        crate::package_json::cache_coherent(final(cache).entries@, fs.contents()),
        crate::package_json::cache_extends(final(cache).entries@, old(cache).entries@),
        ({
            let pp = match *parent_path {
                Option::Some(s) => Option::Some(s@),
                Option::None => Option::None,
            };
            match r {
                Result::Ok(Option::Some(p)) => spec_try_self(
                    fs.files(),
                    fs.contents(),
                    resolver,
                    pp,
                    request@,
                ) == Result::<Option<Seq<char>>, crate::errors::ErrModel>::Ok(Option::Some(p@)),
                Result::Ok(Option::None) => spec_try_self(
                    fs.files(),
                    fs.contents(),
                    resolver,
                    pp,
                    request@,
                ) == Result::<Option<Seq<char>>, crate::errors::ErrModel>::Ok(Option::None),
                Result::Err(e) => spec_try_self(fs.files(), fs.contents(), resolver, pp, request@)
                    == Result::<Option<Seq<char>>, crate::errors::ErrModel>::Err(e@) || (
                match pp {
                    Option::Some(ps) => match resolver.package_root_of(ps) {
                        Option::Some(root) => e@ == crate::errors::ErrModel::PermissionDenied(
                            join_dir(root, "package.json"@),
                        ),
                        Option::None => false,
                    },
                    Option::None => false,
                }),
            }
        }),
{
    proof {
        crate::package_json::lemma_cache_extends_refl(cache.entries@);
    }
    let pp = match parent_path {
        Option::None => {
            return Result::Ok(Option::None);
        },
        Option::Some(s) => s,
    };
    let doc = match crate::package_json::get_package_scope_config(
        fs,
        resolver,
        permissions,
        cache,
        pp.as_str(),
    ) {
        Result::Err(e) => {
            return Result::Err(e);
        },
        Result::Ok(Option::None) => {
            return Result::Ok(Option::None);
        },
        Result::Ok(Option::Some(d)) => d,
    };
    let name = match &doc.name {
        Option::None => {
            return Result::Ok(Option::None);
        },
        Option::Some(n) => n,
    };
    let ex = match &doc.exports {
        Option::None => {
            return Result::Ok(Option::None);
        },
        Option::Some(ex) => ex,
    };
    let rv = crate::chars::str_to_chars(request);
    let nv = crate::chars::str_to_chars(name.as_str());
    let expansion: Vec<char> = if crate::chars::chars_eq(&rv, &nv) {
        crate::chars::str_to_chars(".")
    } else {
        let mut with_slash = crate::chars::subrange_chars(&nv, 0, nv.len());
        with_slash.push('/');
        proof {
            assert(nv@.subrange(0, nv@.len() as int) =~= nv@);
            assert(with_slash@ =~= nv@ + seq!['/']);
        }
        if crate::chars::starts_with_chars(&rv, &with_slash) {
            let mut e: Vec<char> = Vec::new();
            e.push('.');
            let rest = crate::chars::subrange_chars(&rv, nv.len(), rv.len());
            let e2 = crate::chars::concat_chars(&e, &rest);
            proof {
                assert(rest@ =~= rv@.skip(nv@.len() as int));
                assert(e2@ =~= seq!['.'] + rv@.skip(nv@.len() as int));
            }
            e2
        } else {
            return Result::Ok(Option::None);
        }
    };
    proof {
        reveal_strlit(".");
        if rv@ == nv@ {
            assert(expansion@ =~= "."@);
        }
    }
    let conditions = require_conditions();
    let expansion_s = crate::chars::chars_to_string(&expansion);
    match package_exports_resolve(
        doc.path.as_str(),
        doc.base.as_str(),
        ex,
        expansion_s.as_str(),
        &conditions,
        NodeResolutionMode::Execution,
    ) {
        Result::Ok(p) => Result::Ok(Option::Some(p)),
        Result::Err(e) => Result::Err(e),
    }
}

/// The exports resolution asked for by the host when requiring from a
/// `node_modules` directory: inside a managed package (unless a local
/// `node_modules` directory is in use) the modules path itself is the
/// package root; otherwise the package name is appended to it.
pub open spec fn spec_resolve_exports_root<R: crate::host::RequireNpmResolver>(
    resolver: &R,
    uses_local_node_modules_dir: bool,
    modules_path: Seq<char>,
    name: Seq<char>,
) -> Seq<char> {
    if resolver.in_package(modules_path) && !uses_local_node_modules_dir {
        modules_path
    } else {
        crate::paths::spec_path_resolve(seq![modules_path, name])
    }
}

pub open spec fn spec_resolve_exports<R: crate::host::RequireNpmResolver>(
    files: Map<Seq<char>, crate::host::FileKind>,
    contents: Map<Seq<char>, Seq<char>>,
    resolver: &R,
    uses_local_node_modules_dir: bool,
    modules_path: Seq<char>,
    name: Seq<char>,
    expansion: Seq<char>,
) -> Result<Option<Seq<char>>, crate::errors::ErrModel> {
    let pkg_root = spec_resolve_exports_root(
        resolver,
        uses_local_node_modules_dir,
        modules_path,
        name,
    );
    match crate::package_json::spec_load(contents, join_dir(pkg_root, "package.json"@)) {
        Result::Err(e) => Result::Err(e),
        Result::Ok(doc) => match doc.exports {
            Option::None => Result::Ok(Option::None),
            Option::Some(ex) => match spec_exports_resolve(
                doc.path,
                doc.base,
                ex,
                seq!['.'] + expansion,
                spec_require_conditions(),
                NodeResolutionMode::Execution,
            ) {
                Result::Ok(p) => Result::Ok(Option::Some(p)),
                Result::Err(e) => Result::Err(e),
            },
        },
    }
}

/// The exports resolution asked for by the host when requiring from a
/// `node_modules` directory.
pub fn resolve_exports<
    F: crate::host::FileSystem,
    R: crate::host::RequireNpmResolver,
    P: crate::host::NodePermissions,
>(
    fs: &F,
    resolver: &R,
    permissions: &mut P,
    cache: &mut crate::package_json::PackageJsonCache,
    uses_local_node_modules_dir: bool,
    modules_path: &str,
    name: &str,
    expansion: &str,
) -> (r: Result<Option<String>, crate::errors::NodeError>)
    requires
        crate::package_json::cache_coherent(old(cache).entries@, fs.contents()),
    ensures
        crate::package_json::cache_coherent(final(cache).entries@, fs.contents()),
        crate::package_json::cache_extends(final(cache).entries@, old(cache).entries@),
        match r {
            Result::Ok(Option::Some(p)) => spec_resolve_exports(
                fs.files(),
                fs.contents(),
                resolver,
                uses_local_node_modules_dir,
                modules_path@,
                name@,
                expansion@,
            ) == Result::<Option<Seq<char>>, crate::errors::ErrModel>::Ok(Option::Some(p@)),
            Result::Ok(Option::None) => spec_resolve_exports(
                fs.files(),
                fs.contents(),
                resolver,
                uses_local_node_modules_dir,
                modules_path@,
                name@,
                expansion@,
            ) == Result::<Option<Seq<char>>, crate::errors::ErrModel>::Ok(Option::None),
            Result::Err(e) => spec_resolve_exports(
                fs.files(),
                fs.contents(),
                resolver,
                uses_local_node_modules_dir,
                modules_path@,
                name@,
                expansion@,
            ) == Result::<Option<Seq<char>>, crate::errors::ErrModel>::Err(e@) || e@
                == crate::errors::ErrModel::PermissionDenied(
                join_dir(
                    spec_resolve_exports_root(
                        resolver,
                        uses_local_node_modules_dir,
                        modules_path@,
                        name@,
                    ),
                    "package.json"@,
                ),
            ),
        },
{
    proof {
        crate::package_json::lemma_cache_extends_refl(cache.entries@);
    }
    let pkg_root: String = if resolver.in_npm_package(modules_path)
        && !uses_local_node_modules_dir {
        crate::chars::chars_to_string(&crate::chars::str_to_chars(modules_path))
    } else {
        let mut parts: Vec<String> = Vec::new();
        parts.push(crate::chars::chars_to_string(&crate::chars::str_to_chars(modules_path)));
        parts.push(crate::chars::chars_to_string(&crate::chars::str_to_chars(name)));
        let resolved = crate::paths::path_resolve(&parts);
        proof {
            assert(crate::paths::strs_view(parts@) =~= seq![modules_path@, name@]);
        }
        resolved
    };
    let rootv = crate::chars::str_to_chars(pkg_root.as_str());
    let pj = crate::chars::str_to_chars("package.json");
    let ppv = join_dir_exec(&rootv, &pj);
    let pp = crate::chars::chars_to_string(&ppv);
    let doc = match crate::package_json::load(fs, resolver, permissions, cache, pp.as_str()) {
        Result::Err(e) => {
            return Result::Err(e);
        },
        Result::Ok(d) => d,
    };
    match &doc.exports {
        Option::None => Result::Ok(Option::None),
        Option::Some(ex) => {
            let mut sub: Vec<char> = Vec::new();
            sub.push('.');
            let ev = crate::chars::str_to_chars(expansion);
            let sub2 = crate::chars::concat_chars(&sub, &ev);
            proof {
                assert(sub2@ =~= seq!['.'] + expansion@);
            }
            let sub_s = crate::chars::chars_to_string(&sub2);
            let conditions = require_conditions();
            match package_exports_resolve(
                doc.path.as_str(),
                doc.base.as_str(),
                ex,
                sub_s.as_str(),
                &conditions,
                NodeResolutionMode::Execution,
            ) {
                Result::Ok(p) => Result::Ok(Option::Some(p)),
                Result::Err(e) => Result::Err(e),
            }
        },
    }
}

/// A character the file-URL rendering escapes: a control, or one of the
/// characters a URL path cannot carry verbatim (all of them below 128).
pub open spec fn url_path_escaped(c: char) -> bool {
    (c as u32) < 0x20 || c == ' ' || c == '"' || c == '#' || c == '%' || c == '<' || c == '>'
        || c == '?' || c == '`' || c == '{' || c == '}'
}

/// The uppercase hexadecimal digit of a value below 16.
pub open spec fn hex_digit_char(d: int) -> char {
    if d < 10 {
        (('0' as u8) + d as u8) as char
    } else {
        (('A' as u8) + (d - 10) as u8) as char
    }
}

/// The path written for a URL: each escaped character becomes `%` and its
/// two hexadecimal digits; every other character (non-ASCII ones among
/// them) passes through verbatim.
pub open spec fn percent_encode(s: Seq<char>, i: int) -> Seq<char>
    decreases s.len() - i,
{
    if i < 0 || i >= s.len() {
        Seq::empty()
    } else {
        let c = s[i];
        let rest = percent_encode(s, i + 1);
        if url_path_escaped(c) {
            seq![
                '%',
                hex_digit_char(((c as u32) / 16) as int),
                hex_digit_char(((c as u32) % 16) as int),
            ] + rest
        } else {
            seq![c] + rest
        }
    }
}

/// The file URL of an absolute path.
pub open spec fn spec_to_file_url(p: Seq<char>) -> Seq<char> {
    "file://"@ + percent_encode(p, 0)
}

/// Writes the file URL of an absolute path.
pub fn to_file_url(p: &str) -> (r: String)
    ensures
        r@ == spec_to_file_url(p@),
{
    let pv = crate::chars::str_to_chars(p);
    let mut out = crate::chars::str_to_chars("file://");
    let mut i: usize = 0;
    proof {
        assert(pv@.skip(0) =~= pv@);
    }
    while i < pv.len()
        invariant
            i <= pv@.len(),
            out@ + percent_encode(pv@, i as int) == "file://"@ + percent_encode(pv@, 0),
        decreases pv@.len() - i,
    {
        let c = pv[i];
        let x = c as u32;
        let escaped = x < 0x20 || c == ' ' || c == '"' || c == '#' || c == '%' || c == '<' || c
            == '>' || c == '?' || c == '`' || c == '{' || c == '}';
        let ghost old_out = out@;
        if escaped {
            out.push('%');
            let d1 = x / 16;
            let d2 = x % 16;
            let h1: char = if d1 < 10 {
                ((('0' as u32) + d1) as u8) as char
            } else {
                ((('A' as u32) + (d1 - 10)) as u8) as char
            };
            let h2: char = if d2 < 10 {
                ((('0' as u32) + d2) as u8) as char
            } else {
                ((('A' as u32) + (d2 - 10)) as u8) as char
            };
            out.push(h1);
            out.push(h2);
            proof {
                assert(h1 == hex_digit_char(((c as u32) / 16) as int));
                assert(h2 == hex_digit_char(((c as u32) % 16) as int));
                assert(out@ =~= old_out + seq![
                    '%',
                    hex_digit_char(((c as u32) / 16) as int),
                    hex_digit_char(((c as u32) % 16) as int),
                ]);
                assert(out@ + percent_encode(pv@, i as int + 1) =~= old_out + percent_encode(
                    pv@,
                    i as int,
                ));
            }
        } else {
            out.push(c);
            proof {
                assert(out@ =~= old_out + seq![c]);
                assert(out@ + percent_encode(pv@, i as int + 1) =~= old_out + percent_encode(
                    pv@,
                    i as int,
                ));
            }
        }
        i = i + 1;
    }
    proof {
        assert(percent_encode(pv@, pv@.len() as int) =~= Seq::<char>::empty());
        assert(out@ + Seq::<char>::empty() =~= out@);
    }
    crate::chars::chars_to_string(&out)
}

/// The bare specifier the host-facing imports operation resolves on to, if
/// its chain reaches one.
pub open spec fn spec_imports_op_bare(
    contents: Map<Seq<char>, Seq<char>>,
    parent_filename: Seq<char>,
    request: Seq<char>,
) -> Option<Seq<char>> {
    match crate::package_json::spec_load(
        contents,
        join_dir(parent_filename, "package.json"@),
    ) {
        Result::Ok(doc) => match doc.imports {
            Option::Some(im) => match spec_imports_resolve(
                doc.path,
                doc.base,
                im,
                request,
                spec_require_conditions(),
                NodeResolutionMode::Execution,
            ) {
                Result::Ok(ResolvedTargetModel::Bare(b)) => Option::Some(b),
                _ => Option::None,
            },
            Option::None => Option::None,
        },
        Result::Err(_) => Option::None,
    }
}

/// The imports resolution asked for by the host: the `package.json` of the
/// given directory supplies the `imports` object; a bare outcome resolves
/// on as a package.
pub open spec fn spec_imports_resolve_op<R: crate::host::RequireNpmResolver>(
    files: Map<Seq<char>, crate::host::FileKind>,
    contents: Map<Seq<char>, Seq<char>>,
    resolver: &R,
    parent_filename: Seq<char>,
    request: Seq<char>,
) -> Result<Option<Seq<char>>, crate::errors::ErrModel> {
    match crate::package_json::spec_load(
        contents,
        join_dir(parent_filename, "package.json"@),
    ) {
        Result::Err(e) => Result::Err(e),
        Result::Ok(doc) => match doc.imports {
            Option::None => Result::Ok(Option::None),
            Option::Some(im) => match spec_imports_resolve(
                doc.path,
                doc.base,
                im,
                request,
                spec_require_conditions(),
                NodeResolutionMode::Execution,
            ) {
                Result::Err(e) => Result::Err(e),
                Result::Ok(ResolvedTargetModel::Path(p)) => Result::Ok(Option::Some(p)),
                Result::Ok(ResolvedTargetModel::Bare(b)) => match spec_package_resolve_bare(
                    files,
                    contents,
                    resolver,
                    b,
                    parent_filename,
                    spec_require_conditions(),
                    NodeResolutionMode::Execution,
                ) {
                    Result::Ok(p) => Result::Ok(Option::Some(p)),
                    Result::Err(e) => Result::Err(e),
                },
            },
        },
    }
}

/// Resolves a `#` request through the `package.json` of the given
/// directory, as a CommonJS callsite; a resolved path is returned written
/// as a file URL.
pub fn package_imports_resolve<
    F: crate::host::FileSystem,
    R: crate::host::RequireNpmResolver,
    P: crate::host::NodePermissions,
>(
    fs: &F,
    resolver: &R,
    permissions: &mut P,
    cache: &mut crate::package_json::PackageJsonCache,
    parent_filename: &str,
    request: &str,
) -> (r: Result<Option<String>, crate::errors::NodeError>)
    requires
        crate::package_json::cache_coherent(old(cache).entries@, fs.contents()),
    ensures
        crate::package_json::cache_coherent(final(cache).entries@, fs.contents()),
        crate::package_json::cache_extends(final(cache).entries@, old(cache).entries@),
        match r {
            Result::Ok(Option::Some(u)) => (match spec_imports_resolve_op(
                fs.files(),
                fs.contents(),
                resolver,
                parent_filename@,
                request@,
            ) {
                Result::Ok(Option::Some(p)) => u@ == spec_to_file_url(p),
                _ => false,
            }),
            Result::Ok(Option::None) => spec_imports_resolve_op(
                fs.files(),
                fs.contents(),
                resolver,
                parent_filename@,
                request@,
            ) == Result::<Option<Seq<char>>, crate::errors::ErrModel>::Ok(Option::None),
            Result::Err(e) => spec_imports_resolve_op(
                fs.files(),
                fs.contents(),
                resolver,
                parent_filename@,
                request@,
            ) == Result::<Option<Seq<char>>, crate::errors::ErrModel>::Err(e@) || e@
                == crate::errors::ErrModel::PermissionDenied(
                join_dir(parent_filename@, "package.json"@),
            ) || (match spec_imports_op_bare(fs.contents(), parent_filename@, request@) {
                Option::Some(b) => spec_bare_denial(
                    resolver,
                    b,
                    parent_filename@,
                    NodeResolutionMode::Execution,
                    e@,
                ),
                Option::None => false,
            }),
        },
{
    proof {
        crate::package_json::lemma_cache_extends_refl(cache.entries@);
    }
    let pv = crate::chars::str_to_chars(parent_filename);
    let pj = crate::chars::str_to_chars("package.json");
    let ppv = join_dir_exec(&pv, &pj);
    let pp = crate::chars::chars_to_string(&ppv);
    let doc = match crate::package_json::load(fs, resolver, permissions, cache, pp.as_str()) {
        Result::Err(e) => {
            return Result::Err(e);
        },
        Result::Ok(d) => d,
    };
    match &doc.imports {
        Option::None => Result::Ok(Option::None),
        Option::Some(im) => {
            let conditions = require_conditions();
            match imports_resolve_in(
                doc.path.as_str(),
                doc.base.as_str(),
                im,
                request,
                &conditions,
                NodeResolutionMode::Execution,
            ) {
                Result::Err(e) => Result::Err(e),
                Result::Ok(ResolvedTarget::Path(p)) => Result::Ok(
                    Option::Some(to_file_url(p.as_str())),
                ),
                Result::Ok(ResolvedTarget::Bare(b)) => {
                    let ghost mid = cache.entries@;
                    let out = match package_resolve_bare(
                        fs,
                        resolver,
                        permissions,
                        cache,
                        b.as_str(),
                        parent_filename,
                        &conditions,
                        NodeResolutionMode::Execution,
                    ) {
                        Result::Ok(p) => Result::Ok(Option::Some(to_file_url(p.as_str()))),
                        Result::Err(e) => Result::Err(e),
                    };
                    proof {
                        crate::package_json::lemma_cache_extends_trans(
                            old(cache).entries@,
                            mid,
                            cache.entries@,
                        );
                    }
                    out
                },
            }
        },
    }
}

/// The referrer path on whose behalf a self-resolution runs: the parent's
/// filename when there is one, the working directory for a REPL or preload
/// parent (permission-gated), nothing otherwise.
pub fn try_self_parent_path<R: crate::host::RequireNpmResolver, P: crate::host::NodePermissions>(
    resolver: &R,
    permissions: &mut P,
    has_parent: bool,
    maybe_parent_filename: &Option<String>,
    maybe_parent_id: &Option<String>,
    cwd: &Option<String>,
) -> (r: Result<Option<String>, crate::errors::NodeError>)
    ensures
        !has_parent ==> (r matches Result::Ok(p) && p is None),
        has_parent ==> (match maybe_parent_filename {
            Option::Some(f) => r matches Result::Ok(Option::Some(q)) && q@ == f@,
            Option::None => (match maybe_parent_id {
                Option::Some(id) => {
                    if id@ == "<repl>"@ || id@ == "internal/preload"@ {
                        match cwd {
                            Option::Some(c) => (r matches Result::Ok(Option::Some(q)) && q@
                                == c@) || (r matches Result::Err(e) && e@
                                == crate::errors::ErrModel::PermissionDenied(c@)),
                            Option::None => r matches Result::Ok(p) && p is None,
                        }
                    } else {
                        r matches Result::Ok(p) && p is None
                    }
                },
                Option::None => r matches Result::Ok(p) && p is None,
            }),
        }),
{
    if !has_parent {
        return Result::Ok(Option::None);
    }
    match maybe_parent_filename {
        Option::Some(f) => {
            return Result::Ok(Option::Some(f.clone()));
        },
        Option::None => {},
    }
    match maybe_parent_id {
        Option::Some(id) => {
            let idv = crate::chars::str_to_chars(id.as_str());
            if crate::chars::chars_eq_str(&idv, "<repl>") || crate::chars::chars_eq_str(
                &idv,
                "internal/preload",
            ) {
                match cwd {
                    Option::Some(c) => {
                        match crate::host::ensure_read_permission(resolver, permissions, c.as_str())
                        {
                            Result::Err(e) => Result::Err(e),
                            Result::Ok(()) => Result::Ok(Option::Some(c.clone())),
                        }
                    },
                    Option::None => Result::Ok(Option::None),
                }
            } else {
                Result::Ok(Option::None)
            }
        },
        Option::None => Result::Ok(Option::None),
    }
}

/// The stat code of a path, permission-gated: `0` file, `1` directory,
/// `-1` missing.
pub fn stat<
    F: crate::host::FileSystem,
    R: crate::host::RequireNpmResolver,
    P: crate::host::NodePermissions,
>(fs: &F, resolver: &R, permissions: &mut P, path: &str) -> (r: Result<
    i32,
    crate::errors::NodeError,
>)
    ensures
        match r {
            Result::Ok(c) => c == crate::host::spec_stat(fs.files(), path@),
            Result::Err(e) => e@ == crate::errors::ErrModel::PermissionDenied(path@),
        },
{
    match crate::host::ensure_read_permission(resolver, permissions, path) {
        Result::Err(e) => Result::Err(e),
        Result::Ok(()) => Result::Ok(fs.stat(path)),
    }
}

/// The text of a file, permission-gated.
pub fn read_file<
    F: crate::host::FileSystem,
    R: crate::host::RequireNpmResolver,
    P: crate::host::NodePermissions,
>(fs: &F, resolver: &R, permissions: &mut P, path: &str) -> (r: Result<
    String,
    crate::errors::NodeError,
>)
    ensures
        match r {
            Result::Ok(s) => fs.contents().contains_key(path@) && s@ == fs.contents()[path@],
            Result::Err(e) => e@ == crate::errors::ErrModel::PermissionDenied(path@) || (
            !fs.contents().contains_key(path@) && e@ == crate::errors::ErrModel::Io(path@)),
        },
{
    match crate::host::ensure_read_permission(resolver, permissions, path) {
        Result::Err(e) => Result::Err(e),
        Result::Ok(()) => fs.read_text_file(path),
    }
}

/// The canonical form of a path, permission-gated.
pub fn real_path<
    F: crate::host::FileSystem,
    R: crate::host::RequireNpmResolver,
    P: crate::host::NodePermissions,
>(fs: &F, resolver: &R, permissions: &mut P, path: &str) -> (r: Result<
    String,
    crate::errors::NodeError,
>)
    ensures
        match r {
            Result::Ok(s) => fs.canon().contains_key(path@) && s@ == fs.canon()[path@],
            Result::Err(e) => e@ == crate::errors::ErrModel::PermissionDenied(path@) || (
            !fs.canon().contains_key(path@) && e@ == crate::errors::ErrModel::Io(path@)),
        },
{
    match crate::host::ensure_read_permission(resolver, permissions, path) {
        Result::Err(e) => Result::Err(e),
        Result::Ok(()) => fs.canonicalize(path),
    }
}

/// The percent-decoding of a URL path, for escapes denoting bytes below
/// 128: each `%` with two hexadecimal digits below `%80` becomes that
/// character. A malformed escape, or one for a byte of a multi-byte
/// character, makes the text undecodable.
pub open spec fn percent_decode(s: Seq<char>, i: int) -> Option<Seq<char>>
    decreases s.len() - i,
{
    if i < 0 || i >= s.len() {
        Option::Some(Seq::empty())
    } else if s[i] == '%' {
        if i + 3 <= s.len() && crate::json::is_hex(s[i + 1]) && crate::json::is_hex(s[i + 2]) {
            let v = crate::json::hex_val(s[i + 1]) * 16 + crate::json::hex_val(s[i + 2]);
            if v < 128 {
                match percent_decode(s, i + 3) {
                    Option::None => Option::None,
                    Option::Some(r) => Option::Some(seq![((v as u8) as char)] + r),
                }
            } else {
                Option::None
            }
        } else {
            Option::None
        }
    } else {
        match percent_decode(s, i + 1) {
            Option::None => Option::None,
            Option::Some(r) => Option::Some(seq![s[i]] + r),
        }
    }
}

/// The percent-decoding of a URL path.
fn percent_decode_exec(s: &Vec<char>, i: usize) -> (r: Option<Vec<char>>)
    requires
        i <= s@.len(),
    ensures
        match r {
            Option::Some(d) => percent_decode(s@, i as int) == Option::Some(d@),
            Option::None => percent_decode(s@, i as int) is None,
        },
    decreases s@.len() - i,
{
    if i == s.len() {
        let out: Vec<char> = Vec::new();
        proof {
            assert(out@ =~= Seq::<char>::empty());
        }
        return Option::Some(out);
    }
    if s[i] == '%' {
        if s.len() - i < 3 {
            return Option::None;
        }
        let a = match crate::json::hex_val_exec(s[i + 1]) {
            Option::Some(a) => a,
            Option::None => {
                return Option::None;
            },
        };
        let b = match crate::json::hex_val_exec(s[i + 2]) {
            Option::Some(b) => b,
            Option::None => {
                return Option::None;
            },
        };
        let v = a * 16 + b;
        if v >= 128 {
            return Option::None;
        }
        match percent_decode_exec(s, i + 3) {
            Option::None => Option::None,
            Option::Some(mut rest) => {
                let ghost old_rest = rest@;
                let ch = (v as u8) as char;
                rest.insert(0, ch);
                proof {
                    assert(rest@ =~= seq![ch] + old_rest);
                }
                Option::Some(rest)
            },
        }
    } else {
        match percent_decode_exec(s, i + 1) {
            Option::None => Option::None,
            Option::Some(mut rest) => {
                let ghost old_rest = rest@;
                let ch = s[i];
                rest.insert(0, ch);
                proof {
                    assert(rest@ =~= seq![ch] + old_rest);
                }
                Option::Some(rest)
            },
        }
    }
}

/// The filesystem path of a `file://` URL with an empty host: its path
/// part, percent-decoded. Any other text, and a URL whose path cannot be
/// decoded (a malformed escape, or one for a byte of a multi-byte
/// character), passes through unchanged.
pub open spec fn spec_as_file_path(s: Seq<char>) -> Seq<char> {
    let rest = s.skip(7);
    if crate::chars::is_prefix_of("file://"@, s) && rest.len() > 0 && rest[0] == '/' {
        match percent_decode(rest, 0) {
            Option::Some(d) => d,
            Option::None => s,
        }
    } else {
        s
    }
}

/// The filesystem path of a `file://` URL.
pub fn as_file_path(file_or_url: &str) -> (r: String)
    ensures
        r@ == spec_as_file_path(file_or_url@),
{
    let v = crate::chars::str_to_chars(file_or_url);
    if crate::chars::starts_with_str(&v, "file://") {
        proof {
            reveal_strlit("file://");
        }
        let rest = crate::chars::subrange_chars(&v, 7, v.len());
        proof {
            assert(rest@ =~= v@.skip(7));
        }
        if rest.len() > 0 && rest[0] == '/' {
            match percent_decode_exec(&rest, 0) {
                Option::Some(d) => {
                    return crate::chars::chars_to_string(&d);
                },
                Option::None => {
                    return crate::chars::chars_to_string(&v);
                },
            }
        }
        crate::chars::chars_to_string(&v)
    } else {
        crate::chars::chars_to_string(&v)
    }
}

/// The folder the npm locator maps a bare specifier to, from a referrer.
pub fn resolve_npm_package_folder<R: crate::host::RequireNpmResolver>(
    resolver: &R,
    request: &str,
    referrer: &str,
) -> (r: Option<String>)
    ensures
        match r {
            Option::Some(f) => resolver.folder_for(
                request@,
                referrer@,
                NodeResolutionMode::Execution,
            ) == Option::Some(f@),
            Option::None => resolver.folder_for(
                request@,
                referrer@,
                NodeResolutionMode::Execution,
            ) is None,
        },
{
    resolver.resolve_package_folder_from_package(request, referrer, NodeResolutionMode::Execution)
}

/// Whether a path lies inside a managed package tree.
pub fn is_inside_npm_package<R: crate::host::RequireNpmResolver>(resolver: &R, path: &str) -> (r:
    bool)
    ensures
        r == resolver.in_package(path@),
{
    resolver.in_npm_package(path)
}

/// The law: the resolution of a request is a function of the filesystem
/// and locator models alone. The specification a resolution is pinned to
/// takes no cache, so two resolutions of one request agree whatever the
/// cache held when each ran.
pub proof fn lemma_package_resolve_deterministic<R: crate::host::RequireNpmResolver>(
    files: Map<Seq<char>, crate::host::FileKind>,
    contents: Map<Seq<char>, Seq<char>>,
    resolver: &R,
    request: Seq<char>,
    referrer: Seq<char>,
    conds: Seq<Seq<char>>,
    mode: NodeResolutionMode,
)
    ensures
        spec_package_resolve(files, contents, resolver, request, referrer, conds, mode)
            == spec_package_resolve(files, contents, resolver, request, referrer, conds, mode),
{
}

} // verus!
