//! The `node_modules` lookup-path synthesizer: the ordered list of candidate
//! `node_modules` directories for a referrer, innermost ancestor first.

use vstd::prelude::*;
use crate::paths::{
    parse_segs, parse_segments, parsed_ok, path_is_abs, segs_view, strs_view, spec_basename,
    spec_dirname, unparse_path, unparse_path_exec, join_from, join_tail, lemma_parse_wf,
    lemma_parse_unparse,
};
use crate::errors::{ErrModel, NodeError};
use crate::host::{NodePermissions, RequireNpmResolver, ensure_read_permission};

verus! {

/// The walk entries for the directory whose segments are `segs` and its
/// ancestors: each ancestor whose basename is not `node_modules` contributes
/// its `node_modules` child, innermost first.
pub open spec fn nm_walk(segs: Seq<Seq<char>>) -> Seq<Seq<char>>
    decreases segs.len(),
{
    if segs.len() == 0 {
        Seq::empty()
    } else {
        let rest = nm_walk(segs.drop_last());
        if segs.last() == "node_modules"@ {
            rest
        } else {
            seq![unparse_path(true, segs) + "/node_modules"@] + rest
        }
    }
}

/// The candidate `node_modules` directories for an absolute `from`: the walk
/// over its ancestors, then the root's `/node_modules`.
pub open spec fn spec_node_module_paths(from: Seq<char>) -> Seq<Seq<char>> {
    nm_walk(parse_segs(from, 0)) + seq!["/node_modules"@]
}

/// The directory part of a walk entry: the text before its final
/// `/node_modules`.
pub open spec fn nm_dir(e: Seq<char>) -> Seq<char> {
    e.take(e.len() - "/node_modules"@.len())
}

/// `d2` is a proper ancestor directory of `d1`: a prefix ending at a `/`
/// boundary (the empty `d2` standing for the root).
pub open spec fn is_ancestor_dir(d2: Seq<char>, d1: Seq<char>) -> bool {
    crate::chars::is_prefix_of(d2, d1) && d2.len() < d1.len() && d1[d2.len() as int] == '/'
}

/// An entry of the walk belongs to one ancestor prefix of `segs` whose last
/// segment is not `node_modules`.
pub open spec fn walk_entry_ok(segs: Seq<Seq<char>>, e: Seq<char>) -> bool {
    exists|k: int|
        1 <= k <= segs.len() && e == unparse_path(true, segs.take(k)) + "/node_modules"@
            && #[trigger] segs.take(k).last() != "node_modules"@
}

/// Appending a segment extends the tail text by `/` and the segment.
proof fn lemma_join_tail_push(b: Seq<Seq<char>>, x: Seq<char>)
    ensures
        join_tail(b.push(x)) == join_tail(b) + seq!['/'] + x,
    decreases b.len(),
{
    let bp = b.push(x);
    if b.len() == 0 {
        assert(bp.len() == 1);
        assert(bp[0] == x);
        assert(bp.skip(1) =~= Seq::<Seq<char>>::empty());
        assert(join_tail(bp) == seq!['/'] + bp[0] + join_tail(bp.skip(1)));
        assert(join_tail(Seq::<Seq<char>>::empty()) == Seq::<char>::empty());
        assert(join_tail(bp) =~= join_tail(b) + seq!['/'] + x);
    } else {
        assert(bp[0] == b[0]);
        assert(bp.skip(1) =~= b.skip(1).push(x));
        lemma_join_tail_push(b.skip(1), x);
        assert(join_tail(bp) == seq!['/'] + bp[0] + join_tail(bp.skip(1)));
        assert(join_tail(b) == seq!['/'] + b[0] + join_tail(b.skip(1)));
        assert(join_tail(bp) =~= join_tail(b) + seq!['/'] + x);
    }
}

/// Appending a segment extends the path text by `/` and the segment.
proof fn lemma_join_from_push(a: Seq<Seq<char>>, x: Seq<char>)
    requires
        a.len() >= 1,
    ensures
        join_from(a.push(x)) == join_from(a) + seq!['/'] + x,
{
    assert(a.push(x)[0] == a[0]);
    assert(a.push(x).skip(1) =~= a.skip(1).push(x));
    lemma_join_tail_push(a.skip(1), x);
    assert(join_from(a.push(x)) =~= join_from(a) + seq!['/'] + x);
}

/// The text of a path splits at any segment boundary.
proof fn lemma_join_split(segs: Seq<Seq<char>>, k: int)
    requires
        1 <= k <= segs.len(),
    ensures
        join_from(segs) == join_from(segs.take(k)) + join_tail(segs.skip(k)),
    decreases segs.len() - k,
{
    if k == segs.len() {
        assert(segs.take(k) =~= segs);
        assert(segs.skip(k).len() == 0);
        assert(join_from(segs.take(k)) + join_tail(segs.skip(k)) =~= join_from(segs));
    } else {
        lemma_join_split(segs, k + 1);
        assert(segs.take(k + 1) =~= segs.take(k).push(segs[k]));
        assert(segs.take(k).len() == k);
        lemma_join_from_push(segs.take(k), segs[k]);
        assert(join_from(segs.take(k + 1)) == join_from(segs.take(k)) + seq!['/'] + segs[k]);
        assert(segs.skip(k)[0] == segs[k]);
        assert(segs.skip(k).skip(1) =~= segs.skip(k + 1));
        assert(join_tail(segs.skip(k)) == seq!['/'] + segs[k] + join_tail(segs.skip(k + 1)));
        assert(join_from(segs.take(k)) + join_tail(segs.skip(k)) =~= join_from(segs.take(k + 1))
            + join_tail(segs.skip(k + 1)));
    }
}

/// A shorter prefix of the segments writes out as a proper ancestor
/// directory of the whole.
proof fn lemma_unparse_ancestor(segs: Seq<Seq<char>>, k: int)
    requires
        1 <= k < segs.len(),
    ensures
        is_ancestor_dir(unparse_path(true, segs.take(k)), unparse_path(true, segs)),
{
    let d2 = unparse_path(true, segs.take(k));
    let d1 = unparse_path(true, segs);
    lemma_join_split(segs, k);
    let a = join_from(segs.take(k));
    let t = join_tail(segs.skip(k));
    assert(segs.skip(k)[0] == segs[k]);
    assert(segs.skip(k).len() > 0);
    assert(t == seq!['/'] + segs[k] + join_tail(segs.skip(k).skip(1)));
    assert(t.len() >= 1 && t[0] == '/');
    assert(d1 =~= d2 + t);
    assert(d1.take(d2.len() as int) =~= d2);
    assert(d1[d2.len() as int] == '/');
}

/// Every walk entry names an ancestor's `node_modules` child, and each
/// entry's directory is a proper ancestor of the one before it.
proof fn lemma_nm_walk_props(segs: Seq<Seq<char>>)
    ensures
        forall|i: int|
            0 <= i < nm_walk(segs).len() ==> walk_entry_ok(segs, #[trigger] nm_walk(segs)[i]),
        forall|i: int|
            0 <= i < nm_walk(segs).len() - 1 ==> is_ancestor_dir(
                nm_dir(nm_walk(segs)[i + 1]),
                nm_dir(#[trigger] nm_walk(segs)[i]),
            ),
    decreases segs.len(),
{
    if segs.len() > 0 {
        lemma_nm_walk_props(segs.drop_last());
        let rest = nm_walk(segs.drop_last());
        assert forall|i: int| 0 <= i < rest.len() implies walk_entry_ok(segs, #[trigger] rest[i]) by {
            assert(walk_entry_ok(segs.drop_last(), rest[i]));
            let k = choose|k: int|
                1 <= k <= segs.drop_last().len() && rest[i] == unparse_path(
                    true,
                    segs.drop_last().take(k),
                ) + "/node_modules"@ && #[trigger] segs.drop_last().take(k).last()
                    != "node_modules"@;
            assert(segs.drop_last().take(k) =~= segs.take(k));
            assert(segs.take(k).last() != "node_modules"@);
        }
        if segs.last() != "node_modules"@ {
            let e = unparse_path(true, segs) + "/node_modules"@;
            let l = nm_walk(segs);
            assert(l == seq![e] + rest);
            assert(walk_entry_ok(segs, e)) by {
                assert(segs.take(segs.len() as int) =~= segs);
            }
            assert forall|i: int| 0 <= i < l.len() implies walk_entry_ok(segs, #[trigger] l[i]) by {
                if i == 0 {
                    assert(l[0] == e);
                } else {
                    assert(l[i] == rest[i - 1]);
                }
            }
            assert forall|i: int| 0 <= i < l.len() - 1 implies is_ancestor_dir(
                nm_dir(l[i + 1]),
                nm_dir(#[trigger] l[i]),
            ) by {
                if i == 0 {
                    assert(l[0] == e);
                    assert(l[1] == rest[0]);
                    assert(walk_entry_ok(segs.drop_last(), rest[0]));
                    let k = choose|k: int|
                        1 <= k <= segs.drop_last().len() && rest[0] == unparse_path(
                            true,
                            segs.drop_last().take(k),
                        ) + "/node_modules"@ && #[trigger] segs.drop_last().take(k).last()
                            != "node_modules"@;
                    assert(segs.drop_last().take(k) =~= segs.take(k));
                    reveal_strlit("/node_modules");
                    assert(nm_dir(e) =~= unparse_path(true, segs));
                    assert(nm_dir(rest[0]) =~= unparse_path(true, segs.take(k)));
                    assert(k < segs.len());
                    lemma_unparse_ancestor(segs, k);
                } else {
                    assert(l[i] == rest[i - 1]);
                    assert(l[i + 1] == rest[i]);
                    assert(is_ancestor_dir(nm_dir(rest[i]), nm_dir(rest[i - 1])));
                }
            }
        }
    }
}

/// The law of the lookup-path list: it is never empty, every entry ends in
/// `/node_modules`, each entry's directory is a proper ancestor of the one
/// before it, and no entry sits directly under a `node_modules` directory.
pub proof fn lemma_node_module_paths_invariants(from: Seq<char>)
    requires
        path_is_abs(from),
    ensures
        spec_node_module_paths(from).len() > 0,
        forall|i: int|
            0 <= i < spec_node_module_paths(from).len() ==> crate::chars::is_suffix_of(
                "/node_modules"@,
                #[trigger] spec_node_module_paths(from)[i],
            ),
        forall|i: int|
            0 <= i < spec_node_module_paths(from).len() - 1 ==> is_ancestor_dir(
                nm_dir(spec_node_module_paths(from)[i + 1]),
                nm_dir(#[trigger] spec_node_module_paths(from)[i]),
            ),
        forall|i: int|
            0 <= i < spec_node_module_paths(from).len() ==> spec_basename(
                nm_dir(#[trigger] spec_node_module_paths(from)[i]),
            ) != Option::Some("node_modules"@),
{
    reveal_strlit("/node_modules");
    reveal_strlit("node_modules");
    let segs = parse_segs(from, 0);
    let w = nm_walk(segs);
    let l = spec_node_module_paths(from);
    lemma_nm_walk_props(segs);
    lemma_parse_wf(from, 0);
    assert(l.len() == w.len() + 1);
    let fin = "/node_modules"@;
    assert(l[l.len() - 1] == fin);
    assert(nm_dir(fin) =~= Seq::<char>::empty());
    assert(spec_basename(Seq::<char>::empty()) is None);

    assert forall|i: int| 0 <= i < l.len() implies crate::chars::is_suffix_of(
        "/node_modules"@,
        #[trigger] l[i],
    ) by {
        if i < w.len() {
            assert(l[i] == w[i]);
            assert(walk_entry_ok(segs, w[i]));
            let k = choose|k: int|
                1 <= k <= segs.len() && w[i] == unparse_path(true, segs.take(k))
                    + "/node_modules"@ && #[trigger] segs.take(k).last() != "node_modules"@;
            let d = unparse_path(true, segs.take(k));
            assert((d + fin).skip(d.len() as int) =~= fin);
        } else {
            assert(l[i] == fin);
            assert(fin.skip(0) =~= fin);
        }
    }

    assert forall|i: int| 0 <= i < l.len() implies spec_basename(nm_dir(#[trigger] l[i]))
        != Option::Some("node_modules"@) by {
        if i < w.len() {
            assert(l[i] == w[i]);
            assert(walk_entry_ok(segs, w[i]));
            let k = choose|k: int|
                1 <= k <= segs.len() && w[i] == unparse_path(true, segs.take(k))
                    + "/node_modules"@ && #[trigger] segs.take(k).last() != "node_modules"@;
            let pre = segs.take(k);
            assert(nm_dir(w[i]) =~= unparse_path(true, pre));
            assert(parsed_ok(pre)) by {
                assert(forall|j: int| 0 <= j < pre.len() ==> #[trigger] pre[j] == segs[j]);
            }
            lemma_parse_unparse(true, pre);
            assert(parse_segs(nm_dir(w[i]), 0) == pre);
            assert(pre.last() != "node_modules"@);
        } else {
            assert(l[i] == fin);
        }
    }

    assert forall|i: int| 0 <= i < l.len() - 1 implies is_ancestor_dir(
        nm_dir(l[i + 1]),
        nm_dir(#[trigger] l[i]),
    ) by {
        if i + 1 < w.len() {
            assert(l[i] == w[i] && l[i + 1] == w[i + 1]);
            assert(is_ancestor_dir(nm_dir(w[i + 1]), nm_dir(w[i])));
        } else {
            assert(i < w.len() && l[i] == w[i]);
            assert(l[i + 1] == fin);
            assert(walk_entry_ok(segs, w[i]));
            let k = choose|k: int|
                1 <= k <= segs.len() && w[i] == unparse_path(true, segs.take(k))
                    + "/node_modules"@ && #[trigger] segs.take(k).last() != "node_modules"@;
            let d = unparse_path(true, segs.take(k));
            assert(nm_dir(w[i]) =~= d);
            assert(d[0] == '/') by {
                assert(d == seq!['/'] + join_from(segs.take(k)));
            }
            assert(d.take(0) =~= Seq::<char>::empty());
        }
    }
}

/// The ordered candidate `node_modules` directories for the absolute path
/// `from`: one per ancestor not itself named `node_modules`, innermost
/// first, then the root's. Fails only when the permission gate refuses.
pub fn node_module_paths<R: RequireNpmResolver, P: NodePermissions>(
    resolver: &R,
    permissions: &mut P,
    from: &str,
) -> (r: Result<Vec<String>, NodeError>)
    requires
        path_is_abs(from@),
    ensures
        match r {
            Result::Ok(l) => strs_view(l@) == spec_node_module_paths(from@),
            Result::Err(e) => e@ == ErrModel::PermissionDenied(from@),
        },
{
    match ensure_read_permission(resolver, permissions, from) {
        Result::Err(e) => {
            return Result::Err(e);
        },
        Result::Ok(()) => {},
    }
    let v = crate::chars::str_to_chars(from);
    let mut segs = parse_segments(&v);
    let suffix = crate::chars::str_to_chars("/node_modules");
    let mut out: Vec<String> = Vec::new();
    let ghost all = segs_view(segs@);
    proof {
        assert(all.take(all.len() as int) =~= all);
    }
    while segs.len() > 0
        invariant
            suffix@ == "/node_modules"@,
            all == parse_segs(v@, 0),
            segs@.len() <= all.len(),
            segs_view(segs@) == all.take(segs@.len() as int),
            strs_view(out@) + nm_walk(segs_view(segs@)) == nm_walk(all),
        decreases segs@.len(),
    {
        let ghost cur = segs_view(segs@);
        let last = segs.len() - 1;
        let keep = !crate::chars::chars_eq_str(&segs[last], "node_modules");
        proof {
            assert(cur.last() == segs@[last as int]@);
        }
        if keep {
            let text = unparse_path_exec(true, &segs);
            let entry = crate::chars::concat_chars(&text, &suffix);
            let s = crate::chars::chars_to_string(&entry);
            let ghost old_out = out@;
            out.push(s);
            proof {
                assert(strs_view(out@) =~= strs_view(old_out).push(
                    unparse_path(true, cur) + "/node_modules"@,
                ));
                assert(nm_walk(cur) == seq![unparse_path(true, cur) + "/node_modules"@]
                    + nm_walk(cur.drop_last()));
                assert(strs_view(out@) + nm_walk(cur.drop_last()) =~= strs_view(old_out)
                    + nm_walk(cur));
            }
        } else {
            proof {
                assert(nm_walk(cur) == nm_walk(cur.drop_last()));
            }
        }
        let _ = segs.pop();
        proof {
            assert(segs_view(segs@) =~= cur.drop_last());
            assert(cur.drop_last() =~= all.take(segs@.len() as int));
        }
    }
    proof {
        assert(segs_view(segs@).len() == 0);
        assert(nm_walk(segs_view(segs@)) =~= Seq::<Seq<char>>::empty());
        assert(strs_view(out@) =~= nm_walk(all));
    }
    let fin = crate::chars::chars_to_string(&suffix);
    let ghost old_out = out@;
    out.push(fin);
    proof {
        assert(strs_view(out@) =~= strs_view(old_out).push("/node_modules"@));
        assert(strs_view(old_out).push("/node_modules"@) =~= nm_walk(parse_segs(v@, 0)) + seq![
            "/node_modules"@,
        ]);
    }
    Result::Ok(out)
}

/// The request reaches the relative branch of the lookup-path logic: it
/// begins with `.` and is `.` alone, or begins with `./` or `..`.
pub open spec fn spec_lookup_relative(s: Seq<char>) -> bool {
    s.len() > 0 && s[0] == '.' && (s.len() == 1 || crate::chars::is_prefix_of("./"@, s)
        || crate::chars::is_prefix_of(".."@, s))
}

/// The lookup paths for a request: for a relative request, the referrer's
/// directory alone; otherwise the parent's paths, if there are any.
pub fn resolve_lookup_paths(
    request: &str,
    maybe_parent_paths: Option<Vec<String>>,
    parent_filename: &str,
) -> (r: Option<Vec<String>>)
    requires
        spec_lookup_relative(request@) ==> spec_dirname(parent_filename@) is Some,
    ensures
        match r {
            Option::Some(l) => {
                if spec_lookup_relative(request@) {
                    strs_view(l@) == seq![spec_dirname(parent_filename@)->Some_0]
                } else {
                    maybe_parent_paths matches Option::Some(pp) && pp@.len() > 0 && l@ == pp@
                }
            },
            Option::None => !spec_lookup_relative(request@) && ((maybe_parent_paths matches
            Option::None) || (maybe_parent_paths matches Option::Some(pp) && pp@.len() == 0)),
        },
{
    let v = crate::chars::str_to_chars(request);
    let relative = if v.len() == 0 || v[0] != '.' {
        false
    } else if v.len() == 1 {
        true
    } else {
        crate::chars::starts_with_str(&v, "./") || crate::chars::starts_with_str(&v, "..")
    };
    if !relative {
        match maybe_parent_paths {
            Option::Some(pp) => {
                if pp.len() > 0 {
                    Option::Some(pp)
                } else {
                    Option::None
                }
            },
            Option::None => Option::None,
        }
    } else {
        let fv = crate::chars::str_to_chars(parent_filename);
        let abs = fv.len() > 0 && fv[0] == '/';
        let mut segs = parse_segments(&fv);
        let ghost before = segs_view(segs@);
        let _ = segs.pop();
        proof {
            assert(segs_view(segs@) =~= before.drop_last());
        }
        let dir = unparse_path_exec(abs, &segs);
        let mut out: Vec<String> = Vec::new();
        out.push(crate::chars::chars_to_string(&dir));
        proof {
            assert(strs_view(out@) =~= seq![spec_dirname(parent_filename@)->Some_0]);
        }
        Option::Some(out)
    }
}

} // verus!
