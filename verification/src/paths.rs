//! A lexical model of POSIX paths. A path is an absoluteness flag plus a
//! sequence of segments; parsing splits on `/`, drops empty and `.` pieces
//! and keeps `..`; normalization resolves `..` against the segments before
//! it, dropping any that would climb past the start.

use vstd::prelude::*;

verus! {

/// The path begins at the filesystem root.
pub open spec fn path_is_abs(s: Seq<char>) -> bool {
    s.len() > 0 && s[0] == '/'
}

/// The first index at or after `i` holding `/`, or the length.
pub open spec fn seg_end(s: Seq<char>, i: int) -> int
    decreases s.len() - i,
{
    if i < 0 || i >= s.len() || s[i] == '/' {
        i
    } else {
        seg_end(s, i + 1)
    }
}

/// `seg_end` stays within `s` and moves forward off a non-`/` character;
/// everything before it is free of `/`, and it stops only at `/` or the end.
pub proof fn lemma_seg_end_bounds(s: Seq<char>, i: int)
    requires
        0 <= i <= s.len(),
    ensures
        i <= seg_end(s, i) <= s.len(),
        i < s.len() && s[i] != '/' ==> seg_end(s, i) > i,
        forall|k: int| i <= k < seg_end(s, i) ==> s[k] != '/',
        seg_end(s, i) < s.len() ==> s[seg_end(s, i)] == '/',
    decreases s.len() - i,
{
    if i < s.len() && s[i] != '/' {
        lemma_seg_end_bounds(s, i + 1);
    }
}

/// The segments of `s` from index `i` on: split on `/`, empty and `.`
/// pieces dropped, `..` kept.
pub open spec fn parse_segs(s: Seq<char>, i: int) -> Seq<Seq<char>>
    decreases s.len() - i,
    via parse_segs_decreases
{
    if i < 0 || i >= s.len() {
        Seq::empty()
    } else if s[i] == '/' {
        parse_segs(s, i + 1)
    } else {
        let j = seg_end(s, i);
        let seg = s.subrange(i, j);
        if seg == "."@ {
            parse_segs(s, j)
        } else {
            seq![seg] + parse_segs(s, j)
        }
    }
}

#[via_fn]
proof fn parse_segs_decreases(s: Seq<char>, i: int) {
    if 0 <= i < s.len() && s[i] != '/' {
        lemma_seg_end_bounds(s, i);
    }
}

/// A segment as parsing produces it: non-empty and free of `/`.
pub open spec fn wf_seg(x: Seq<char>) -> bool {
    x.len() > 0 && (forall|k: int| 0 <= k < x.len() ==> x[k] != '/')
}

/// Every segment is well-formed.
pub open spec fn wf_segs(segs: Seq<Seq<char>>) -> bool {
    forall|k: int| 0 <= k < segs.len() ==> wf_seg(#[trigger] segs[k])
}

/// No segment is `.` or `..`: nothing remains to normalize.
pub open spec fn normal_segs(segs: Seq<Seq<char>>) -> bool {
    forall|k: int| 0 <= k < segs.len() ==> #[trigger] segs[k] != "."@ && segs[k] != ".."@
}

/// Resolves `.` and `..` lexically, as the host's path normalization does:
/// `..` removes the segment before it if one remains, and is dropped at the
/// start, for relative and absolute paths alike.
pub open spec fn norm_segs(segs: Seq<Seq<char>>) -> Seq<Seq<char>>
    decreases segs.len(),
{
    if segs.len() == 0 {
        Seq::empty()
    } else {
        let prefix = norm_segs(segs.drop_last());
        let last = segs.last();
        if last == "."@ {
            prefix
        } else if last == ".."@ {
            if prefix.len() > 0 {
                prefix.drop_last()
            } else {
                prefix
            }
        } else {
            prefix.push(last)
        }
    }
}

/// The segments after the first, each preceded by `/`.
pub open spec fn join_tail(segs: Seq<Seq<char>>) -> Seq<char>
    decreases segs.len(),
{
    if segs.len() == 0 {
        Seq::empty()
    } else {
        seq!['/'] + segs[0] + join_tail(segs.skip(1))
    }
}

/// The segments joined with `/`.
pub open spec fn join_from(segs: Seq<Seq<char>>) -> Seq<char> {
    if segs.len() == 0 {
        Seq::empty()
    } else {
        segs[0] + join_tail(segs.skip(1))
    }
}

/// The text of a path: a leading `/` when absolute, then its segments.
pub open spec fn unparse_path(abs: bool, segs: Seq<Seq<char>>) -> Seq<char> {
    if abs {
        seq!['/'] + join_from(segs)
    } else {
        join_from(segs)
    }
}

/// Normalization of a whole path text.
pub open spec fn spec_normalize(s: Seq<char>) -> Seq<char> {
    unparse_path(path_is_abs(s), norm_segs(parse_segs(s, 0)))
}

/// The views of a vector of segments.
pub open spec fn segs_view(v: Seq<Vec<char>>) -> Seq<Seq<char>> {
    v.map_values(|e: Vec<char>| e@)
}

/// The views of a vector of strings.
pub open spec fn strs_view(v: Seq<String>) -> Seq<Seq<char>> {
    v.map_values(|e: String| e@)
}

/// The flag and raw segments after joining the first `k` of `parts`,
/// a later absolute part replacing everything before it.
pub open spec fn resolve_state(parts: Seq<Seq<char>>, k: int) -> (bool, Seq<Seq<char>>)
    decreases k,
{
    if k <= 1 {
        (path_is_abs(parts[0]), parse_segs(parts[0], 0))
    } else {
        let prev = resolve_state(parts, k - 1);
        let part = parts[k - 1];
        if path_is_abs(part) {
            (true, parse_segs(part, 0))
        } else {
            (prev.0, prev.1 + parse_segs(part, 0))
        }
    }
}

/// The normalization of the sequential joins of `parts`.
pub open spec fn spec_path_resolve(parts: Seq<Seq<char>>) -> Seq<char> {
    let st = resolve_state(parts, parts.len() as int);
    unparse_path(st.0, norm_segs(st.1))
}

/// Whether the path text begins at the root.
pub fn path_is_absolute(p: &str) -> (r: bool)
    ensures
        r == path_is_abs(p@),
{
    let v = crate::chars::str_to_chars(p);
    v.len() > 0 && v[0] == '/'
}

/// The first index at or after `i` holding `/`, or the length.
pub fn seg_end_exec(s: &Vec<char>, i: usize) -> (r: usize)
    requires
        i <= s@.len(),
    ensures
        r == seg_end(s@, i as int),
        i <= r <= s@.len(),
    decreases s@.len() - i,
{
    if i == s.len() || s[i] == '/' {
        i
    } else {
        seg_end_exec(s, i + 1)
    }
}

/// Splits `s` into its segments.
pub fn parse_segments(s: &Vec<char>) -> (r: Vec<Vec<char>>)
    ensures
        segs_view(r@) == parse_segs(s@, 0),
{
    let mut r: Vec<Vec<char>> = Vec::new();
    let mut i: usize = 0;
    while i < s.len()
        invariant
            i <= s@.len(),
            segs_view(r@) + parse_segs(s@, i as int) == parse_segs(s@, 0),
        decreases s@.len() - i,
    {
        if s[i] == '/' {
            i = i + 1;
        } else {
            proof {
                lemma_seg_end_bounds(s@, i as int);
            }
            let j = seg_end_exec(s, i);
            let seg = crate::chars::subrange_chars(s, i, j);
            if crate::chars::chars_eq_str(&seg, ".") {
                i = j;
            } else {
                let ghost old_r = r@;
                r.push(seg);
                proof {
                    assert(segs_view(r@) =~= segs_view(old_r).push(s@.subrange(i as int, j as int)));
                    assert(segs_view(old_r).push(s@.subrange(i as int, j as int))
                        + parse_segs(s@, j as int) =~= segs_view(old_r) + parse_segs(s@, i as int));
                }
                i = j;
            }
        }
    }
    proof {
        assert(segs_view(r@) + parse_segs(s@, i as int) =~= segs_view(r@));
    }
    r
}

/// A copy of one segment.
fn copy_seg(s: &Vec<char>) -> (r: Vec<char>)
    ensures
        r@ == s@,
{
    let n = s.len();
    let r = crate::chars::subrange_chars(s, 0, n);
    proof {
        assert(s@.subrange(0, s@.len() as int) =~= s@);
    }
    r
}

/// Resolves `.` and `..` in a segment list.
pub fn normalize_segments(segs: &Vec<Vec<char>>) -> (r: Vec<Vec<char>>)
    ensures
        segs_view(r@) == norm_segs(segs_view(segs@)),
{
    proof {
        reveal_strlit(".");
        reveal_strlit("..");
    }
    let mut r: Vec<Vec<char>> = Vec::new();
    let mut k: usize = 0;
    while k < segs.len()
        invariant
            k <= segs@.len(),
            segs_view(r@) == norm_segs(segs_view(segs@).take(k as int)),
        decreases segs@.len() - k,
    {
        let ghost prefix = segs_view(segs@).take(k as int);
        let ghost cur = segs_view(segs@).take(k as int + 1);
        proof {
            reveal_strlit(".");
            reveal_strlit("..");
            assert(cur.drop_last() =~= prefix);
            assert(cur.last() == segs@[k as int]@);
        }
        if crate::chars::chars_eq_str(&segs[k], "..") {
            if r.len() > 0 {
                let ghost old_r = r@;
                let _ = r.pop();
                proof {
                    assert(segs_view(r@) =~= segs_view(old_r).drop_last());
                    assert(segs_view(old_r).len() == old_r.len());
                    assert(norm_segs(prefix).len() > 0);
                    assert(norm_segs(cur) == norm_segs(prefix).drop_last());
                }
            } else {
                proof {
                    assert(segs_view(r@).len() == 0);
                    assert(norm_segs(cur) == norm_segs(prefix));
                }
            }
        } else if crate::chars::chars_eq_str(&segs[k], ".") {
            proof {
                assert(norm_segs(cur) == norm_segs(prefix));
            }
        } else {
            let seg = copy_seg(&segs[k]);
            let ghost old_r = r@;
            r.push(seg);
            proof {
                assert(segs_view(r@) =~= segs_view(old_r).push(segs@[k as int]@));
                assert(norm_segs(cur) == norm_segs(prefix).push(segs@[k as int]@));
            }
        }
        proof {
            assert(segs_view(r@) == norm_segs(cur));
        }
        k = k + 1;
    }
    proof {
        assert(segs_view(segs@).take(segs@.len() as int) =~= segs_view(segs@));
    }
    r
}

/// Writes the segments from `k` on, each preceded by `/`.
fn unparse_tail(segs: &Vec<Vec<char>>, k: usize) -> (r: Vec<char>)
    requires
        k <= segs@.len(),
    ensures
        r@ == join_tail(segs_view(segs@).skip(k as int)),
    decreases segs@.len() - k,
{
    if k == segs.len() {
        proof {
            assert(segs_view(segs@).skip(k as int) =~= Seq::<Seq<char>>::empty());
        }
        Vec::new()
    } else {
        let mut r: Vec<char> = Vec::new();
        r.push('/');
        let r2 = crate::chars::concat_chars(&r, &segs[k]);
        let rest = unparse_tail(segs, k + 1);
        let out = crate::chars::concat_chars(&r2, &rest);
        proof {
            let tail = segs_view(segs@).skip(k as int);
            assert(tail[0] == segs@[k as int]@);
            assert(tail.skip(1) =~= segs_view(segs@).skip(k as int + 1));
            assert(r@ =~= seq!['/']);
            assert(out@ =~= seq!['/'] + segs@[k as int]@ + join_tail(tail.skip(1)));
        }
        out
    }
}

/// Writes a parsed path back as text.
pub fn unparse_path_exec(abs: bool, segs: &Vec<Vec<char>>) -> (r: Vec<char>)
    ensures
        r@ == unparse_path(abs, segs_view(segs@)),
{
    let mut out: Vec<char> = Vec::new();
    if abs {
        out.push('/');
    }
    if segs.len() == 0 {
        proof {
            if abs {
                assert(out@ =~= seq!['/'] + join_from(segs_view(segs@)));
            } else {
                assert(out@ =~= join_from(segs_view(segs@)));
            }
        }
        return out;
    }
    let first = copy_seg(&segs[0]);
    let with_first = crate::chars::concat_chars(&out, &first);
    let tail = unparse_tail(segs, 1);
    let r = crate::chars::concat_chars(&with_first, &tail);
    proof {
        assert(segs_view(segs@)[0] == segs@[0]@);
        assert(segs_view(segs@).skip(1) =~= segs_view(segs@).skip(1));
        if abs {
            assert(out@ =~= seq!['/']);
            assert(r@ =~= seq!['/'] + join_from(segs_view(segs@)));
        } else {
            assert(out@ =~= Seq::<char>::empty());
            assert(r@ =~= join_from(segs_view(segs@)));
        }
    }
    r
}

/// Normalizes one path text.
pub fn normalize_chars(s: &Vec<char>) -> (r: Vec<char>)
    ensures
        r@ == spec_normalize(s@),
{
    let abs = s.len() > 0 && s[0] == '/';
    let segs = parse_segments(s);
    let normed = normalize_segments(&segs);
    unparse_path_exec(abs, &normed)
}

/// Normalizes a path: `.` pieces are dropped and `..` pieces resolved
/// lexically, without consulting the filesystem.
pub fn normalize_path(p: &str) -> (r: String)
    ensures
        r@ == spec_normalize(p@),
{
    let v = crate::chars::str_to_chars(p);
    let out = normalize_chars(&v);
    crate::chars::chars_to_string(&out)
}

/// The normalization of the sequential joins of `parts`: the first part,
/// joined with each later one (an absolute part replacing what came
/// before), then normalized.
pub fn path_resolve(parts: &Vec<String>) -> (r: String)
    requires
        parts@.len() > 0,
    ensures
        r@ == spec_path_resolve(strs_view(parts@)),
{
    let first = crate::chars::str_to_chars(parts[0].as_str());
    let mut abs = first.len() > 0 && first[0] == '/';
    let mut acc = parse_segments(&first);
    proof {
        assert(strs_view(parts@)[0] == parts@[0]@);
    }
    let mut k: usize = 1;
    while k < parts.len()
        invariant
            1 <= k <= parts@.len(),
            (abs, segs_view(acc@)) == resolve_state(strs_view(parts@), k as int),
        decreases parts@.len() - k,
    {
        let part = crate::chars::str_to_chars(parts[k].as_str());
        proof {
            assert(strs_view(parts@)[k as int] == parts@[k as int]@);
        }
        let part_segs = parse_segments(&part);
        if part.len() > 0 && part[0] == '/' {
            abs = true;
            acc = part_segs;
        } else {
            let mut j: usize = 0;
            let ghost before = segs_view(acc@);
            while j < part_segs.len()
                invariant
                    j <= part_segs@.len(),
                    segs_view(acc@) == before + segs_view(part_segs@).take(j as int),
                decreases part_segs@.len() - j,
            {
                let seg = copy_seg(&part_segs[j]);
                let ghost old_acc = acc@;
                acc.push(seg);
                proof {
                    assert(segs_view(acc@) =~= segs_view(old_acc).push(part_segs@[j as int]@));
                    assert(segs_view(old_acc).push(part_segs@[j as int]@) =~= before
                        + segs_view(part_segs@).take(j as int + 1));
                }
                j = j + 1;
            }
            proof {
                assert(segs_view(part_segs@).take(part_segs@.len() as int) =~= segs_view(
                    part_segs@,
                ));
            }
        }
        k = k + 1;
    }
    let normed = normalize_segments(&acc);
    let out = unparse_path_exec(abs, &normed);
    crate::chars::chars_to_string(&out)
}

/// Segments as parsing produces them: well-formed and free of `.`.
pub open spec fn parsed_ok(segs: Seq<Seq<char>>) -> bool {
    wf_segs(segs) && (forall|k: int| 0 <= k < segs.len() ==> #[trigger] segs[k] != "."@)
}

/// Parsing yields only well-formed segments, none of them `.`.
pub proof fn lemma_parse_wf(s: Seq<char>, i: int)
    requires
        0 <= i <= s.len(),
    ensures
        parsed_ok(parse_segs(s, i)),
    decreases s.len() - i,
{
    if i < s.len() {
        if s[i] == '/' {
            lemma_parse_wf(s, i + 1);
        } else {
            lemma_seg_end_bounds(s, i);
            let j = seg_end(s, i);
            lemma_parse_wf(s, j);
            let seg = s.subrange(i, j);
            assert(wf_seg(seg));
            if seg != "."@ {
                let rest = parse_segs(s, j);
                let whole = seq![seg] + rest;
                assert forall|k: int| 0 <= k < whole.len() implies wf_seg(#[trigger] whole[k])
                    && whole[k] != "."@ by {
                    if k > 0 {
                        assert(whole[k] == rest[k - 1]);
                    }
                }
            }
        }
    }
}

/// Normalization keeps segments well-formed and leaves nothing to resolve.
pub proof fn lemma_norm_segs_ok(segs: Seq<Seq<char>>)
    requires
        parsed_ok(segs),
    ensures
        parsed_ok(norm_segs(segs)),
        normal_segs(norm_segs(segs)),
    decreases segs.len(),
{
    if segs.len() > 0 {
        assert(parsed_ok(segs.drop_last()));
        lemma_norm_segs_ok(segs.drop_last());
        let prefix = norm_segs(segs.drop_last());
        let last = segs.last();
        if last == "."@ {
        } else if last == ".."@ {
            if prefix.len() > 0 {
                assert forall|k: int| 0 <= k < prefix.drop_last().len() implies wf_seg(
                    #[trigger] prefix.drop_last()[k],
                ) && prefix.drop_last()[k] != "."@ && prefix.drop_last()[k] != ".."@ by {
                    assert(prefix.drop_last()[k] == prefix[k]);
                }
            }
        } else {
            assert(wf_seg(last));
            let out = prefix.push(last);
            assert forall|k: int| 0 <= k < out.len() implies wf_seg(#[trigger] out[k]) && out[k]
                != "."@ && out[k] != ".."@ by {
                if k < prefix.len() {
                    assert(out[k] == prefix[k]);
                } else {
                    assert(out[k] == last);
                }
            }
        }
    }
}

/// Normalizing an already-normal segment list changes nothing.
pub proof fn lemma_norm_identity(segs: Seq<Seq<char>>)
    requires
        normal_segs(segs),
    ensures
        norm_segs(segs) == segs,
    decreases segs.len(),
{
    if segs.len() > 0 {
        assert(normal_segs(segs.drop_last()));
        lemma_norm_identity(segs.drop_last());
        assert(segs.last() != "."@ && segs.last() != ".."@);
        assert(norm_segs(segs) =~= segs);
    }
}

/// `seg_end` lands exactly at a known run's end.
proof fn lemma_seg_end_at(s: Seq<char>, i: int, j: int)
    requires
        0 <= i <= j <= s.len(),
        forall|k: int| i <= k < j ==> s[k] != '/',
        j == s.len() || s[j] == '/',
    ensures
        seg_end(s, i) == j,
    decreases j - i,
{
    if i < j {
        lemma_seg_end_at(s, i + 1, j);
    }
}

/// Parsing the written-out form of a segment list recovers it.
proof fn lemma_parse_join(s: Seq<char>, i: int, segs: Seq<Seq<char>>)
    requires
        0 <= i <= s.len(),
        parsed_ok(segs),
        s.skip(i) == join_from(segs),
    ensures
        parse_segs(s, i) == segs,
    decreases segs.len(),
{
    if segs.len() == 0 {
        assert(s.skip(i).len() == 0);
        assert(i >= s.len());
    } else {
        let seg0 = segs[0];
        let rest = segs.skip(1);
        let l = seg0.len() as int;
        assert(wf_seg(seg0));
        assert(s.skip(i) == seg0 + join_tail(rest));
        assert forall|k: int| 0 <= k < l implies s[i + k] == seg0[k] && s[i + k] != '/' by {
            assert(s.skip(i)[k] == s[i + k]);
            assert((seg0 + join_tail(rest))[k] == seg0[k]);
        }
        assert(i < s.len()) by {
            assert(s.skip(i).len() > 0);
        }
        assert(s[i] != '/') by {
            assert(s[i + 0] == seg0[0]);
        }
        assert forall|k: int| i <= k < i + l implies s[k] != '/' by {
            assert(s[i + (k - i)] == seg0[k - i]);
        }
        if rest.len() == 0 {
            assert(join_tail(rest).len() == 0);
            assert(s.skip(i).len() == l);
            assert(i + l == s.len());
            lemma_seg_end_at(s, i, i + l);
            let seg = s.subrange(i, i + l);
            assert(seg =~= seg0);
            assert(parse_segs(s, i + l) =~= Seq::<Seq<char>>::empty());
            assert(seq![seg] + parse_segs(s, i + l) =~= segs);
        } else {
            assert(s.skip(i)[l] == (seg0 + join_tail(rest))[l]);
            assert(join_tail(rest)[0] == '/') by {
                assert(join_tail(rest) == seq!['/'] + rest[0] + join_tail(rest.skip(1)));
            }
            assert(s[i + l] == '/');
            lemma_seg_end_at(s, i, i + l);
            let seg = s.subrange(i, i + l);
            assert(seg =~= seg0);
            assert(parsed_ok(rest)) by {
                assert(forall|k: int| 0 <= k < rest.len() ==> #[trigger] rest[k] == segs[k + 1]);
            }
            assert(s.skip(i + l + 1) =~= join_from(rest)) by {
                assert(join_tail(rest) == seq!['/'] + rest[0] + join_tail(rest.skip(1)));
                assert(join_from(rest) == rest[0] + join_tail(rest.skip(1)));
                assert forall|k: int| 0 <= k < s.len() - (i + l + 1) implies s.skip(i + l + 1)[k]
                    == join_from(rest)[k] by {
                    assert(s.skip(i)[l + 1 + k] == (seg0 + join_tail(rest))[l + 1 + k]);
                    assert(join_tail(rest)[1 + k] == (seq!['/'] + rest[0] + join_tail(rest.skip(
                        1,
                    )))[1 + k]);
                }
                assert(s.skip(i + l + 1).len() == join_from(rest).len()) by {
                    assert(s.skip(i).len() == seg0.len() + join_tail(rest).len());
                }
            }
            lemma_parse_join(s, i + l + 1, rest);
            assert(parse_segs(s, i + l) == parse_segs(s, i + l + 1));
            assert(segs[0] != "."@);
            assert(parse_segs(s, i) == seq![seg] + parse_segs(s, i + l));
            assert(seq![seg0] + rest =~= segs);
        }
    }
}

/// Writing a parsed segment list back as text and re-parsing recovers the
/// list and the absoluteness flag.
pub proof fn lemma_parse_unparse(abs: bool, segs: Seq<Seq<char>>)
    requires
        parsed_ok(segs),
    ensures
        parse_segs(unparse_path(abs, segs), 0) == segs,
        path_is_abs(unparse_path(abs, segs)) == abs,
{
    let s = unparse_path(abs, segs);
    if abs {
        assert(s[0] == '/') by {
            assert(s == seq!['/'] + join_from(segs));
        }
        assert(s.skip(1) =~= join_from(segs));
        lemma_parse_join(s, 1, segs);
        assert(parse_segs(s, 0) == parse_segs(s, 1));
    } else {
        if segs.len() == 0 {
            assert(s.len() == 0);
            assert(parse_segs(s, 0) =~= Seq::<Seq<char>>::empty());
        } else {
            assert(s[0] == segs[0][0] && segs[0][0] != '/') by {
                assert(wf_seg(segs[0]));
                assert(s == segs[0] + join_tail(segs.skip(1)));
            }
            assert(s.skip(0) =~= s);
            lemma_parse_join(s, 0, segs);
        }
    }
}

/// The joined state of any prefix of parts is made of parsed segments.
pub proof fn lemma_resolve_state_ok(parts: Seq<Seq<char>>, k: int)
    requires
        1 <= k <= parts.len(),
    ensures
        parsed_ok(resolve_state(parts, k).1),
    decreases k,
{
    if k <= 1 {
        lemma_parse_wf(parts[0], 0);
    } else {
        lemma_resolve_state_ok(parts, k - 1);
        let part = parts[k - 1];
        lemma_parse_wf(part, 0);
        if !path_is_abs(part) {
            let a = resolve_state(parts, k - 1).1;
            let b = parse_segs(part, 0);
            assert forall|j: int| 0 <= j < (a + b).len() implies wf_seg(#[trigger] (a + b)[j]) && (
            a + b)[j] != "."@ by {
                if j < a.len() {
                    assert((a + b)[j] == a[j]);
                } else {
                    assert((a + b)[j] == b[j - a.len()]);
                }
            }
        }
    }
}

/// The law: resolving an already-resolved path again changes nothing.
pub proof fn lemma_path_resolve_idempotent(parts: Seq<Seq<char>>)
    requires
        parts.len() > 0,
    ensures
        spec_path_resolve(seq![spec_path_resolve(parts)]) == spec_path_resolve(parts),
{
    let st = resolve_state(parts, parts.len() as int);
    lemma_resolve_state_ok(parts, parts.len() as int);
    lemma_norm_segs_ok(st.1);
    let n = norm_segs(st.1);
    let r = unparse_path(st.0, n);
    lemma_parse_unparse(st.0, n);
    lemma_norm_identity(n);
    assert(seq![r].len() == 1 && seq![r][0] == r);
    assert(resolve_state(seq![r], 1) == (path_is_abs(r), parse_segs(r, 0)));
    assert(spec_path_resolve(seq![r]) == unparse_path(st.0, norm_segs(n)));
}

/// The path without its last segment, or no result for a path without
/// segments (the root, or an empty path).
pub open spec fn spec_dirname(s: Seq<char>) -> Option<Seq<char>> {
    let segs = parse_segs(s, 0);
    if segs.len() == 0 {
        Option::None
    } else {
        Option::Some(unparse_path(path_is_abs(s), segs.drop_last()))
    }
}

/// The last segment of the path, unless there is none or it is `..`.
pub open spec fn spec_basename(s: Seq<char>) -> Option<Seq<char>> {
    let segs = parse_segs(s, 0);
    if segs.len() == 0 || segs.last() == ".."@ {
        Option::None
    } else {
        Option::Some(segs.last())
    }
}

/// The directory containing `p`.
pub fn path_dirname(p: &str) -> (r: Result<String, crate::errors::NodeError>)
    ensures
        match r {
            Result::Ok(d) => spec_dirname(p@) == Option::Some(d@),
            Result::Err(e) => spec_dirname(p@) is None && e@ == crate::errors::ErrModel::InvalidPath(
                p@,
            ),
        },
{
    let v = crate::chars::str_to_chars(p);
    let abs = v.len() > 0 && v[0] == '/';
    let mut segs = parse_segments(&v);
    if segs.len() == 0 {
        return Result::Err(crate::errors::NodeError::InvalidPath(crate::chars::chars_to_string(&v)));
    }
    let ghost before = segs_view(segs@);
    let _ = segs.pop();
    proof {
        assert(segs_view(segs@) =~= before.drop_last());
    }
    let out = unparse_path_exec(abs, &segs);
    Result::Ok(crate::chars::chars_to_string(&out))
}

/// The final component of `p`.
pub fn path_basename(p: &str) -> (r: Result<String, crate::errors::NodeError>)
    ensures
        match r {
            Result::Ok(b) => spec_basename(p@) == Option::Some(b@),
            Result::Err(e) => spec_basename(p@) is None && e@
                == crate::errors::ErrModel::InvalidPath(p@),
        },
{
    let v = crate::chars::str_to_chars(p);
    let segs = parse_segments(&v);
    if segs.len() == 0 {
        return Result::Err(crate::errors::NodeError::InvalidPath(crate::chars::chars_to_string(&v)));
    }
    let last = copy_seg(&segs[segs.len() - 1]);
    proof {
        assert(segs_view(segs@).last() == segs@[segs@.len() - 1]@);
    }
    if crate::chars::chars_eq_str(&last, "..") {
        return Result::Err(crate::errors::NodeError::InvalidPath(crate::chars::chars_to_string(&v)));
    }
    Result::Ok(crate::chars::chars_to_string(&last))
}

/// The filename to load for a request that may name a directory: a path
/// with a trailing `/` gets `noop.js` appended.
pub open spec fn spec_proxy_path(s: Seq<char>) -> Seq<char> {
    if s.len() > 0 && s.last() == '/' {
        s + "noop.js"@
    } else {
        s
    }
}

/// Allows a directory to be passed as the filename.
pub fn proxy_path(filename: &str) -> (r: String)
    ensures
        r@ == spec_proxy_path(filename@),
{
    let v = crate::chars::str_to_chars(filename);
    if v.len() > 0 && v[v.len() - 1] == '/' {
        let suffix = crate::chars::str_to_chars("noop.js");
        let out = crate::chars::concat_chars(&v, &suffix);
        crate::chars::chars_to_string(&out)
    } else {
        crate::chars::chars_to_string(&v)
    }
}

} // verus!
