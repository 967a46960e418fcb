//! What holds of path mappings: specific rules beat broad ones, and
//! normalizing a path keeps what it names.

use crate::path_laws;
use crate::pathmap;
use crate::paths;
use crate::text;
use vstd::prelude::*;

verus! {

/// A specific rule beats a broad one: the mapping in use is the most specific
/// of all that apply. Its components go on from those of every other one.
pub proof fn specific_rule_beats_broad(
    mappings: Seq<pathmap::PathMapping>,
    path: Seq<char>,
    i: int,
    j: int,
)
    requires
        pathmap::is_best(mappings, path, i),
        0 <= j < mappings.len(),
        pathmap::applies(mappings[j], path),
    ensures
        paths::components(mappings[j].remote_path@).is_prefix_of(
            paths::components(mappings[i].remote_path@),
        ),
{
    let a = paths::components(mappings[i].remote_path@);
    let b = paths::components(mappings[j].remote_path@);
    let all = paths::components(path);
    assert(pathmap::yields(mappings, j, i));
    assert(b =~= a.subrange(0, b.len() as int)) by {
        assert forall|k: int| 0 <= k < b.len() implies b[k] == a[k] by {
            assert(b[k] == all.subrange(0, b.len() as int)[k]);
            assert(a[k] == all.subrange(0, a.len() as int)[k]);
        }
    }
}

/// How a rule is written does not matter: two rules that apply are equally
/// specific only if their remote prefixes have the same components.
pub proof fn equally_specific_rules_name_the_same(
    a: pathmap::PathMapping,
    b: pathmap::PathMapping,
    path: Seq<char>,
)
    requires
        pathmap::applies(a, path),
        pathmap::applies(b, path),
        pathmap::specificity(a) == pathmap::specificity(b),
    ensures
        paths::components(a.remote_path@) == paths::components(b.remote_path@),
{
    let x = paths::components(a.remote_path@);
    let y = paths::components(b.remote_path@);
    let all = paths::components(path);
    assert(x =~= all.subrange(0, x.len() as int));
    assert(y =~= all.subrange(0, y.len() as int));
}

// ---------------------------------------------------------------------------
// Normalizing
// ---------------------------------------------------------------------------

/// A normalized path does not end in a slash and starts with at most one.
pub proof fn normalized_paths_are_trimmed(p: Seq<char>)
    ensures
        pathmap::normalized(p).len() > 0 ==> pathmap::normalized(p).last() != '/',
        pathmap::normalized(p).len() > 1 ==> !(pathmap::normalized(p)[0] == '/'
            && pathmap::normalized(p)[1] == '/'),
{
    let slash = |c: char| c == '/';
    let t = text::trim(paths::forward(p));
    let s = text::trim_end_where(t, slash);
    text::trim_end_shape(t, slash);
    text::trim_start_shape(s, slash);
}

/// Normalizing twice is normalizing once, unless cutting the slashes off
/// brings white space to the end (as in `a /`), which the second time cuts.
pub proof fn normalizing_is_idempotent(p: Seq<char>)
    requires
        pathmap::normalized(p).len() > 0 ==> !text::is_white_space(pathmap::normalized(p).last()),
    ensures
        pathmap::normalized(pathmap::normalized(p)) == pathmap::normalized(p),
{
    let slash = |c: char| c == '/';
    let ws = |c: char| text::is_white_space(c);
    let t = text::trim(paths::forward(p));
    let s = text::trim_end_where(t, slash);
    let r = pathmap::normalized(p);
    text::trim_ends(paths::forward(p));
    text::trim_end_shape(t, slash);
    text::trim_start_shape(s, slash);
    normalized_paths_are_trimmed(p);
    assert(paths::forward(r) =~= r) by {
        pathmap::normalized_holds_no_backslash(p);
        assert forall|k: int| 0 <= k < r.len() implies r[k] != '\\' by {
            if r[k] == '\\' {
                assert(r.contains('\\'));
            }
        }
    }
    if r.len() > 0 {
        assert(r[0] == '/' || r[0] == t[0]);
        assert(!ws(r[0]));
        assert(text::trim_start_where(r, ws) == r);
        text::trim_end_fixed(r, ws);
        text::trim_end_fixed(r, slash);
    }
}

proof fn slashes_name_nothing(s: Seq<char>, i: int)
    requires
        0 <= i <= s.len(),
        forall|k: int| 0 <= k < s.len() ==> s[k] == '/',
    ensures
        paths::spans_from(s, i) == Seq::<(int, int)>::empty(),
    decreases s.len() - i,
{
    if i < s.len() {
        slashes_name_nothing(s, i + 1);
    }
}

/// Slashes at the end of a path do not change its components.
proof fn end_slashes_do_not_count(s: Seq<char>, y: Seq<char>)
    requires
        s.len() > 0,
        forall|k: int| 0 <= k < y.len() ==> y[k] == '/',
    ensures
        paths::components(s + y) == paths::components(s),
{
    let t = s + y;
    slashes_name_nothing(y, 0);
    assert(path_laws::shifted(paths::spans_from(y, 0), s.len() as int) =~= Seq::empty());
    path_laws::spans_of_concat(s, y, 0);
    path_laws::spans_of_concat(s, y, 1);
    assert(paths::spans_from(t, 0) =~= paths::spans_from(s, 0));
    assert(paths::spans_from(t, 1) =~= paths::spans_from(s, 1));
    assert(t[0] == s[0]);
    if s.len() == 1 {
        if y.len() > 0 {
            assert(t[1] == y[0]);
        }
    } else {
        assert(t[1] == s[1]);
    }
    assert(paths::spans(t) == paths::spans(s));
    paths::spans_are_ordered(s);
    assert forall|k: int| 0 <= k < paths::spans(s).len() implies #[trigger] paths::components(t)[k]
        == paths::components(s)[k] by {
        let x = paths::spans(s)[k];
        assert(0 <= x.0 < x.1 <= s.len());
        assert(t.subrange(x.0, x.1) =~= s.subrange(x.0, x.1));
    }
    assert(paths::components(t) =~= paths::components(s));
}

/// More slashes at the start of a path do not change its components.
proof fn start_slashes_do_not_count(x: Seq<char>, u: Seq<char>)
    requires
        x.len() > 0,
        forall|k: int| 0 <= k < x.len() ==> x[k] == '/',
    ensures
        paths::components(x + u) == paths::components(seq!['/'] + u),
{
    let s = x + u;
    let r = seq!['/'] + u;
    let us = paths::spans_from(u, 0);
    slashes_name_nothing(x, 1);
    path_laws::spans_of_concat(x, u, 1);
    assert(paths::spans_from(s, 1) =~= path_laws::shifted(us, x.len() as int));
    path_laws::spans_move(seq!['/'], u, 0);
    assert(paths::spans_from(r, 1) == path_laws::shifted(us, 1));
    assert(s[0] == '/');
    paths::spans_from_in_order(u, 0);
    let a = paths::components(s);
    let b = paths::components(r);
    assert forall|k: int| 0 <= k < a.len() implies #[trigger] a[k] == b[k] by {
        if k == 0 {
            assert(s.subrange(0, 1) =~= r.subrange(0, 1));
        } else {
            let y = us[k - 1];
            assert(0 <= y.0 < y.1 <= u.len());
            assert(s.subrange(y.0 + x.len(), y.1 + x.len()) =~= u.subrange(y.0, y.1));
            assert(r.subrange(y.0 + 1, y.1 + 1) =~= u.subrange(y.0, y.1));
        }
    }
    assert(a =~= b);
}

/// Normalizing keeps the components of a path in forward-slash style (unless nothing but slashes is
/// left of it, which normalizes to the empty path).
pub proof fn normalizing_keeps_components(p: Seq<char>)
    requires
        pathmap::normalized(p).len() > 0,
    ensures
        paths::components(pathmap::normalized(p)) == paths::components(
            text::trim(paths::forward(p)),
        ),
{
    let slash = |c: char| c == '/';
    let t = text::trim(paths::forward(p));
    let s = text::trim_end_where(t, slash);
    text::trim_end_shape(t, slash);
    let y = t.skip(s.len() as int);
    assert(t =~= s + y);
    assert forall|k: int| 0 <= k < y.len() implies y[k] == '/' by {
        assert(slash(t[s.len() + k]));
    }
    end_slashes_do_not_count(s, y);
    if s.len() > 1 && s[0] == '/' && s[1] == '/' {
        let u = text::trim_start_where(s, slash);
        text::trim_start_shape(s, slash);
        let n = s.len() - u.len();
        let x = s.take(n);
        assert(s =~= x + u);
        assert forall|k: int| 0 <= k < x.len() implies x[k] == '/' by {
            assert(slash(s[k]));
        }
        if n == 0 {
            assert(u =~= s);
            assert(!slash(u[0]));
        }
        start_slashes_do_not_count(x, u);
    }
}

/// Normalizing only cuts slashes off the ends: what is left is one run of the
/// path in forward-slash style, without white space around it; all that is cut
/// off are slashes, and of several slashes at the start one stays.
pub proof fn normalizing_only_cuts_the_ends(p: Seq<char>)
    ensures
        exists|from: int, to: int|
            #![trigger text::trim(paths::forward(p)).subrange(from, to)]
            {
                let t = text::trim(paths::forward(p));
                &&& 0 <= from <= to <= t.len()
                &&& pathmap::normalized(p) == t.subrange(from, to)
                &&& forall|i: int|
                    0 <= i < t.len() && !(from <= i < to) ==> #[trigger] t[i] == '/'
                &&& from > 0 ==> from < to && t[from] == '/'
            },
{
    let slash = |c: char| c == '/';
    let t = text::trim(paths::forward(p));
    let s = text::trim_end_where(t, slash);
    let u = text::trim_start_where(s, slash);
    text::trim_end_shape(t, slash);
    text::trim_start_shape(s, slash);
    let to = s.len() as int;
    let from: int = if s.len() > 1 && s[0] == '/' && s[1] == '/' {
        s.len() - u.len() - 1
    } else {
        0
    };
    if s.len() > 1 && s[0] == '/' && s[1] == '/' {
        assert(u.len() < s.len()) by {
            if u.len() == s.len() {
                assert(u =~= s);
            }
        }
        assert(slash(s[from]));
        assert(t[from] == s[from]);
        assert(pathmap::normalized(p) =~= t.subrange(from, to));
    } else {
        assert(pathmap::normalized(p) =~= t.subrange(from, to));
    }
    assert forall|i: int| 0 <= i < t.len() && !(from <= i < to) implies #[trigger] t[i] == '/' by {
        if i < from {
            assert(slash(s[i]));
            assert(s[i] == t[i]);
        } else {
            assert(slash(t[i]));
        }
    }
}

} // verus!
