//! Remote path mapping (the Sonarr/Radarr pattern).
//!
//! Aria2 and this engine may see the same media through different path
//! prefixes. E.g. inside Aria2's container a file is at
//! `/rdtdownloads/foo.mkv`, but on the host the same file is
//! `/mnt/media/media/rdtdownloads/foo.mkv`.
//!
//! A `PathMapping` maps a `remote_path` prefix (as Aria2 reports it) to a
//! `local_path` prefix (as this engine opens it). When multiple mappings
//! exist, the one with the **longest matching prefix** wins, so a specific
//! rule beats a broad one. The length of a prefix is the number of its
//! components: how many slashes it is written with matters only between two
//! spellings of one directory, of which the longer one wins.
//!
//! Paths are compared in forward-slash style: only `/` separates components
//! here, on every platform. Rules come in that style from `normalize`; a path
//! that a Windows system reports is brought into it with `paths::to_slashes`
//! before it is looked up.

use crate::path_laws;
use crate::paths::{self, depth, push_path, strip_prefix, to_slashes};
use crate::text::{self, bytes_in, chars_of, string_of, trimmed};
use vstd::prelude::*;

verus! {

/// One remote-to-local path mapping row (mirrors the `path_mappings` table).
#[derive(Debug, Clone, PartialEq, Eq)]
pub struct PathMapping {
    pub id: Option<i64>,
    pub remote_path: String,
    pub local_path: String,
    pub position: i64,
}

impl PathMapping {
    /// A mapping that has no row yet.
    pub fn new(remote_path: &str, local_path: &str) -> (r: Self)
        ensures
            r.id is None,
            r.remote_path@ == remote_path@,
            r.local_path@ == local_path@,
            r.position == 0,
    {
        PathMapping {
            id: None,
            remote_path: remote_path.to_owned(),
            local_path: local_path.to_owned(),
            position: 0,
        }
    }
}

/// Whether a mapping applies to a remote path: its remote prefix is an
/// ancestor of the path, or the path itself.
pub open spec fn applies(m: PathMapping, path: Seq<char>) -> bool {
    paths::starts_with(path, m.remote_path@)
}

/// How specific a mapping is: the number of components of its remote prefix.
pub open spec fn specificity(m: PathMapping) -> nat {
    paths::components(m.remote_path@).len()
}

/// Whether a mapping beats another one where both apply: it is more specific,
/// or as specific and written longer.
pub open spec fn beats(a: PathMapping, b: PathMapping) -> bool {
    ||| specificity(a) > specificity(b)
    ||| specificity(a) == specificity(b) && text::byte_len(a.remote_path@) > text::byte_len(
        b.remote_path@,
    )
}

/// Whether a mapping at one place of the list yields to one at another where
/// both apply: it is beaten, or neither beats the other and it is not before it.
pub open spec fn yields(mappings: Seq<PathMapping>, j: int, i: int) -> bool {
    ||| beats(mappings[i], mappings[j])
    ||| !beats(mappings[j], mappings[i]) && i <= j
}

/// Whether the `i`th mapping is the one to use for a path: it applies, none
/// that applies beats it, and of those that it does not beat it is the first.
pub open spec fn is_best(mappings: Seq<PathMapping>, path: Seq<char>, i: int) -> bool {
    &&& 0 <= i < mappings.len()
    &&& applies(mappings[i], path)
    &&& forall|j: int|
        0 <= j < mappings.len() && applies(#[trigger] mappings[j], path) ==> yields(mappings, j, i)
}

/// Where a mapping puts a remote path: the rest of the path behind the remote
/// prefix, pushed onto the local prefix.
pub open spec fn mapped(m: PathMapping, path: Seq<char>) -> Seq<char> {
    paths::pushed(
        m.local_path@,
        paths::behind(path, paths::components(m.remote_path@).len() as int),
    )
}

fn is_better(a: &PathMapping, b: &PathMapping) -> (r: bool)
    ensures
        r == beats(*a, *b),
{
    let da = depth(a.remote_path.as_str());
    let db = depth(b.remote_path.as_str());
    da > db || (da == db && bytes_in(a.remote_path.as_str()) > bytes_in(b.remote_path.as_str()))
}

/// Translates an Aria2-reported path to the local path using the best mapping.
///
/// Returns `None` if no mapping applies (the path is then already local).
pub fn resolve_mapping(mappings: &[PathMapping], remote_path: &str) -> (r: Option<String>)
    ensures
        r is None <==> forall|i: int|
            0 <= i < mappings@.len() ==> !applies(#[trigger] mappings@[i], remote_path@),
        r matches Some(local) ==> exists|i: int| #[trigger]
            is_best(mappings@, remote_path@, i) && local@ == mapped(mappings@[i], remote_path@),
        resolves(mappings@, remote_path@, text::text_of(r)),
{
    let mut best: Option<usize> = None;
    let mut behind_best = String::new();
    for k in 0..mappings.len()
        invariant
            best is None ==> forall|i: int|
                0 <= i < k ==> !applies(#[trigger] mappings@[i], remote_path@),
            best matches Some(b) ==> b < k && is_best(
                mappings@.take(k as int),
                remote_path@,
                b as int,
            ) && behind_best@ == paths::behind(
                remote_path@,
                paths::components(mappings@[b as int].remote_path@).len() as int,
            ),
    {
        let m = &mappings[k];
        let ghost before = mappings@.take(k as int);
        let ghost after = mappings@.take(k + 1);
        assert(after =~= before.push(*m));
        match strip_prefix(remote_path, m.remote_path.as_str()) {
            Some(rest) => {
                let longer = match best {
                    Some(b) => is_better(m, &mappings[b]),
                    None => true,
                };
                proof {
                    let i: int = if longer {
                        k as int
                    } else {
                        best->0 as int
                    };
                    assert forall|j: int|
                        0 <= j < after.len() && applies(
                            #[trigger] after[j],
                            remote_path@,
                        ) implies yields(after, j, i) by {
                        if j < k {
                            assert(after[j] == before[j]);
                            assert(mappings@[j] == before[j]);
                            if best is Some {
                                let b = best->0 as int;
                                assert(is_best(before, remote_path@, b));
                                assert(before[b] == mappings@[b]);
                            }
                        }
                    }
                    assert(is_best(after, remote_path@, i));
                }
                if longer {
                    best = Some(k);
                    behind_best = rest;
                }
            },
            None => {
                proof {
                    if best is Some {
                        let i = best->0 as int;
                        assert(after[i] == before[i]);
                        assert forall|j: int|
                            0 <= j < after.len() && applies(
                                #[trigger] after[j],
                                remote_path@,
                            ) implies yields(after, j, i) by {
                            assert(j < k);
                            assert(after[j] == before[j]);
                        }
                        assert(is_best(after, remote_path@, i));
                    }
                }
            },
        }
    }
    assert(mappings@.take(mappings@.len() as int) =~= mappings@);
    match best {
        Some(b) => {
            let local = push_path(mappings[b].local_path.as_str(), behind_best.as_str());
            assert(is_best(mappings@, remote_path@, b as int));
            Some(local)
        },
        None => None,
    }
}

/// A path as it is kept for comparisons.
pub open spec fn normalized(p: Seq<char>) -> Seq<char> {
    let slash = |c: char| c == '/';
    let s = text::trim_end_where(text::trim(paths::forward(p)), slash);
    if s.len() > 1 && s[0] == '/' && s[1] == '/' {
        seq!['/'] + text::trim_start_where(s, slash)
    } else {
        s
    }
}

/// A normalized path is in forward-slash style.
pub proof fn normalized_holds_no_backslash(p: Seq<char>)
    ensures
        !normalized(p).contains('\\'),
{
    let slash = |c: char| c == '/';
    let ws = |c: char| text::is_white_space(c);
    let f = paths::forward(p);
    let u = text::trim_start_where(f, ws);
    let t = text::trim_end_where(u, ws);
    let s = text::trim_end_where(t, slash);
    let v = text::trim_start_where(s, slash);
    text::trim_start_shape(f, ws);
    text::trim_end_shape(u, ws);
    text::trim_end_shape(t, slash);
    text::trim_start_shape(s, slash);
    assert forall|k: int| 0 <= k < s.len() implies #[trigger] s[k] != '\\' by {
        assert(s[k] == f[k + (f.len() - u.len())]);
    }
    assert forall|k: int| 0 <= k < normalized(p).len() implies normalized(p)[k] != '\\' by {
        if normalized(p) != s && k > 0 {
            assert(normalized(p)[k] == s[k - 1 + (s.len() - v.len())]);
        }
    }
}

/// Normalizes a user-provided path (white space and trailing slashes trimmed,
/// one slash at most at the start, forward-slash style) so prefix comparisons
/// behave predictably.
pub fn normalize(p: &str) -> (r: String)
    ensures
        r@ == normalized(p@),
        !r@.contains('\\'),
{
    proof {
        normalized_holds_no_backslash(p@);
    }
    let f = to_slashes(p);
    let t = trimmed(f.as_str());
    let v = chars_of(t.as_str());
    let ghost slash = |c: char| c == '/';
    let mut to: usize = v.len();
    assert(v@.take(to as int) =~= v@);
    while to > 0 && v[to - 1] == '/'
        invariant
            to <= v@.len(),
            slash == (|c: char| c == '/'),
            text::trim_end_where(v@.take(to as int), slash) == text::trim_end_where(v@, slash),
        decreases to,
    {
        assert(v@.take(to as int).drop_last() =~= v@.take(to - 1));
        to = to - 1;
    }
    let ghost s = v@.take(to as int);
    if to > 1 && v[0] == '/' && v[1] == '/' {
        let mut from: usize = 0;
        assert(s.skip(0) =~= s);
        while from < to && v[from] == '/'
            invariant
                from <= to <= v@.len(),
                s == v@.take(to as int),
                slash == (|c: char| c == '/'),
                text::trim_start_where(s.skip(from as int), slash) == text::trim_start_where(
                    s,
                    slash,
                ),
            decreases to - from,
        {
            assert(s.skip(from as int).drop_first() =~= s.skip(from + 1));
            from = from + 1;
        }
        let mut r = String::new();
        r.push('/');
        r.append(string_of(&v, from, to).as_str());
        assert(v@.subrange(from as int, to as int) =~= s.skip(from as int));
        assert(r@ =~= normalized(p@));
        r
    } else {
        assert(v@.subrange(0, to as int) =~= s);
        string_of(&v, 0, to)
    }
}

// ---------------------------------------------------------------------------
// Laws
// ---------------------------------------------------------------------------

/// At most one mapping is the best one, so the result of `resolve_mapping` is
/// determined by its arguments.
pub proof fn best_mapping_is_unique(
    mappings: Seq<PathMapping>,
    path: Seq<char>,
    i: int,
    j: int,
)
    requires
        is_best(mappings, path, i),
        is_best(mappings, path, j),
    ensures
        i == j,
{
}

/// Whether two mappings are the same rule: ids and positions play no part.
pub open spec fn same_rule(a: PathMapping, b: PathMapping) -> bool {
    a.remote_path@ == b.remote_path@ && a.local_path@ == b.local_path@
}

/// Whether every rule of `a` that applies to a path is in `b`.
pub open spec fn has_applying_rules(
    b: Seq<PathMapping>,
    a: Seq<PathMapping>,
    path: Seq<char>,
) -> bool {
    forall|i: int|
        0 <= i < a.len() && applies(#[trigger] a[i], path) ==> exists|j: int|
            0 <= j < b.len() && same_rule(a[i], #[trigger] b[j])
}

/// Whether of any two rules that apply one beats the other: their remote
/// prefixes differ in depth or in length.
pub open spec fn no_ties(mappings: Seq<PathMapping>, path: Seq<char>) -> bool {
    forall|i: int, j: int|
        0 <= i < j < mappings.len() && applies(#[trigger] mappings[i], path) && applies(
            #[trigger] mappings[j],
            path,
        ) ==> specificity(mappings[i]) != specificity(mappings[j]) || text::byte_len(
            mappings[i].remote_path@,
        ) != text::byte_len(mappings[j].remote_path@)
}

/// Whether `r` is what `resolve_mapping` gives.
pub open spec fn resolves(
    mappings: Seq<PathMapping>,
    path: Seq<char>,
    r: Option<Seq<char>>,
) -> bool {
    match r {
        None => forall|i: int|
            0 <= i < mappings.len() ==> !applies(#[trigger] mappings[i], path),
        Some(local) => exists|i: int| #[trigger]
            is_best(mappings, path, i) && local == mapped(mappings[i], path),
    }
}

/// Only the rules that apply matter, and not their order: two lists with the
/// same applying rules, none of which ties with another, resolve a path alike,
/// whatever else they hold and however they are ordered. Ids and positions play
/// no part.
pub proof fn order_and_other_rules_play_no_part(
    a: Seq<PathMapping>,
    b: Seq<PathMapping>,
    path: Seq<char>,
    ra: Option<Seq<char>>,
    rb: Option<Seq<char>>,
)
    requires
        resolves(a, path, ra),
        resolves(b, path, rb),
        has_applying_rules(b, a, path),
        has_applying_rules(a, b, path),
        no_ties(a, path),
    ensures
        ra == rb,
{
    if ra is None {
        if rb is Some {
            let j = choose|j: int| #[trigger]
                is_best(b, path, j) && rb->0 == mapped(b[j], path);
            assert(applies(b[j], path));
            let i = choose|i: int| 0 <= i < a.len() && same_rule(b[j], #[trigger] a[i]);
            assert(applies(a[i], path));
        }
    } else {
        let i = choose|i: int| #[trigger] is_best(a, path, i) && ra->0 == mapped(a[i], path);
        assert(applies(a[i], path));
        let k = choose|k: int| 0 <= k < b.len() && same_rule(a[i], #[trigger] b[k]);
        assert(applies(b[k], path));
        assert(rb is Some);
        let j = choose|j: int| #[trigger] is_best(b, path, j) && rb->0 == mapped(b[j], path);
        assert(applies(b[j], path));
        let m = choose|m: int| 0 <= m < a.len() && same_rule(b[j], #[trigger] a[m]);
        assert(applies(a[m], path));
        assert(yields(a, m, i));
        assert(yields(b, k, j));
        assert(m == i);
    }
}

/// Where a mapping applies, there is a best one.
pub proof fn best_mapping_exists(mappings: Seq<PathMapping>, path: Seq<char>, k: int)
    requires
        0 <= k < mappings.len(),
        applies(mappings[k], path),
    ensures
        exists|i: int| is_best(mappings, path, i),
    decreases mappings.len(),
{
    let front = mappings.drop_last();
    let last = mappings.len() - 1;
    if exists|j: int| 0 <= j < last && applies(#[trigger] front[j], path) {
        let j = choose|j: int| 0 <= j < last && applies(#[trigger] front[j], path);
        best_mapping_exists(front, path, j);
        let b = choose|i: int| is_best(front, path, i);
        assert forall|m: int| 0 <= m < last implies front[m] == mappings[m] by {}
        if applies(mappings[last], path) && beats(mappings[last], mappings[b]) {
            assert(is_best(mappings, path, last)) by {
                assert forall|m: int|
                    0 <= m < mappings.len() && applies(
                        #[trigger] mappings[m],
                        path,
                    ) implies yields(mappings, m, last) by {
                    if m < last {
                        assert(applies(front[m], path));
                    }
                }
            }
        } else {
            assert(is_best(mappings, path, b)) by {
                assert forall|m: int|
                    0 <= m < mappings.len() && applies(
                        #[trigger] mappings[m],
                        path,
                    ) implies yields(mappings, m, b) by {
                    if m < last {
                        assert(applies(front[m], path));
                    }
                }
            }
        }
    } else {
        assert(k == last) by {
            if k < last {
                assert(applies(front[k], path));
            }
        }
        assert(is_best(mappings, path, last)) by {
            assert forall|m: int|
                0 <= m < mappings.len() && applies(#[trigger] mappings[m], path) implies m
                == last by {
                if m < last {
                    assert(applies(front[m], path));
                }
            }
        }
    }
}

/// A file keeps its place: what stands at some names under the remote prefix
/// is found at the same names under the local prefix.
pub proof fn mapped_files_keep_their_place(m: PathMapping, names: Seq<Seq<char>>)
    requires
        path_laws::plain_names(names),
        names.len() > 0,
    ensures
        applies(m, paths::pushed(m.remote_path@, path_laws::slashed(names))),
        mapped(m, paths::pushed(m.remote_path@, path_laws::slashed(names))) == paths::pushed(
            m.local_path@,
            path_laws::slashed(names),
        ),
{
    path_laws::pushed_names_are_components(m.remote_path@, names);
}

/// A rule applies to what is in its folder, and to nothing else: with a rule for
/// some names below a folder, exactly the files whose names start with those are
/// mapped by it.
pub proof fn rules_apply_inside_their_folder(
    m: PathMapping,
    base: Seq<char>,
    rule: Seq<Seq<char>>,
    file: Seq<Seq<char>>,
)
    requires
        path_laws::plain_names(rule),
        path_laws::plain_names(file),
        rule.len() > 0,
        file.len() > 0,
        m.remote_path@ == paths::pushed(base, path_laws::slashed(rule)),
    ensures
        applies(m, paths::pushed(base, path_laws::slashed(file))) <==> rule.is_prefix_of(file),
{
    path_laws::paths_start_with_whole_names(base, rule, file);
}

/// The longest prefix wins: of two rules that apply the one with more components
/// is used, wherever it stands in the list; of two with as many, the one written
/// longer; of two written as long, the first.
pub proof fn the_longest_prefix_wins(mappings: Seq<PathMapping>, path: Seq<char>, i: int, j: int)
    requires
        is_best(mappings, path, i),
        0 <= j < mappings.len(),
        applies(mappings[j], path),
    ensures
        applies(mappings[i], path),
        ({
            let a = paths::components(mappings[i].remote_path@).len();
            let b = paths::components(mappings[j].remote_path@).len();
            let x = text::byte_len(mappings[i].remote_path@);
            let y = text::byte_len(mappings[j].remote_path@);
            &&& b <= a
            &&& b == a ==> y <= x
            &&& b == a && y == x ==> i <= j
        }),
{
    assert(yields(mappings, j, i));
}

/// A tidy path is left as it is: without white space at its ends, backslashes,
/// slashes at the end or a double slash at the start there is nothing to do.
pub proof fn tidy_paths_are_kept(p: Seq<char>)
    requires
        p.len() > 0,
        !text::is_white_space(p[0]) && !text::is_white_space(p.last()),
        p.last() != '/',
        p.len() > 1 ==> !(p[0] == '/' && p[1] == '/'),
        forall|i: int| 0 <= i < p.len() ==> #[trigger] p[i] != '\\',
    ensures
        normalized(p) == p,
{
    let ws = |c: char| text::is_white_space(c);
    let slash = |c: char| c == '/';
    assert(paths::forward(p) =~= p);
    assert(text::trim_start_where(p, ws) == p);
    text::trim_end_fixed(p, ws);
    text::trim_end_fixed(p, slash);
}

/// Nothing is left of a path exactly if it is nothing but slashes, of either
/// kind, between white space.
pub proof fn only_slashes_normalize_to_nothing(p: Seq<char>)
    ensures
        normalized(p).len() == 0 <==> forall|i: int|
            0 <= i < text::trim(paths::forward(p)).len() ==> #[trigger] text::trim(
                paths::forward(p),
            )[i] == '/',
{
    let slash = |c: char| c == '/';
    let t = text::trim(paths::forward(p));
    let s = text::trim_end_where(t, slash);
    text::trim_end_shape(t, slash);
    if normalized(p).len() == 0 {
        assert(s.len() == 0);
        assert forall|i: int| 0 <= i < t.len() implies #[trigger] t[i] == '/' by {
            assert(slash(t[i]));
        }
    }
    if forall|i: int| 0 <= i < t.len() ==> #[trigger] t[i] == '/' {
        if s.len() > 0 {
            assert(s.last() == t[s.len() - 1]);
        }
    }
}

/// A rule maps its own folder: the remote prefix itself becomes the local one.
pub proof fn rules_map_their_own_folder(m: PathMapping)
    ensures
        applies(m, m.remote_path@),
        mapped(m, m.remote_path@) == paths::pushed(m.local_path@, Seq::empty()),
{
    path_laws::nothing_is_behind_a_whole_path(m.remote_path@);
}

} // verus!
