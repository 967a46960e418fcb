//! Slash-separated paths: their components, prefixes and joins, and where the
//! files of a tree go on disk.

use crate::names::{self, sanitized_segments};
use crate::text::{self, bytes_in, chars_of, join_all, same_text, segments_of, string_of};
use vstd::prelude::*;

verus! {

// ---------------------------------------------------------------------------
// Components
// ---------------------------------------------------------------------------

/// Where the run of characters without a slash that starts at `i` ends.
pub open spec fn run_end(p: Seq<char>, i: int) -> int
    decreases p.len() - i,
{
    if i < p.len() && p[i] != '/' {
        run_end(p, i + 1)
    } else {
        i
    }
}

/// Where the named components of `p` from position `i` on stand: the runs
/// between slashes, without those that are just `.`.
pub open spec fn spans_from(p: Seq<char>, i: int) -> Seq<(int, int)>
    decreases p.len() - i,
    when 0 <= i
    via spans_from_ends
{
    if i >= p.len() {
        Seq::empty()
    } else if p[i] == '/' {
        spans_from(p, i + 1)
    } else if p.subrange(i, run_end(p, i)) == seq!['.'] {
        spans_from(p, run_end(p, i))
    } else {
        seq![(i, run_end(p, i))] + spans_from(p, run_end(p, i))
    }
}

#[via_fn]
proof fn spans_from_ends(p: Seq<char>, i: int) {
    if i < p.len() && p[i] != '/' {
        run_end_shape(p, i + 1);
    }
}

/// A run of characters stays inside the path, holds no slash, and ends at one
/// or at the end.
pub proof fn run_end_shape(p: Seq<char>, i: int)
    requires
        0 <= i <= p.len(),
    ensures
        i <= run_end(p, i) <= p.len(),
        i < p.len() && p[i] != '/' ==> i < run_end(p, i),
        forall|k: int| i <= k < run_end(p, i) ==> p[k] != '/',
        run_end(p, i) < p.len() ==> p[run_end(p, i)] == '/',
    decreases p.len() - i,
{
    if i < p.len() && p[i] != '/' {
        run_end_shape(p, i + 1);
    }
}

/// Whether a path starts at the root.
pub open spec fn is_rooted(p: Seq<char>) -> bool {
    p.len() > 0 && p[0] == '/'
}

/// Whether a path starts with an explicit `.`.
pub open spec fn is_dotted(p: Seq<char>) -> bool {
    p.len() > 0 && p[0] == '.' && (p.len() == 1 || p[1] == '/')
}

/// Where the components of a path stand. The root and a leading `.` are
/// components of their own.
pub open spec fn spans(p: Seq<char>) -> Seq<(int, int)> {
    if is_rooted(p) || is_dotted(p) {
        seq![(0int, 1int)] + spans_from(p, 1)
    } else {
        spans_from(p, 0)
    }
}

/// The components of a path. Repeated slashes, slashes at the end and inner
/// `.` do not count; the root is the component `/`.
pub open spec fn components(p: Seq<char>) -> Seq<Seq<char>> {
    texts_at(p, spans(p))
}

/// The texts at a list of positions.
pub open spec fn texts_at(p: Seq<char>, s: Seq<(int, int)>) -> Seq<Seq<char>> {
    s.map_values(|x: (int, int)| p.subrange(x.0, x.1))
}

/// Whether the components of `base` are the first components of `p`.
pub open spec fn starts_with(p: Seq<char>, base: Seq<char>) -> bool {
    components(base).is_prefix_of(components(p))
}

/// What is left of `p` behind its first `k` components: its text from the
/// next component to the last one.
pub open spec fn behind(p: Seq<char>, k: int) -> Seq<char> {
    if k < spans(p).len() {
        p.subrange(spans(p)[k].0, spans(p).last().1)
    } else {
        Seq::empty()
    }
}

/// `p` with slashes in place of backslashes.
pub open spec fn forward(p: Seq<char>) -> Seq<char> {
    p.map_values(
        |c: char|
            if c == '\\' {
                '/'
            } else {
                c
            },
    )
}

/// `base` with `tail` pushed onto it: an absolute `tail` replaces it, any
/// other is appended, behind a slash where there is none yet.
pub open spec fn pushed(base: Seq<char>, tail: Seq<char>) -> Seq<char> {
    if is_rooted(tail) {
        tail
    } else if base.len() > 0 && base.last() != '/' {
        base + seq!['/'] + tail
    } else {
        base + tail
    }
}

/// `base` with all of `tails` pushed onto it, in order.
pub open spec fn all_pushed(base: Seq<char>, tails: Seq<Seq<char>>) -> Seq<char>
    decreases tails.len(),
{
    if tails.len() == 0 {
        base
    } else {
        pushed(all_pushed(base, tails.drop_last()), tails.last())
    }
}

/// Spans stand in order, inside the path, and none is empty.
pub open spec fn spans_fit(s: Seq<(int, int)>, from: int, to: int) -> bool {
    &&& forall|k: int| 0 <= k < s.len() ==> from <= (#[trigger] s[k]).0 < s[k].1 <= to
    &&& forall|j: int, k: int| 0 <= j < k < s.len() ==> (#[trigger] s[j]).1 <= (#[trigger] s[k]).0
}

/// The components from a position on stand behind it, in order, and none starts
/// with a slash.
pub proof fn spans_from_in_order(p: Seq<char>, i: int)
    requires
        0 <= i,
    ensures
        spans_fit(spans_from(p, i), i, p.len() as int),
        forall|k: int|
            0 <= k < spans_from(p, i).len() ==> p[(#[trigger] spans_from(p, i)[k]).0] != '/',
    decreases p.len() - i,
{
    if i >= p.len() {
    } else if p[i] == '/' {
        spans_from_in_order(p, i + 1);
    } else {
        run_end_shape(p, i);
        spans_from_in_order(p, run_end(p, i));
    }
}

/// The components of a path stand in order.
pub proof fn spans_are_ordered(p: Seq<char>)
    ensures
        spans_fit(spans(p), 0, p.len() as int),
{
    if is_rooted(p) || is_dotted(p) {
        spans_from_in_order(p, 1);
    } else {
        spans_from_in_order(p, 0);
    }
}

/// The view of a list of positions.
pub open spec fn positions(v: Seq<(usize, usize)>) -> Seq<(int, int)> {
    v.map_values(|s: (usize, usize)| (s.0 as int, s.1 as int))
}

/// Where the components of a path stand.
fn spans_of(p: &Vec<char>) -> (r: Vec<(usize, usize)>)
    ensures
        positions(r@) == spans(p@),
{
    let mut out: Vec<(usize, usize)> = Vec::new();
    let mut i: usize = 0;
    if p.len() > 0 && (p[0] == '/' || (p[0] == '.' && (p.len() == 1 || p[1] == '/'))) {
        out.push((0, 1));
        i = 1;
    }
    assert(positions(out@) + spans_from(p@, i as int) =~= spans(p@));
    while i < p.len()
        invariant
            i <= p@.len(),
            positions(out@) + spans_from(p@, i as int) == spans(p@),
        decreases p.len() - i,
    {
        if p[i] == '/' {
            i = i + 1;
        } else {
            let start = i;
            let mut end: usize = i;
            while end < p.len() && p[end] != '/'
                invariant
                    start <= end <= p@.len(),
                    run_end(p@, end as int) == run_end(p@, start as int),
                decreases p.len() - end,
            {
                end = end + 1;
            }
            proof {
                run_end_shape(p@, start as int);
            }
            let dot = end - start == 1 && p[start] == '.';
            assert(dot == (p@.subrange(start as int, end as int) == seq!['.'])) by {
                if dot {
                    assert(p@.subrange(start as int, end as int) =~= seq!['.']);
                } else if p@.subrange(start as int, end as int) == seq!['.'] {
                    assert(p@.subrange(start as int, end as int).len() == 1);
                    assert(p@.subrange(start as int, end as int)[0] == p@[start as int]);
                }
            }
            let ghost before = out@;
            if !dot {
                out.push((start, end));
                assert(positions(out@) =~= positions(before).push((start as int, end as int)));
                assert(positions(out@) + spans_from(p@, end as int) =~= positions(before) + (seq![
                    (start as int, end as int),
                ] + spans_from(p@, end as int)));
            }
            i = end;
        }
    }
    assert(positions(out@) =~= spans(p@));
    out
}

/// A path in forward-slash style.
pub fn to_slashes(path: &str) -> (r: String)
    ensures
        r@ == forward(path@),
        r@.len() == path@.len(),
        forall|i: int|
            0 <= i < r@.len() ==> #[trigger] r@[i] == if path@[i] == '\\' {
                '/'
            } else {
                path@[i]
            },
        !r@.contains('\\'),
{
    let v = chars_of(path);
    let mut r = String::new();
    for i in 0..v.len()
        invariant
            v@ == path@,
            r@ == forward(v@.take(i as int)),
    {
        let c = v[i];
        r.push(if c == '\\' { '/' } else { c });
        assert(r@ =~= forward(v@.take(i + 1)));
    }
    assert(v@.take(v@.len() as int) =~= v@);
    r
}

/// How many components a path has.
pub fn depth(path: &str) -> (r: usize)
    ensures
        r == components(path@).len(),
{
    let p = chars_of(path);
    let found = spans_of(&p);
    assert(positions(found@).len() == found@.len());
    found.len()
}

/// Whether `a[sa]` and `b[sb]` spell the same.
fn same_span(a: &Vec<char>, sa: (usize, usize), b: &Vec<char>, sb: (usize, usize)) -> (r: bool)
    requires
        sa.0 <= sa.1 <= a@.len(),
        sb.0 <= sb.1 <= b@.len(),
    ensures
        r == (a@.subrange(sa.0 as int, sa.1 as int) == b@.subrange(sb.0 as int, sb.1 as int)),
{
    let x = string_of(a, sa.0, sa.1);
    let y = string_of(b, sb.0, sb.1);
    same_text(x.as_str(), y.as_str())
}

/// The path that is left of `path` behind the components of `base`, or `None`
/// where `path` does not start with them.
pub fn strip_prefix(path: &str, base: &str) -> (r: Option<String>)
    ensures
        r is Some <==> starts_with(path@, base@),
        r matches Some(rest) ==> rest@ == behind(path@, components(base@).len() as int),
{
    let p = chars_of(path);
    let b = chars_of(base);
    let ps = spans_of(&p);
    let bs = spans_of(&b);
    proof {
        spans_are_ordered(p@);
        spans_are_ordered(b@);
        assert(components(p@).len() == ps@.len());
        assert(components(b@).len() == bs@.len());
    }
    if bs.len() > ps.len() {
        return None;
    }
    for k in 0..bs.len()
        invariant
            positions(ps@) == spans(p@),
            positions(bs@) == spans(b@),
            spans_fit(spans(p@), 0, p@.len() as int),
            spans_fit(spans(b@), 0, b@.len() as int),
            bs@.len() <= ps@.len(),
            components(p@).len() == ps@.len(),
            components(b@).len() == bs@.len(),
            p@ == path@,
            b@ == base@,
            forall|j: int| 0 <= j < k ==> components(p@)[j] == components(b@)[j],
    {
        assert(positions(ps@)[k as int] == (ps@[k as int].0 as int, ps@[k as int].1 as int));
        assert(positions(bs@)[k as int] == (bs@[k as int].0 as int, bs@[k as int].1 as int));
        assert(spans(p@)[k as int].0 < spans(p@)[k as int].1 <= p@.len());
        assert(spans(b@)[k as int].0 < spans(b@)[k as int].1 <= b@.len());
        if !same_span(&p, ps[k], &b, bs[k]) {
            assert(components(p@)[k as int] != components(b@)[k as int]);
            return None;
        }
    }
    assert(components(b@) =~= components(p@).subrange(0, components(b@).len() as int));
    if bs.len() < ps.len() {
        let k = bs.len();
        let last = ps.len() - 1;
        proof {
            assert(positions(ps@)[k as int] == (ps@[k as int].0 as int, ps@[k as int].1 as int));
            assert(positions(ps@)[last as int] == (
                ps@[last as int].0 as int,
                ps@[last as int].1 as int,
            ));
            assert(spans(p@)[k as int].0 < spans(p@)[k as int].1);
            assert(spans(p@)[last as int].0 < spans(p@)[last as int].1 <= p@.len());
            if k < last {
                assert(spans(p@)[k as int].1 <= spans(p@)[last as int].0);
            }
        }
        Some(string_of(&p, ps[k].0, ps[last].1))
    } else {
        Some(String::new())
    }
}

/// Pushes `tail` onto `base`: an absolute `tail` replaces it.
pub fn push_path(base: &str, tail: &str) -> (r: String)
    ensures
        r@ == pushed(base@, tail@),
        tail@.len() > 0 && tail@[0] == '/' ==> r@ == tail@,
        !(tail@.len() > 0 && tail@[0] == '/') ==> r@ == if base@.len() == 0 || base@.last() == '/' {
            base@ + tail@
        } else {
            base@ + seq!['/'] + tail@
        },
{
    let b = chars_of(base);
    let t = chars_of(tail);
    let mut r = String::new();
    if t.len() > 0 && t[0] == '/' {
        r.append(tail);
        assert(r@ =~= tail@);
        return r;
    }
    r.append(base);
    assert(r@ =~= base@);
    if b.len() > 0 && b[b.len() - 1] != '/' {
        r.push('/');
    }
    r.append(tail);
    assert(r@ =~= pushed(base@, tail@));
    r
}

// ---------------------------------------------------------------------------
// Where files go on disk
// ---------------------------------------------------------------------------

/// The on-disk path of a tree path under a destination folder.
pub open spec fn local_path(dest_root: Seq<char>, rel_path: Seq<char>) -> Seq<char> {
    all_pushed(dest_root, names::all_sanitized(text::segments(rel_path)))
}

/// Maps a tree path to its sanitized on-disk path under `dest_root`, on
/// platforms with slash-separated paths. Shared by the downloader and the zip
/// exporter so they agree on filenames.
pub fn local_path_in(dest_root: &str, rel_path: &str) -> (r: String)
    ensures
        r@ == local_path(dest_root@, rel_path@),
{
    let list = sanitized_segments(rel_path);
    let mut path = String::new();
    path.append(dest_root);
    let ghost all = names::all_sanitized(text::segments(rel_path@));
    assert(path@ =~= dest_root@);
    assert(all.take(0) =~= Seq::<Seq<char>>::empty());
    for i in 0..list.len()
        invariant
            all == text::texts_of(list@),
            path@ == all_pushed(dest_root@, all.take(i as int)),
    {
        path = push_path(path.as_str(), list[i].as_str());
        assert(all.take(i + 1).drop_last() =~= all.take(i as int));
        assert(all.take(i + 1).last() == list@[i as int]@);
    }
    assert(all.take(all.len() as int) =~= all);
    path
}

// ---------------------------------------------------------------------------
// Extended-length paths on Windows
// ---------------------------------------------------------------------------

/// The length in bytes from which Windows needs the extended-length form.
pub const MAX_PATH: usize = 260;

/// Whether a character separates path segments on Windows.
pub open spec fn windows_separator(c: char) -> bool {
    c == '/' || c == '\\'
}

/// Whether a Windows path starts with a drive letter and a colon.
pub open spec fn has_drive(p: Seq<char>) -> bool {
    p.len() >= 2 && ('a' <= p[0] <= 'z' || 'A' <= p[0] <= 'Z') && p[1] == ':'
}

/// The named components of a Windows path behind its drive and root.
pub open spec fn windows_names(p: Seq<char>) -> Seq<Seq<char>> {
    text::segments(forward(p.skip(2))).filter(|s: Seq<char>| s != seq!['.'])
}

/// The extended-length form of an absolute path on a drive.
pub open spec fn extended(p: Seq<char>) -> Seq<char> {
    r"\\?\"@ + p.take(2) + seq!['\\'] + text::join(windows_names(p), r"\"@)
}

/// The path to open a file with on Windows, where `absolute` is the absolute
/// form of `path`, if it has one.
pub open spec fn long_path(path: Seq<char>, absolute: Option<Seq<char>>) -> Seq<char> {
    match absolute {
        Some(a) if text::byte_len(path) >= MAX_PATH && has_drive(a) => extended(a),
        _ => path,
    }
}

/// On Windows, paths past `MAX_PATH` fail to open unless given the
/// extended-length `\\?\` form. Deep trees hit this easily, so the path is
/// converted when needed (drive-letter paths only; anything exotic is left
/// untouched). `absolute` is the absolute form of `path`, where the system
/// could give one.
pub fn to_long_path(path: String, absolute: Option<&str>) -> (r: String)
    requires
        absolute matches Some(a) ==> has_drive(a@) ==> a@.len() > 2 && windows_separator(a@[2]),
    ensures
        r@ == long_path(
            path@,
            match absolute {
                Some(a) => Some(a@),
                None => None,
            },
        ),
{
    if bytes_in(path.as_str()) < MAX_PATH {
        return path;
    }
    let abs = match absolute {
        Some(a) => a,
        None => return path,
    };
    let v = chars_of(abs);
    let drive = v.len() >= 2 && (('a' <= v[0] && v[0] <= 'z') || ('A' <= v[0] && v[0] <= 'Z'))
        && v[1] == ':';
    if !drive {
        return path;
    }
    let behind_drive = string_of(&v, 2, v.len());
    assert(v@.subrange(2, v@.len() as int) =~= v@.skip(2));
    let body = to_slashes(behind_drive.as_str());
    let raw = segments_of(body.as_str());
    let ghost p = |s: Seq<char>| s != seq!['.'];
    let ghost all = text::texts_of(raw@);
    let mut kept: Vec<String> = Vec::new();
    assert(all.take(0) =~= Seq::<Seq<char>>::empty());
    assert(all.take(0).filter(p) =~= Seq::<Seq<char>>::empty()) by {
        reveal(Seq::filter);
    }
    for i in 0..raw.len()
        invariant
            all == text::texts_of(raw@),
            p == (|s: Seq<char>| s != seq!['.']),
            text::texts_of(kept@) == all.take(i as int).filter(p),
    {
        proof {
            reveal_strlit(".");
            assert("."@ =~= seq!['.']);
            assert(all.take(i + 1) =~= all.take(i as int).push(raw@[i as int]@));
            text::filter_push(all.take(i as int), raw@[i as int]@, p);
        }
        if !same_text(raw[i].as_str(), ".") {
            let ghost before = kept@;
            kept.push(raw[i].clone());
            assert(text::texts_of(kept@) =~= text::texts_of(before).push(raw@[i as int]@));
        }
    }
    assert(all.take(all.len() as int) =~= all);
    let mut r = String::new();
    r.append(r"\\?\");
    r.append(string_of(&v, 0, 2).as_str());
    r.push('\\');
    r.append(join_all(&kept, r"\").as_str());
    assert(v@.subrange(0, 2) =~= v@.take(2));
    assert(r@ =~= extended(abs@));
    r
}

// ---------------------------------------------------------------------------
// Laws
// ---------------------------------------------------------------------------

/// Short paths, paths without an absolute form and paths off a drive are opened
/// as they are; any other path gets the extended-length form.
pub proof fn only_long_drive_paths_are_extended(path: Seq<char>, absolute: Option<Seq<char>>)
    ensures
        text::byte_len(path) < 260 ==> long_path(path, absolute) == path,
        absolute is None ==> long_path(path, absolute) == path,
        absolute matches Some(a) ==> {
            let drive = a.len() >= 2 && a[1] == ':' && ('a' <= a[0] <= 'z' || 'A' <= a[0] <= 'Z');
            &&& !drive ==> long_path(path, absolute) == path
            &&& drive && text::byte_len(path) >= 260 ==> {
                let r = long_path(path, absolute);
                &&& r.len() >= 7
                &&& r.take(4) == seq!['\\', '\\', '?', '\\']
                &&& r[4] == a[0]
                &&& r[5] == ':'
                &&& r[6] == '\\'
            }
        },
{
    reveal_strlit(r"\\?\");
    if let Some(a) = absolute {
        if has_drive(a) {
            let r = extended(a);
            assert(r"\\?\"@ =~= seq!['\\', '\\', '?', '\\']);
            assert(r.take(4) =~= seq!['\\', '\\', '?', '\\']);
        }
    }
}

/// The extended-length form names the same folders: behind a drive, one more name
/// after a slash or a backslash is one more name of the path, whole and last; a
/// bare dot is none.
pub proof fn extended_paths_keep_their_names(p: Seq<char>, sep: char, name: Seq<char>)
    requires
        p.len() >= 2,
        sep == '/' || sep == '\\',
        name.len() > 0,
        forall|i: int|
            0 <= i < name.len() ==> #[trigger] name[i] != '/' && name[i] != '\\',
    ensures
        name != seq!['.'] ==> windows_names(p + seq![sep] + name) == windows_names(p).push(name),
        name == seq!['.'] ==> windows_names(p + seq![sep] + name) == windows_names(p),
        p.len() == 2 ==> windows_names(p) == Seq::<Seq<char>>::empty(),
        extended(p).len() >= 7,
        extended(p) == seq!['\\', '\\', '?', '\\', p[0], p[1], '\\'] + text::join(
            windows_names(p),
            seq!['\\'],
        ),
{
    let whole = p + seq![sep] + name;
    let q = |s: Seq<char>| s != seq!['.'];
    let a = forward(p.skip(2));
    assert(forward(whole.skip(2)) =~= a + seq!['/'] + name) by {
        assert(whole.skip(2) =~= p.skip(2) + seq![sep] + name);
    }
    assert(!name.contains('/')) by {
        if name.contains('/') {
            let k = choose|k: int| 0 <= k < name.len() && name[k] == '/';
            assert(name[k] != '/');
        }
    }
    text::segments_are_the_names_between_slashes(a, name);
    text::segments_are_the_names_between_slashes(name, Seq::empty());
    assert(text::segments(a) + seq![name] =~= text::segments(a).push(name));
    text::filter_push(text::segments(a), name, q);
    if p.len() == 2 {
        assert(a =~= Seq::<char>::empty());
        text::segments_are_the_names_between_slashes(a, Seq::empty());
        assert(text::segments(a).filter(q) =~= Seq::<Seq<char>>::empty()) by {
            reveal(Seq::filter);
        }
    }
    reveal_strlit(r"\\?\");
    reveal_strlit(r"\");
    assert(r"\"@ =~= seq!['\\']);
    assert(extended(p) =~= seq!['\\', '\\', '?', '\\', p[0], p[1], '\\'] + text::join(
        windows_names(p),
        seq!['\\'],
    ));
}

/// Pushing puts one path below another: a relative one behind a slash, which is
/// there once; an absolute one takes its place.
pub proof fn pushing_goes_below_or_replaces(base: Seq<char>, tail: Seq<char>)
    ensures
        tail.len() > 0 && tail[0] == '/' ==> pushed(base, tail) == tail,
        !(tail.len() > 0 && tail[0] == '/') ==> {
            &&& base.len() == 0 ==> pushed(base, tail) == tail
            &&& base.len() > 0 && base.last() == '/' ==> pushed(base, tail) == base + tail
            &&& base.len() > 0 && base.last() != '/' ==> pushed(base, tail) == base + seq!['/']
                + tail
        },
{
    if base.len() == 0 {
        assert(base + tail =~= tail);
    }
}

/// Forward-slash style changes backslashes into slashes and nothing else.
pub proof fn only_backslashes_are_turned(p: Seq<char>, i: int)
    requires
        0 <= i < p.len(),
    ensures
        forward(p).len() == p.len(),
        p[i] == '\\' ==> forward(p)[i] == '/',
        p[i] != '\\' ==> forward(p)[i] == p[i],
{
}

} // verus!
