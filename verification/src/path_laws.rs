//! What holds of paths: pushing names onto a path extends its components by
//! these names, so a tree stays inside its destination and an archive mirrors
//! the folders on disk.

use crate::names;
use crate::paths;
use crate::text;
use vstd::prelude::*;

verus! {

/// Positions moved to the right by `by`.
pub open spec fn shifted(s: Seq<(int, int)>, by: int) -> Seq<(int, int)> {
    s.map_values(|x: (int, int)| (x.0 + by, x.1 + by))
}

/// A name that is a component of its own: not empty, no slash, not `.`.
pub open spec fn plain_name(s: Seq<char>) -> bool {
    s.len() > 0 && !s.contains('/') && s != seq!['.']
}

pub open spec fn plain_names(list: Seq<Seq<char>>) -> bool {
    forall|i: int| 0 <= i < list.len() ==> plain_name(#[trigger] list[i])
}

/// The path that a list of names forms.
pub open spec fn slashed(list: Seq<Seq<char>>) -> Seq<char> {
    text::join(list, seq!['/'])
}

proof fn run_end_of_concat(x: Seq<char>, y: Seq<char>, i: int)
    requires
        0 <= i <= x.len(),
        i < x.len() && x.last() != '/' ==> y.len() == 0 || y[0] == '/',
    ensures
        i < x.len() ==> paths::run_end(x + y, i) == paths::run_end(x, i),
    decreases x.len() - i,
{
    if i < x.len() {
        assert((x + y)[i] == x[i]);
        if x[i] != '/' {
            if i + 1 < x.len() {
                run_end_of_concat(x, y, i + 1);
            } else {
                assert(x.last() == x[i]);
                assert(paths::run_end(x, i + 1) == i + 1);
                if y.len() > 0 {
                    assert((x + y)[i + 1] == y[0]);
                }
                assert(paths::run_end(x + y, i + 1) == i + 1);
            }
        }
    }
}

proof fn run_end_moves(x: Seq<char>, y: Seq<char>, i: int)
    requires
        0 <= i <= y.len(),
    ensures
        paths::run_end(x + y, x.len() + i) == x.len() + paths::run_end(y, i),
    decreases y.len() - i,
{
    if i < y.len() {
        assert((x + y)[x.len() + i] == y[i]);
        if y[i] != '/' {
            run_end_moves(x, y, i + 1);
        }
    }
}

/// The components of a text do not depend on what stands before it, but for
/// their position.
pub proof fn spans_move(x: Seq<char>, y: Seq<char>, i: int)
    requires
        0 <= i <= y.len(),
    ensures
        paths::spans_from(x + y, x.len() + i) == shifted(
            paths::spans_from(y, i),
            x.len() as int,
        ),
    decreases y.len() - i,
{
    let p = x + y;
    if i < y.len() {
        assert(p[x.len() + i] == y[i]);
        if y[i] == '/' {
            spans_move(x, y, i + 1);
        } else {
            let e = paths::run_end(y, i);
            paths::run_end_shape(y, i);
            run_end_moves(x, y, i);
            spans_move(x, y, e);
            assert(p.subrange(x.len() + i, x.len() + e) =~= y.subrange(i, e));
            if y.subrange(i, e) != seq!['.'] {
                assert(paths::spans_from(p, x.len() + i) =~= shifted(
                    paths::spans_from(y, i),
                    x.len() as int,
                ));
            }
        }
    } else {
        assert(paths::spans_from(p, x.len() + i) =~= shifted(
            paths::spans_from(y, i),
            x.len() as int,
        ));
    }
}

/// Components of a concatenation at a component boundary.
pub proof fn spans_of_concat(x: Seq<char>, y: Seq<char>, i: int)
    requires
        0 <= i <= x.len(),
        x.len() > 0 && x.last() != '/' ==> y.len() == 0 || y[0] == '/',
    ensures
        paths::spans_from(x + y, i) == paths::spans_from(x, i) + shifted(
            paths::spans_from(y, 0),
            x.len() as int,
        ),
    decreases x.len() - i,
{
    let p = x + y;
    let tail = shifted(paths::spans_from(y, 0), x.len() as int);
    if i < x.len() {
        assert(p[i] == x[i]);
        if x[i] == '/' {
            spans_of_concat(x, y, i + 1);
        } else {
            run_end_of_concat(x, y, i);
            paths::run_end_shape(x, i);
            let e = paths::run_end(x, i);
            spans_of_concat(x, y, e);
            assert(p.subrange(i, e) =~= x.subrange(i, e));
            if x.subrange(i, e) != seq!['.'] {
                assert(paths::spans_from(p, i) =~= paths::spans_from(x, i) + tail);
            }
        }
    } else {
        spans_move(x, y, 0);
        assert(paths::spans_from(x, i) + tail =~= tail);
    }
}

proof fn run_end_of_plain(name: Seq<char>, i: int)
    requires
        0 <= i <= name.len(),
        !name.contains('/'),
    ensures
        paths::run_end(name, i) == name.len(),
    decreases name.len() - i,
{
    if i < name.len() {
        assert(name[i] != '/') by {
            if name[i] == '/' {
                assert(name.contains('/'));
            }
        }
        run_end_of_plain(name, i + 1);
    }
}

/// A plain name is one component.
proof fn spans_of_plain(name: Seq<char>)
    requires
        plain_name(name),
    ensures
        paths::spans_from(name, 0) == seq![(0int, name.len() as int)],
        paths::spans_from(seq!['/'] + name, 0) == seq![(1int, 1 + name.len() as int)],
{
    run_end_of_plain(name, 0);
    assert(name[0] != '/') by {
        if name[0] == '/' {
            assert(name.contains('/'));
        }
    }
    assert(name.subrange(0, name.len() as int) =~= name);
    assert(paths::spans_from(name, name.len() as int) =~= Seq::<(int, int)>::empty());
    assert(paths::spans_from(name, 0) =~= seq![(0int, name.len() as int)]);
    let s = seq!['/'];
    assert(paths::spans_from(s, 1) =~= Seq::<(int, int)>::empty());
    assert(paths::spans_from(s, 0) == paths::spans_from(s, 1));
    spans_of_concat(s, name, 0);
    assert(paths::spans_from(s + name, 0) =~= seq![(1int, 1 + name.len() as int)]);
}

/// What names joined by slashes look like.
pub proof fn slashed_shape(list: Seq<Seq<char>>)
    requires
        plain_names(list),
        list.len() > 0,
    ensures
        slashed(list).len() > 0,
        slashed(list)[0] != '/',
        slashed(list).last() != '/',
        paths::spans_from(slashed(list), 0).len() == list.len(),
        paths::spans_from(slashed(list), 0)[0].0 == 0,
        paths::spans_from(slashed(list), 0).last().1 == slashed(list).len(),
        paths::texts_at(slashed(list), paths::spans_from(slashed(list), 0)) == list,
        paths::spans_fit(
            paths::spans_from(slashed(list), 0),
            0,
            slashed(list).len() as int,
        ),
    decreases list.len(),
{
    let last = list.last();
    assert(plain_name(list[list.len() - 1]));
    spans_of_plain(last);
    assert(last[0] != '/' && last.last() != '/') by {
        if last[0] == '/' {
            assert(last.contains('/'));
        }
        if last.last() == '/' {
            assert(last[last.len() - 1] == '/');
            assert(last.contains('/'));
        }
    }
    if list.len() == 1 {
        assert(last.subrange(0, last.len() as int) =~= last);
        assert(paths::texts_at(last, paths::spans_from(last, 0)) =~= list);
    } else {
        let front = list.drop_last();
        assert(plain_names(front)) by {
            assert forall|i: int| 0 <= i < front.len() implies plain_name(#[trigger] front[i]) by {
                assert(plain_name(list[i]));
            }
        }
        slashed_shape(front);
        let x = slashed(front);
        let y = seq!['/'] + last;
        let j = slashed(list);
        assert(j =~= x + y);
        spans_of_concat(x, y, 0);
        let a = paths::spans_from(x, 0);
        let b = shifted(paths::spans_from(y, 0), x.len() as int);
        assert(b =~= seq![(x.len() as int + 1, x.len() as int + 1 + last.len())]);
        assert(paths::spans_from(j, 0) == a + b);
        assert(j.subrange(x.len() as int + 1, x.len() as int + 1 + last.len()) =~= last);
        assert forall|i: int| 0 <= i < list.len() implies #[trigger] paths::texts_at(j, a + b)[i]
            == list[i] by {
            if i < a.len() {
                assert(paths::texts_at(x, a)[i] == front[i]);
                assert(0 <= a[i].0 < a[i].1 <= x.len());
                assert(j.subrange(a[i].0, a[i].1) =~= x.subrange(a[i].0, a[i].1));
            }
        }
        assert(paths::texts_at(j, a + b) =~= list);
    }
}

/// The separator that pushing a relative path onto `base` puts in between.
spec fn separator(base: Seq<char>) -> Seq<char> {
    if base.len() > 0 && base.last() != '/' {
        seq!['/']
    } else {
        Seq::empty()
    }
}

proof fn pushed_text(base: Seq<char>, tail: Seq<char>)
    requires
        !paths::is_rooted(tail),
    ensures
        paths::pushed(base, tail) == base + (separator(base) + tail),
        paths::pushed(base, tail) == (base + separator(base)) + tail,
{
    assert(paths::pushed(base, tail) =~= base + (separator(base) + tail));
    assert(paths::pushed(base, tail) =~= (base + separator(base)) + tail);
}

proof fn spans_behind_separator(base: Seq<char>, j: Seq<char>)
    ensures
        paths::spans_from(separator(base) + j, 0) == shifted(
            paths::spans_from(j, 0),
            separator(base).len() as int,
        ),
{
    let sep = separator(base);
    let js = paths::spans_from(j, 0);
    if sep.len() == 0 {
        assert(sep + j =~= j);
        assert(shifted(js, 0) =~= js);
    } else {
        assert(paths::spans_from(sep, 1) =~= Seq::<(int, int)>::empty());
        assert(paths::spans_from(sep, 0) == paths::spans_from(sep, 1));
        spans_of_concat(sep, j, 0);
        assert(paths::spans_from(sep + j, 0) =~= shifted(js, 1));
    }
}

/// Names joined by slashes do not start with a bare dot.
proof fn slashed_is_not_dotted(list: Seq<Seq<char>>)
    requires
        plain_names(list),
        list.len() > 0,
    ensures
        !paths::is_dotted(slashed(list)),
{
    slashed_shape(list);
    let j = slashed(list);
    let js = paths::spans_from(j, 0);
    if paths::is_dotted(j) {
        assert(plain_name(list[0]));
        assert(paths::texts_at(j, js)[0] == j.subrange(0, js[0].1));
        assert(j.subrange(0, 1) =~= seq!['.']);
        if j.len() == 1 {
            assert(js[0].1 == 1);
            assert(false);
        } else {
            assert(paths::run_end(j, 1) == 1);
            assert(paths::run_end(j, 0) == 1);
            assert(paths::spans_from(j, 0) == paths::spans_from(j, 1));
            paths::spans_from_in_order(j, 1);
            assert(js[0].0 >= 1);
            assert(false);
        }
    }
}

/// Where the components of a path stand once names were pushed onto it.
proof fn spans_of_pushed(base: Seq<char>, list: Seq<Seq<char>>)
    requires
        plain_names(list),
        list.len() > 0,
    ensures
        paths::spans(paths::pushed(base, slashed(list))) == paths::spans(base) + shifted(
            paths::spans_from(slashed(list), 0),
            (base + separator(base)).len() as int,
        ),
{
    slashed_shape(list);
    let j = slashed(list);
    let p = paths::pushed(base, j);
    let js = paths::spans_from(j, 0);
    let sep = separator(base);
    let y = sep + j;
    let off: int = base.len() as int + sep.len();
    pushed_text(base, j);
    spans_behind_separator(base, j);
    let tail = shifted(js, off);
    assert(shifted(paths::spans_from(y, 0), base.len() as int) =~= tail);
    let bs = paths::spans(base);
    if base.len() > 0 {
        assert(p[0] == base[0]);
        if base.len() == 1 {
            if base[0] == '.' {
                assert(sep.len() == 1);
                assert(y[0] == '/');
                assert(p[1] == '/');
            }
        } else {
            assert(p[1] == base[1]);
        }
        assert(paths::is_rooted(p) == paths::is_rooted(base));
        assert(paths::is_dotted(p) == paths::is_dotted(base));
        if sep.len() > 0 {
            assert(y[0] == '/');
        }
        spans_of_concat(base, y, 0);
        spans_of_concat(base, y, 1);
        assert(paths::spans(p) =~= bs + tail);
    } else {
        assert(p =~= j);
        slashed_is_not_dotted(list);
        assert(bs =~= Seq::<(int, int)>::empty());
        assert(paths::spans(p) =~= bs + tail);
    }
}

/// Pushing names onto a path extends its components by these names, and
/// taking the components of the path away again leaves the names.
pub proof fn pushed_names_are_components(base: Seq<char>, list: Seq<Seq<char>>)
    requires
        plain_names(list),
        list.len() > 0,
    ensures
        paths::components(paths::pushed(base, slashed(list))) == paths::components(base) + list,
        paths::starts_with(paths::pushed(base, slashed(list)), base),
        paths::behind(
            paths::pushed(base, slashed(list)),
            paths::components(base).len() as int,
        ) == slashed(list),
{
    slashed_shape(list);
    spans_of_pushed(base, list);
    let j = slashed(list);
    let p = paths::pushed(base, j);
    let js = paths::spans_from(j, 0);
    let head = base + separator(base);
    let off: int = head.len() as int;
    pushed_text(base, j);
    let bs = paths::spans(base);
    let tail = shifted(js, off);
    paths::spans_are_ordered(base);
    let all = paths::texts_at(p, bs + tail);
    assert(all.len() == paths::components(base).len() + list.len());
    assert forall|i: int| 0 <= i < all.len() implies #[trigger] all[i] == (paths::components(base)
        + list)[i] by {
        if i < bs.len() {
            assert(0 <= bs[i].0 < bs[i].1 <= base.len());
            assert(p.subrange(bs[i].0, bs[i].1) =~= base.subrange(bs[i].0, bs[i].1));
        } else {
            let k = i - bs.len();
            assert(paths::texts_at(j, js)[k] == list[k]);
            assert(0 <= js[k].0 < js[k].1 <= j.len());
            assert((bs + tail)[i] == (js[k].0 + off, js[k].1 + off));
            assert(p.subrange(js[k].0 + off, js[k].1 + off) =~= j.subrange(js[k].0, js[k].1));
        }
    }
    assert(all =~= paths::components(base) + list);
    assert(paths::components(base) =~= paths::components(p).subrange(
        0,
        paths::components(base).len() as int,
    ));
    assert((bs + tail).last() == tail.last());
    assert((bs + tail)[bs.len() as int] == tail[0]);
    assert(p.subrange(off, off + j.len()) =~= j);
}

/// Pushing names one by one is pushing them joined by slashes.
pub proof fn names_pushed_one_by_one(base: Seq<char>, list: Seq<Seq<char>>)
    requires
        plain_names(list),
        list.len() > 0,
    ensures
        paths::all_pushed(base, list) == paths::pushed(base, slashed(list)),
    decreases list.len(),
{
    let last = list.last();
    assert(plain_name(list[list.len() - 1]));
    if list.len() == 1 {
        assert(paths::all_pushed(base, list.drop_last()) == base);
    } else {
        let front = list.drop_last();
        assert(plain_names(front)) by {
            assert forall|i: int| 0 <= i < front.len() implies plain_name(#[trigger] front[i]) by {
                assert(plain_name(list[i]));
            }
        }
        names_pushed_one_by_one(base, front);
        slashed_shape(front);
        slashed_shape(list);
        let f = slashed(front);
        let x = paths::pushed(base, f);
        pushed_text(base, f);
        pushed_text(base, slashed(list));
        assert(x.last() == f.last());
        assert(last[0] != '/') by {
            if last[0] == '/' {
                assert(last.contains('/'));
            }
        }
        pushed_text(x, last);
        assert(slashed(list) == f + seq!['/'] + last);
        assert(separator(x) =~= seq!['/']);
        assert(x + (seq!['/'] + last) =~= (base + separator(base)) + (f + seq!['/'] + last));
    }
}

/// The names that a tree path gets on disk are plain names.
pub proof fn disk_names_are_plain(rel_path: Seq<char>)
    ensures
        plain_names(names::all_sanitized(text::segments(rel_path))),
{
    let list = names::all_sanitized(text::segments(rel_path));
    assert forall|i: int| 0 <= i < list.len() implies plain_name(#[trigger] list[i]) by {
        names::sanitized_names_are_safe(text::segments(rel_path)[i]);
    }
}

/// The archive mirrors the disk: a file with segments in its tree path stands
/// on disk at its archive name under the destination folder.
pub proof fn archive_mirrors_disk(dest_root: Seq<char>, rel_path: Seq<char>)
    ensures
        paths::local_path(dest_root, rel_path) == if text::segments(rel_path).len() == 0 {
            dest_root
        } else {
            paths::pushed(dest_root, names::archived_as(rel_path))
        },
        text::segments(rel_path).len() == 0 <==> names::archived_as(rel_path).len() == 0,
{
    let list = names::all_sanitized(text::segments(rel_path));
    disk_names_are_plain(rel_path);
    if list.len() > 0 {
        names_pushed_one_by_one(dest_root, list);
        slashed_shape(list);
    }
}

/// Nothing escapes the destination folder: the components of a file's path on
/// disk are those of the folder and then its sanitized segments, one for one,
/// none of which is `.` or `..`; and seen from the folder the file stands at
/// its archive name.
pub proof fn files_stay_inside(dest_root: Seq<char>, rel_path: Seq<char>)
    ensures
        paths::components(paths::local_path(dest_root, rel_path)) == paths::components(dest_root)
            + names::all_sanitized(text::segments(rel_path)),
        forall|i: int|
            0 <= i < text::segments(rel_path).len() ==> names::safe_name(
                #[trigger] names::all_sanitized(text::segments(rel_path))[i],
            ) && names::all_sanitized(text::segments(rel_path))[i] != seq!['.', '.'],
        paths::starts_with(paths::local_path(dest_root, rel_path), dest_root),
        paths::behind(
            paths::local_path(dest_root, rel_path),
            paths::components(dest_root).len() as int,
        ) == names::archived_as(rel_path),
{
    let list = names::all_sanitized(text::segments(rel_path));
    disk_names_are_plain(rel_path);
    archive_mirrors_disk(dest_root, rel_path);
    assert forall|i: int| 0 <= i < text::segments(rel_path).len() implies names::safe_name(
        #[trigger] list[i],
    ) && list[i] != seq!['.', '.'] by {
        names::sanitized_names_are_safe(text::segments(rel_path)[i]);
    }
    if list.len() > 0 {
        pushed_names_are_components(dest_root, list);
    } else {
        assert(paths::components(dest_root) + list =~= paths::components(dest_root));
        assert(paths::components(dest_root) =~= paths::components(dest_root).subrange(
            0,
            paths::components(dest_root).len() as int,
        ));
    }
}

/// The folder structure is preserved: what is below a folder in the tree is
/// below that folder's place on disk.
pub proof fn structure_is_preserved(dest_root: Seq<char>, folder: Seq<char>, file: Seq<char>)
    requires
        text::segments(folder).is_prefix_of(text::segments(file)),
    ensures
        paths::starts_with(
            paths::local_path(dest_root, file),
            paths::local_path(dest_root, folder),
        ),
{
    files_stay_inside(dest_root, folder);
    files_stay_inside(dest_root, file);
    let outer = paths::components(paths::local_path(dest_root, folder));
    let inner = paths::components(paths::local_path(dest_root, file));
    let a = text::segments(folder);
    let b = text::segments(file);
    assert forall|i: int| 0 <= i < outer.len() implies outer[i] == inner[i] by {
        let k = i - paths::components(dest_root).len();
        if k >= 0 {
            assert(a[k] == b[k]) by {
                assert(a =~= b.subrange(0, a.len() as int));
            }
        }
    }
    assert(outer =~= inner.subrange(0, outer.len() as int));
}

/// Files do not collide: two tree paths made of names that every filesystem
/// accepts get the same place on disk only if they have the same segments.
pub proof fn files_do_not_collide(dest_root: Seq<char>, a: Seq<char>, b: Seq<char>)
    requires
        forall|i: int|
            0 <= i < text::segments(a).len() ==> names::safe_name(#[trigger] text::segments(a)[i]),
        forall|i: int|
            0 <= i < text::segments(b).len() ==> names::safe_name(#[trigger] text::segments(b)[i]),
        paths::local_path(dest_root, a) == paths::local_path(dest_root, b),
    ensures
        text::segments(a) == text::segments(b),
{
    files_stay_inside(dest_root, a);
    files_stay_inside(dest_root, b);
    assert(names::all_sanitized(text::segments(a)) =~= text::segments(a)) by {
        assert forall|i: int| 0 <= i < text::segments(a).len() implies names::sanitized(
            #[trigger] text::segments(a)[i],
        ) == text::segments(a)[i] by {
            names::safe_names_are_kept(text::segments(a)[i]);
        }
    }
    assert(names::all_sanitized(text::segments(b)) =~= text::segments(b)) by {
        assert forall|i: int| 0 <= i < text::segments(b).len() implies names::sanitized(
            #[trigger] text::segments(b)[i],
        ) == text::segments(b)[i] by {
            names::safe_names_are_kept(text::segments(b)[i]);
        }
    }
    let root = paths::components(dest_root);
    let both = paths::components(paths::local_path(dest_root, a));
    assert(text::segments(a) =~= both.skip(root.len() as int));
    assert(text::segments(b) =~= both.skip(root.len() as int));
}

/// Plain paths have the components that they spell: names joined by slashes are
/// just these names, and with a slash at the start the root comes first. The
/// empty path has none.
pub proof fn plain_paths_spell_their_components(list: Seq<Seq<char>>)
    requires
        plain_names(list),
        list.len() > 0,
    ensures
        paths::components(slashed(list)) == list,
        paths::components(seq!['/'] + slashed(list)) == seq![seq!['/']] + list,
        paths::components(Seq::empty()) == Seq::<Seq<char>>::empty(),
        paths::components(seq!['/']) == seq![seq!['/']],
{
    let e = Seq::<char>::empty();
    let r = seq!['/'];
    slashed_shape(list);
    pushed_names_are_components(e, list);
    pushed_names_are_components(r, list);
    assert(e + slashed(list) =~= slashed(list));
    assert(paths::spans(e) =~= Seq::<(int, int)>::empty());
    assert(paths::components(e) =~= Seq::<Seq<char>>::empty());
    assert(paths::spans_from(r, 1) =~= Seq::<(int, int)>::empty());
    assert(paths::spans(r) =~= seq![(0int, 1int)]);
    assert(r.subrange(0, 1) =~= r);
    assert(paths::components(r) =~= seq![r]);
    assert(paths::components(e) + list =~= list);
}

/// One path starts with another exactly if its names start with the other's:
/// a folder whose name merely begins alike is another folder.
pub proof fn paths_start_with_whole_names(
    base: Seq<char>,
    a: Seq<Seq<char>>,
    b: Seq<Seq<char>>,
)
    requires
        plain_names(a),
        plain_names(b),
        a.len() > 0,
        b.len() > 0,
    ensures
        paths::starts_with(paths::pushed(base, slashed(b)), paths::pushed(base, slashed(a)))
            <==> a.is_prefix_of(b),
{
    pushed_names_are_components(base, a);
    pushed_names_are_components(base, b);
    let c = paths::components(base);
    if a.is_prefix_of(b) {
        assert(c + a =~= (c + b).subrange(0, (c + a).len() as int)) by {
            assert(a =~= b.subrange(0, a.len() as int));
        }
    }
    if (c + a).is_prefix_of(c + b) {
        assert(a =~= b.subrange(0, a.len() as int)) by {
            assert forall|k: int| 0 <= k < a.len() implies a[k] == b[k] by {
                assert((c + a)[c.len() + k] == (c + b).subrange(0, (c + a).len() as int)[c.len()
                    + k]);
            }
        }
    }
}

/// The components of a path that goes on behind a slash.
proof fn components_go_on(x: Seq<char>, z: Seq<char>)
    requires
        x.len() > 0,
        z.len() > 0,
        z[0] == '/',
    ensures
        paths::components(x + z) == paths::components(x) + paths::texts_at(
            z,
            paths::spans_from(z, 0),
        ),
{
    let p = x + z;
    let zs = paths::spans_from(z, 0);
    let tail = shifted(zs, x.len() as int);
    spans_of_concat(x, z, 0);
    spans_of_concat(x, z, 1);
    assert(p[0] == x[0]);
    if x.len() == 1 {
        assert(p[1] == z[0]);
    } else {
        assert(p[1] == x[1]);
    }
    assert(paths::spans(p) =~= paths::spans(x) + tail);
    paths::spans_are_ordered(x);
    paths::spans_from_in_order(z, 0);
    let whole = paths::components(p);
    let parts = paths::components(x) + paths::texts_at(z, zs);
    assert forall|k: int| 0 <= k < whole.len() implies #[trigger] whole[k] == parts[k] by {
        if k < paths::spans(x).len() {
            let s = paths::spans(x)[k];
            assert(0 <= s.0 < s.1 <= x.len());
            assert(p.subrange(s.0, s.1) =~= x.subrange(s.0, s.1));
        } else {
            let s = zs[k - paths::spans(x).len()];
            assert(0 <= s.0 < s.1 <= z.len());
            assert(p.subrange(s.0 + x.len(), s.1 + x.len()) =~= z.subrange(s.0, s.1));
        }
    }
    assert(whole =~= parts);
}

/// What names nothing before a text does not change the names in it.
proof fn nameless_starts_do_not_count(w: Seq<char>, y: Seq<char>)
    requires
        w.len() > 0,
        w.last() == '/',
        paths::spans_from(w, 0) == Seq::<(int, int)>::empty(),
    ensures
        paths::texts_at(w + y, paths::spans_from(w + y, 0)) == paths::texts_at(
            y,
            paths::spans_from(y, 0),
        ),
{
    let z = w + y;
    let ys = paths::spans_from(y, 0);
    spans_of_concat(w, y, 0);
    assert(paths::spans_from(z, 0) =~= shifted(ys, w.len() as int));
    paths::spans_from_in_order(y, 0);
    let a = paths::texts_at(z, paths::spans_from(z, 0));
    let b = paths::texts_at(y, ys);
    assert forall|k: int| 0 <= k < a.len() implies #[trigger] a[k] == b[k] by {
        let s = ys[k];
        assert(0 <= s.0 < s.1 <= y.len());
        assert(z.subrange(s.0 + w.len(), s.1 + w.len()) =~= y.subrange(s.0, s.1));
    }
    assert(a =~= b);
}

/// Needless slashes and dots inside a path do not count: `a//b` and `a/./b` are
/// `a/b`.
pub proof fn needless_slashes_and_dots_do_not_count(x: Seq<char>, y: Seq<char>)
    requires
        x.len() > 0,
    ensures
        paths::components(x + seq!['/', '/'] + y) == paths::components(x + seq!['/'] + y),
        paths::components(x + seq!['/', '.', '/'] + y) == paths::components(x + seq!['/'] + y),
{
    let one = seq!['/'];
    let two = seq!['/', '/'];
    let dot = seq!['/', '.', '/'];
    assert(paths::spans_from(one, 1) =~= Seq::<(int, int)>::empty());
    assert(paths::spans_from(one, 0) == paths::spans_from(one, 1));
    assert(paths::spans_from(two, 2) =~= Seq::<(int, int)>::empty());
    assert(paths::spans_from(two, 1) == paths::spans_from(two, 2));
    assert(paths::spans_from(two, 0) == paths::spans_from(two, 1));
    assert(paths::spans_from(dot, 3) =~= Seq::<(int, int)>::empty());
    assert(paths::spans_from(dot, 2) == paths::spans_from(dot, 3));
    assert(paths::run_end(dot, 2) == 2);
    assert(paths::run_end(dot, 1) == 2);
    assert(dot.subrange(1, 2) =~= seq!['.']);
    assert(paths::spans_from(dot, 1) == paths::spans_from(dot, 2));
    assert(paths::spans_from(dot, 0) == paths::spans_from(dot, 1));
    nameless_starts_do_not_count(one, y);
    nameless_starts_do_not_count(two, y);
    nameless_starts_do_not_count(dot, y);
    components_go_on(x, one + y);
    components_go_on(x, two + y);
    components_go_on(x, dot + y);
    assert(x + one + y =~= x + (one + y));
    assert(x + two + y =~= x + (two + y));
    assert(x + dot + y =~= x + (dot + y));
}

/// Nothing is left behind all the components of a path.
pub proof fn nothing_is_behind_a_whole_path(p: Seq<char>)
    ensures
        paths::behind(p, paths::components(p).len() as int) == Seq::<char>::empty(),
        paths::starts_with(p, p),
{
    let c = paths::components(p);
    assert(c =~= c.subrange(0, c.len() as int));
}

/// Where a file goes, and what it is called in an archive, depends on the names
/// of its tree path only: slashes at its ends, and several in a row, play no
/// part.
pub proof fn only_the_names_matter(dest_root: Seq<char>, a: Seq<char>, b: Seq<char>)
    requires
        text::segments(a) == text::segments(b),
    ensures
        paths::local_path(dest_root, a) == paths::local_path(dest_root, b),
        names::archived_as(a) == names::archived_as(b),
{
}

} // verus!
