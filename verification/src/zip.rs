//! Exporting a job's files as a zip archive that mirrors the folder layout.

use crate::api::{self, ApiError, NOT_FOUND};
use crate::names::{self, archive_name};
use crate::paths::{self, local_path_in};
use crate::text::{self, chars_of, is_blank, same_text, string_of};
use vstd::prelude::*;

verus! {

/// Parameters of a request for an archive.
#[derive(Debug, Clone, PartialEq, Eq)]
pub struct ZipParams {
    /// Optional path prefix to zip just one subfolder of the job.
    pub prefix: Option<String>,
}

/// A file for an archive.
#[derive(Debug, Clone, PartialEq, Eq)]
pub struct ZipEntry {
    /// Where the file is on disk.
    pub path: String,
    /// What it is called in the archive.
    pub name: String,
}

// ---------------------------------------------------------------------------
// Which files
// ---------------------------------------------------------------------------

/// The prefix of a request: empty for the whole job.
pub open spec fn prefix_of(params: ZipParams) -> Seq<char> {
    match params.prefix {
        Some(p) => p@,
        None => Seq::empty(),
    }
}

/// The prefix of a request.
pub fn requested_prefix(params: ZipParams) -> (r: String)
    ensures
        r@ == prefix_of(params),
        params.prefix matches Some(p) ==> r@ == p@,
        params.prefix is None ==> r@.len() == 0,
{
    match params.prefix {
        Some(p) => p,
        None => {
            let s = String::new();
            assert(s@ =~= Seq::<char>::empty());
            s
        },
    }
}

/// Whether a file falls under a prefix: the prefix is empty, or is the file's
/// own path, or is one of the folders above it.
pub open spec fn under_prefix(rel_path: Seq<char>, prefix: Seq<char>) -> bool {
    ||| prefix.len() == 0
    ||| rel_path == prefix
    ||| (prefix + seq!['/']).is_prefix_of(rel_path)
}

/// Tests whether a file falls under a prefix.
pub fn is_under(rel_path: &str, prefix: &str) -> (r: bool)
    ensures
        r == under_prefix(rel_path@, prefix@),
        r <==> prefix@.len() == 0 || rel_path@ == prefix@ || (rel_path@.len() > prefix@.len()
            && rel_path@.take(prefix@.len() as int) == prefix@ && rel_path@[prefix@.len() as int]
            == '/'),
{
    proof {
        folders_reach_all_the_way_down(rel_path@, prefix@);
    }
    if prefix.is_empty() || same_text(rel_path, prefix) {
        return true;
    }
    let r = chars_of(rel_path);
    let p = chars_of(prefix);
    let ghost whole = prefix@ + seq!['/'];
    if r.len() <= p.len() {
        return false;
    }
    for i in 0..p.len()
        invariant
            r@ == rel_path@,
            p@ == prefix@,
            r@.len() > p@.len(),
            p@.len() > 0,
            rel_path@ != prefix@,
            whole == prefix@ + seq!['/'],
            forall|j: int| 0 <= j < i ==> r@[j] == p@[j],
    {
        if r[i] != p[i] {
            assert(whole[i as int] != r@[i as int]);
            assert(!whole.is_prefix_of(rel_path@));
            return false;
        }
    }
    let slash = r[p.len()] == '/';
    proof {
        assert(whole[p@.len() as int] == '/');
        if slash {
            assert(whole =~= rel_path@.subrange(0, whole.len() as int));
        } else {
            assert(!whole.is_prefix_of(rel_path@));
        }
    }
    slash
}

/// Whether an entry is the one for a file: the path that the downloader has
/// written it to, and the name that mirrors it.
pub open spec fn is_entry(e: ZipEntry, base: Seq<char>, rel_path: Seq<char>) -> bool {
    &&& e.path@ == paths::local_path(base, rel_path)
    &&& e.name@ == names::archived_as(rel_path)
}

/// The places of the files that fall under a prefix.
pub open spec fn places_under(rels: Seq<String>, prefix: Seq<char>) -> Seq<int>
    decreases rels.len(),
{
    if rels.len() == 0 {
        Seq::empty()
    } else {
        let before = places_under(rels.drop_last(), prefix);
        if under_prefix(rels.last()@, prefix) {
            before.push(rels.len() - 1)
        } else {
            before
        }
    }
}

/// The files that an archive may hold, given the tree paths of the files that
/// are fully downloaded (a partial one would make a corrupt entry).
pub fn candidates(base: &str, rels: &Vec<String>, prefix: &str) -> (r: Vec<ZipEntry>)
    ensures
        r@.len() == places_under(rels@, prefix@).len(),
        forall|k: int|
            0 <= k < r@.len() ==> is_entry(
                #[trigger] r@[k],
                base@,
                rels@[places_under(rels@, prefix@)[k]]@,
            ),
{
    let mut entries: Vec<ZipEntry> = Vec::new();
    assert(rels@.take(0) =~= Seq::<String>::empty());
    for i in 0..rels.len()
        invariant
            entries@.len() == places_under(rels@.take(i as int), prefix@).len(),
            forall|k: int|
                0 <= k < entries@.len() ==> is_entry(
                    #[trigger] entries@[k],
                    base@,
                    rels@[places_under(rels@.take(i as int), prefix@)[k]]@,
                ),
    {
        let ghost before = places_under(rels@.take(i as int), prefix@);
        let ghost after = places_under(rels@.take(i + 1), prefix@);
        assert(rels@.take(i + 1).drop_last() =~= rels@.take(i as int));
        let rel = rels[i].as_str();
        let ghost old_entries = entries@;
        if is_under(rel, prefix) {
            entries.push(ZipEntry { path: local_path_in(base, rel), name: archive_name(rel) });
        }
        assert forall|k: int| 0 <= k < entries@.len() implies is_entry(
            #[trigger] entries@[k],
            base@,
            rels@[after[k]]@,
        ) by {
            if k < old_entries.len() {
                assert(entries@[k] == old_entries[k]);
                assert(after[k] == before[k]);
            }
        }
    }
    assert(rels@.take(rels@.len() as int) =~= rels@);
    entries
}

/// The files of an archive. An archive without files is refused.
pub fn archive_files(files: Vec<ZipEntry>) -> (r: Result<Vec<ZipEntry>, ApiError>)
    ensures
        r is Ok <==> files@.len() > 0,
        r matches Ok(list) ==> list == files,
        r matches Err(e) ==> api::refuses(e, NOT_FOUND, "no downloaded files to zip yet"@),
{
    if files.len() == 0 {
        return Err(
            ApiError { status: NOT_FOUND, message: "no downloaded files to zip yet".to_owned() },
        );
    }
    Ok(files)
}

// ---------------------------------------------------------------------------
// The archive's name
// ---------------------------------------------------------------------------

/// What an archive is named after: the subfolder, or else the job's root
/// folder.
pub open spec fn archive_base(prefix: Seq<char>, root: Option<Seq<char>>) -> Seq<char> {
    if prefix.len() > 0 {
        text::split_on(prefix, '/').last()
    } else {
        match root {
            Some(r) => r,
            None => "download"@,
        }
    }
}

fn last_piece(s: &str) -> (r: String)
    ensures
        r@ == text::split_on(s@, '/').last(),
{
    let v = chars_of(s);
    let mut start: usize = 0;
    assert(v@.take(0) =~= Seq::<char>::empty());
    for i in 0..v.len()
        invariant
            start <= i <= v@.len(),
            text::split_on(v@.take(i as int), '/').last() == v@.subrange(start as int, i as int),
    {
        assert(v@.take(i + 1).drop_last() =~= v@.take(i as int));
        if v[i] == '/' {
            start = i + 1;
            assert(v@.subrange(start as int, i + 1) =~= Seq::<char>::empty());
        } else {
            assert(v@.subrange(start as int, i + 1) =~= v@.subrange(start as int, i as int).push(
                v@[i as int],
            ));
        }
    }
    assert(v@.take(v@.len() as int) =~= v@);
    string_of(&v, start, v.len())
}

/// Picks what an archive is named after, given the path of the job's root.
pub fn archive_base_name(prefix: &str, root: Option<String>) -> (r: String)
    ensures
        r@ == archive_base(prefix@, text::text_of(root)),
        prefix@.len() == 0 ==> (root matches Some(t) ==> r@ == t@),
        prefix@.len() == 0 && root is None ==> r@ == "download"@,
{
    if !prefix.is_empty() {
        return last_piece(prefix);
    }
    match root {
        Some(r) => r,
        None => "download".to_owned(),
    }
}

/// Whether a character is safe between the quotes of a header: printable
/// ASCII, no quote and no backslash.
pub open spec fn plain_in_header(c: char) -> bool {
    &&& 0x20 <= c as u32 <= 0x7e
    &&& c != '"'
    &&& c != '\\'
}

/// `s` with an underscore in place of each character that is not safe there.
pub open spec fn header_text(s: Seq<char>) -> Seq<char> {
    s.map_values(
        |c: char|
            if plain_in_header(c) {
                c
            } else {
                '_'
            },
    )
}

/// A name reduced to a safe ASCII filename.
pub open spec fn ascii_name(s: Seq<char>) -> Seq<char> {
    if text::blank(header_text(s)) {
        "download"@
    } else {
        header_text(s)
    }
}

/// Reduces a name to a safe ASCII filename for the Content-Disposition header.
pub fn ascii_filename(s: &str) -> (r: String)
    ensures
        r@ == ascii_name(s@),
{
    let v = chars_of(s);
    let mut cleaned = String::new();
    for i in 0..v.len()
        invariant
            v@ == s@,
            cleaned@ == header_text(v@.take(i as int)),
    {
        let c = v[i];
        if 0x20 <= c as u32 && c as u32 <= 0x7e && c != '"' && c != '\\' {
            cleaned.push(c);
        } else {
            cleaned.push('_');
        }
        assert(cleaned@ =~= header_text(v@.take(i + 1)));
    }
    assert(v@.take(v@.len() as int) =~= v@);
    if is_blank(cleaned.as_str()) {
        "download".to_owned()
    } else {
        cleaned
    }
}

/// The Content-Disposition header of an archive.
pub fn content_disposition(base_name: &str) -> (r: String)
    ensures
        r@ == "attachment; filename=\""@ + ascii_name(base_name@) + ".zip\""@,
{
    let mut h = "attachment; filename=\"".to_owned();
    h.append(ascii_filename(base_name).as_str());
    h.append(".zip\"");
    h
}

// ---------------------------------------------------------------------------
// Laws
// ---------------------------------------------------------------------------

/// An archive holds what was asked for: every file under the prefix is a
/// candidate, and no other file is.
pub proof fn archives_hold_what_was_asked_for(rels: Seq<String>, prefix: Seq<char>)
    ensures
        forall|i: int|
            0 <= i < rels.len() ==> (places_under(rels, prefix).contains(i) <==> under_prefix(
                (#[trigger] rels[i])@,
                prefix,
            )),
        forall|i: int| #[trigger] places_under(rels, prefix).contains(i) ==> 0 <= i < rels.len(),
    decreases rels.len(),
{
    if rels.len() > 0 {
        let front = rels.drop_last();
        archives_hold_what_was_asked_for(front, prefix);
        let before = places_under(front, prefix);
        let all = places_under(rels, prefix);
        assert forall|i: int| #[trigger] all.contains(i) implies before.contains(i) || (i
            == rels.len() - 1 && under_prefix(rels.last()@, prefix)) by {
            let k = choose|k: int| 0 <= k < all.len() && all[k] == i;
            if k < before.len() {
                assert(before[k] == i);
            }
        }
        assert forall|i: int| #[trigger] before.contains(i) implies all.contains(i) by {
            let k = choose|k: int| 0 <= k < before.len() && before[k] == i;
            assert(all[k] == i);
        }
        assert forall|i: int| 0 <= i < rels.len() implies (all.contains(i) <==> under_prefix(
            (#[trigger] rels[i])@,
            prefix,
        )) by {
            if i < front.len() {
                assert(front[i] == rels[i]);
                assert(before.contains(i) <==> under_prefix(front[i]@, prefix));
            } else {
                assert(!before.contains(i));
                if under_prefix(rels[i]@, prefix) {
                    assert(all[all.len() - 1] == i);
                }
            }
        }
    }
}

/// Without a prefix an archive holds every downloaded file.
pub proof fn no_prefix_means_all(rels: Seq<String>)
    ensures
        places_under(rels, Seq::empty()).len() == rels.len(),
    decreases rels.len(),
{
    if rels.len() > 0 {
        no_prefix_means_all(rels.drop_last());
    }
}

/// A filename is safe in a header: it is not blank, and each of its characters
/// is printable ASCII that neither ends the quotes around it nor escapes what
/// follows.
pub proof fn filenames_are_safe_in_headers(s: Seq<char>)
    ensures
        !text::blank(ascii_name(s)),
        forall|i: int|
            0 <= i < ascii_name(s).len() ==> plain_in_header(#[trigger] ascii_name(s)[i]),
{
    reveal_strlit("download");
    if text::blank(header_text(s)) {
        let d = "download"@;
        assert(d[0] == 'd' && d.last() == 'd');
        assert(text::trim_start_where(d, |c: char| text::is_white_space(c)) == d);
        assert(text::trim(d) == d);
    }
}

/// A folder reaches all the way down: a path is under a prefix exactly if the
/// prefix is empty, or is the path itself, or stands before a slash at the start
/// of the path. What follows that slash, and how many more slashes it holds,
/// plays no part.
pub proof fn folders_reach_all_the_way_down(rel_path: Seq<char>, prefix: Seq<char>)
    ensures
        under_prefix(rel_path, prefix) <==> prefix.len() == 0 || rel_path == prefix || (
        rel_path.len() > prefix.len() && rel_path.take(prefix.len() as int) == prefix
            && rel_path[prefix.len() as int] == '/'),
{
    let whole = prefix + seq!['/'];
    if rel_path.len() > prefix.len() {
        let head = rel_path.take(prefix.len() as int);
        if head == prefix && rel_path[prefix.len() as int] == '/' {
            assert(whole =~= rel_path.subrange(0, whole.len() as int));
        }
        if whole.is_prefix_of(rel_path) {
            assert(whole =~= rel_path.subrange(0, whole.len() as int));
            assert(head =~= prefix) by {
                assert forall|k: int| 0 <= k < prefix.len() implies head[k] == prefix[k] by {
                    assert(whole[k] == rel_path.subrange(0, whole.len() as int)[k]);
                }
            }
            assert(whole[prefix.len() as int] == rel_path.subrange(0, whole.len() as int)[
                prefix.len() as int
            ]);
        }
    }
}

/// Whatever stands below a folder is under it, at any depth; and a file that is
/// under a folder is under every folder above that one.
pub proof fn nested_files_are_under_every_folder_above(
    outer: Seq<char>,
    inner: Seq<char>,
    rest: Seq<char>,
)
    ensures
        under_prefix(outer + seq!['/'] + rest, outer),
        under_prefix(outer + seq!['/'] + inner + seq!['/'] + rest, outer),
        under_prefix(
            outer + seq!['/'] + inner + seq!['/'] + rest,
            outer + seq!['/'] + inner,
        ),
{
    let a = outer + seq!['/'] + rest;
    let b = outer + seq!['/'] + inner + seq!['/'] + rest;
    let folder = outer + seq!['/'] + inner;
    folders_reach_all_the_way_down(a, outer);
    folders_reach_all_the_way_down(b, outer);
    folders_reach_all_the_way_down(b, folder);
    assert(a.take(outer.len() as int) =~= outer);
    assert(b.take(outer.len() as int) =~= outer);
    assert(b.take(folder.len() as int) =~= folder);
}

/// An archive's files keep the order of the list, and none occurs twice.
pub proof fn archives_keep_the_order(rels: Seq<String>, prefix: Seq<char>)
    ensures
        forall|j: int, k: int|
            0 <= j < k < places_under(rels, prefix).len() ==> #[trigger] places_under(
                rels,
                prefix,
            )[j] < #[trigger] places_under(rels, prefix)[k],
        forall|k: int|
            0 <= k < places_under(rels, prefix).len() ==> 0 <= #[trigger] places_under(
                rels,
                prefix,
            )[k] < rels.len(),
    decreases rels.len(),
{
    if rels.len() > 0 {
        let front = rels.drop_last();
        archives_keep_the_order(front, prefix);
        let before = places_under(front, prefix);
        let all = places_under(rels, prefix);
        assert forall|k: int| 0 <= k < all.len() implies 0 <= #[trigger] all[k] < rels.len() by {
            if k < before.len() {
                assert(all[k] == before[k]);
            }
        }
        assert forall|j: int, k: int| 0 <= j < k < all.len() implies #[trigger] all[j]
            < #[trigger] all[k] by {
            assert(all[j] == before[j]);
            if k < before.len() {
                assert(all[k] == before[k]);
            }
        }
    }
}

/// An entry is the file that the downloader has written: its path is where the
/// file is on disk, and its name the one that mirrors it.
pub proof fn entries_are_the_files_on_disk(e: ZipEntry, base: Seq<char>, rel_path: Seq<char>)
    ensures
        is_entry(e, base, rel_path) <==> e.path@ == paths::local_path(base, rel_path) && e.name@
            == names::archived_as(rel_path),
{
}

/// An archive of a subfolder is called by the subfolder's own name, without the
/// folders above it; an archive of a whole job by its root.
pub proof fn archives_are_called_by_their_folder(
    outer: Seq<char>,
    name: Seq<char>,
    root: Seq<char>,
)
    requires
        !name.contains('/'),
    ensures
        archive_base(outer + seq!['/'] + name, Some(root)) == name,
        name.len() > 0 ==> archive_base(name, Some(root)) == name,
        archive_base(Seq::empty(), Some(root)) == root,
        archive_base(Seq::empty(), None) == "download"@,
{
    text::splitting_at_a_separator(outer, name, '/');
    text::splitting_at_a_separator(name, Seq::empty(), '/');
    assert((text::split_on(outer, '/') + text::split_on(name, '/')).last() == name);
}

/// A filename keeps every character that is safe in a header, in its place, and
/// has an underscore for each that is not; a blank one is called `download`.
pub proof fn filenames_keep_what_is_safe(s: Seq<char>, i: int)
    requires
        0 <= i < s.len(),
    ensures
        header_text(s).len() == s.len(),
        header_text(s)[i] == if 32 <= s[i] as u32 <= 126 && s[i] != '"' && s[i] != '\\' {
            s[i]
        } else {
            '_'
        },
        !text::blank(header_text(s)) ==> ascii_name(s) == header_text(s),
        text::blank(header_text(s)) ==> ascii_name(s) == "download"@,
{
}

} // verus!
