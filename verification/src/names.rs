//! Names of files and folders that every target filesystem accepts.

use crate::text::{self, chars_of, join_all, segments_of, spells, string_of};
use vstd::prelude::*;

verus! {

/// The characters that a path segment may not hold on Windows.
pub open spec fn invalid_in_segment(c: char) -> bool {
    ||| c == '<'
    ||| c == '>'
    ||| c == ':'
    ||| c == '"'
    ||| c == '/'
    ||| c == '\\'
    ||| c == '|'
    ||| c == '?'
    ||| c == '*'
    ||| (c as u32) < 0x20
}

/// `s` with an underscore in place of each invalid character.
pub open spec fn cleaned(s: Seq<char>) -> Seq<char> {
    s.map_values(
        |c: char|
            if invalid_in_segment(c) {
                '_'
            } else {
                c
            },
    )
}

/// A space or a dot: Windows drops them at the end of a name.
pub open spec fn is_space_or_dot(c: char) -> bool {
    c == ' ' || c == '.'
}

/// The ASCII upper-case form of a character.
pub open spec fn ascii_upper(c: char) -> char {
    if 'a' <= c <= 'z' {
        (c as u32 - 32) as char
    } else {
        c
    }
}

/// The part of a name before its first dot, in ASCII upper case.
pub open spec fn device_stem(name: Seq<char>) -> Seq<char> {
    text::split_on(name, '.')[0].map_values(|c: char| ascii_upper(c))
}

/// Whether Windows reserves a name for a device: `CON`, `PRN`, `AUX`, `NUL`,
/// `COM1` to `COM9` and `LPT1` to `LPT9`, in any case and with any extension.
pub open spec fn is_reserved(name: Seq<char>) -> bool {
    let stem = device_stem(name);
    ||| stem == "CON"@
    ||| stem == "PRN"@
    ||| stem == "AUX"@
    ||| stem == "NUL"@
    ||| {
        &&& stem.len() == 4
        &&& stem.take(3) == "COM"@ || stem.take(3) == "LPT"@
        &&& '1' <= stem[3] <= '9'
    }
}

/// The name that a tree's segment gets on disk and in archives.
pub open spec fn sanitized(s: Seq<char>) -> Seq<char> {
    let name = text::trim_end_where(cleaned(s), |c: char| is_space_or_dot(c));
    if name.len() == 0 {
        seq!['_']
    } else if is_reserved(name) {
        seq!['_'] + name
    } else {
        name
    }
}

/// The sanitized names of a list of segments.
pub open spec fn all_sanitized(list: Seq<Seq<char>>) -> Seq<Seq<char>> {
    list.map_values(|s: Seq<char>| sanitized(s))
}

/// What a segment must be to be usable, and harmless, as a name anywhere.
pub open spec fn safe_name(s: Seq<char>) -> bool {
    &&& s.len() > 0
    &&& forall|i: int| 0 <= i < s.len() ==> !invalid_in_segment(#[trigger] s[i])
    &&& !is_space_or_dot(s.last())
    &&& !is_reserved(s)
}

/// The first piece of a split is what precedes the first separator.
proof fn first_piece(s: Seq<char>, sep: char, k: int)
    requires
        0 <= k <= s.len(),
        forall|i: int| 0 <= i < k ==> s[i] != sep,
        k < s.len() ==> s[k] == sep,
    ensures
        text::split_on(s, sep)[0] == s.take(k),
    decreases s.len(),
{
    text::split_pieces(s, sep);
    if s.len() == 0 {
        assert(s.take(0) =~= Seq::<char>::empty());
    } else {
        let t = s.drop_last();
        text::split_pieces(t, sep);
        if k < s.len() {
            first_piece(t, sep, k);
            assert(t.take(k) =~= s.take(k));
            if k == t.len() {
                assert(s.last() == sep);
            }
            if s.last() != sep && text::split_on(t, sep).len() == 1 {
                text::split_join(t, sep);
                assert(t[k] == sep);
                assert(text::split_on(t, sep)[0].contains(sep));
                assert(false);
            }
        } else {
            first_piece(t, sep, t.len() as int);
            assert(t.take(t.len() as int) =~= t);
            assert(s.take(k) =~= s);
            no_separator_one_piece(t, sep);
            assert(s =~= t.push(s.last()));
        }
    }
}

/// A text without the separator is one piece.
proof fn no_separator_one_piece(s: Seq<char>, sep: char)
    requires
        forall|i: int| 0 <= i < s.len() ==> s[i] != sep,
    ensures
        text::split_on(s, sep).len() == 1,
    decreases s.len(),
{
    if s.len() > 0 {
        no_separator_one_piece(s.drop_last(), sep);
    }
}

/// Whether a name is one that Windows reserves for a device, also with an
/// extension (`CON.mp4` is just as unusable as `CON`).
pub fn is_reserved_device_name(name: &str) -> (r: bool)
    ensures
        r == is_reserved(name@),
{
    let v = chars_of(name);
    let mut stem: Vec<char> = Vec::new();
    let mut k: usize = 0;
    while k < v.len() && v[k] != '.'
        invariant
            k <= v@.len(),
            forall|i: int| 0 <= i < k ==> v@[i] != '.',
            stem@ == v@.take(k as int).map_values(|c: char| ascii_upper(c)),
        decreases v.len() - k,
    {
        let c = v[k];
        let u = if 'a' <= c && c <= 'z' {
            (c as u8 - 32) as char
        } else {
            c
        };
        stem.push(u);
        k = k + 1;
        assert(u == ascii_upper(c));
        assert(stem@ =~= v@.take(k as int).map_values(|c: char| ascii_upper(c)));
    }
    proof {
        first_piece(v@, '.', k as int);
        assert(stem@ == device_stem(name@));
    }
    if spells(&stem, "CON") || spells(&stem, "PRN") || spells(&stem, "AUX") || spells(
        &stem,
        "NUL",
    ) {
        return true;
    }
    if stem.len() != 4 {
        return false;
    }
    let mut head: Vec<char> = Vec::new();
    head.push(stem[0]);
    head.push(stem[1]);
    head.push(stem[2]);
    assert(head@ =~= stem@.take(3));
    (spells(&head, "COM") || spells(&head, "LPT")) && '1' <= stem[3] && stem[3] <= '9'
}

/// Replaces characters that are invalid in Windows path segments, and defuses
/// reserved device names, which Windows rejects as filenames regardless of
/// extension.
pub fn sanitize_segment(s: &str) -> (r: String)
    ensures
        r@ == sanitized(s@),
{
    let v = chars_of(s);
    let mut clean: Vec<char> = Vec::new();
    for i in 0..v.len()
        invariant
            clean@ == cleaned(v@.take(i as int)),
    {
        let c = v[i];
        let bad = c == '<' || c == '>' || c == ':' || c == '"' || c == '/' || c == '\\' || c == '|'
            || c == '?' || c == '*' || (c as u32) < 0x20;
        if bad {
            clean.push('_');
        } else {
            clean.push(c);
        }
        assert(clean@ =~= cleaned(v@.take(i + 1)));
    }
    assert(v@.take(v@.len() as int) =~= v@);
    let ghost p = |c: char| is_space_or_dot(c);
    let mut to: usize = clean.len();
    assert(clean@.take(to as int) =~= clean@);
    while to > 0 && (clean[to - 1] == ' ' || clean[to - 1] == '.')
        invariant
            to <= clean@.len(),
            p == (|c: char| is_space_or_dot(c)),
            text::trim_end_where(clean@.take(to as int), p) == text::trim_end_where(clean@, p),
        decreases to,
    {
        assert(clean@.take(to as int).drop_last() =~= clean@.take(to - 1));
        to = to - 1;
    }
    let name = string_of(&clean, 0, to);
    assert(clean@.take(to as int) =~= clean@.subrange(0, to as int));
    if to == 0 {
        let mut r = String::new();
        r.push('_');
        assert(r@ =~= seq!['_']);
        r
    } else if is_reserved_device_name(name.as_str()) {
        let mut r = String::new();
        r.push('_');
        r.append(name.as_str());
        assert(r@ =~= seq!['_'] + name@);
        r
    } else {
        name
    }
}

/// The sanitized segments of a tree path, in order.
pub fn sanitized_segments(rel_path: &str) -> (r: Vec<String>)
    ensures
        text::texts_of(r@) == all_sanitized(text::segments(rel_path@)),
{
    let raw = segments_of(rel_path);
    let mut out: Vec<String> = Vec::new();
    for i in 0..raw.len()
        invariant
            text::texts_of(raw@) == text::segments(rel_path@),
            out@.len() == i,
            forall|j: int| 0 <= j < i ==> (#[trigger] out@[j])@ == sanitized(raw@[j]@),
    {
        out.push(sanitize_segment(raw[i].as_str()));
    }
    assert(text::texts_of(out@) =~= all_sanitized(text::segments(rel_path@))) by {
        assert forall|j: int| 0 <= j < out@.len() implies text::texts_of(out@)[j]
            == #[trigger] all_sanitized(text::segments(rel_path@))[j] by {
            assert(out@[j]@ == sanitized(raw@[j]@));
            assert(text::texts_of(raw@)[j] == raw@[j]@);
        }
    }
    out
}

/// The sanitized, `/`-joined name to use for a file inside a zip archive
/// (matches the on-disk names so the archive mirrors the folder layout).
pub fn archive_name(rel_path: &str) -> (r: String)
    ensures
        r@ == archived_as(rel_path@),
{
    let names = sanitized_segments(rel_path);
    let r = join_all(&names, "/");
    proof {
        reveal_strlit("/");
        assert("/"@ =~= seq!['/']);
    }
    r
}

/// The name of a tree path inside an archive.
pub open spec fn archived_as(rel_path: Seq<char>) -> Seq<char> {
    text::join(all_sanitized(text::segments(rel_path)), seq!['/'])
}

// ---------------------------------------------------------------------------
// Laws
// ---------------------------------------------------------------------------

/// A name that starts with an underscore is not reserved.
proof fn underscore_not_reserved(s: Seq<char>)
    requires
        s.len() > 0,
        s[0] == '_',
    ensures
        !is_reserved(s),
{
    reveal_strlit("CON");
    reveal_strlit("PRN");
    reveal_strlit("AUX");
    reveal_strlit("NUL");
    reveal_strlit("COM");
    reveal_strlit("LPT");
    let k = first_dot(s);
    first_dot_is_first(s);
    first_piece(s, '.', k);
    let stem = device_stem(s);
    assert(k > 0);
    assert(stem[0] == '_');
    if stem.len() == 4 {
        assert(stem.take(3)[0] == '_');
        assert("COM"@[0] == 'C');
        assert("LPT"@[0] == 'L');
    }
    assert("CON"@[0] == 'C');
    assert("PRN"@[0] == 'P');
    assert("AUX"@[0] == 'A');
    assert("NUL"@[0] == 'N');
}

/// The position of the first dot, or the length where there is none.
spec fn first_dot(s: Seq<char>) -> int
    decreases s.len(),
{
    if s.len() == 0 {
        0
    } else if s[0] == '.' {
        0
    } else {
        1 + first_dot(s.drop_first())
    }
}

proof fn first_dot_is_first(s: Seq<char>)
    ensures
        0 <= first_dot(s) <= s.len(),
        forall|i: int| 0 <= i < first_dot(s) ==> s[i] != '.',
        first_dot(s) < s.len() ==> s[first_dot(s)] == '.',
    decreases s.len(),
{
    if s.len() > 0 && s[0] != '.' {
        let t = s.drop_first();
        first_dot_is_first(t);
        assert forall|i: int| 0 <= i < first_dot(s) implies s[i] != '.' by {
            if i > 0 {
                assert(t[i - 1] == s[i]);
            }
        }
    }
}

/// Whatever the tree calls a file or folder, its name on disk is safe: not
/// empty, free of invalid characters (so of separators), not ending in a dot
/// or a space (so neither `.` nor `..`), and not a reserved device name.
pub proof fn sanitized_names_are_safe(s: Seq<char>)
    ensures
        safe_name(sanitized(s)),
        sanitized(s) != seq!['.'],
        sanitized(s) != seq!['.', '.'],
        !sanitized(s).contains('/'),
{
    let p = |c: char| is_space_or_dot(c);
    let c = cleaned(s);
    let name = text::trim_end_where(c, p);
    text::trim_end_shape(c, p);
    assert forall|i: int| 0 <= i < name.len() implies !invalid_in_segment(#[trigger] name[i]) by {
        assert(name[i] == c[i]);
    }
    let r = sanitized(s);
    if name.len() == 0 {
        underscore_not_reserved(r);
    } else if is_reserved(name) {
        underscore_not_reserved(r);
        assert forall|i: int| 0 <= i < r.len() implies !invalid_in_segment(#[trigger] r[i]) by {
            if i > 0 {
                assert(r[i] == name[i - 1]);
            }
        }
        assert(r.last() == name.last());
    }
    assert(seq!['.'].last() == '.');
    assert(seq!['.', '.'].last() == '.');
    assert(!r.contains('/')) by {
        if r.contains('/') {
            let i = choose|i: int| 0 <= i < r.len() && r[i] == '/';
            assert(!invalid_in_segment(r[i]));
        }
    }
}

/// Safe names are left as they are.
pub proof fn safe_names_are_kept(s: Seq<char>)
    requires
        safe_name(s),
    ensures
        sanitized(s) == s,
{
    let p = |c: char| is_space_or_dot(c);
    assert(cleaned(s) =~= s);
    text::trim_end_fixed(s, p);
}

/// Sanitizing twice is sanitizing once.
pub proof fn sanitizing_is_idempotent(s: Seq<char>)
    ensures
        sanitized(sanitized(s)) == sanitized(s),
{
    sanitized_names_are_safe(s);
    safe_names_are_kept(sanitized(s));
}

/// Windows reserves names whatever their case and extension: the part before the
/// first dot decides, and it decides by its letters in upper case.
pub proof fn case_and_extension_play_no_part(stem: Seq<char>, rest: Seq<char>, other: Seq<char>)
    requires
        !stem.contains('.'),
        other.len() == stem.len(),
        !other.contains('.'),
        forall|i: int|
            0 <= i < stem.len() ==> #[trigger] stem[i] == other[i] || ('a' <= stem[i] <= 'z'
                && other[i] as u32 == stem[i] as u32 - 32),
    ensures
        is_reserved(stem + seq!['.'] + rest) == is_reserved(stem),
        is_reserved(stem) == is_reserved(other),
{
    let whole = stem + seq!['.'] + rest;
    let n = stem.len() as int;
    assert forall|i: int| 0 <= i < n implies whole[i] != '.' && stem[i] != '.' && other[i]
        != '.' by {
        if stem[i] == '.' {
            assert(stem.contains('.'));
        }
        if other[i] == '.' {
            assert(other.contains('.'));
        }
    }
    first_piece(whole, '.', n);
    first_piece(stem, '.', n);
    first_piece(other, '.', n);
    assert(whole.take(n) =~= stem);
    assert(stem.take(n) =~= stem);
    assert(other.take(n) =~= other);
    assert(device_stem(stem) =~= device_stem(other)) by {
        assert forall|i: int| 0 <= i < n implies ascii_upper(stem[i]) == ascii_upper(
            #[trigger] other[i],
        ) by {
            assert(stem[i] == other[i] || ('a' <= stem[i] <= 'z' && other[i] as u32 == stem[i]
                as u32 - 32));
        }
    }
}

/// The reserved names themselves, in upper case and without an extension.
pub proof fn the_reserved_names(name: Seq<char>)
    requires
        !name.contains('.'),
        forall|i: int| 0 <= i < name.len() ==> !('a' <= #[trigger] name[i] <= 'z'),
    ensures
        is_reserved(name) <==> {
            ||| name == seq!['C', 'O', 'N']
            ||| name == seq!['P', 'R', 'N']
            ||| name == seq!['A', 'U', 'X']
            ||| name == seq!['N', 'U', 'L']
            ||| name.len() == 4 && name[0] == 'C' && name[1] == 'O' && name[2] == 'M' && '1'
                <= name[3] <= '9'
            ||| name.len() == 4 && name[0] == 'L' && name[1] == 'P' && name[2] == 'T' && '1'
                <= name[3] <= '9'
        },
{
    reveal_strlit("CON");
    reveal_strlit("PRN");
    reveal_strlit("AUX");
    reveal_strlit("NUL");
    reveal_strlit("COM");
    reveal_strlit("LPT");
    let n = name.len() as int;
    assert forall|i: int| 0 <= i < n implies name[i] != '.' by {
        if name[i] == '.' {
            assert(name.contains('.'));
        }
    }
    first_piece(name, '.', n);
    assert(name.take(n) =~= name);
    assert(device_stem(name) =~= name);
    assert("CON"@ =~= seq!['C', 'O', 'N']);
    assert("PRN"@ =~= seq!['P', 'R', 'N']);
    assert("AUX"@ =~= seq!['A', 'U', 'X']);
    assert("NUL"@ =~= seq!['N', 'U', 'L']);
    if n == 4 {
        let head = name.take(3);
        assert(head =~= seq![name[0], name[1], name[2]]);
        if head == "COM"@ {
            assert(head[0] == 'C' && head[1] == 'O' && head[2] == 'M');
        }
        if head == "LPT"@ {
            assert(head[0] == 'L' && head[1] == 'P' && head[2] == 'T');
        }
        if name[0] == 'C' && name[1] == 'O' && name[2] == 'M' {
            assert(head =~= "COM"@);
        }
        if name[0] == 'L' && name[1] == 'P' && name[2] == 'T' {
            assert(head =~= "LPT"@);
        }
    }
}

/// A name keeps all that it can: character by character it is the segment's own
/// with an underscore for each that Windows does not accept, up to the last
/// character that is neither a space nor a dot. Only a name of which nothing is
/// left is an underscore, and only a reserved one gets an underscore before it.
pub proof fn names_keep_what_they_can(s: Seq<char>, n: int)
    requires
        0 <= n <= s.len(),
        forall|i: int| n <= i < s.len() ==> #[trigger] s[i] == ' ' || s[i] == '.',
        n > 0 ==> s[n - 1] != ' ' && s[n - 1] != '.',
    ensures
        ({
            let name = Seq::new(
                n as nat,
                |i: int|
                    if s[i] == '<' || s[i] == '>' || s[i] == ':' || s[i] == '"' || s[i] == '/'
                        || s[i] == '\\' || s[i] == '|' || s[i] == '?' || s[i] == '*' || (s[i]
                        as u32) < 32 {
                        '_'
                    } else {
                        s[i]
                    },
            );
            &&& n == 0 ==> sanitized(s) == seq!['_']
            &&& n > 0 && !is_reserved(name) ==> sanitized(s) == name
            &&& n > 0 && is_reserved(name) ==> sanitized(s) == seq!['_'] + name
        }),
{
    let p = |c: char| is_space_or_dot(c);
    let name = Seq::new(
        n as nat,
        |i: int|
            if s[i] == '<' || s[i] == '>' || s[i] == ':' || s[i] == '"' || s[i] == '/' || s[i]
                == '\\' || s[i] == '|' || s[i] == '?' || s[i] == '*' || (s[i] as u32) < 32 {
                '_'
            } else {
                s[i]
            },
    );
    let c = cleaned(s);
    text::trim_end_shape(c, p);
    let t = text::trim_end_where(c, p);
    assert(t.len() == n) by {
        if t.len() > n {
            let k = t.len() - 1;
            assert(!p(t.last()));
            assert(t.last() == c[k]);
            assert(c[k] == s[k]);
        }
        if t.len() < n {
            assert(p(c[n - 1]));
        }
    }
    assert(t =~= name);
}

/// Every segment of a tree path gets its name, in its place.
pub proof fn every_segment_gets_its_name(rel_path: Seq<char>, i: int)
    requires
        0 <= i < text::segments(rel_path).len(),
    ensures
        all_sanitized(text::segments(rel_path)).len() == text::segments(rel_path).len(),
        all_sanitized(text::segments(rel_path))[i] == sanitized(text::segments(rel_path)[i]),
{
}

/// The name in an archive nests as the tree path does: what stands below a
/// folder is called by the folder's name, a slash, and its own name.
pub proof fn archive_names_nest(folder: Seq<char>, name: Seq<char>)
    requires
        text::segments(folder).len() > 0,
        name.len() > 0,
        !name.contains('/'),
    ensures
        archived_as(folder + seq!['/'] + name) == archived_as(folder) + seq!['/'] + sanitized(
            name,
        ),
        archived_as(name) == sanitized(name),
{
    text::segments_are_the_names_between_slashes(folder, name);
    text::segments_are_the_names_between_slashes(name, Seq::empty());
    let a = all_sanitized(text::segments(folder));
    let whole = all_sanitized(text::segments(folder + seq!['/'] + name));
    assert(whole =~= a.push(sanitized(name)));
    text::joining_puts_the_separator_in_between(a, sanitized(name), seq!['/']);
    assert(all_sanitized(seq![name]) =~= seq![sanitized(name)]);
    text::joining_puts_the_separator_in_between(Seq::empty(), sanitized(name), seq!['/']);
}

} // verus!
