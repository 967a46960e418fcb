//! Text seen as sequences of characters: comparing, splitting, joining and
//! trimming.

use vstd::hash_set::StringHashSet;
use vstd::prelude::*;

verus! {

// ---------------------------------------------------------------------------
// Characters and strings
// ---------------------------------------------------------------------------

/// `String::push` of the standard library appends one character at the end of
/// the string. Believed, not proved.
pub assume_specification[ String::push ](s: &mut String, c: char)
    ensures
        final(s)@ == old(s)@.push(c),
;

/// The characters of a string, in order.
pub fn chars_of(s: &str) -> (v: Vec<char>)
    ensures
        v@ == s@,
{
    let mut v: Vec<char> = Vec::new();
    for c in it: s.chars()
        invariant
            it.seq() == s@,
            v@ == s@.take(it.index() as int),
    {
        v.push(c);
        assert(s@.take(it.index() as int + 1) == s@.take(it.index() as int).push(c));
    }
    assert(s@.take(s@.len() as int) == s@);
    v
}

/// The characters `from..to` of a sequence, as a string.
pub fn string_of(v: &Vec<char>, from: usize, to: usize) -> (s: String)
    requires
        from <= to <= v@.len(),
    ensures
        s@ == v@.subrange(from as int, to as int),
{
    let mut s = String::new();
    for i in from..to
        invariant
            from <= to <= v@.len(),
            s@ == v@.subrange(from as int, i as int),
    {
        s.push(v[i]);
        assert(v@.subrange(from as int, i + 1) == v@.subrange(from as int, i as int).push(
            v@[i as int],
        ));
    }
    s
}

/// Whether a sequence of characters spells `lit`.
pub fn spells(v: &Vec<char>, lit: &str) -> (r: bool)
    ensures
        r == (v@ == lit@),
{
    let l = chars_of(lit);
    if v.len() != l.len() {
        return false;
    }
    for i in 0..v.len()
        invariant
            v@.len() == l@.len(),
            l@ == lit@,
            forall|j: int| 0 <= j < i ==> v@[j] == l@[j],
    {
        if v[i] != l[i] {
            return false;
        }
    }
    assert(v@ =~= l@);
    true
}

/// Whether two strings hold the same characters.
pub fn same_text(a: &str, b: &str) -> (r: bool)
    ensures
        r == (a@ == b@),
{
    let v = chars_of(a);
    spells(&v, b)
}

/// Whether `text` is one of `list`.
pub fn listed(list: &Vec<String>, text: &str) -> (r: bool)
    ensures
        r == exists|i: int| 0 <= i < list@.len() && (#[trigger] list@[i])@ == text@,
{
    for i in 0..list.len()
        invariant
            forall|j: int| 0 <= j < i ==> (#[trigger] list@[j])@ != text@,
    {
        if same_text(list[i].as_str(), text) {
            assert(list@[i as int]@ == text@);
            return true;
        }
    }
    false
}

/// The texts of a list, as a set.
pub fn set_of(list: &Vec<String>) -> (r: StringHashSet)
    ensures
        forall|t: Seq<char>| #[trigger]
            r@.contains(t) <==> exists|i: int| 0 <= i < list@.len() && (#[trigger] list@[i])@ == t,
{
    let mut found = StringHashSet::new();
    for i in 0..list.len()
        invariant
            forall|t: Seq<char>| #[trigger]
                found@.contains(t) <==> exists|j: int|
                    0 <= j < i && (#[trigger] list@[j])@ == t,
    {
        let ghost before = found@;
        let _ = found.insert(list[i].clone());
        assert forall|t: Seq<char>| #[trigger] found@.contains(t) <==> exists|j: int|
            0 <= j < i + 1 && (#[trigger] list@[j])@ == t by {
            if found@.contains(t) {
                if before.contains(t) {
                    let j = choose|j: int| 0 <= j < i && (#[trigger] list@[j])@ == t;
                    assert(list@[j]@ == t);
                } else {
                    assert(list@[i as int]@ == t);
                }
            }
            if exists|j: int| 0 <= j < i + 1 && (#[trigger] list@[j])@ == t {
                let j = choose|j: int| 0 <= j < i + 1 && (#[trigger] list@[j])@ == t;
                if j < i {
                    assert(before.contains(t));
                }
            }
        }
    }
    found
}

/// The length of a text in bytes, encoded as UTF-8.
pub open spec fn byte_len(s: Seq<char>) -> nat {
    vstd::utf8::encode_utf8(s).len()
}

/// The length of a string in bytes.
pub fn bytes_in(s: &str) -> (n: usize)
    ensures
        n == byte_len(s@),
        n == vstd::utf8::encode_utf8(s@).len(),
{
    let b = s.as_bytes();
    b.len()
}

/// The view of an optional string.
pub open spec fn text_of(s: Option<String>) -> Option<Seq<char>> {
    match s {
        Some(t) => Some(t@),
        None => None,
    }
}

/// The views of a list of strings.
pub open spec fn texts_of(list: Seq<String>) -> Seq<Seq<char>> {
    list.map_values(|s: String| s@)
}

// ---------------------------------------------------------------------------
// Splitting and joining
// ---------------------------------------------------------------------------

/// The pieces of `s` between the occurrences of `sep`: always at least one,
/// and possibly empty ones.
pub open spec fn split_on(s: Seq<char>, sep: char) -> Seq<Seq<char>>
    decreases s.len(),
{
    if s.len() == 0 {
        seq![Seq::<char>::empty()]
    } else {
        let before = split_on(s.drop_last(), sep);
        if s.last() == sep {
            before.push(Seq::<char>::empty())
        } else {
            before.drop_last().push(before.last().push(s.last()))
        }
    }
}

/// The non-empty pieces of `s` between slashes.
pub open spec fn segments(s: Seq<char>) -> Seq<Seq<char>> {
    split_on(s, '/').filter(|piece: Seq<char>| piece.len() > 0)
}

/// The texts of `list`, with `sep` between each two of them.
pub open spec fn join(list: Seq<Seq<char>>, sep: Seq<char>) -> Seq<char>
    decreases list.len(),
{
    if list.len() == 0 {
        Seq::empty()
    } else if list.len() == 1 {
        list[0]
    } else {
        join(list.drop_last(), sep) + sep + list.last()
    }
}

/// There is always at least one piece, and no piece holds the separator.
pub proof fn split_pieces(s: Seq<char>, sep: char)
    ensures
        split_on(s, sep).len() > 0,
        forall|i: int|
            0 <= i < split_on(s, sep).len() ==> !(#[trigger] split_on(s, sep)[i]).contains(sep),
    decreases s.len(),
{
    if s.len() > 0 {
        split_pieces(s.drop_last(), sep);
        let before = split_on(s.drop_last(), sep);
        if s.last() != sep {
            let piece = before.last().push(s.last());
            assert forall|k: int| 0 <= k < piece.len() implies piece[k] != sep by {
                if k < before.last().len() {
                    assert(before.last().contains(before.last()[k]));
                }
            }
        }
    }
}

/// Pieces joined by the separator give the text back.
pub proof fn split_join(s: Seq<char>, sep: char)
    ensures
        join(split_on(s, sep), seq![sep]) == s,
    decreases s.len(),
{
    if s.len() > 0 {
        split_join(s.drop_last(), sep);
        split_pieces(s.drop_last(), sep);
        let before = split_on(s.drop_last(), sep);
        let after = split_on(s, sep);
        if s.last() == sep {
            assert(after.drop_last() =~= before);
            assert(join(after, seq![sep]) =~= s.drop_last() + seq![sep]);
            assert(s =~= s.drop_last() + seq![sep]);
        } else {
            assert(after.drop_last() =~= before.drop_last());
            assert(join(after, seq![sep]) =~= s.drop_last().push(s.last()));
            assert(s =~= s.drop_last().push(s.last()));
        }
    }
}

/// Keeping the elements of a sequence with one more element.
pub proof fn filter_push<A>(s: Seq<A>, x: A, p: spec_fn(A) -> bool)
    ensures
        s.push(x).filter(p) == if p(x) {
            s.filter(p).push(x)
        } else {
            s.filter(p)
        },
{
    reveal(Seq::filter);
    assert(s.push(x).drop_last() =~= s);
}

/// The non-empty pieces of a string between slashes.
pub fn segments_of(s: &str) -> (r: Vec<String>)
    ensures
        texts_of(r@) == segments(s@),
{
    let v = chars_of(s);
    let mut out: Vec<String> = Vec::new();
    let mut start: usize = 0;
    let ghost p = |piece: Seq<char>| piece.len() > 0;
    assert(v@.take(0) =~= Seq::<char>::empty());
    assert(split_on(v@.take(0), '/').drop_last() =~= Seq::<Seq<char>>::empty());
    assert(Seq::<Seq<char>>::empty().filter(p) =~= Seq::<Seq<char>>::empty()) by {
        reveal(Seq::filter);
    }
    for i in 0..v.len()
        invariant
            start <= i <= v@.len(),
            p == (|piece: Seq<char>| piece.len() > 0),
            split_on(v@.take(i as int), '/').len() > 0,
            split_on(v@.take(i as int), '/').last() == v@.subrange(start as int, i as int),
            texts_of(out@) == split_on(v@.take(i as int), '/').drop_last().filter(p),
    {
        let ghost before = split_on(v@.take(i as int), '/');
        let ghost after = split_on(v@.take(i + 1), '/');
        assert(v@.take(i + 1).drop_last() =~= v@.take(i as int));
        assert(v@.take(i + 1).last() == v@[i as int]);
        if v[i] == '/' {
            proof {
                assert(after.drop_last() =~= before.drop_last().push(before.last()));
                filter_push(before.drop_last(), before.last(), p);
            }
            if start < i {
                let piece = string_of(&v, start, i);
                let ghost old_out = out@;
                out.push(piece);
                assert(texts_of(out@) =~= texts_of(old_out).push(piece@));
            }
            start = i + 1;
            assert(v@.subrange(start as int, i + 1) =~= Seq::<char>::empty());
        } else {
            assert(after.drop_last() =~= before.drop_last());
            assert(v@.subrange(start as int, i + 1) =~= v@.subrange(start as int, i as int).push(
                v@[i as int],
            ));
        }
    }
    let ghost all = split_on(v@, '/');
    assert(v@.take(v@.len() as int) =~= v@);
    proof {
        assert(all =~= all.drop_last().push(all.last()));
        filter_push(all.drop_last(), all.last(), p);
    }
    if start < v.len() {
        let piece = string_of(&v, start, v.len());
        let ghost old_out = out@;
        out.push(piece);
        assert(texts_of(out@) =~= texts_of(old_out).push(piece@));
    }
    out
}

/// The strings of a list, with `sep` between each two of them.
pub fn join_all(list: &Vec<String>, sep: &str) -> (r: String)
    ensures
        r@ == join(texts_of(list@), sep@),
{
    let mut out = String::new();
    for i in 0..list.len()
        invariant
            out@ == join(texts_of(list@).take(i as int), sep@),
    {
        let ghost before = texts_of(list@).take(i as int);
        let ghost after = texts_of(list@).take(i + 1);
        assert(after.drop_last() =~= before);
        assert(after.last() == list@[i as int]@);
        if i > 0 {
            out.append(sep);
        }
        out.append(list[i].as_str());
        assert(out@ =~= join(after, sep@));
    }
    assert(texts_of(list@).take(list@.len() as int) =~= texts_of(list@));
    out
}

// ---------------------------------------------------------------------------
// Trimming
// ---------------------------------------------------------------------------

/// `s` without the characters at its end that satisfy `p`.
pub open spec fn trim_end_where(s: Seq<char>, p: spec_fn(char) -> bool) -> Seq<char>
    decreases s.len(),
{
    if s.len() > 0 && p(s.last()) {
        trim_end_where(s.drop_last(), p)
    } else {
        s
    }
}

/// `s` without the characters at its start that satisfy `p`.
pub open spec fn trim_start_where(s: Seq<char>, p: spec_fn(char) -> bool) -> Seq<char>
    decreases s.len(),
{
    if s.len() > 0 && p(s[0]) {
        trim_start_where(s.drop_first(), p)
    } else {
        s
    }
}

/// The characters with the Unicode property `White_Space`.
pub open spec fn is_white_space(c: char) -> bool {
    ||| '\u{9}' <= c <= '\u{d}'
    ||| c == ' '
    ||| c == '\u{85}'
    ||| c == '\u{a0}'
    ||| c == '\u{1680}'
    ||| '\u{2000}' <= c <= '\u{200a}'
    ||| c == '\u{2028}'
    ||| c == '\u{2029}'
    ||| c == '\u{202f}'
    ||| c == '\u{205f}'
    ||| c == '\u{3000}'
}

/// `s` without white space at either end.
pub open spec fn trim(s: Seq<char>) -> Seq<char> {
    let ws = |c: char| is_white_space(c);
    trim_end_where(trim_start_where(s, ws), ws)
}

/// Whether a text holds nothing but white space.
pub open spec fn blank(s: Seq<char>) -> bool {
    trim(s).len() == 0
}

/// Whether a character is white space.
pub fn white_space(c: char) -> (r: bool)
    ensures
        r == is_white_space(c),
{
    ('\u{9}' <= c && c <= '\u{d}') || c == ' ' || c == '\u{85}' || c == '\u{a0}' || c == '\u{1680}'
        || ('\u{2000}' <= c && c <= '\u{200a}') || c == '\u{2028}' || c == '\u{2029}' || c
        == '\u{202f}' || c == '\u{205f}' || c == '\u{3000}'
}

/// A trimmed end is a prefix, what is cut off satisfies the test, and what
/// stays does not end in a character that satisfies it.
pub proof fn trim_end_shape(s: Seq<char>, p: spec_fn(char) -> bool)
    ensures
        trim_end_where(s, p).len() <= s.len(),
        trim_end_where(s, p) == s.take(trim_end_where(s, p).len() as int),
        forall|i: int| trim_end_where(s, p).len() <= i < s.len() ==> p(#[trigger] s[i]),
        trim_end_where(s, p).len() > 0 ==> !p(trim_end_where(s, p).last()),
    decreases s.len(),
{
    if s.len() > 0 && p(s.last()) {
        let t = s.drop_last();
        trim_end_shape(t, p);
        let n = trim_end_where(s, p).len() as int;
        assert(s.take(n) =~= t.take(n));
        assert forall|i: int| n <= i < s.len() implies p(#[trigger] s[i]) by {
            if i < t.len() {
                assert(t[i] == s[i]);
            }
        }
    } else {
        assert(s.take(s.len() as int) =~= s);
    }
}

/// A trimmed start is a suffix, what is cut off satisfies the test, and what
/// stays does not begin with a character that satisfies it.
pub proof fn trim_start_shape(s: Seq<char>, p: spec_fn(char) -> bool)
    ensures
        trim_start_where(s, p).len() <= s.len(),
        trim_start_where(s, p) == s.skip(s.len() - trim_start_where(s, p).len()),
        forall|i: int| 0 <= i < s.len() - trim_start_where(s, p).len() ==> p(#[trigger] s[i]),
        trim_start_where(s, p).len() > 0 ==> !p(trim_start_where(s, p)[0]),
    decreases s.len(),
{
    if s.len() > 0 && p(s[0]) {
        let t = s.drop_first();
        trim_start_shape(t, p);
        let n = s.len() - trim_start_where(s, p).len();
        assert(s.skip(n) =~= t.skip(n - 1));
        assert forall|i: int| 0 <= i < n implies p(#[trigger] s[i]) by {
            if i > 0 {
                assert(t[i - 1] == s[i]);
            }
        }
    } else {
        assert(s.skip(0) =~= s);
    }
}

/// A text that does not end in a character to be trimmed stays as it is.
pub proof fn trim_end_fixed(s: Seq<char>, p: spec_fn(char) -> bool)
    requires
        s.len() > 0 ==> !p(s.last()),
    ensures
        trim_end_where(s, p) == s,
{
}

/// A trimmed text has no white space at its ends.
pub proof fn trim_ends(s: Seq<char>)
    ensures
        trim(s).len() > 0 ==> !is_white_space(trim(s)[0]) && !is_white_space(trim(s).last()),
{
    let ws = |c: char| is_white_space(c);
    let t = trim_start_where(s, ws);
    trim_start_shape(s, ws);
    trim_end_shape(t, ws);
}

/// Trimming twice is trimming once.
pub proof fn trim_idempotent(s: Seq<char>)
    ensures
        trim(trim(s)) == trim(s),
{
    trim_ends(s);
}

/// A string without white space at either end.
pub fn trimmed(s: &str) -> (r: String)
    ensures
        r@ == trim(s@),
{
    let v = chars_of(s);
    let ghost ws = |c: char| is_white_space(c);
    let mut from: usize = 0;
    assert(v@.skip(0) =~= v@);
    while from < v.len() && white_space(v[from])
        invariant
            from <= v@.len(),
            ws == (|c: char| is_white_space(c)),
            trim_start_where(v@.skip(from as int), ws) == trim_start_where(v@, ws),
        decreases v.len() - from,
    {
        assert(v@.skip(from as int).drop_first() =~= v@.skip(from + 1));
        from = from + 1;
    }
    let mut to: usize = v.len();
    let ghost t = v@.skip(from as int);
    assert(t == trim_start_where(v@, ws));
    assert(v@.subrange(from as int, to as int) =~= t);
    while to > from && white_space(v[to - 1])
        invariant
            from <= to <= v@.len(),
            ws == (|c: char| is_white_space(c)),
            trim_end_where(v@.subrange(from as int, to as int), ws) == trim_end_where(t, ws),
        decreases to,
    {
        assert(v@.subrange(from as int, to as int).drop_last() =~= v@.subrange(
            from as int,
            to - 1,
        ));
        to = to - 1;
    }
    string_of(&v, from, to)
}

/// Whether a string holds nothing but white space.
pub fn is_blank(s: &str) -> (r: bool)
    ensures
        r == blank(s@),
{
    let t = trimmed(s);
    t.as_str().is_empty()
}

// ---------------------------------------------------------------------------
// Laws
// ---------------------------------------------------------------------------

/// Trimming takes white space away from the ends and nothing else: what is left
/// is one run of the text, it neither starts nor ends with white space, and all
/// that was cut off is white space.
pub proof fn trimming_cuts_white_space_only(s: Seq<char>)
    ensures
        exists|from: int, to: int|
            #![trigger s.subrange(from, to)]
            0 <= from <= to <= s.len() && trim(s) == s.subrange(from, to) && (forall|i: int|
                0 <= i < s.len() && !(from <= i < to) ==> is_white_space(#[trigger] s[i])),
        trim(s).len() > 0 ==> !is_white_space(trim(s)[0]) && !is_white_space(trim(s).last()),
{
    let ws = |c: char| is_white_space(c);
    let t = trim_start_where(s, ws);
    trim_start_shape(s, ws);
    trim_end_shape(t, ws);
    trim_ends(s);
    let from = s.len() - t.len();
    let to = from + trim(s).len();
    assert(trim(s) =~= s.subrange(from, to));
    assert forall|i: int| 0 <= i < s.len() && !(from <= i < to) implies is_white_space(
        #[trigger] s[i],
    ) by {
        if i < from {
            assert(ws(s[i]));
        } else {
            assert(t[i - from] == s[i]);
            assert(ws(t[i - from]));
        }
    }
}

/// A text is blank exactly if each of its characters is white space.
pub proof fn blank_texts_are_all_white_space(s: Seq<char>)
    ensures
        blank(s) <==> forall|i: int| 0 <= i < s.len() ==> is_white_space(#[trigger] s[i]),
{
    trimming_cuts_white_space_only(s);
    let (from, to) = choose|from: int, to: int|
        #![trigger s.subrange(from, to)]
        0 <= from <= to <= s.len() && trim(s) == s.subrange(from, to) && (forall|i: int|
            0 <= i < s.len() && !(from <= i < to) ==> is_white_space(#[trigger] s[i]));
    if !blank(s) {
        assert(trim(s)[0] == s[from]);
    }
}

/// Splitting a text at a separator between two texts splits the two, and a text
/// without the separator is one piece.
pub proof fn splitting_at_a_separator(a: Seq<char>, b: Seq<char>, sep: char)
    ensures
        split_on(a + seq![sep] + b, sep) == split_on(a, sep) + split_on(b, sep),
        !a.contains(sep) ==> split_on(a, sep) == seq![a],
    decreases b.len(),
{
    split_pieces(a, sep);
    split_pieces(b, sep);
    let s = a + seq![sep] + b;
    if b.len() == 0 {
        assert(s.drop_last() =~= a);
        assert(split_on(s, sep) =~= split_on(a, sep) + split_on(b, sep));
    } else {
        let t = b.drop_last();
        splitting_at_a_separator(a, t, sep);
        split_pieces(t, sep);
        assert(s.drop_last() =~= a + seq![sep] + t);
        let before = split_on(a, sep) + split_on(t, sep);
        assert(before.last() == split_on(t, sep).last());
        assert(before.drop_last() =~= split_on(a, sep) + split_on(t, sep).drop_last());
        assert(split_on(s, sep) =~= split_on(a, sep) + split_on(b, sep));
    }
    if !a.contains(sep) {
        plain_texts_are_one_piece(a, sep);
    }
}

proof fn plain_texts_are_one_piece(a: Seq<char>, sep: char)
    requires
        !a.contains(sep),
    ensures
        split_on(a, sep) == seq![a],
    decreases a.len(),
{
    if a.len() == 0 {
        assert(a =~= Seq::<char>::empty());
    } else {
        let t = a.drop_last();
        assert(a[a.len() - 1] == a.last());
        assert(!t.contains(sep)) by {
            if t.contains(sep) {
                let k = choose|k: int| 0 <= k < t.len() && t[k] == sep;
                assert(a[k] == sep);
            }
        }
        plain_texts_are_one_piece(t, sep);
        assert(t.push(a.last()) =~= a);
        assert(split_on(a, sep) =~= seq![a]);
    }
}

/// The segments of a path are its names between slashes: those of two paths
/// with a slash between them are the segments of the one and then of the other,
/// a name without a slash is a segment of its own, and nothing is none.
pub proof fn segments_are_the_names_between_slashes(a: Seq<char>, b: Seq<char>)
    ensures
        segments(a + seq!['/'] + b) == segments(a) + segments(b),
        a.len() > 0 && !a.contains('/') ==> segments(a) == seq![a],
        a.len() == 0 ==> segments(a) == Seq::<Seq<char>>::empty(),
{
    let p = |piece: Seq<char>| piece.len() > 0;
    splitting_at_a_separator(a, b, '/');
    filter_concat(split_on(a, '/'), split_on(b, '/'), p);
    if a.len() > 0 && !a.contains('/') {
        filter_push(Seq::<Seq<char>>::empty(), a, p);
        assert(Seq::<Seq<char>>::empty().push(a) =~= seq![a]);
        assert(Seq::<Seq<char>>::empty().filter(p) =~= Seq::<Seq<char>>::empty()) by {
            reveal(Seq::filter);
        }
    }
    if a.len() == 0 {
        let e = Seq::<char>::empty();
        assert(a =~= e);
        filter_push(Seq::<Seq<char>>::empty(), e, p);
        assert(Seq::<Seq<char>>::empty().push(e) =~= seq![e]);
        assert(Seq::<Seq<char>>::empty().filter(p) =~= Seq::<Seq<char>>::empty()) by {
            reveal(Seq::filter);
        }
        assert(split_on(a, '/') =~= seq![e]);
    }
}

proof fn filter_concat<A>(a: Seq<A>, b: Seq<A>, p: spec_fn(A) -> bool)
    ensures
        (a + b).filter(p) == a.filter(p) + b.filter(p),
    decreases b.len(),
{
    if b.len() == 0 {
        assert(a + b =~= a);
        assert(b.filter(p) =~= Seq::<A>::empty()) by {
            reveal(Seq::filter);
        }
        assert(a.filter(p) + b.filter(p) =~= a.filter(p));
    } else {
        let t = b.drop_last();
        filter_concat(a, t, p);
        assert(a + b =~= (a + t).push(b.last()));
        assert(b =~= t.push(b.last()));
        filter_push(a + t, b.last(), p);
        filter_push(t, b.last(), p);
        assert((a + b).filter(p) =~= a.filter(p) + b.filter(p));
    }
}

/// Joining puts the separator between each two texts, and nowhere else.
pub proof fn joining_puts_the_separator_in_between(
    list: Seq<Seq<char>>,
    x: Seq<char>,
    sep: Seq<char>,
)
    ensures
        join(Seq::<Seq<char>>::empty(), sep) == Seq::<char>::empty(),
        join(seq![x], sep) == x,
        list.len() > 0 ==> join(list.push(x), sep) == join(list, sep) + sep + x,
{
    if list.len() > 0 {
        assert(list.push(x).drop_last() =~= list);
    }
}

/// The views of strings hold their characters: of a list in its order, of an
/// optional string if there is one.
pub proof fn views_hold_the_characters(list: Seq<String>, t: Option<String>, i: int)
    requires
        0 <= i < list.len(),
    ensures
        texts_of(list).len() == list.len(),
        texts_of(list)[i] == list[i]@,
        text_of(t) is Some <==> t is Some,
        t matches Some(s) ==> text_of(t) == Some(s@),
{
}

/// The length of a text in bytes is that of its UTF-8 encoding.
pub proof fn lengths_are_those_of_utf8(s: Seq<char>)
    ensures
        byte_len(s) == vstd::utf8::encode_utf8(s).len(),
        s.len() == 0 ==> byte_len(s) == 0,
{
}

} // verus!
