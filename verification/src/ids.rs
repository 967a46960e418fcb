//! Ids for jobs, nodes and transfers.

use crate::downloader;
use vstd::prelude::*;

verus! {

/// The places of the hyphens in an id.
pub open spec fn is_hyphen_place(i: int) -> bool {
    i == 8 || i == 13 || i == 18 || i == 23
}

/// A lower-case hexadecimal digit.
pub open spec fn is_hex_digit(c: char) -> bool {
    '0' <= c <= '9' || 'a' <= c <= 'f'
}

/// Whether a text has the form of a random UUID: hexadecimal digits in groups
/// of 8, 4, 4, 4 and 12 with hyphens between them, with the version 4 and the
/// variant in their places.
pub open spec fn is_random_id(s: Seq<char>) -> bool {
    &&& s.len() == 36
    &&& forall|i: int|
        0 <= i < 36 ==> if is_hyphen_place(i) {
            #[trigger] s[i] == '-'
        } else {
            is_hex_digit(s[i])
        }
    &&& s[14] == '4'
    &&& s[19] == '8' || s[19] == '9' || s[19] == 'a' || s[19] == 'b'
}

/// `Uuid::new_v4` of the `uuid` crate, as its `Display` writes it: a text of
/// the form of a random UUID. That two ids differ is a matter of chance and is
/// not stated; nor is that the operating system has random bytes to give, for
/// want of which the call panics.
#[verifier::external_body]
pub(crate) fn new_id() -> (r: String)
    ensures
        is_random_id(r@),
{
    uuid::Uuid::new_v4().to_string()
}

/// So many new ids.
pub fn new_ids(n: usize) -> (r: Vec<String>)
    ensures
        r@.len() == n,
        forall|i: int| 0 <= i < n ==> is_random_id((#[trigger] r@[i])@),
{
    let mut ids: Vec<String> = Vec::new();
    for k in 0..n
        invariant
            ids@.len() == k,
            forall|i: int| 0 <= i < k ==> is_random_id((#[trigger] ids@[i])@),
    {
        ids.push(new_id());
    }
    ids
}

/// The id of a job names a directory: its start can be cut off, and is eight
/// characters without a slash.
pub proof fn ids_name_directories(id: Seq<char>)
    requires
        is_random_id(id),
    ensures
        downloader::id_can_be_cut(id),
        downloader::id_start(id) == id.take(8),
        !downloader::id_start(id).contains('/'),
{
    let bytes = vstd::utf8::encode_utf8(id);
    assert(vstd::utf8::is_ascii_chars(id)) by {
        assert forall|i: int| 0 <= i < id.len() implies '\0' <= #[trigger] id[i] <= '\u{7f}' by {
            assert(id[i] == '-' || is_hex_digit(id[i]));
        }
    }
    vstd::utf8::is_ascii_chars_encode_utf8(id);
    vstd::utf8::encode_utf8_valid_utf8(id);
    assert(id[8] == '-');
    assert(bytes[8] == '-' as u8);
    assert(!vstd::utf8::is_continuation_byte('-' as u8)) by {
        assert(0x2du8 & 0xc0u8 != 0x80u8) by (bit_vector);
    }
    vstd::utf8::is_char_boundary_iff_not_is_continuation_byte(bytes, 8);
    let head = id.take(8);
    assert(vstd::utf8::is_ascii_chars(head));
    vstd::utf8::is_ascii_chars_encode_utf8(head);
    assert(bytes.subrange(0, 8) =~= vstd::utf8::encode_utf8(head)) by {
        assert forall|i: int| 0 <= i < 8 implies #[trigger] bytes[i] == vstd::utf8::encode_utf8(
            head,
        )[i] by {
            assert(head[i] == id[i]);
        }
    }
    vstd::utf8::encode_utf8_decode_utf8(head);
    assert forall|i: int| 0 <= i < 8 implies head[i] != '/' by {
        assert(is_hex_digit(id[i]));
    }
}

} // verus!
