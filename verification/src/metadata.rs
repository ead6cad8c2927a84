//! The title carried by a metadata block.
//!
//! A block is text of the form `StreamTitle='...';StreamUrl='...';`, padded
//! with zero bytes. The title is what stands between the first `StreamTitle='`
//! and the first `';` after it.

use crate::search::{find, find_first, first_occurrence, lemma_find_none, occurs_at};
use crate::text::{blank, is_blank};
use vstd::prelude::*;
use vstd::string::StringSliceAdditionalSpecFns;
use vstd::utf8::*;

verus! {

/// The marker that opens the title field: `StreamTitle='`.
pub const TITLE_OPEN: [u8; 13] = [
    0x53, 0x74, 0x72, 0x65, 0x61, 0x6D, 0x54, 0x69, 0x74, 0x6C, 0x65, 0x3D, 0x27,
];

/// The marker that closes a field: `';`.
pub const FIELD_CLOSE: [u8; 2] = [0x27, 0x3B];

/// The bytes of the title field of `block`: what follows the first opening
/// marker, up to the first closing marker after it.
pub open spec fn title_field(block: Seq<u8>) -> Option<Seq<u8>> {
    match find(block, TITLE_OPEN@) {
        Some(open) => {
            let rest = block.skip(open + TITLE_OPEN@.len());
            match find(rest, FIELD_CLOSE@) {
                Some(close) => Some(rest.take(close)),
                None => None,
            }
        },
        None => None,
    }
}

/// The title that `block` carries, if any: the block is valid UTF-8, has a
/// title field, and the field holds more than white space.
pub open spec fn block_title(block: Seq<u8>) -> Option<Seq<char>> {
    if !valid_utf8(block) {
        None
    } else {
        match title_field(block) {
            Some(field) => if is_blank(decode_utf8(field)) {
                None
            } else {
                Some(decode_utf8(field))
            },
            None => None,
        }
    }
}

/// A block shorter than the opening marker carries no title.
pub proof fn lemma_short_block_is_silent(block: Seq<u8>)
    requires
        block.len() < TITLE_OPEN@.len(),
    ensures
        block_title(block) is None,
{
    assert forall|at: int| !occurs_at(block, TITLE_OPEN@, at) by {}
    lemma_find_none(block, TITLE_OPEN@);
}

/// In valid UTF-8 a character starts at every ASCII byte, and another one, or
/// the end of the text, right after it.
proof fn lemma_ascii_byte_is_boundary(bytes: Seq<u8>, at: int)
    requires
        valid_utf8(bytes),
        0 <= at < bytes.len(),
        bytes[at] < 0x80,
    ensures
        is_char_boundary(bytes, at),
        is_char_boundary(bytes, at + 1),
{
    is_char_boundary_iff_not_is_continuation_byte(bytes, at);
    if at + 1 == bytes.len() {
        is_char_boundary_start_end_of_seq(bytes);
    } else {
        valid_utf8_split(bytes, at);
        let tail = bytes.subrange(at, bytes.len() as int);
        assert(tail[0] == bytes[at]);
        assert(valid_first_scalar(tail));
        assert(length_of_first_scalar(tail) == 1);
        let after = pop_first_scalar(tail);
        assert(after =~= bytes.subrange(at + 1, bytes.len() as int));
        assert(valid_utf8(after));
        assert(valid_first_scalar(after));
        assert(after[0] == bytes[at + 1]);
        assert(!is_continuation_byte(bytes[at + 1]));
        is_char_boundary_iff_not_is_continuation_byte(bytes, at + 1);
    }
}

/// Extracts the title from a metadata block.
pub fn extract_title(block: Vec<u8>) -> (title: Option<String>)
    ensures
        match title {
            Some(t) => block_title(block@) == Some(t@),
            None => block_title(block@) is None,
        },
{
    let text: String = match String::from_utf8(block) {
        Ok(text) => text,
        Err(_) => {
            return None;
        },
    };
    let text: &str = text.as_str();
    let bytes: &[u8] = text.as_bytes();
    proof {
        decode_utf8_encode_utf8(block@);
    }
    let open: usize = match find_first(bytes, TITLE_OPEN.as_slice()) {
        Some(open) => open,
        None => {
            return None;
        },
    };
    let start: usize = open + TITLE_OPEN.len();
    proof {
        // The marker ends in a quote, so the field starts at a character.
        assert(first_occurrence(bytes@, TITLE_OPEN@, open as int));
        let marker = bytes@.subrange(open as int, start as int);
        assert(marker[12] == bytes@[start - 1]);
        lemma_ascii_byte_is_boundary(bytes@, start - 1);
    }
    let (_, rest) = text.split_at(start);
    let rest_bytes: &[u8] = rest.as_bytes();
    let close: usize = match find_first(rest_bytes, FIELD_CLOSE.as_slice()) {
        Some(close) => close,
        None => {
            return None;
        },
    };
    proof {
        // The marker starts with a quote, so the field ends at a character.
        assert(first_occurrence(rest_bytes@, FIELD_CLOSE@, close as int));
        let marker = rest_bytes@.subrange(close as int, close + 2);
        assert(marker[0] == rest_bytes@[close as int]);
        encode_utf8_valid_utf8(rest@);
        lemma_ascii_byte_is_boundary(rest_bytes@, close as int);
    }
    let (field, _) = rest.split_at(close);
    proof {
        assert(field.spec_bytes() == block@.skip(start as int).take(close as int));
        encode_utf8_decode_utf8(field@);
    }
    if blank(field) {
        None
    } else {
        Some(field.to_owned())
    }
}

} // verus!
