//! How reply text turns into bytes on the wire.
//!
//! Replies are built as strings; the peer sees their UTF-8 encoding. The
//! lemmas here carry statements about text over to statements about bytes.

use crate::hex::{as_text, hex_bytes};
use vstd::prelude::*;
use vstd::utf8::*;

verus! {

/// The bytes that a text occupies on the wire.
pub open spec fn wire(text: Seq<char>) -> Seq<u8> {
    encode_utf8(text)
}

/// Every byte of `bytes` is below 128.
pub open spec fn is_ascii_bytes(bytes: Seq<u8>) -> bool {
    forall|i: int| 0 <= i < bytes.len() ==> #[trigger] bytes[i] < 128
}

/// Encoding distributes over concatenation.
pub proof fn lemma_wire_concat(a: Seq<char>, b: Seq<char>)
    ensures
        wire(a + b) == wire(a) + wire(b),
    decreases a.len(),
{
    if a.len() == 0 {
        assert(a + b =~= b);
        assert(wire(a) =~= Seq::<u8>::empty());
        assert(wire(a) + wire(b) =~= wire(b));
    } else {
        lemma_wire_concat(a.drop_first(), b);
        assert((a + b).drop_first() =~= a.drop_first() + b);
        assert((a + b)[0] == a[0]);
        assert(wire(a + b) =~= wire(a) + wire(b));
    }
}

/// ASCII bytes read as text encode back to themselves.
pub proof fn lemma_wire_as_text(bytes: Seq<u8>)
    requires
        is_ascii_bytes(bytes),
    ensures
        wire(as_text(bytes)) == bytes,
{
    let text = as_text(bytes);
    assert(is_ascii_chars(text)) by {
        assert forall|i: int| 0 <= i < text.len() implies '\0' <= #[trigger] text[i]
            <= '\u{7f}' by {
            assert(bytes[i] < 128);
        }
    }
    is_ascii_chars_encode_utf8(text);
    assert(wire(text) =~= bytes) by {
        assert forall|i: int| 0 <= i < bytes.len() implies wire(text)[i] == bytes[i] by {
            assert(text[i] as u8 == encode_utf8(text)[i]);
            assert(bytes[i] < 128);
        }
    }
}

/// Hexadecimal text is on the wire what it is as text: one byte per
/// digit.
pub proof fn lemma_hex_text_wire(data: Seq<u8>)
    ensures
        is_ascii_bytes(hex_bytes(data)),
        wire(as_text(hex_bytes(data))) == hex_bytes(data),
        wire(as_text(hex_bytes(data))).len() == 2 * data.len(),
{
    lemma_wire_as_text(hex_bytes(data));
}

} // verus!
