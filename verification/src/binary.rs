//! The escaping of raw bytes inside a binary payload.
//!
//! `}` announces an escaped byte, which follows it XORed with `0x20`.
//! A sender escapes `#`, `$` and `}` itself.

use vstd::prelude::*;

verus! {

/// `}`, the escape byte.
pub const ESCAPE: u8 = 0x7d;

/// The bit that an escaped byte has flipped.
pub const ESCAPE_MASK: u8 = 0x20;

/// A byte that a sender must escape.
pub open spec fn needs_escape(b: u8) -> bool {
    b == 0x23 || b == 0x24 || b == ESCAPE
}

/// The escaped form of a byte string.
pub open spec fn escaped(data: Seq<u8>) -> Seq<u8>
    decreases data.len(),
{
    if data.len() == 0 {
        Seq::<u8>::empty()
    } else if needs_escape(data[0]) {
        seq![ESCAPE, data[0] ^ ESCAPE_MASK] + escaped(data.skip(1))
    } else {
        seq![data[0]] + escaped(data.skip(1))
    }
}

/// The bytes that an escaped string stands for, or `None` where it ends
/// in an escape byte with nothing behind it.
pub open spec fn unescaped(data: Seq<u8>) -> Option<Seq<u8>>
    decreases data.len(),
{
    if data.len() == 0 {
        Some(Seq::<u8>::empty())
    } else if data[0] == ESCAPE {
        if data.len() < 2 {
            None
        } else {
            match unescaped(data.skip(2)) {
                Some(rest) => Some(seq![data[1] ^ ESCAPE_MASK] + rest),
                None => None,
            }
        }
    } else {
        match unescaped(data.skip(1)) {
            Some(rest) => Some(seq![data[0]] + rest),
            None => None,
        }
    }
}

/// What `unescaped` makes of the whole, given what it makes of the part
/// from `i` on and the bytes `done` that the part before `i` stands for.
pub open spec fn resumed(done: Seq<u8>, tail: Option<Seq<u8>>) -> Option<Seq<u8>> {
    match tail {
        Some(rest) => Some(done + rest),
        None => None,
    }
}

/// Escapes `#`, `$` and `}` in `data`.
pub fn escape(data: &[u8]) -> (out: Vec<u8>)
    ensures
        out@ == escaped(data@),
{
    let mut out: Vec<u8> = Vec::new();
    let mut i: usize = 0;
    proof {
        assert(data@.skip(0) =~= data@);
        assert(out@ + escaped(data@) =~= escaped(data@));
    }
    while i < data.len()
        invariant
            i <= data.len(),
            escaped(data@) == out@ + escaped(data@.skip(i as int)),
        decreases data.len() - i,
    {
        let b = data[i];
        proof {
            let tail = data@.skip(i as int);
            assert(tail[0] == b);
            assert(tail.skip(1) =~= data@.skip(i + 1));
        }
        let ghost before = out@;
        if b == 0x23 || b == 0x24 || b == ESCAPE {
            out.push(ESCAPE);
            out.push(b ^ ESCAPE_MASK);
            assert(out@ + escaped(data@.skip(i + 1)) =~= before + (seq![ESCAPE, b ^ ESCAPE_MASK]
                + escaped(data@.skip(i + 1))));
        } else {
            out.push(b);
            assert(out@ + escaped(data@.skip(i + 1)) =~= before + (seq![b] + escaped(
                data@.skip(i + 1),
            )));
        }
        i = i + 1;
    }
    proof {
        assert(data@.skip(i as int) =~= Seq::<u8>::empty());
        assert(out@ + Seq::<u8>::empty() =~= out@);
    }
    out
}

/// Undoes the escaping of a binary payload. An escape byte at the very
/// end has nothing to apply to and gives `None`.
pub fn unescape(data: &[u8]) -> (out: Option<Vec<u8>>)
    ensures
        out is Some <==> unescaped(data@) is Some,
        out is Some ==> out.unwrap()@ == unescaped(data@).unwrap(),
{
    let mut out: Vec<u8> = Vec::new();
    let mut i: usize = 0;
    proof {
        assert(data@.skip(0) =~= data@);
        match unescaped(data@) {
            Some(rest) => {
                assert(out@ + rest =~= rest);
            },
            None => {},
        }
    }
    while i < data.len()
        invariant
            i <= data.len(),
            unescaped(data@) == resumed(out@, unescaped(data@.skip(i as int))),
        decreases data.len() - i,
    {
        let b = data[i];
        let ghost tail = data@.skip(i as int);
        let ghost before = out@;
        proof {
            assert(tail[0] == b);
        }
        if b == ESCAPE {
            if i + 1 >= data.len() {
                proof {
                    assert(tail.len() == 1);
                }
                return None;
            }
            let c = data[i + 1];
            out.push(c ^ ESCAPE_MASK);
            proof {
                assert(tail[1] == c);
                assert(tail.skip(2) =~= data@.skip(i + 2));
                match unescaped(data@.skip(i + 2)) {
                    Some(rest) => {
                        assert(out@ + rest =~= before + (seq![c ^ ESCAPE_MASK] + rest));
                    },
                    None => {},
                }
            }
            i = i + 2;
        } else {
            out.push(b);
            proof {
                assert(tail.skip(1) =~= data@.skip(i + 1));
                match unescaped(data@.skip(i + 1)) {
                    Some(rest) => {
                        assert(out@ + rest =~= before + (seq![b] + rest));
                    },
                    None => {},
                }
            }
            i = i + 1;
        }
    }
    proof {
        assert(data@.skip(i as int) =~= Seq::<u8>::empty());
        assert(out@ + Seq::<u8>::empty() =~= out@);
    }
    Some(out)
}

/// Escaping can always be undone, and gives back the bytes that were
/// escaped.
pub proof fn lemma_escape_round_trip(data: Seq<u8>)
    ensures
        unescaped(escaped(data)) == Some(data),
    decreases data.len(),
{
    if data.len() == 0 {
    } else {
        let b = data[0];
        let rest = data.skip(1);
        lemma_escape_round_trip(rest);
        let enc = escaped(data);
        if needs_escape(b) {
            assert(enc.skip(2) =~= escaped(rest));
            assert(enc[0] == ESCAPE);
            assert(enc[1] == b ^ ESCAPE_MASK);
            assert((b ^ 0x20u8) ^ 0x20u8 == b) by (bit_vector);
            assert(seq![b] + rest =~= data);
        } else {
            assert(enc.skip(1) =~= escaped(rest));
            assert(enc[0] == b);
            assert(seq![b] + rest =~= data);
        }
    }
}

/// Bytes without `}` stand for themselves.
pub proof fn lemma_unescaped_plain(data: Seq<u8>)
    requires
        forall|i: int| 0 <= i < data.len() ==> data[i] != ESCAPE,
    ensures
        unescaped(data) == Some(data),
    decreases data.len(),
{
    if data.len() > 0 {
        lemma_unescaped_plain(data.skip(1));
        assert(seq![data[0]] + data.skip(1) =~= data);
    }
}

} // verus!
