//! Hexadecimal text: the encoding in which the protocol carries register
//! contents, memory, numbers and console output.

use vstd::prelude::*;
use vstd::string::*;

verus! {

/// The lowercase hexadecimal digit for a value below 16, as an ASCII byte.
pub open spec fn hex_digit(n: int) -> u8 {
    if 0 <= n < 10 {
        (48 + n) as u8
    } else {
        (87 + n) as u8
    }
}

/// The two lowercase digits of one byte, high nibble first.
pub open spec fn hex_pair(b: u8) -> Seq<u8> {
    seq![hex_digit(b as int / 16), hex_digit(b as int % 16)]
}

/// The hexadecimal encoding of a byte string: two lowercase digits per byte.
pub open spec fn hex_bytes(data: Seq<u8>) -> Seq<u8> {
    Seq::new(
        2 * data.len(),
        |i: int|
            if i % 2 == 0 {
                hex_digit(data[i / 2] as int / 16)
            } else {
                hex_digit(data[i / 2] as int % 16)
            },
    )
}

/// A byte string read as text, each byte standing for the character with
/// that code.
pub open spec fn as_text(bytes: Seq<u8>) -> Seq<char> {
    Seq::new(bytes.len(), |i: int| bytes[i] as char)
}

/// The value of a hexadecimal digit of either case, if `c` is one.
pub open spec fn hex_val(c: u8) -> Option<int> {
    if 0x30 <= c <= 0x39 {
        Some(c - 0x30)
    } else if 0x61 <= c <= 0x66 {
        Some(c - 0x61 + 10)
    } else if 0x41 <= c <= 0x46 {
        Some(c - 0x41 + 10)
    } else {
        None
    }
}

/// Every byte of `text` is a hexadecimal digit.
pub open spec fn is_hex_text(text: Seq<u8>) -> bool {
    forall|i: int| 0 <= i < text.len() ==> (#[trigger] hex_val(text[i])) is Some
}

/// The byte string that an even-length hexadecimal text stands for.
pub open spec fn unhex(text: Seq<u8>) -> Seq<u8> {
    Seq::new(
        text.len() / 2,
        |i: int| (hex_val(text[2 * i]).unwrap() * 16 + hex_val(text[2 * i + 1]).unwrap()) as u8,
    )
}

/// What a hexadecimal text decodes to: its bytes, if it pairs up and holds
/// hexadecimal digits only.
pub open spec fn decoded_hex(text: Seq<u8>) -> Option<Seq<u8>> {
    if text.len() % 2 == 0 && is_hex_text(text) {
        Some(unhex(text))
    } else {
        None
    }
}

/// The number that a hexadecimal text denotes, most significant digit first.
pub open spec fn hex_number(text: Seq<u8>) -> nat
    decreases text.len(),
{
    if text.len() == 0 {
        0
    } else {
        (hex_number(text.drop_last()) * 16 + hex_val(text.last()).unwrap()) as nat
    }
}

/// The number that a text denotes, if it is a non-empty run of
/// hexadecimal digits whose value fits in 64 bits.
pub open spec fn parsed_hex(text: Seq<u8>) -> Option<u64> {
    if text.len() > 0 && is_hex_text(text) && hex_number(text) <= u64::MAX {
        Some(hex_number(text) as u64)
    } else {
        None
    }
}

/// The shortest lowercase hexadecimal text of a number.
pub open spec fn number_hex(n: nat) -> Seq<u8>
    decreases n,
{
    if n < 16 {
        seq![hex_digit(n as int)]
    } else {
        number_hex(n / 16).push(hex_digit((n % 16) as int))
    }
}

/// One lowercase hexadecimal digit as a string slice.
pub fn hex_digit_str(n: u8) -> (s: &'static str)
    requires
        n < 16,
    ensures
        s@ == seq![hex_digit(n as int) as char],
{
    proof {
        reveal_strlit("0");
        reveal_strlit("1");
        reveal_strlit("2");
        reveal_strlit("3");
        reveal_strlit("4");
        reveal_strlit("5");
        reveal_strlit("6");
        reveal_strlit("7");
        reveal_strlit("8");
        reveal_strlit("9");
        reveal_strlit("a");
        reveal_strlit("b");
        reveal_strlit("c");
        reveal_strlit("d");
        reveal_strlit("e");
        reveal_strlit("f");
    }
    let s = match n {
        0 => "0",
        1 => "1",
        2 => "2",
        3 => "3",
        4 => "4",
        5 => "5",
        6 => "6",
        7 => "7",
        8 => "8",
        9 => "9",
        10 => "a",
        11 => "b",
        12 => "c",
        13 => "d",
        14 => "e",
        _ => "f",
    };
    assert(s@ =~= seq![hex_digit(n as int) as char]);
    s
}

/// Appends the two lowercase digits of `b` to `s`.
pub fn push_hex_pair(s: &mut String, b: u8)
    ensures
        final(s)@ == old(s)@ + as_text(hex_pair(b)),
{
    s.append(hex_digit_str(b / 16));
    s.append(hex_digit_str(b % 16));
    assert(final(s)@ =~= old(s)@ + as_text(hex_pair(b)));
}

/// Encodes a byte string as lowercase hexadecimal text.
pub fn hex_encode(data: &[u8]) -> (text: String)
    ensures
        text@ == as_text(hex_bytes(data@)),
{
    let mut text = String::new();
    let mut i: usize = 0;
    while i < data.len()
        invariant
            i <= data.len(),
            text@ == as_text(hex_bytes(data@.take(i as int))),
        decreases data.len() - i,
    {
        push_hex_pair(&mut text, data[i]);
        proof {
            assert(text@ =~= as_text(hex_bytes(data@.take(i + 1))));
        }
        i = i + 1;
    }
    proof {
        assert(data@.take(i as int) =~= data@);
    }
    text
}

/// The value of a hexadecimal digit of either case, or `None` for any
/// other byte.
pub fn hex_value(c: u8) -> (v: Option<u8>)
    ensures
        v is Some <==> hex_val(c) is Some,
        v is Some ==> v.unwrap() == hex_val(c).unwrap() && v.unwrap() < 16,
{
    if 0x30 <= c && c <= 0x39 {
        Some(c - 0x30)
    } else if 0x61 <= c && c <= 0x66 {
        Some(c - 0x61 + 10)
    } else if 0x41 <= c && c <= 0x46 {
        Some(c - 0x41 + 10)
    } else {
        None
    }
}

/// Decodes hexadecimal text into the bytes it stands for. The text must
/// pair up: an odd length, or any byte that is no hexadecimal digit, gives
/// `None`.
pub fn hex_decode(text: &[u8]) -> (data: Option<Vec<u8>>)
    ensures
        data is Some <==> decoded_hex(text@) is Some,
        data is Some ==> data.unwrap()@ == decoded_hex(text@).unwrap(),
{
    if text.len() % 2 != 0 {
        return None;
    }
    let mut data: Vec<u8> = Vec::new();
    let mut i: usize = 0;
    while i < text.len()
        invariant
            i <= text.len(),
            i % 2 == 0,
            text@.len() % 2 == 0,
            is_hex_text(text@.take(i as int)),
            data@ == unhex(text@.take(i as int)),
        decreases text.len() - i,
    {
        let hi = hex_value(text[i]);
        let lo = hex_value(text[i + 1]);
        match (hi, lo) {
            (Some(h), Some(l)) => {
                data.push(h * 16 + l);
                proof {
                    let before = text@.take(i as int);
                    let after = text@.take(i + 2);
                    assert forall|k: int| 0 <= k < after.len() implies (#[trigger] hex_val(
                        after[k],
                    )) is Some by {
                        if k < i {
                            assert(after[k] == before[k]);
                        }
                    }
                    assert(data@ =~= unhex(after)) by {
                        assert forall|k: int| 0 <= k < i / 2 implies unhex(before)[k] == unhex(
                            after,
                        )[k] by {
                            assert(before[2 * k] == after[2 * k]);
                            assert(before[2 * k + 1] == after[2 * k + 1]);
                        }
                    }
                }
                i = i + 2;
            },
            _ => {
                proof {
                    let bad = if hi is None { i as int } else { i + 1 };
                    assert(hex_val(text@[bad]) is None);
                }
                return None;
            },
        }
    }
    proof {
        assert(text@.take(i as int) =~= text@);
    }
    Some(data)
}

/// A longer hexadecimal text denotes no smaller a number than any of its
/// prefixes.
pub proof fn lemma_hex_number_prefix(text: Seq<u8>, k: int)
    requires
        0 <= k <= text.len(),
        is_hex_text(text),
    ensures
        hex_number(text.take(k)) <= hex_number(text),
    decreases text.len(),
{
    if k == text.len() {
        assert(text.take(k) =~= text);
    } else {
        let shorter = text.drop_last();
        assert(is_hex_text(shorter)) by {
            assert forall|i: int| 0 <= i < shorter.len() implies (#[trigger] hex_val(
                shorter[i],
            )) is Some by {
                assert(shorter[i] == text[i]);
            }
        }
        lemma_hex_number_prefix(shorter, k);
        assert(shorter.take(k) =~= text.take(k));
        assert(hex_val(text.last()) is Some);
    }
}

/// Reads a hexadecimal number, most significant digit first. The text must
/// be a non-empty run of hexadecimal digits whose value fits in 64 bits.
pub fn parse_hex(text: &[u8]) -> (value: Option<u64>)
    ensures
        value == parsed_hex(text@),
{
    if text.len() == 0 {
        return None;
    }
    let mut acc: u64 = 0;
    let mut i: usize = 0;
    while i < text.len()
        invariant
            i <= text.len(),
            is_hex_text(text@.take(i as int)),
            acc == hex_number(text@.take(i as int)),
        decreases text.len() - i,
    {
        proof {
            assert(text@.take(i + 1).drop_last() =~= text@.take(i as int));
            assert(text@.take(i + 1).last() == text@[i as int]);
        }
        match hex_value(text[i]) {
            Some(d) => {
                proof {
                    let after = text@.take(i + 1);
                    assert forall|k: int| 0 <= k < after.len() implies (#[trigger] hex_val(
                        after[k],
                    )) is Some by {
                        if k < i {
                            assert(after[k] == text@.take(i as int)[k]);
                        }
                    }
                }
                if acc > (u64::MAX - d as u64) / 16 {
                    proof {
                        if is_hex_text(text@) {
                            lemma_hex_number_prefix(text@, i + 1);
                        }
                    }
                    return None;
                }
                acc = acc * 16 + d as u64;
                i = i + 1;
            },
            None => {
                proof {
                    assert(hex_val(text@[i as int]) is None);
                }
                return None;
            },
        }
    }
    proof {
        assert(text@.take(i as int) =~= text@);
    }
    Some(acc)
}

/// Appends the shortest lowercase hexadecimal text of `n` to `s`.
pub fn push_number_hex(s: &mut String, n: usize)
    ensures
        final(s)@ == old(s)@ + as_text(number_hex(n as nat)),
    decreases n,
{
    if n >= 16 {
        push_number_hex(s, n / 16);
    }
    s.append(hex_digit_str((n % 16) as u8));
    proof {
        let tail = as_text(seq![hex_digit((n % 16) as int)]);
        if n >= 16 {
            assert(as_text(number_hex(n as nat)) =~= as_text(number_hex((n / 16) as nat)) + tail);
        } else {
            assert(as_text(number_hex(n as nat)) =~= tail);
        }
        assert(final(s)@ =~= old(s)@ + as_text(number_hex(n as nat)));
    }
}

} // verus!
