//! Text-level primitives of the wire format: the string-escaping rules
//! and the decimal rendering of byte values used inside message payloads.
//!
//! The payload encoding is a self-describing structured format; strings
//! are written between double quotes with `\"`, `\\`, `\b`, `\t`, `\n`,
//! `\f`, `\r` and `\u00XX` escapes for the bytes that cannot appear raw,
//! and byte arrays are written as comma-separated decimal values.

use vstd::prelude::*;

verus! {

/// Lower-case hexadecimal digit for a value below 16.
pub open spec fn spec_hex_digit(n: u8) -> u8
    recommends
        n < 16,
{
    if n < 10 {
        (0x30 + n) as u8
    } else {
        (0x61 + (n - 10)) as u8
    }
}

/// True for the bytes that may follow a backslash as a one-letter escape.
pub open spec fn is_simple_escape(b: u8) -> bool {
    b == 0x22 || b == 0x5c || b == 0x2f || b == 0x62 || b == 0x74 || b == 0x6e || b == 0x66
        || b == 0x72
}

/// The byte denoted by a one-letter escape.
pub open spec fn simple_escape_value(b: u8) -> u8
    recommends
        is_simple_escape(b),
{
    if b == 0x62 {
        0x08
    } else if b == 0x74 {
        0x09
    } else if b == 0x6e {
        0x0a
    } else if b == 0x66 {
        0x0c
    } else if b == 0x72 {
        0x0d
    } else {
        b
    }
}

/// How a single byte is written inside a quoted string.
pub open spec fn spec_escape_byte(b: u8) -> Seq<u8> {
    if b == 0x22 {
        seq![0x5cu8, 0x22u8]
    } else if b == 0x5c {
        seq![0x5cu8, 0x5cu8]
    } else if b == 0x08 {
        seq![0x5cu8, 0x62u8]
    } else if b == 0x09 {
        seq![0x5cu8, 0x74u8]
    } else if b == 0x0a {
        seq![0x5cu8, 0x6eu8]
    } else if b == 0x0c {
        seq![0x5cu8, 0x66u8]
    } else if b == 0x0d {
        seq![0x5cu8, 0x72u8]
    } else if b < 0x20 {
        seq![
            0x5cu8,
            0x75u8,
            0x30u8,
            0x30u8,
            spec_hex_digit((b >> 4) as u8),
            spec_hex_digit((b & 0xf) as u8),
        ]
    } else {
        seq![b]
    }
}

/// How a whole byte string is written inside a quoted string.
pub open spec fn spec_escape(s: Seq<u8>) -> Seq<u8>
    decreases s.len(),
{
    if s.len() == 0 {
        Seq::<u8>::empty()
    } else {
        spec_escape_byte(s[0]) + spec_escape(s.skip(1))
    }
}

/// True for lower-case hexadecimal digit bytes.
pub open spec fn is_hex_lower(b: u8) -> bool {
    (0x30 <= b && b <= 0x39) || (0x61 <= b && b <= 0x66)
}

/// Value of a lower-case hexadecimal digit byte.
pub open spec fn spec_hex_value(b: u8) -> u8
    recommends
        is_hex_lower(b),
{
    if b <= 0x39 {
        (b - 0x30) as u8
    } else {
        (b - 0x61 + 10) as u8
    }
}

/// Reading a quoted string's content back: `Some` exactly when the bytes
/// are a well-formed escaped string body, yielding the bytes it denotes.
pub open spec fn spec_unescape(b: Seq<u8>) -> Option<Seq<u8>>
    decreases b.len(),
{
    if b.len() == 0 {
        Some(Seq::<u8>::empty())
    } else if b[0] == 0x5c {
        if b.len() >= 2 && is_simple_escape(b[1]) {
            match spec_unescape(b.skip(2)) {
                Some(r) => Some(seq![simple_escape_value(b[1])] + r),
                None => None,
            }
        } else if b.len() >= 6 && b[1] == 0x75 && b[2] == 0x30 && b[3] == 0x30 && is_hex_lower(
            b[4],
        ) && is_hex_lower(b[5]) && spec_hex_value(b[4]) * 16 + spec_hex_value(b[5]) < 0x20 {
            match spec_unescape(b.skip(6)) {
                Some(r) => Some(
                    seq![(spec_hex_value(b[4]) * 16 + spec_hex_value(b[5])) as u8] + r,
                ),
                None => None,
            }
        } else {
            None
        }
    } else if b[0] == 0x22 || b[0] < 0x20 {
        None
    } else {
        match spec_unescape(b.skip(1)) {
            Some(r) => Some(seq![b[0]] + r),
            None => None,
        }
    }
}

/// Escaping distributes over concatenation.
pub proof fn lemma_escape_append(s: Seq<u8>, t: Seq<u8>)
    ensures
        spec_escape(s + t) == spec_escape(s) + spec_escape(t),
    decreases s.len(),
{
    if s.len() == 0 {
        assert(s + t =~= t);
        assert(spec_escape(s) + spec_escape(t) =~= spec_escape(t));
    } else {
        assert((s + t).skip(1) =~= s.skip(1) + t);
        lemma_escape_append(s.skip(1), t);
        assert(spec_escape(s + t) =~= spec_escape(s) + spec_escape(t));
    }
}

/// The hexadecimal digit of a value below 16 is a digit byte and reads
/// back as that value.
pub proof fn lemma_hex_digit_props(n: u8)
    requires
        n < 16,
    ensures
        is_hex_lower(spec_hex_digit(n)),
        spec_hex_value(spec_hex_digit(n)) == n,
{
}

/// Unescaping inverts escaping: the escaped form of any byte string is
/// well formed and denotes that byte string.
pub proof fn lemma_unescape_escape(s: Seq<u8>)
    ensures
        spec_unescape(spec_escape(s)) == Some(s),
    decreases s.len(),
{
    if s.len() == 0 {
        assert(spec_escape(s) =~= Seq::<u8>::empty());
    } else {
        let c = s[0];
        let e = spec_escape_byte(c);
        let rest = spec_escape(s.skip(1));
        let b = spec_escape(s);
        assert(b == e + rest);
        lemma_unescape_escape(s.skip(1));
        if c == 0x22 || c == 0x5c || c == 0x08 || c == 0x09 || c == 0x0a || c == 0x0c || c
            == 0x0d {
            assert(b.len() >= 2 && b[0] == 0x5c && is_simple_escape(b[1]));
            assert(b.skip(2) =~= rest);
            assert(simple_escape_value(b[1]) == c);
            assert(seq![c] + s.skip(1) =~= s);
        } else if c < 0x20 {
            assert(b.len() >= 6 && b[0] == 0x5c && b[1] == 0x75 && b[2] == 0x30 && b[3] == 0x30);
            assert((c >> 4) < 16 && (c & 0xf) < 16) by (bit_vector);
            lemma_hex_digit_props((c >> 4) as u8);
            lemma_hex_digit_props((c & 0xf) as u8);
            assert(b.skip(6) =~= rest);
            assert(((c >> 4) as u8) * 16 + ((c & 0xf) as u8) == c) by (bit_vector)
                requires
                    c < 0x20,
            ;
            assert(seq![c] + s.skip(1) =~= s);
        } else {
            assert(b[0] == c && !(c == 0x5c) && !(c == 0x22) && c >= 0x20);
            assert(b.skip(1) =~= rest);
            assert(seq![c] + s.skip(1) =~= s);
        }
    }
}

/// Decimal rendering of a byte value, without leading zeros.
pub open spec fn spec_dec_u8(n: u8) -> Seq<u8> {
    if n < 10 {
        seq![(0x30 + n) as u8]
    } else if n < 100 {
        seq![(0x30 + n / 10) as u8, (0x30 + n % 10) as u8]
    } else {
        seq![(0x30 + n / 100) as u8, (0x30 + (n / 10) % 10) as u8, (0x30 + n % 10) as u8]
    }
}

/// True for decimal digit bytes.
pub open spec fn is_digit(b: u8) -> bool {
    0x30 <= b && b <= 0x39
}

/// `Some` prefixed with a byte string, `None` kept as it is.
pub open spec fn prepend_bytes(a: Seq<u8>, r: Option<Seq<u8>>) -> Option<Seq<u8>> {
    match r {
        Some(s) => Some(a + s),
        None => None,
    }
}

pub(crate) proof fn lemma_prepend_empty(r: Option<Seq<u8>>)
    ensures
        prepend_bytes(Seq::<u8>::empty(), r) == r,
{
    match r {
        Some(s) => {
            assert(Seq::<u8>::empty() + s =~= s);
        },
        None => {},
    }
}

pub(crate) proof fn lemma_prepend_push(a: Seq<u8>, v: u8, r: Option<Seq<u8>>)
    ensures
        prepend_bytes(a, prepend_bytes(seq![v], r)) == prepend_bytes(a.push(v), r),
{
    match r {
        Some(s) => {
            assert(a + (seq![v] + s) =~= a.push(v) + s);
        },
        None => {},
    }
}

/// Lower-case hexadecimal digit of a value below 16.
fn hex_digit(n: u8) -> (r: u8)
    requires
        n < 16,
    ensures
        r == spec_hex_digit(n),
{
    if n < 10 {
        0x30 + n
    } else {
        0x61 + (n - 10)
    }
}

/// Value of a lower-case hexadecimal digit byte.
fn hex_value(b: u8) -> (r: u8)
    requires
        is_hex_lower(b),
    ensures
        r == spec_hex_value(b),
{
    if b <= 0x39 {
        b - 0x30
    } else {
        b - 0x61 + 10
    }
}

/// Writes a byte string in its escaped form.
pub fn escape_bytes(src: &Vec<u8>) -> (out: Vec<u8>)
    ensures
        out@ == spec_escape(src@),
{
    let mut out: Vec<u8> = Vec::new();
    let n = src.len();
    let mut i: usize = 0;
    while i < n
        invariant
            n == src.len(),
            i <= n,
            out@ == spec_escape(src@.take(i as int)),
        decreases n - i,
    {
        let b = src[i];
        proof {
            assert(src@.take(i as int + 1) =~= src@.take(i as int) + seq![src@[i as int]]);
            lemma_escape_append(src@.take(i as int), seq![src@[i as int]]);
            assert(seq![src@[i as int]].skip(1) =~= Seq::<u8>::empty());
            assert(spec_escape(Seq::<u8>::empty()) == Seq::<u8>::empty());
            assert(spec_escape(seq![src@[i as int]]) == spec_escape_byte(src@[i as int])
                + spec_escape(seq![src@[i as int]].skip(1)));
            assert(spec_escape(seq![src@[i as int]]) =~= spec_escape_byte(src@[i as int]));
        }
        if b == 0x22 {
            out.push(0x5c);
            out.push(0x22);
        } else if b == 0x5c {
            out.push(0x5c);
            out.push(0x5c);
        } else if b == 0x08 {
            out.push(0x5c);
            out.push(0x62);
        } else if b == 0x09 {
            out.push(0x5c);
            out.push(0x74);
        } else if b == 0x0a {
            out.push(0x5c);
            out.push(0x6e);
        } else if b == 0x0c {
            out.push(0x5c);
            out.push(0x66);
        } else if b == 0x0d {
            out.push(0x5c);
            out.push(0x72);
        } else if b < 0x20 {
            proof {
                assert((b >> 4) < 16 && (b & 0xf) < 16) by (bit_vector);
            }
            out.push(0x5c);
            out.push(0x75);
            out.push(0x30);
            out.push(0x30);
            out.push(hex_digit(b >> 4));
            out.push(hex_digit(b & 0xf));
        } else {
            out.push(b);
        }
        proof {
            assert(out@ =~= spec_escape(src@.take(i as int + 1)));
        }
        i = i + 1;
    }
    proof {
        assert(src@.take(n as int) =~= src@);
    }
    out
}

/// Reads an escaped string body back; `None` exactly when it is not well
/// formed.
pub fn unescape_bytes(src: &Vec<u8>) -> (out: Option<Vec<u8>>)
    ensures
        out matches Some(v) ==> spec_unescape(src@) == Some(v@),
        out is None ==> spec_unescape(src@) is None,
{
    let mut acc: Vec<u8> = Vec::new();
    let n = src.len();
    let mut i: usize = 0;
    proof {
        assert(src@.skip(0) =~= src@);
        lemma_prepend_empty(spec_unescape(src@));
    }
    while i < n
        invariant
            n == src.len(),
            i <= n,
            spec_unescape(src@) == prepend_bytes(acc@, spec_unescape(src@.skip(i as int))),
        decreases n - i,
    {
        let b = src[i];
        let ghost tail = src@.skip(i as int);
        proof {
            assert(tail[0] == src@[i as int]);
        }
        if b == 0x5c {
            if n - i < 2 {
                proof {
                    assert(tail.len() < 2);
                    assert(spec_unescape(tail) is None);
                }
                return None;
            }
            let e = src[i + 1];
            proof {
                assert(tail[1] == src@[i as int + 1]);
            }
            if e == 0x22 || e == 0x5c || e == 0x2f || e == 0x62 || e == 0x74 || e == 0x6e || e
                == 0x66 || e == 0x72 {
                let v = if e == 0x62 {
                    0x08u8
                } else if e == 0x74 {
                    0x09u8
                } else if e == 0x6e {
                    0x0au8
                } else if e == 0x66 {
                    0x0cu8
                } else if e == 0x72 {
                    0x0du8
                } else {
                    e
                };
                proof {
                    assert(v == simple_escape_value(tail[1]));
                    assert(tail.skip(2) =~= src@.skip(i as int + 2));
                    assert(spec_unescape(tail) == prepend_bytes(
                        seq![v],
                        spec_unescape(src@.skip(i as int + 2)),
                    ));
                    lemma_prepend_push(acc@, v, spec_unescape(src@.skip(i as int + 2)));
                }
                acc.push(v);
                i = i + 2;
            } else if e == 0x75 {
                if n - i < 6 {
                    proof {
                        assert(tail.len() < 6);
                        assert(!is_simple_escape(tail[1]));
                        assert(spec_unescape(tail) is None);
                    }
                    return None;
                }
                let d2 = src[i + 2];
                let d3 = src[i + 3];
                let d4 = src[i + 4];
                let d5 = src[i + 5];
                proof {
                    assert(tail[2] == src@[i as int + 2]);
                    assert(tail[3] == src@[i as int + 3]);
                    assert(tail[4] == src@[i as int + 4]);
                    assert(tail[5] == src@[i as int + 5]);
                }
                if d2 != 0x30 || d3 != 0x30 {
                    return None;
                }
                let d4_hex = (0x30 <= d4 && d4 <= 0x39) || (0x61 <= d4 && d4 <= 0x66);
                let d5_hex = (0x30 <= d5 && d5 <= 0x39) || (0x61 <= d5 && d5 <= 0x66);
                if !d4_hex || !d5_hex {
                    return None;
                }
                let v = hex_value(d4) * 16 + hex_value(d5);
                if v >= 0x20 {
                    return None;
                }
                proof {
                    assert(tail.skip(6) =~= src@.skip(i as int + 6));
                    assert(spec_unescape(tail) == prepend_bytes(
                        seq![v],
                        spec_unescape(src@.skip(i as int + 6)),
                    ));
                    lemma_prepend_push(acc@, v, spec_unescape(src@.skip(i as int + 6)));
                }
                acc.push(v);
                i = i + 6;
            } else {
                proof {
                    assert(!is_simple_escape(tail[1]) && tail[1] != 0x75);
                    assert(spec_unescape(tail) is None);
                }
                return None;
            }
        } else if b == 0x22 || b < 0x20 {
            proof {
                assert(spec_unescape(tail) is None);
            }
            return None;
        } else {
            proof {
                assert(tail.skip(1) =~= src@.skip(i as int + 1));
                assert(spec_unescape(tail) == prepend_bytes(
                    seq![b],
                    spec_unescape(src@.skip(i as int + 1)),
                ));
                lemma_prepend_push(acc@, b, spec_unescape(src@.skip(i as int + 1)));
            }
            acc.push(b);
            i = i + 1;
        }
    }
    proof {
        assert(src@.skip(n as int) =~= Seq::<u8>::empty());
        assert(acc@ + Seq::<u8>::empty() =~= acc@);
    }
    Some(acc)
}

} // verus!
