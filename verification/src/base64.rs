use vstd::prelude::*;

use crate::text::string_push;

verus! {

/// The character for the 6-bit value `i` in the standard Base64 alphabet
/// (A–Z, a–z, 0–9, '+', '/').
pub open spec fn base64_symbol(i: int) -> char {
    if i < 26 {
        ('A' as int + i) as char
    } else if i < 52 {
        ('a' as int + (i - 26)) as char
    } else if i < 62 {
        ('0' as int + (i - 52)) as char
    } else if i == 62 {
        '+'
    } else {
        '/'
    }
}

/// `c` belongs to the Base64 alphabet or is the padding character '='.
pub open spec fn is_base64_char(c: char) -> bool {
    ('A' <= c && c <= 'Z') || ('a' <= c && c <= 'z') || ('0' <= c && c <= '9') || c == '+' || c
        == '/' || c == '='
}

/// The 24-bit value of a group of one to three bytes, missing bytes read as 0.
pub open spec fn group_value(g: Seq<u8>) -> int {
    g[0] * 65536 + (if g.len() > 1 {
        g[1] as int
    } else {
        0
    }) * 256 + (if g.len() > 2 {
        g[2] as int
    } else {
        0
    })
}

/// The four characters encoding a group of one to three bytes; the positions
/// that only missing bytes would fill are '='.
pub open spec fn encode_group(g: Seq<u8>) -> Seq<char> {
    let t = group_value(g);
    seq![
        base64_symbol((t / 262144) % 64),
        base64_symbol((t / 4096) % 64),
        if g.len() > 1 {
            base64_symbol((t / 64) % 64)
        } else {
            '='
        },
        if g.len() > 2 {
            base64_symbol(t % 64)
        } else {
            '='
        },
    ]
}

/// Standard padded Base64 (RFC 4648) of `d`: each group of three bytes, the
/// last one possibly shorter, gives four characters.
pub open spec fn base64_of(d: Seq<u8>) -> Seq<char>
    decreases d.len(),
{
    if d.len() == 0 {
        seq![]
    } else if d.len() <= 3 {
        encode_group(d)
    } else {
        encode_group(d.take(3)) + base64_of(d.skip(3))
    }
}

fn symbol(i: u32) -> (c: char)
    requires
        i < 64,
    ensures
        c == base64_symbol(i as int),
{
    if i < 26 {
        ((i as u8) + 65) as char
    } else if i < 52 {
        ((i as u8) - 26 + 97) as char
    } else if i < 62 {
        ((i as u8) - 52 + 48) as char
    } else if i == 62 {
        '+'
    } else {
        '/'
    }
}

proof fn lemma_group_bits(b0: u32, b1: u32, b2: u32)
    by (bit_vector)
    requires
        b0 < 256,
        b1 < 256,
        b2 < 256,
    ensures
        ((b0 << 16) | (b1 << 8) | b2) == b0 * 65536 + b1 * 256 + b2,
        ((b0 << 16) | (b1 << 8) | b2) < 0x1000000,
{
}

proof fn lemma_sextets(t: u32)
    by (bit_vector)
    requires
        t < 0x1000000,
    ensures
        (t >> 18) & 63 == (t / 262144) % 64,
        (t >> 12) & 63 == (t / 4096) % 64,
        (t >> 6) & 63 == (t / 64) % 64,
        t & 63 == t % 64,
        (t >> 18) & 63 < 64,
        (t >> 12) & 63 < 64,
        (t >> 6) & 63 < 64,
        t & 63 < 64,
{
}

/// Encodes `data` as standard padded Base64.
pub fn base64_encode(data: &[u8]) -> (r: String)
    ensures
        r@ == base64_of(data@),
        r@.len() == 4 * ((data@.len() + 2) / 3),
        forall|i: int| 0 <= i < r@.len() ==> is_base64_char(#[trigger] r@[i]),
{
    let n = data.len();
    let mut out = String::new();
    let mut i: usize = 0;
    assert(data@.skip(0) =~= data@);
    while i < n
        invariant
            i <= n,
            n == data@.len(),
            out@ + base64_of(data@.skip(i as int)) == base64_of(data@),
        decreases n - i,
    {
        let rest = n - i;
        let ghost g = if rest <= 3 {
            data@.skip(i as int)
        } else {
            data@.skip(i as int).take(3)
        };
        let b0 = data[i] as u32;
        let b1 = if rest > 1 {
            data[i + 1] as u32
        } else {
            0
        };
        let b2 = if rest > 2 {
            data[i + 2] as u32
        } else {
            0
        };
        proof {
            lemma_group_bits(b0, b1, b2);
        }
        let triple = (b0 << 16) | (b1 << 8) | b2;
        proof {
            lemma_sextets(triple);
            assert(triple == group_value(g));
        }
        let c0 = symbol((triple >> 18) & 63);
        let c1 = symbol((triple >> 12) & 63);
        let c2 = if rest > 1 {
            symbol((triple >> 6) & 63)
        } else {
            '='
        };
        let c3 = if rest > 2 {
            symbol(triple & 63)
        } else {
            '='
        };
        let ghost before = out@;
        string_push(&mut out, c0);
        string_push(&mut out, c1);
        string_push(&mut out, c2);
        string_push(&mut out, c3);
        assert(out@ =~= before + encode_group(g));
        if rest > 3 {
            assert(data@.skip(i as int).skip(3) =~= data@.skip(i + 3));
            assert(base64_of(data@.skip(i as int)) == encode_group(g) + base64_of(data@.skip(i + 3)));
            i = i + 3;
        } else {
            assert(data@.skip(n as int) =~= Seq::<u8>::empty());
            assert(base64_of(data@.skip(i as int)) == encode_group(g));
            i = n;
        }
    }
    assert(data@.skip(n as int) =~= Seq::<u8>::empty());
    assert(out@ =~= base64_of(data@));
    proof {
        law_base64_shape(data@);
    }
    out
}

/// Base64 turns every started group of three bytes into four characters, all
/// from the Base64 alphabet or the padding '='.
pub proof fn law_base64_shape(d: Seq<u8>)
    ensures
        base64_of(d).len() == 4 * ((d.len() + 2) / 3),
        forall|i: int| 0 <= i < base64_of(d).len() ==> is_base64_char(#[trigger] base64_of(d)[i]),
    decreases d.len(),
{
    if d.len() == 0 {
    } else if d.len() <= 3 {
        lemma_group_chars(d);
    } else {
        law_base64_shape(d.skip(3));
        lemma_group_chars(d.take(3));
        let a = encode_group(d.take(3));
        let b = base64_of(d.skip(3));
        assert forall|i: int| 0 <= i < (a + b).len() implies is_base64_char(#[trigger] (a + b)[i]) by {
            if i < 4 {
                assert((a + b)[i] == a[i]);
            } else {
                assert((a + b)[i] == b[i - 4]);
            }
        }
    }
}

proof fn lemma_symbol_char(i: int)
    requires
        0 <= i < 64,
    ensures
        is_base64_char(base64_symbol(i)),
{
}

proof fn lemma_group_chars(g: Seq<u8>)
    requires
        1 <= g.len() <= 3,
    ensures
        forall|i: int| 0 <= i < 4 ==> is_base64_char(#[trigger] encode_group(g)[i]),
{
    let t = group_value(g);
    lemma_symbol_char((t / 262144) % 64);
    lemma_symbol_char((t / 4096) % 64);
    lemma_symbol_char((t / 64) % 64);
    lemma_symbol_char(t % 64);
}


/// The 6-bit value of a Base64 alphabet character.
pub open spec fn symbol_value(c: char) -> int {
    if 'A' <= c && c <= 'Z' {
        c as int - 'A' as int
    } else if 'a' <= c && c <= 'z' {
        c as int - 'a' as int + 26
    } else if '0' <= c && c <= '9' {
        c as int - '0' as int + 52
    } else if c == '+' {
        62
    } else {
        63
    }
}

/// The bytes of one padded group of four Base64 characters.
pub open spec fn decode_quad(q: Seq<char>) -> Seq<u8> {
    let n = if q[2] == '=' {
        1int
    } else if q[3] == '=' {
        2int
    } else {
        3int
    };
    let t = symbol_value(q[0]) * 262144 + symbol_value(q[1]) * 4096 + (if n > 1 {
        symbol_value(q[2])
    } else {
        0
    }) * 64 + (if n > 2 {
        symbol_value(q[3])
    } else {
        0
    });
    let bytes = seq![(t / 65536) as u8, ((t / 256) % 256) as u8, (t % 256) as u8];
    bytes.take(n)
}

/// Standard padded Base64 decoding, group of four characters by group.
pub open spec fn base64_decoded(s: Seq<char>) -> Seq<u8>
    decreases s.len(),
{
    if s.len() < 4 {
        seq![]
    } else {
        decode_quad(s.take(4)) + base64_decoded(s.skip(4))
    }
}

proof fn lemma_symbol_value(i: int)
    requires
        0 <= i < 64,
    ensures
        symbol_value(base64_symbol(i)) == i,
        base64_symbol(i) != '=',
{
}

proof fn lemma_group_bytes(b0: u32, b1: u32, b2: u32, t: u32)
    by (bit_vector)
    requires
        b0 < 256,
        b1 < 256,
        b2 < 256,
        t == b0 * 65536 + b1 * 256 + b2,
    ensures
        (t / 262144 % 64) * 262144 + (t / 4096 % 64) * 4096 + (t / 64 % 64) * 64 + t % 64 == t,
        t / 65536 == b0,
        (t / 256) % 256 == b1,
        t % 256 == b2,
        b2 == 0 ==> t % 64 == 0,
        b1 == 0 && b2 == 0 ==> (t / 64) % 64 == 0,
{
}

proof fn lemma_decode_group(g: Seq<u8>)
    requires
        1 <= g.len() <= 3,
    ensures
        decode_quad(encode_group(g)) == g,
{
    let b0 = g[0] as u32;
    let b1: u32 = if g.len() > 1 {
        g[1] as u32
    } else {
        0
    };
    let b2: u32 = if g.len() > 2 {
        g[2] as u32
    } else {
        0
    };
    let t = group_value(g);
    assert(t == b0 * 65536 + b1 * 256 + b2);
    lemma_group_bytes(b0, b1, b2, t as u32);
    lemma_symbol_value((t / 262144) % 64);
    lemma_symbol_value((t / 4096) % 64);
    lemma_symbol_value((t / 64) % 64);
    lemma_symbol_value(t % 64);
    let q = encode_group(g);
    let d = decode_quad(q);
    assert(d =~= g);
}

/// Decoding the Base64 of any bytes gives the bytes back; hence different
/// bytes have different encodings.
pub proof fn law_base64_decodes_back(d: Seq<u8>)
    ensures
        base64_decoded(base64_of(d)) == d,
    decreases d.len(),
{
    if d.len() == 0 {
    } else if d.len() <= 3 {
        lemma_decode_group(d);
        let e = encode_group(d);
        assert(e.take(4) =~= e);
        assert(e.skip(4).len() == 0);
        assert(base64_decoded(e) == decode_quad(e) + base64_decoded(e.skip(4)));
        assert(d + Seq::<u8>::empty() =~= d);
    } else {
        law_base64_decodes_back(d.skip(3));
        lemma_decode_group(d.take(3));
        let e = encode_group(d.take(3));
        let rest = base64_of(d.skip(3));
        assert((e + rest).take(4) =~= e);
        assert((e + rest).skip(4) =~= rest);
        assert(d.take(3) + d.skip(3) =~= d);
    }
}

/// Different bytes have different Base64 encodings.
pub proof fn law_base64_injective(d1: Seq<u8>, d2: Seq<u8>)
    requires
        base64_of(d1) == base64_of(d2),
    ensures
        d1 == d2,
{
    law_base64_decodes_back(d1);
    law_base64_decodes_back(d2);
}

/// Encoding bytes split after a multiple of three bytes is encoding the parts
/// and joining the results.
pub proof fn law_base64_concat(a: Seq<u8>, b: Seq<u8>)
    requires
        a.len() % 3 == 0,
    ensures
        base64_of(a + b) == base64_of(a) + base64_of(b),
    decreases a.len(),
{
    if a.len() == 0 {
        assert(a + b =~= b);
        assert(Seq::<char>::empty() + base64_of(b) =~= base64_of(b));
    } else if b.len() == 0 {
        assert(a + b =~= a);
        assert(base64_of(a) + Seq::<char>::empty() =~= base64_of(a));
    } else {
        law_base64_concat(a.skip(3), b);
        assert((a + b).take(3) =~= a.take(3));
        assert((a + b).skip(3) =~= a.skip(3) + b);
        if a.len() == 3 {
            assert(a.take(3) =~= a);
            assert(a.skip(3) + b =~= b);
        } else {
            assert(encode_group(a.take(3)) + base64_of(a.skip(3)) + base64_of(b) =~= encode_group(
                a.take(3),
            ) + (base64_of(a.skip(3)) + base64_of(b)));
        }
    }
}

} // verus!
