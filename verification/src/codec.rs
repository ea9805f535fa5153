use vstd::bytes::lemma_auto_spec_u32_to_from_le_bytes;
use vstd::bytes::lemma_auto_spec_u64_to_from_le_bytes;
use vstd::bytes::spec_u32_from_le_bytes;
use vstd::bytes::spec_u32_to_le_bytes;
use vstd::bytes::spec_u64_from_le_bytes;
use vstd::bytes::spec_u64_to_le_bytes;
use vstd::prelude::*;
use vstd::utf8::valid_utf8;

verus! {

// ---------------------------------------------------------------------------
// Base-128 varints, the variable-width integers of the wire encoding.
// ---------------------------------------------------------------------------

/// The base-128 encoding of `n`: seven value bits per byte, least significant
/// group first, high bit set on every byte but the last.
pub open spec fn enc_varint(n: u64) -> Seq<u8>
    decreases n,
{
    if n < 0x80 {
        seq![n as u8]
    } else {
        seq![((n % 0x80) + 0x80) as u8] + enc_varint(n / 0x80)
    }
}

/// Reads a base-128 integer from the front of `s`; returns the value and the
/// number of bytes consumed, or `None` when `s` ends inside the integer or
/// the value does not fit in 64 bits.
pub open spec fn dec_varint(s: Seq<u8>) -> Option<(u64, int)>
    decreases s.len(),
{
    if s.len() == 0 {
        None
    } else if s[0] < 0x80 {
        Some((s[0] as u64, 1))
    } else {
        match dec_varint(s.skip(1)) {
            None => None,
            Some((v, c)) => if v <= (u64::MAX - 0x7f) / 0x80 {
                Some(((v * 0x80 + (s[0] - 0x80)) as u64, c + 1))
            } else {
                None
            },
        }
    }
}

pub proof fn lemma_dec_varint(n: u64, rest: Seq<u8>)
    ensures
        dec_varint(enc_varint(n) + rest) == Some((n, enc_varint(n).len() as int)),
    decreases n,
{
    let s = enc_varint(n) + rest;
    if n < 0x80 {
        assert(s[0] == n as u8);
    } else {
        let b: u8 = ((n % 0x80) + 0x80) as u8;
        assert(s[0] == b);
        lemma_dec_varint(n / 0x80, rest);
        assert(s.skip(1) =~= enc_varint(n / 0x80) + rest);
        assert(n / 0x80 <= (u64::MAX - 0x7f) / 0x80);
        assert((n / 0x80) * 0x80 + (b - 0x80) == n) by {
            assert(b - 0x80 == n % 0x80);
            assert(n == 0x80 * (n / 0x80) + n % 0x80) by {
                vstd::arithmetic::div_mod::lemma_fundamental_div_mod(n as int, 0x80);
            }
        }
    }
}

// ---------------------------------------------------------------------------
// Optional scalar fields: omitted entirely when the value is the default.
// Every decoder here takes the remaining input and returns the decoded value
// together with the number of bytes consumed.
// ---------------------------------------------------------------------------

/// A varint-typed field with number/wire-type byte `tag`, omitted when zero.
pub open spec fn enc_varint_field(tag: u8, n: u64) -> Seq<u8> {
    if n == 0 {
        seq![]
    } else {
        seq![tag] + enc_varint(n)
    }
}

pub open spec fn dec_varint_field(tag: u8, s: Seq<u8>) -> Option<(u64, int)> {
    if s.len() == 0 || s[0] != tag {
        Some((0, 0))
    } else {
        match dec_varint(s.skip(1)) {
            None => None,
            Some((v, c)) => Some((v, c + 1)),
        }
    }
}

pub proof fn lemma_dec_varint_field(tag: u8, n: u64, rest: Seq<u8>)
    requires
        rest.len() == 0 || rest[0] != tag,
    ensures
        dec_varint_field(tag, enc_varint_field(tag, n) + rest) == Some((
            n,
            enc_varint_field(tag, n).len() as int,
        )),
{
    if n == 0 {
        assert(enc_varint_field(tag, n) + rest =~= rest);
    } else {
        let s = enc_varint_field(tag, n) + rest;
        assert(s[0] == tag);
        assert(s.skip(1) =~= enc_varint(n) + rest);
        lemma_dec_varint(n, rest);
    }
}

/// An eight-byte little-endian field, omitted when the bits are zero.
pub open spec fn enc_fixed64_field(tag: u8, bits: u64) -> Seq<u8> {
    if bits == 0 {
        seq![]
    } else {
        seq![tag] + spec_u64_to_le_bytes(bits)
    }
}

pub open spec fn dec_fixed64_field(tag: u8, s: Seq<u8>) -> Option<(u64, int)> {
    if s.len() == 0 || s[0] != tag {
        Some((0, 0))
    } else if s.len() < 9 {
        None
    } else {
        Some((spec_u64_from_le_bytes(s.subrange(1, 9)), 9))
    }
}

pub proof fn lemma_dec_fixed64_field(tag: u8, bits: u64, rest: Seq<u8>)
    requires
        rest.len() == 0 || rest[0] != tag,
    ensures
        dec_fixed64_field(tag, enc_fixed64_field(tag, bits) + rest) == Some((
            bits,
            enc_fixed64_field(tag, bits).len() as int,
        )),
{
    lemma_auto_spec_u64_to_from_le_bytes();
    if bits == 0 {
        assert(enc_fixed64_field(tag, bits) + rest =~= rest);
    } else {
        let s = enc_fixed64_field(tag, bits) + rest;
        assert(s[0] == tag);
        assert(s.len() >= 9);
        assert(s.subrange(1, 9) =~= spec_u64_to_le_bytes(bits));
    }
}

/// A four-byte little-endian field, omitted when the bits are zero.
pub open spec fn enc_fixed32_field(tag: u8, bits: u32) -> Seq<u8> {
    if bits == 0 {
        seq![]
    } else {
        seq![tag] + spec_u32_to_le_bytes(bits)
    }
}

pub open spec fn dec_fixed32_field(tag: u8, s: Seq<u8>) -> Option<(u32, int)> {
    if s.len() == 0 || s[0] != tag {
        Some((0, 0))
    } else if s.len() < 5 {
        None
    } else {
        Some((spec_u32_from_le_bytes(s.subrange(1, 5)), 5))
    }
}

pub proof fn lemma_dec_fixed32_field(tag: u8, bits: u32, rest: Seq<u8>)
    requires
        rest.len() == 0 || rest[0] != tag,
    ensures
        dec_fixed32_field(tag, enc_fixed32_field(tag, bits) + rest) == Some((
            bits,
            enc_fixed32_field(tag, bits).len() as int,
        )),
{
    lemma_auto_spec_u32_to_from_le_bytes();
    if bits == 0 {
        assert(enc_fixed32_field(tag, bits) + rest =~= rest);
    } else {
        let s = enc_fixed32_field(tag, bits) + rest;
        assert(s[0] == tag);
        assert(s.subrange(1, 5) =~= spec_u32_to_le_bytes(bits));
    }
}

// ---------------------------------------------------------------------------
// Length-delimited payloads: bytes, strings, embedded messages.
// ---------------------------------------------------------------------------

/// A length-delimited payload after its tag byte: the payload length as a
/// varint, then the payload itself.
pub open spec fn enc_len_prefixed(b: Seq<u8>) -> Seq<u8> {
    enc_varint(b.len() as u64) + b
}

pub open spec fn dec_len_prefixed(s: Seq<u8>) -> Option<(Seq<u8>, int)> {
    match dec_varint(s) {
        None => None,
        Some((n, c)) => if s.len() - c < n {
            None
        } else {
            Some((s.subrange(c, c + n), c + n))
        },
    }
}

pub proof fn lemma_dec_len_prefixed(b: Seq<u8>, rest: Seq<u8>)
    requires
        b.len() <= u64::MAX,
    ensures
        dec_len_prefixed(enc_len_prefixed(b) + rest) == Some((
            b,
            enc_len_prefixed(b).len() as int,
        )),
{
    let n = b.len() as u64;
    let s = enc_len_prefixed(b) + rest;
    assert(s =~= enc_varint(n) + (b + rest));
    lemma_dec_varint(n, b + rest);
    let c = enc_varint(n).len() as int;
    assert(s.len() - c >= n);
    assert(s.subrange(c, c + n) =~= b);
}

/// A length-delimited field, omitted when the payload is empty.
pub open spec fn enc_bytes_field(tag: u8, b: Seq<u8>) -> Seq<u8> {
    if b.len() == 0 {
        seq![]
    } else {
        seq![tag] + enc_len_prefixed(b)
    }
}

pub open spec fn dec_bytes_field(tag: u8, s: Seq<u8>) -> Option<(Seq<u8>, int)> {
    if s.len() == 0 || s[0] != tag {
        Some((Seq::empty(), 0))
    } else {
        match dec_len_prefixed(s.skip(1)) {
            None => None,
            Some((b, c)) => Some((b, c + 1)),
        }
    }
}

pub proof fn lemma_dec_bytes_field(tag: u8, b: Seq<u8>, rest: Seq<u8>)
    requires
        b.len() <= u64::MAX,
        rest.len() == 0 || rest[0] != tag,
    ensures
        dec_bytes_field(tag, enc_bytes_field(tag, b) + rest) == Some((
            b,
            enc_bytes_field(tag, b).len() as int,
        )),
{
    if b.len() == 0 {
        assert(enc_bytes_field(tag, b) + rest =~= rest);
        assert(dec_bytes_field(tag, enc_bytes_field(tag, b) + rest) == Some((
            Seq::<u8>::empty(),
            0int,
        )));
        assert(b =~= Seq::<u8>::empty());
    } else {
        let s = enc_bytes_field(tag, b) + rest;
        assert(s[0] == tag);
        assert(s.skip(1) =~= enc_len_prefixed(b) + rest);
        lemma_dec_len_prefixed(b, rest);
    }
}

/// A string field: a length-delimited field whose payload must be valid
/// UTF-8; the decoded view keeps the byte form.
pub open spec fn dec_string_field(tag: u8, s: Seq<u8>) -> Option<(Seq<u8>, int)> {
    match dec_bytes_field(tag, s) {
        None => None,
        Some((b, c)) => if valid_utf8(b) {
            Some((b, c))
        } else {
            None
        },
    }
}

pub proof fn lemma_dec_string_field(tag: u8, b: Seq<u8>, rest: Seq<u8>)
    requires
        b.len() <= u64::MAX,
        valid_utf8(b),
        rest.len() == 0 || rest[0] != tag,
    ensures
        dec_string_field(tag, enc_bytes_field(tag, b) + rest) == Some((
            b,
            enc_bytes_field(tag, b).len() as int,
        )),
{
    lemma_dec_bytes_field(tag, b, rest);
    if b.len() == 0 {
        assert(valid_utf8(Seq::<u8>::empty())) by {
            assert(b =~= Seq::<u8>::empty());
        }
    }
}

// ---------------------------------------------------------------------------
// Packed sequences of eight-byte little-endian values.
// ---------------------------------------------------------------------------

/// The concatenation of the eight-byte little-endian forms of the values.
pub open spec fn enc_le64_seq(v: Seq<u64>) -> Seq<u8>
    decreases v.len(),
{
    if v.len() == 0 {
        seq![]
    } else {
        spec_u64_to_le_bytes(v[0]) + enc_le64_seq(v.skip(1))
    }
}

pub open spec fn dec_le64_seq(b: Seq<u8>) -> Option<Seq<u64>>
    decreases b.len(),
{
    if b.len() == 0 {
        Some(Seq::empty())
    } else if b.len() < 8 {
        None
    } else {
        match dec_le64_seq(b.skip(8)) {
            None => None,
            Some(t) => Some(seq![spec_u64_from_le_bytes(b.subrange(0, 8))] + t),
        }
    }
}

pub proof fn lemma_enc_le64_seq_len(v: Seq<u64>)
    ensures
        enc_le64_seq(v).len() == 8 * v.len(),
    decreases v.len(),
{
    lemma_auto_spec_u64_to_from_le_bytes();
    if v.len() > 0 {
        lemma_enc_le64_seq_len(v.skip(1));
    }
}

pub proof fn lemma_dec_le64_seq(v: Seq<u64>)
    ensures
        dec_le64_seq(enc_le64_seq(v)) == Some(v),
    decreases v.len(),
{
    lemma_auto_spec_u64_to_from_le_bytes();
    let b = enc_le64_seq(v);
    if v.len() == 0 {
        assert(v =~= Seq::<u64>::empty());
    } else {
        lemma_enc_le64_seq_len(v.skip(1));
        assert(b.len() == 8 + enc_le64_seq(v.skip(1)).len());
        assert(b.skip(8) =~= enc_le64_seq(v.skip(1)));
        lemma_dec_le64_seq(v.skip(1));
        assert(b.subrange(0, 8) =~= spec_u64_to_le_bytes(v[0]));
        assert(seq![v[0]] + v.skip(1) =~= v);
    }
}

/// A packed field of eight-byte little-endian values, omitted when empty.
pub open spec fn enc_packed64_field(tag: u8, v: Seq<u64>) -> Seq<u8> {
    if v.len() == 0 {
        seq![]
    } else {
        seq![tag] + enc_len_prefixed(enc_le64_seq(v))
    }
}

pub open spec fn dec_packed64_field(tag: u8, s: Seq<u8>) -> Option<(Seq<u64>, int)> {
    if s.len() == 0 || s[0] != tag {
        Some((Seq::empty(), 0))
    } else {
        match dec_len_prefixed(s.skip(1)) {
            None => None,
            Some((b, c)) => match dec_le64_seq(b) {
                None => None,
                Some(v) => Some((v, c + 1)),
            },
        }
    }
}

pub proof fn lemma_dec_packed64_field(tag: u8, v: Seq<u64>, rest: Seq<u8>)
    requires
        8 * v.len() <= u64::MAX,
        rest.len() == 0 || rest[0] != tag,
    ensures
        dec_packed64_field(tag, enc_packed64_field(tag, v) + rest) == Some((
            v,
            enc_packed64_field(tag, v).len() as int,
        )),
{
    if v.len() == 0 {
        assert(enc_packed64_field(tag, v) + rest =~= rest);
        assert(v =~= Seq::<u64>::empty());
    } else {
        let s = enc_packed64_field(tag, v) + rest;
        assert(s[0] == tag);
        assert(s.skip(1) =~= enc_len_prefixed(enc_le64_seq(v)) + rest);
        lemma_enc_le64_seq_len(v);
        lemma_dec_len_prefixed(enc_le64_seq(v), rest);
        lemma_dec_le64_seq(v);
    }
}

// ---------------------------------------------------------------------------
// Signed values on the wire: two's-complement, widened to 64 bits.
// ---------------------------------------------------------------------------

/// The 64-bit two's-complement bits of a signed value.
pub open spec fn i64_bits(x: i64) -> u64 {
    if x >= 0 {
        x as u64
    } else {
        (x + 0x10000000000000000) as u64
    }
}

/// The signed value whose 64-bit two's-complement bits are `n`.
pub open spec fn i64_from_bits(n: u64) -> i64 {
    if n <= i64::MAX {
        n as i64
    } else {
        (n - 0x10000000000000000) as i64
    }
}

pub proof fn lemma_i64_bits(x: i64)
    ensures
        i64_from_bits(i64_bits(x)) == x,
        i64_bits(x) == 0 <==> x == 0,
{
}

} // verus!
