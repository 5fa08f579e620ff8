//! The layout-driven codec: packing and unpacking of struct fields and enum
//! discriminants from declarative layout metadata.
//!
//! A struct's layout is its total width in bits and a list of per-field
//! entries — width, optional skips before and after, or a skip marker. The
//! metadata is validated once; writing and reading then mask-and-shift
//! sub-byte fields within their single owning byte and copy byte-aligned
//! fields little-endian. An enum's layout is a canonical discriminant per
//! variant, optional alternatives that read back to the same variant, and an
//! optional catch-all that absorbs any other value.

use vstd::prelude::*;

use crate::error::WireError;

verus! {

/// One field of a struct layout as declared: a width in bits, skipped bits
/// before and after it, or a marker to leave it out entirely.
#[derive(Debug, PartialEq, Eq, Copy, Clone, Structural)]
pub struct FieldDef {
    /// The field's width on the wire, in bits.
    pub bits: usize,
    /// Bits skipped before the field.
    pub pre_skip: usize,
    /// Bits skipped after the field.
    pub post_skip: usize,
    /// Whether the field is left out of the packed representation.
    pub skip: bool,
}

/// One field's resolved position: its bit range within the struct.
#[derive(Debug, PartialEq, Eq, Copy, Clone, Structural)]
pub struct FieldPos {
    /// The first bit of the field.
    pub bit_start: usize,
    /// The field's width in bits.
    pub bits: usize,
    /// Whether the field is skipped.
    pub skip: bool,
}

/// The bit width consumed by the first `k` field definitions.
pub open spec fn width_upto(fields: Seq<FieldDef>, k: int) -> int
    decreases k,
{
    if k <= 0 {
        0
    } else {
        width_upto(fields, k - 1) + field_width(fields[k - 1])
    }
}

/// The bit width one field definition consumes: its skips, plus its own
/// width unless it is skipped.
pub open spec fn field_width(f: FieldDef) -> int {
    if f.skip {
        0
    } else {
        f.pre_skip + f.bits + f.post_skip
    }
}

/// The bit position a field starts at: everything before it plus its own
/// pre-skip.
pub open spec fn field_start(fields: Seq<FieldDef>, k: int) -> int {
    width_upto(fields, k) + if fields[k].skip {
        0
    } else {
        fields[k].pre_skip as int
    }
}

/// Whether one field is well placed: a skipped field needs nothing; a field
/// of a byte or more must be byte-aligned at both ends; a sub-byte field
/// must not straddle a byte boundary.
pub open spec fn field_ok(fields: Seq<FieldDef>, k: int) -> bool {
    let f = fields[k];
    let start = field_start(fields, k);
    f.skip || {
        &&& f.bits >= 1
        &&& if f.bits >= 8 {
            start % 8 == 0 && f.bits % 8 == 0
        } else {
            start / 8 == (start + f.bits - 1) / 8
        }
    }
}

/// Whether a whole layout is valid: every field well placed, and the total
/// consumed width equal to the declared struct width.
pub open spec fn layout_ok(width_bits: int, fields: Seq<FieldDef>) -> bool {
    &&& (forall|k: int| 0 <= k < fields.len() ==> #[trigger] field_ok(fields, k))
    &&& width_upto(fields, fields.len() as int) == width_bits
}

/// Resolve a declared layout into per-field bit positions, enforcing the
/// alignment rules: fields of a byte or more must be byte-aligned at both
/// ends, sub-byte fields must not straddle a byte boundary, and the declared
/// struct width must equal the sum of the field widths and skips.
pub fn parse_struct_layout(width_bits: usize, fields: &Vec<FieldDef>) -> (r: Result<
    Vec<FieldPos>,
    WireError,
>)
    requires
        width_bits < 0x10000,
        fields@.len() < 0x1000,
        forall|k: int|
            0 <= k < fields@.len() ==> (#[trigger] fields@[k]).bits < 0x10000 && fields@[
                k
            ].pre_skip < 0x10000 && fields@[k].post_skip < 0x10000,
    ensures
        match r {
            Ok(pos) => {
                &&& layout_ok(width_bits as int, fields@)
                &&& pos@.len() == fields@.len()
                &&& forall|k: int|
                    0 <= k < fields@.len() ==> (#[trigger] pos@[k]) == (FieldPos {
                        bit_start: field_start(fields@, k) as usize,
                        bits: fields@[k].bits,
                        skip: fields@[k].skip,
                    })
                &&& positions_ok(pos@, width_bits as int)
            },
            Err(e) => e == WireError::InvalidValue && !layout_ok(width_bits as int, fields@),
        },
{
    let n = fields.len();
    let mut pos: Vec<FieldPos> = Vec::new();
    let mut total: usize = 0;
    let mut k: usize = 0;
    while k < n
        invariant
            k <= n,
            n == fields@.len(),
            n < 0x1000,
            width_bits < 0x10000,
            forall|j: int|
                0 <= j < n ==> (#[trigger] fields@[j]).bits < 0x10000 && fields@[j].pre_skip
                    < 0x10000 && fields@[j].post_skip < 0x10000,
            total == width_upto(fields@, k as int),
            total <= k * 0x30000,
            pos@.len() == k,
            forall|j: int| 0 <= j < k ==> #[trigger] field_ok(fields@, j),
            forall|j: int|
                0 <= j < k ==> (#[trigger] pos@[j]) == (FieldPos {
                    bit_start: field_start(fields@, j) as usize,
                    bits: fields@[j].bits,
                    skip: fields@[j].skip,
                }),
            forall|j: int|
                0 <= j < k ==> (#[trigger] pos@[j]).bit_start as int == field_start(fields@, j),
            forall|j: int|
                0 <= j < k && !pos@[j].skip ==> (#[trigger] pos@[j]).bit_start + pos@[j].bits
                    <= total,
            forall|j: int, l: int|
                0 <= j < l < k && !pos@[j].skip && !pos@[l].skip ==> (#[trigger] pos@[j]).bit_start
                    + pos@[j].bits <= #[trigger] pos@[l].bit_start,
        decreases n - k,
    {
        let f = fields[k];
        if f.skip {
            pos.push(FieldPos { bit_start: total, bits: f.bits, skip: true });
        } else {
            let start = total + f.pre_skip;
            if f.bits == 0 {
                proof {
                    assert(!field_ok(fields@, k as int));
                }
                return Err(WireError::InvalidValue);
            }
            if f.bits >= 8 {
                if start % 8 != 0 || f.bits % 8 != 0 {
                    proof {
                        assert(!field_ok(fields@, k as int));
                    }
                    return Err(WireError::InvalidValue);
                }
            } else {
                if start / 8 != (start + f.bits - 1) / 8 {
                    proof {
                        assert(!field_ok(fields@, k as int));
                    }
                    return Err(WireError::InvalidValue);
                }
            }
            pos.push(FieldPos { bit_start: start, bits: f.bits, skip: false });
            total = start + f.bits + f.post_skip;
        }
        k += 1;
    }
    if total != width_bits {
        return Err(WireError::InvalidValue);
    }
    proof {
        assert(positions_ok(pos@, width_bits as int)) by {
            assert forall|j: int|
                0 <= j < pos@.len() && !pos@[j].skip implies {
                let p = #[trigger] pos@[j];
                &&& p.bits >= 1
                &&& p.bit_start + p.bits <= width_bits
                &&& if p.bits >= 8 {
                    p.bit_start % 8 == 0 && p.bits % 8 == 0
                } else {
                    p.bit_start as int / 8 == (p.bit_start + p.bits - 1) / 8
                }
            } by {
                assert(field_ok(fields@, j));
                assert(pos@[j].bit_start as int == field_start(fields@, j));
            }
        }
    }
    Ok(pos)
}

/// What the interpreter relies on of a resolved position list: non-skipped
/// fields are well placed, lie within the struct, come one after another
/// without overlap, and byte-aligned fields fit the rules.
pub open spec fn positions_ok(pos: Seq<FieldPos>, width_bits: int) -> bool {
    &&& (forall|k: int|
        0 <= k < pos.len() && !pos[k].skip ==> {
            let p = #[trigger] pos[k];
            &&& p.bits >= 1
            &&& p.bit_start + p.bits <= width_bits
            &&& if p.bits >= 8 {
                p.bit_start % 8 == 0 && p.bits % 8 == 0
            } else {
                p.bit_start as int / 8 == (p.bit_start + p.bits - 1) / 8
            }
        })
    &&& (forall|j: int, l: int|
        0 <= j < l < pos.len() && !pos[j].skip && !pos[l].skip ==> (#[trigger] pos[j]).bit_start
            + pos[j].bits <= (#[trigger] pos[l]).bit_start)
}

/// The single byte that owns a sub-byte field after masking and shifting
/// `value` into it, on top of `byte`.
pub open spec fn subbyte_write(byte: u8, bit_offset: int, bits: int, value: u8) -> int {
    byte + (value as int % pow2u(bits)) * pow2u(bit_offset)
}

/// The value of a sub-byte field masked and shifted out of its owning byte.
pub open spec fn subbyte_read(byte: int, bit_offset: int, bits: int) -> int {
    (byte / pow2u(bit_offset)) % pow2u(bits)
}

/// Two to the power `e`, for the small exponents bit offsets take.
pub open spec fn pow2u(e: int) -> int {
    if e <= 0 {
        1
    } else if e == 1 {
        2
    } else if e == 2 {
        4
    } else if e == 3 {
        8
    } else if e == 4 {
        16
    } else if e == 5 {
        32
    } else if e == 6 {
        64
    } else if e == 7 {
        128
    } else {
        256
    }
}

/// An executable power of two for exponents below eight.
fn pow2_exec(e: usize) -> (r: u8)
    requires
        e < 8,
    ensures
        r as int == pow2u(e as int),
{
    match e {
        0 => 1,
        1 => 2,
        2 => 4,
        3 => 8,
        4 => 16,
        5 => 32,
        6 => 64,
        _ => 128,
    }
}

/// Write a sub-byte field into its single owning byte of `buf`: the field's
/// bits are masked out of `value` and shifted to the field's offset within
/// the byte. The owning byte's other bits must already be as wanted — the
/// struct writer zeroes the target first.
pub fn write_subbyte_field(buf: &mut Vec<u8>, bit_start: usize, bits: usize, value: u8)
    requires
        1 <= bits <= 7,
        bit_start / 8 < old(buf).len(),
        bit_start % 8 + bits <= 8,
        old(buf)@[bit_start as int / 8] as int + (value % (pow2u(bits as int) as u8)) as int
            * pow2u((bit_start % 8) as int) < 0x100,
    ensures
        final(buf).len() == old(buf).len(),
        final(buf)@[bit_start as int / 8] as int == subbyte_write(
            old(buf)@[bit_start as int / 8],
            (bit_start % 8) as int,
            bits as int,
            value,
        ),
        forall|j: int|
            0 <= j < old(buf).len() && j != bit_start as int / 8 ==> final(buf)@[j] == old(
                buf,
            )@[j],
{
    let byte_index = bit_start / 8;
    let bit_offset = bit_start % 8;
    let masked = value % pow2_exec(bits);
    let shifted = masked * pow2_exec(bit_offset);
    let merged = buf[byte_index] + shifted;
    buf.set(byte_index, merged);
}

/// Read a sub-byte field out of its single owning byte of `buf`: shift the
/// owning byte down to the field's offset and mask the field's bits.
pub fn read_subbyte_field(buf: &Vec<u8>, bit_start: usize, bits: usize) -> (r: u8)
    requires
        1 <= bits <= 7,
        bit_start / 8 < buf.len(),
        bit_start % 8 + bits <= 8,
    ensures
        r as int == subbyte_read(buf@[bit_start as int / 8] as int, (bit_start % 8) as int, bits as int),
        r < pow2u(bits as int),
{
    let byte_index = bit_start / 8;
    let bit_offset = bit_start % 8;
    (buf[byte_index] / pow2_exec(bit_offset)) % pow2_exec(bits)
}

/// Round trip: a sub-byte field written over a zeroed position reads back
/// exactly, whatever the field's offset and width.
pub proof fn lemma_subbyte_roundtrip(byte: u8, bit_offset: int, bits: int, value: u8)
    requires
        1 <= bits <= 7,
        0 <= bit_offset,
        bit_offset + bits <= 8,
        value < pow2u(bits),
        subbyte_read(byte as int, bit_offset, bits) == 0,
        byte as int + value as int * pow2u(bit_offset) < 0x100,
    ensures
        subbyte_read(subbyte_write(byte, bit_offset, bits, value), bit_offset, bits) == value,
{
    let p_off = pow2u(bit_offset);
    let p_bits = pow2u(bits);
    let v = value as int;
    let b = byte as int;
    assert(v % p_bits == v) by (nonlinear_arith)
        requires
            0 <= v < p_bits,
    ;
    let w = b + v * p_off;
    assert((w / p_off) % p_bits == v) by (nonlinear_arith)
        requires
            w == b + v * p_off,
            (b / p_off) % p_bits == 0,
            0 <= v < p_bits,
            p_off >= 1,
            p_bits >= 2,
            0 <= b < 0x100,
            w < 0x100,
    ;
}

/// A field's value for the struct interpreter: a masked small integer for a
/// sub-byte field, or the field type's own packed bytes for a byte-aligned
/// field, exactly the two strategies struct packing is built from.
#[derive(Debug, PartialEq, Eq, Clone)]
pub enum FieldValue {
    /// The value of a field narrower than a byte.
    Bits(u8),
    /// The packed bytes of a byte-aligned field, written verbatim at the
    /// field's byte range.
    Bytes(Vec<u8>),
}

/// Whether a value fits its position: a sub-byte field carries an in-range
/// integer, a byte-aligned field exactly its packed bytes.
pub open spec fn value_fits(p: FieldPos, v: FieldValue) -> bool {
    if p.bits < 8 {
        match v {
            FieldValue::Bits(b) => (b as int) < pow2u(p.bits as int),
            FieldValue::Bytes(_) => false,
        }
    } else {
        match v {
            FieldValue::Bits(_) => false,
            FieldValue::Bytes(bs) => bs@.len() == p.bits as int / 8,
        }
    }
}

/// Whether reading position `p` out of `buf` yields `v`: the mask-and-shift
/// of the owning byte for a sub-byte field, the byte range itself for a
/// byte-aligned field.
pub open spec fn reads_back(buf: Seq<u8>, p: FieldPos, v: FieldValue) -> bool {
    if p.bits < 8 {
        match v {
            FieldValue::Bits(b) => b as int == subbyte_read(
                buf[p.bit_start as int / 8] as int,
                p.bit_start as int % 8,
                p.bits as int,
            ),
            FieldValue::Bytes(_) => false,
        }
    } else {
        match v {
            FieldValue::Bits(_) => false,
            FieldValue::Bytes(bs) => bs@ =~= buf.subrange(
                p.bit_start as int / 8,
                p.bit_start as int / 8 + p.bits as int / 8,
            ),
        }
    }
}

/// Powers of two below a byte multiply within a byte.
proof fn lemma_pow2_mul(a: int, b: int)
    requires
        0 <= a,
        0 <= b,
        a + b <= 8,
    ensures
        pow2u(a) * pow2u(b) == pow2u(a + b),
        pow2u(a) >= 1,
{
}

/// Adding a contribution at bit offsets above a sub-byte field leaves the
/// field's read unchanged.
proof fn lemma_subbyte_add_high(byte: int, add: int, off: int, bits: int, soff: int)
    requires
        0 <= byte,
        0 <= add,
        0 <= off,
        1 <= bits,
        off + bits <= soff <= 8,
        byte + add * pow2u(soff) < 256,
    ensures
        subbyte_read(byte + add * pow2u(soff), off, bits) == subbyte_read(byte, off, bits),
{
    let p_off = pow2u(off);
    let p_bits = pow2u(bits);
    let rest = pow2u(soff - off - bits);
    lemma_pow2_mul(off, bits);
    lemma_pow2_mul(off + bits, soff - off - bits);
    assert(pow2u(soff) == p_off * p_bits * rest) by (nonlinear_arith)
        requires
            pow2u(off + bits) == p_off * p_bits,
            pow2u(soff) == pow2u(off + bits) * rest,
    ;
    let k = add * p_bits * rest;
    assert(add * pow2u(soff) == k * p_off) by (nonlinear_arith)
        requires
            pow2u(soff) == p_off * p_bits * rest,
            k == add * p_bits * rest,
    ;
    assert((byte + add * pow2u(soff)) / p_off == byte / p_off + k) by (nonlinear_arith)
        requires
            0 <= byte,
            0 <= add,
            p_off >= 1,
            p_bits >= 1,
            rest >= 1,
            k == add * p_bits * rest,
            add * pow2u(soff) == k * p_off,
    ;
    assert(k == p_bits * (add * rest)) by (nonlinear_arith)
        requires
            k == add * p_bits * rest,
    ;
    vstd::arithmetic::div_mod::lemma_mod_multiples_vanish(add * rest, byte / p_off, p_bits);
}

/// Pack a whole struct from its resolved field positions and values: zero
/// the buffer, then write each non-skipped field with its strategy — masked
/// sub-byte merge or verbatim byte placement. Every field reads back
/// exactly.
#[verifier::rlimit(100)]
#[verifier::spinoff_prover]
pub fn write_struct_fields(width_bits: usize, pos: &Vec<FieldPos>, values: &Vec<FieldValue>) -> (r:
    Vec<u8>)
    requires
        positions_ok(pos@, width_bits as int),
        width_bits < 0x10000,
        values@.len() == pos@.len(),
        forall|k: int|
            0 <= k < pos@.len() && !pos@[k].skip ==> value_fits(#[trigger] pos@[k], values@[k]),
    ensures
        r@.len() == (width_bits + 7) / 8,
        forall|k: int|
            0 <= k < pos@.len() && !pos@[k].skip ==> reads_back(r@, #[trigger] pos@[k], values@[k]),
{
    let nbytes = (width_bits + 7) / 8;
    let mut buf: Vec<u8> = vec![0u8; nbytes];
    let n = pos.len();
    let ghost mut c: int = 0;
    let mut k: usize = 0;
    while k < n
        invariant
            k <= n,
            n == pos@.len(),
            n == values@.len(),
            nbytes == (width_bits + 7) / 8,
            width_bits < 0x10000,
            buf@.len() == nbytes,
            positions_ok(pos@, width_bits as int),
            forall|j: int|
                0 <= j < n && !pos@[j].skip ==> value_fits(#[trigger] pos@[j], values@[j]),
            0 <= c <= width_bits,
            c == 0 || exists|j: int|
                0 <= j < k && !pos@[j].skip && c == (#[trigger] pos@[j]).bit_start + pos@[j].bits,
            forall|j: int|
                0 <= j < k && !pos@[j].skip ==> (#[trigger] pos@[j]).bit_start + pos@[j].bits <= c,
            forall|j: int|
                0 <= j < k && !pos@[j].skip ==> reads_back(buf@, #[trigger] pos@[j], values@[j]),
            c / 8 < nbytes ==> (buf@[c / 8] as int) < pow2u(c % 8),
            forall|b: int| c / 8 < b < nbytes ==> buf@[b] == 0,
        decreases n - k,
    {
        let p = pos[k];
        if !p.skip {
            proof {
                // This field starts at or after everything written so far.
                if c != 0 {
                    let j = choose|j: int|
                        0 <= j < k && !pos@[j].skip && c == (#[trigger] pos@[j]).bit_start
                            + pos@[j].bits;
                    assert(pos@[j].bit_start + pos@[j].bits <= pos@[k as int].bit_start);
                }
                assert(c <= p.bit_start as int);
            }
            let ghost buf0 = buf@;
            if p.bits < 8 {
                proof {
                    assert(value_fits(pos@[k as int], values@[k as int]));
                }
                let b = match &values[k] {
                    FieldValue::Bits(b) => *b,
                    FieldValue::Bytes(_) => {
                        proof {
                            assert(false);
                        }
                        0
                    },
                };
                let soff = p.bit_start % 8;
                proof {
                    lemma_pow2_mul(soff as int, p.bits as int);
                    if p.bit_start as int / 8 == c / 8 {
                        assert(c % 8 <= soff as int);
                        assert(pow2u(c % 8) <= pow2u(soff as int));
                    }
                    assert((buf@[p.bit_start as int / 8] as int) < pow2u(soff as int));
                    assert((buf@[p.bit_start as int / 8] as int) + (b as int % pow2u(
                        p.bits as int,
                    )) * pow2u(soff as int) < 256) by (nonlinear_arith)
                        requires
                            (buf@[p.bit_start as int / 8] as int) < pow2u(soff as int),
                            (b as int % pow2u(p.bits as int)) < pow2u(p.bits as int),
                            pow2u(soff as int) * pow2u(p.bits as int) == pow2u(
                                soff as int + p.bits as int,
                            ),
                            pow2u(soff as int + p.bits as int) <= 256,
                            pow2u(soff as int) >= 1,
                            0 <= (buf@[p.bit_start as int / 8] as int),
                            0 <= (b as int % pow2u(p.bits as int)),
                    ;
                }
                write_subbyte_field(&mut buf, p.bit_start, p.bits, b);
                proof {
                    let byte = p.bit_start as int / 8;
                    let old_b = buf0[byte] as int;
                    let m = b as int % pow2u(p.bits as int);
                    // The field's own value reads back: the target bits were
                    // clear.
                    assert(value_fits(pos@[k as int], values@[k as int]));
                    assert(m == b as int) by (nonlinear_arith)
                        requires
                            0 <= b as int,
                            (b as int) < pow2u(p.bits as int),
                            m == b as int % pow2u(p.bits as int),
                    ;
                    assert(old_b / pow2u(soff as int) == 0) by (nonlinear_arith)
                        requires
                            0 <= old_b < pow2u(soff as int),
                    ;
                    lemma_subbyte_roundtrip(buf0[byte], soff as int, p.bits as int, b);
                    assert(reads_back(buf@, pos@[k as int], values@[k as int]));
                    // Earlier fields are untouched or merely share the byte
                    // below the new bits.
                    assert forall|j: int|
                        0 <= j < k && !pos@[j].skip implies reads_back(
                        buf@,
                        #[trigger] pos@[j],
                        values@[j],
                    ) by {
                        let q = pos@[j];
                        if q.bits < 8 && q.bit_start as int / 8 == byte {
                            lemma_subbyte_add_high(
                                old_b,
                                m,
                                q.bit_start as int % 8,
                                q.bits as int,
                                soff as int,
                            );
                        } else {
                            assert(q.bit_start + q.bits <= c);
                        }
                    }
                    let c_old = c;
                    c = p.bit_start as int + p.bits as int;
                    // The byte's written bits stay below the new cursor, and
                    // everything past it is still zero.
                    assert(old_b < pow2u(soff as int));
                    if c % 8 != 0 {
                        assert(c / 8 == byte);
                        assert((buf@[c / 8] as int) < pow2u(c % 8)) by (nonlinear_arith)
                            requires
                                buf@[c / 8] as int == old_b + m * pow2u(soff as int),
                                0 <= old_b < pow2u(soff as int),
                                0 <= m < pow2u(p.bits as int),
                                pow2u(soff as int) * pow2u(p.bits as int) == pow2u(c % 8),
                                pow2u(soff as int) >= 1,
                        ;
                    } else {
                        // The field filled its byte; the next byte is past
                        // every write so far.
                        assert(c / 8 == byte + 1);
                        if c / 8 < nbytes {
                            assert(buf@[c / 8] == buf0[c / 8]);
                            assert(buf0[c / 8] == 0);
                        }
                    }
                    assert forall|bb: int| c / 8 < bb < nbytes implies buf@[bb] == 0 by {
                        assert(buf@[bb] == buf0[bb]);
                        assert(c_old / 8 < bb);
                    }
                }
            } else {
                proof {
                    assert(value_fits(pos@[k as int], values@[k as int]));
                }
                let bs = match &values[k] {
                    FieldValue::Bytes(bs) => bs,
                    FieldValue::Bits(_) => {
                        proof {
                            assert(false);
                        }
                        return buf;
                    },
                };
                let b0 = p.bit_start / 8;
                let nb = p.bits / 8;
                let mut t: usize = 0;
                while t < nb
                    invariant
                        t <= nb,
                        nb == p.bits / 8,
                        bs@.len() == nb,
                        b0 == p.bit_start / 8,
                        b0 + nb <= buf@.len(),
                        buf@.len() == buf0.len(),
                        forall|u: int|
                            0 <= u < buf0.len() && !(b0 <= u < b0 + t) ==> buf@[u] == buf0[u],
                        forall|u: int| 0 <= u < t ==> buf@[b0 + u] == bs@[u],
                    decreases nb - t,
                {
                    buf.set(b0 + t, bs[t]);
                    t += 1;
                }
                proof {
                    assert(reads_back(buf@, pos@[k as int], values@[k as int])) by {
                        assert(bs@ =~= buf@.subrange(b0 as int, b0 + nb));
                    }
                    // Everything before this field's bytes is untouched.
                    assert forall|j: int|
                        0 <= j < k && !pos@[j].skip implies reads_back(
                        buf@,
                        #[trigger] pos@[j],
                        values@[j],
                    ) by {
                        let q = pos@[j];
                        assert(q.bit_start + q.bits <= c);
                        assert(c <= 8 * b0 as int);
                        if q.bits >= 8 {
                            assert(buf@.subrange(
                                q.bit_start as int / 8,
                                q.bit_start as int / 8 + q.bits as int / 8,
                            ) =~= buf0.subrange(
                                q.bit_start as int / 8,
                                q.bit_start as int / 8 + q.bits as int / 8,
                            ));
                        }
                    }
                    let c_old = c;
                    c = p.bit_start as int + p.bits as int;
                    // The new cursor sits on a byte boundary just past the
                    // copied bytes; everything beyond stays zero.
                    assert(c % 8 == 0 && c / 8 == b0 + nb);
                    if c / 8 < nbytes {
                        assert(buf@[c / 8] == buf0[c / 8]);
                        assert(c_old / 8 < c / 8);
                        assert(buf0[c / 8] == 0);
                    }
                    assert forall|bb: int| c / 8 < bb < nbytes implies buf@[bb] == 0 by {
                        assert(buf@[bb] == buf0[bb]);
                        assert(c_old / 8 < bb);
                    }
                }
            }
        }
        k += 1;
    }
    buf
}

/// Unpack a whole struct: read each non-skipped field with its strategy,
/// and give skipped fields the zero default.
pub fn read_struct_fields(pos: &Vec<FieldPos>, buf: &Vec<u8>) -> (r: Vec<FieldValue>)
    requires
        positions_ok(pos@, 8 * buf@.len() as int),
    ensures
        r@.len() == pos@.len(),
        forall|k: int|
            0 <= k < pos@.len() && !pos@[k].skip ==> reads_back(buf@, #[trigger] pos@[k], r@[k]),
        forall|k: int|
            0 <= k < pos@.len() && pos@[k].skip ==> (#[trigger] r@[k]) == FieldValue::Bits(0),
{
    let n = pos.len();
    let mut out: Vec<FieldValue> = Vec::new();
    let mut k: usize = 0;
    while k < n
        invariant
            k <= n,
            n == pos@.len(),
            positions_ok(pos@, 8 * buf@.len() as int),
            out@.len() == k,
            forall|j: int|
                0 <= j < k && !pos@[j].skip ==> reads_back(buf@, #[trigger] pos@[j], out@[j]),
            forall|j: int|
                0 <= j < k && pos@[j].skip ==> (#[trigger] out@[j]) == FieldValue::Bits(0),
        decreases n - k,
    {
        let p = pos[k];
        if p.skip {
            out.push(FieldValue::Bits(0));
        } else if p.bits < 8 {
            out.push(FieldValue::Bits(read_subbyte_field(buf, p.bit_start, p.bits)));
        } else {
            let b0 = p.bit_start / 8;
            let nb = p.bits / 8;
            let lim = buf.len();
            proof {
                assert(p.bit_start + p.bits <= 8 * buf@.len());
            }
            let mut bs: Vec<u8> = Vec::new();
            let mut t: usize = 0;
            while t < nb
                invariant
                    t <= nb,
                    lim == buf@.len(),
                    b0 + nb <= lim,
                    bs@.len() == t,
                    forall|u: int| 0 <= u < t ==> bs@[u] == buf@[b0 + u],
                decreases nb - t,
            {
                bs.push(buf[b0 + t]);
                t += 1;
            }
            proof {
                assert(bs@ =~= buf@.subrange(b0 as int, b0 + nb));
            }
            out.push(FieldValue::Bytes(bs));
        }
        k += 1;
    }
    out
}

/// Law: reading a packed struct gives back what was written. What a
/// position reads as is unique, so the value [`write_struct_fields`] made
/// readable and the value [`read_struct_fields`] returned agree field by
/// field: equal sub-byte integers, equal byte strings.
pub proof fn lemma_struct_roundtrip_field(
    buf: Seq<u8>,
    p: FieldPos,
    written: FieldValue,
    read: FieldValue,
)
    requires
        reads_back(buf, p, written),
        reads_back(buf, p, read),
    ensures
        match (written, read) {
            (FieldValue::Bits(a), FieldValue::Bits(b)) => a == b,
            (FieldValue::Bytes(x), FieldValue::Bytes(y)) => x@ == y@,
            _ => false,
        },
{
}

/// One enum variant's wire values: a canonical discriminant and the
/// alternative values that read back to the same variant.
#[derive(Debug, PartialEq, Eq, Clone)]
pub struct EnumVariant {
    /// The value written to the wire, and the first value tried on read.
    pub canonical: u32,
    /// Other values accepted on read for this variant.
    pub alternatives: Vec<u32>,
}

/// An enum's layout: its variants in declaration order, and whether a
/// catch-all variant absorbs unmatched values.
#[derive(Debug, PartialEq, Eq, Clone)]
pub struct EnumLayout {
    /// The variants in declaration order.
    pub variants: Vec<EnumVariant>,
    /// Whether an unmatched value is captured instead of rejected.
    pub catch_all: bool,
}

/// What reading an enum discriminant yields.
#[derive(Debug, PartialEq, Eq, Copy, Clone, Structural)]
pub enum EnumMatch {
    /// The value named this variant, by its canonical discriminant or one of
    /// its alternatives.
    Variant(usize),
    /// No variant matched; the catch-all holds the raw value.
    CatchAll(u32),
}

impl EnumLayout {
    /// Whether `raw` is the canonical discriminant of variant `k`.
    pub open spec fn is_canonical(&self, k: int, raw: u32) -> bool {
        self.variants@[k].canonical == raw
    }

    /// Whether `raw` is among the alternatives of variant `k`.
    pub open spec fn is_alternative(&self, k: int, raw: u32) -> bool {
        exists|a: int|
            0 <= a < self.variants@[k].alternatives@.len() && self.variants@[k].alternatives@[a]
                == raw
    }

    /// Whether any variant accepts `raw`, canonically or alternatively.
    pub open spec fn some_match(&self, raw: u32) -> bool {
        exists|k: int|
            0 <= k < self.variants@.len() && (self.is_canonical(k, raw) || self.is_alternative(
                k,
                raw,
            ))
    }

    /// Write a variant to the wire: its canonical discriminant. Alternatives
    /// are never written.
    pub fn write_variant(&self, k: usize) -> (r: u32)
        requires
            (k as int) < self.variants@.len(),
        ensures
            r == self.variants@[k as int].canonical,
    {
        self.variants[k].canonical
    }

    /// Read a discriminant: try the canonical values in declaration order,
    /// then the alternatives, then the catch-all when the layout has one,
    /// and fail with `InvalidValue` otherwise.
    pub fn read_value(&self, raw: u32) -> (r: Result<EnumMatch, WireError>)
        ensures
            read_pins(*self, raw, r),
            self.some_match(raw) ==> r matches Ok(EnumMatch::Variant(_)),
    {
        let n = self.variants.len();
        let mut k: usize = 0;
        while k < n
            invariant
                k <= n,
                n == self.variants@.len(),
                forall|j: int| 0 <= j < k ==> !self.is_canonical(j, raw),
            decreases n - k,
        {
            if self.variants[k].canonical == raw {
                return Ok(EnumMatch::Variant(k));
            }
            k += 1;
        }
        let mut k: usize = 0;
        while k < n
            invariant
                k <= n,
                n == self.variants@.len(),
                forall|j: int| 0 <= j < n ==> !self.is_canonical(j, raw),
                forall|j: int| 0 <= j < k ==> !self.is_alternative(j, raw),
            decreases n - k,
        {
            let alts = &self.variants[k].alternatives;
            let m = alts.len();
            let mut a: usize = 0;
            while a < m
                invariant
                    a <= m,
                    k < n,
                    n == self.variants@.len(),
                    m == self.variants@[k as int].alternatives@.len(),
                    alts@ == self.variants@[k as int].alternatives@,
                    forall|j: int| 0 <= j < n ==> !self.is_canonical(j, raw),
                    forall|j: int| 0 <= j < k ==> !self.is_alternative(j, raw),
                    forall|j: int| 0 <= j < a ==> alts@[j] != raw,
                decreases m - a,
            {
                if alts[a] == raw {
                    proof {
                        assert(self.is_alternative(k as int, raw)) by {
                            assert(self.variants@[k as int].alternatives@[a as int] == raw);
                        }
                    }
                    return Ok(EnumMatch::Variant(k));
                }
                a += 1;
            }
            proof {
                assert(!self.is_alternative(k as int, raw));
            }
            k += 1;
        }
        if self.catch_all {
            Ok(EnumMatch::CatchAll(raw))
        } else {
            Err(WireError::InvalidValue)
        }
    }
}

/// Law: an alternative reads back to the same variant as its canonical
/// value, for layouts whose discriminants do not collide: no alternative
/// equals any canonical value, an alternative belongs to one variant only,
/// and canonical values are distinct. `r_alt` and `r_canon` are what
/// [`EnumLayout::read_value`] returned for the alternative and the canonical
/// value; its contract pins both to the same variant.
pub proof fn lemma_alternative_reads_canonical(
    layout: EnumLayout,
    k: int,
    alt: u32,
    r_alt: Result<EnumMatch, WireError>,
    r_canon: Result<EnumMatch, WireError>,
)
    requires
        0 <= k < layout.variants@.len(),
        layout.is_alternative(k, alt),
        forall|j: int| 0 <= j < layout.variants@.len() ==> !layout.is_canonical(j, alt),
        forall|j: int|
            0 <= j < layout.variants@.len() && j != k ==> !layout.is_alternative(j, alt),
        forall|j: int|
            0 <= j < layout.variants@.len() && j != k ==> !layout.is_canonical(
                j,
                layout.variants@[k].canonical,
            ),
        read_pins(layout, alt, r_alt),
        read_pins(layout, layout.variants@[k].canonical, r_canon),
    ensures
        r_alt == r_canon,
        r_alt == Ok::<EnumMatch, WireError>(EnumMatch::Variant(k as usize)),
{
    assert(layout.is_canonical(k, layout.variants@[k].canonical));
    assert(layout.some_match(alt));
    assert(layout.some_match(layout.variants@[k].canonical));
}

/// Law: a variant written to the wire reads back to the same variant, for
/// layouts whose canonical discriminants are distinct and are no variant's
/// alternative. `r` is what [`EnumLayout::read_value`] returned for the
/// written value; its contract pins it.
pub proof fn lemma_enum_roundtrip(layout: EnumLayout, k: int, r: Result<EnumMatch, WireError>)
    requires
        0 <= k < layout.variants@.len(),
        forall|j: int|
            0 <= j < layout.variants@.len() && j != k ==> !layout.is_canonical(
                j,
                layout.variants@[k].canonical,
            ),
        read_pins(layout, layout.variants@[k].canonical, r),
    ensures
        r == Ok::<EnumMatch, WireError>(EnumMatch::Variant(k as usize)),
{
    assert(layout.is_canonical(k, layout.variants@[k].canonical));
    assert(layout.some_match(layout.variants@[k].canonical));
}

/// What [`EnumLayout::read_value`]'s contract says of a result: the first
/// canonical match wins, else the first alternative match, else the
/// catch-all or a failure.
pub open spec fn read_pins(layout: EnumLayout, raw: u32, r: Result<EnumMatch, WireError>) -> bool {
    match r {
        Ok(EnumMatch::Variant(k)) => (k as int) < layout.variants@.len() && ((layout.is_canonical(
            k as int,
            raw,
        ) && (forall|j: int| 0 <= j < k ==> !layout.is_canonical(j, raw))) || ((forall|j: int|
            0 <= j < layout.variants@.len() ==> !layout.is_canonical(j, raw))
            && layout.is_alternative(k as int, raw) && (forall|j: int|
            0 <= j < k ==> !layout.is_alternative(j, raw)))),
        Ok(EnumMatch::CatchAll(v)) => v == raw && layout.catch_all && !layout.some_match(raw),
        Err(e) => e == WireError::InvalidValue && !layout.catch_all && !layout.some_match(raw),
    }
}

} // verus!
