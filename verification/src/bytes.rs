use vstd::prelude::*;

verus! {

/// The big-endian 32-bit word stored in `s[i..i + 4]`.
pub open spec fn be_word(s: Seq<u8>, i: int) -> u32 {
    (s[i] as int * 0x100_0000 + s[i + 1] as int * 0x1_0000 + s[i + 2] as int * 0x100
        + s[i + 3] as int) as u32
}

/// The `k`-th byte (0 = most significant) of the big-endian encoding of `v`.
pub open spec fn be_byte(v: u32, k: int) -> u8 {
    if k == 0 {
        (v as int / 0x100_0000) as u8
    } else if k == 1 {
        ((v as int / 0x1_0000) % 0x100) as u8
    } else if k == 2 {
        ((v as int / 0x100) % 0x100) as u8
    } else {
        (v as int % 0x100) as u8
    }
}

/// `s` with the big-endian encoding of `v` stored at `s[i..i + 4]`.
pub open spec fn be_store(s: Seq<u8>, i: int, v: u32) -> Seq<u8> {
    s.update(i, be_byte(v, 0)).update(i + 1, be_byte(v, 1)).update(i + 2, be_byte(v, 2)).update(
        i + 3,
        be_byte(v, 3),
    )
}

/// Composing four bytes with shifts is the same as the positional sum.
pub proof fn lemma_be_compose(a: u8, b: u8, c: u8, d: u8)
    ensures
        ((a as u32) << 24u32) | ((b as u32) << 16u32) | ((c as u32) << 8u32) | (d as u32) == (a
            as int * 0x100_0000 + b as int * 0x1_0000 + c as int * 0x100 + d as int) as u32,
        (a as int * 0x100_0000 + b as int * 0x1_0000 + c as int * 0x100 + (d as int))
            < 0x1_0000_0000,
{
    assert(((a as u32) << 24u32) | ((b as u32) << 16u32) | ((c as u32) << 8u32) | (d as u32)
        == (a as u32) * 0x100_0000u32 + (b as u32) * 0x1_0000u32 + (c as u32) * 0x100u32 + (
    d as u32)) by (bit_vector);
    assert((a as int * 0x100_0000 + b as int * 0x1_0000 + c as int * 0x100 + (d as int))
        < 0x1_0000_0000) by (nonlinear_arith)
        requires
            a < 256,
            b < 256,
            c < 256,
            d < 256,
    ;
}

/// Extracting bytes with shifts and masks gives the big-endian bytes.
pub proof fn lemma_be_split(v: u32)
    ensures
        ((v >> 24u32) & 0xFF) as u8 == be_byte(v, 0),
        ((v >> 16u32) & 0xFF) as u8 == be_byte(v, 1),
        ((v >> 8u32) & 0xFF) as u8 == be_byte(v, 2),
        (v & 0xFF) as u8 == be_byte(v, 3),
{
    assert((v >> 24u32) & 0xFF == v / 0x100_0000 && (v >> 16u32) & 0xFF == (v / 0x1_0000) % 0x100
        && (v >> 8u32) & 0xFF == (v / 0x100) % 0x100 && v & 0xFF == v % 0x100) by (bit_vector);
}

/// Storing a word and reading it back gives the word.
pub proof fn lemma_be_roundtrip(s: Seq<u8>, i: int, v: u32)
    requires
        0 <= i,
        i + 4 <= s.len(),
    ensures
        be_word(be_store(s, i, v), i) == v,
        be_store(s, i, v).len() == s.len(),
        forall|j: int| 0 <= j < s.len() && (j < i || j >= i + 4) ==> be_store(s, i, v)[j] == s[j],
{
    let t = be_store(s, i, v);
    assert(t[i] == be_byte(v, 0));
    assert(t[i + 1] == be_byte(v, 1));
    assert(t[i + 2] == be_byte(v, 2));
    assert(t[i + 3] == be_byte(v, 3));
    let vi = v as int;
    assert(vi == (vi / 0x100_0000) * 0x100_0000 + ((vi / 0x1_0000) % 0x100) * 0x1_0000 + ((vi
        / 0x100) % 0x100) * 0x100 + vi % 0x100) by (nonlinear_arith)
        requires
            0 <= vi < 0x1_0000_0000,
    ;
}

/// Reads the big-endian word at `s[i..i + 4]`.
pub fn read_be_u32(s: &Vec<u8>, i: usize) -> (r: u32)
    requires
        i + 4 <= s.len(),
    ensures
        r == be_word(s@, i as int),
{
    let a = s[i];
    let b = s[i + 1];
    let c = s[i + 2];
    let d = s[i + 3];
    proof {
        lemma_be_compose(a, b, c, d);
    }
    ((a as u32) << 24u32) | ((b as u32) << 16u32) | ((c as u32) << 8u32) | (d as u32)
}

/// Stores `v` big-endian at `s[i..i + 4]`.
pub fn write_be_u32(s: &mut Vec<u8>, i: usize, v: u32)
    requires
        i + 4 <= old(s).len(),
    ensures
        final(s)@ == be_store(old(s)@, i as int, v),
{
    proof {
        lemma_be_split(v);
    }
    s.set(i, ((v >> 24u32) & 0xFF) as u8);
    s.set(i + 1, ((v >> 16u32) & 0xFF) as u8);
    s.set(i + 2, ((v >> 8u32) & 0xFF) as u8);
    s.set(i + 3, (v & 0xFF) as u8);
}

/// The big-endian encoding of `v`.
pub open spec fn be_bytes(v: u32) -> Seq<u8> {
    seq![be_byte(v, 0), be_byte(v, 1), be_byte(v, 2), be_byte(v, 3)]
}

/// The little-endian encoding of the 16-bit value `v`.
pub open spec fn le16_bytes(v: int) -> Seq<u8> {
    seq![(v % 0x100) as u8, ((v / 0x100) % 0x100) as u8]
}

/// Appends the big-endian encoding of `v`.
pub fn push_be_u32(out: &mut Vec<u8>, v: u32)
    ensures
        final(out)@ == old(out)@ + be_bytes(v),
{
    proof {
        lemma_be_split(v);
    }
    out.push(((v >> 24u32) & 0xFF) as u8);
    out.push(((v >> 16u32) & 0xFF) as u8);
    out.push(((v >> 8u32) & 0xFF) as u8);
    out.push((v & 0xFF) as u8);
    assert(out@ =~= old(out)@ + be_bytes(v));
}

/// Appends the little-endian encoding of `v`.
pub fn push_le_u16(out: &mut Vec<u8>, v: u16)
    ensures
        final(out)@ == old(out)@ + le16_bytes(v as int),
{
    let lo = (v & 0xFF) as u8;
    let hi = (v >> 8u16) as u8;
    assert(lo == (v as int % 0x100) as u8 && hi == ((v as int / 0x100) % 0x100) as u8) by (bit_vector)
        requires
            lo == (v & 0xFF) as u8,
            hi == (v >> 8u16) as u8,
    ;
    out.push(lo);
    out.push(hi);
    assert(out@ =~= old(out)@ + le16_bytes(v as int));
}

} // verus!
