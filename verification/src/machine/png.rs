// Minimal PNG writer: 8-bit RGB, one IDAT holding a zlib stream of stored
// (uncompressed) deflate blocks, so nothing but the block framing, CRC-32
// over each chunk and Adler-32 over the image data is needed.
use vstd::prelude::*;

use crate::bytes::{be_bytes, le16_bytes, push_be_u32, push_le_u16};

verus! {

/// One bit of the reflected CRC-32 (polynomial 0xEDB88320).
pub open spec fn crc_step(c: u32) -> u32 {
    if c & 1 != 0 {
        0xEDB8_8320u32 ^ (c >> 1u32)
    } else {
        c >> 1u32
    }
}

/// `k` bits of the CRC applied to `c`.
pub open spec fn crc_rounds(c: u32, k: nat) -> u32
    decreases k,
{
    if k == 0 {
        c
    } else {
        crc_step(crc_rounds(c, (k - 1) as nat))
    }
}

/// The byte-at-a-time CRC table: entry `n` is eight bits of the CRC of `n`.
pub open spec fn crc_table() -> Seq<u32> {
    Seq::new(256, |n: int| crc_rounds(n as u32, 8))
}

/// The CRC register after feeding `data` through `table`, starting from all
/// ones.
pub open spec fn crc_register(table: Seq<u32>, data: Seq<u8>) -> u32
    decreases data.len(),
{
    if data.len() == 0 {
        0xFFFF_FFFF
    } else {
        let c = crc_register(table, data.drop_last());
        table[((c ^ (data.last() as u32)) & 0xFF) as int] ^ (c >> 8u32)
    }
}

/// The CRC-32 of `data` computed with `table`.
pub open spec fn crc_with(table: Seq<u32>, data: Seq<u8>) -> u32 {
    crc_register(table, data) ^ 0xFFFF_FFFF
}

/// The CRC-32 (ISO-HDLC, as PNG uses it) of `data`.
pub open spec fn crc32_of(data: Seq<u8>) -> u32 {
    crc_with(crc_table(), data)
}

/// Adler-32's running sum `A`: one plus the bytes.
pub open spec fn adler_a(data: Seq<u8>) -> int
    decreases data.len(),
{
    if data.len() == 0 {
        1
    } else {
        adler_a(data.drop_last()) + data.last()
    }
}

/// Adler-32's running sum `B`: the sum of `A` over every non-empty prefix.
pub open spec fn adler_b(data: Seq<u8>) -> int
    decreases data.len(),
{
    if data.len() == 0 {
        0
    } else {
        adler_b(data.drop_last()) + adler_a(data)
    }
}

/// The Adler-32 checksum of `data`.
pub open spec fn adler32_of(data: Seq<u8>) -> u32 {
    ((adler_b(data) % 65521) * 0x1_0000 + adler_a(data) % 65521) as u32
}

/// A PNG chunk: length, kind, body and the CRC of kind and body.
pub open spec fn png_chunk(table: Seq<u32>, kind: Seq<u8>, body: Seq<u8>) -> Seq<u8> {
    be_bytes(body.len() as u32) + kind + body + be_bytes(crc_with(table, kind + body))
}

/// Stored deflate blocks of at most 65535 bytes holding `raw`; the last
/// one is marked final (an empty input is one empty final block).
pub open spec fn stored_blocks(raw: Seq<u8>) -> Seq<u8>
    decreases raw.len(),
{
    if raw.len() <= 65535 {
        seq![1u8] + le16_bytes(raw.len() as int) + le16_bytes(65535 - raw.len()) + raw
    } else {
        seq![0u8] + le16_bytes(65535) + le16_bytes(0) + raw.subrange(0, 65535) + stored_blocks(
            raw.subrange(65535, raw.len() as int),
        )
    }
}

/// A zlib stream of stored blocks holding `raw`.
pub open spec fn zlib_of(raw: Seq<u8>) -> Seq<u8> {
    seq![0x78u8, 0x01] + stored_blocks(raw) + be_bytes(adler32_of(raw))
}

/// The red, green and blue bytes of a 0x00RRGGBB pixel.
pub open spec fn rgb_of(p: u32) -> Seq<u8> {
    seq![((p as int / 0x1_0000) % 0x100) as u8, ((p as int / 0x100) % 0x100) as u8, (p as int % 0x100) as u8]
}

/// The pixel at `i`, black past the end of `pixels`.
pub open spec fn pixel_at(pixels: Seq<u32>, i: int) -> u32 {
    if 0 <= i < pixels.len() {
        pixels[i]
    } else {
        0
    }
}

/// The RGB bytes of the first `n` pixels of the row starting at `start`.
pub open spec fn row_bytes(pixels: Seq<u32>, start: int, n: nat) -> Seq<u8>
    decreases n,
{
    if n == 0 {
        Seq::empty()
    } else {
        row_bytes(pixels, start, (n - 1) as nat) + rgb_of(pixel_at(pixels, start + n - 1))
    }
}

/// The first `rows` scanlines of the image, each a filter byte of 0 and the
/// row's RGB bytes.
pub open spec fn scanlines(pixels: Seq<u32>, width: nat, rows: nat) -> Seq<u8>
    decreases rows,
{
    if rows == 0 {
        Seq::empty()
    } else {
        scanlines(pixels, width, (rows - 1) as nat) + seq![0u8] + row_bytes(
            pixels,
            (rows - 1) * width,
            width,
        )
    }
}

/// The PNG signature.
pub open spec fn png_signature() -> Seq<u8> {
    seq![0x89u8, 0x50, 0x4E, 0x47, 0x0D, 0x0A, 0x1A, 0x0A]
}

/// The PNG file of a `width` x `height` image of 0x00RRGGBB pixels, row by
/// row (missing pixels are black).
pub open spec fn png_of(pixels: Seq<u32>, width: nat, height: nat) -> Seq<u8> {
    let ihdr = be_bytes(width as u32) + be_bytes(height as u32) + seq![8u8, 2, 0, 0, 0];
    png_signature() + png_chunk(crc_table(), seq![0x49u8, 0x48, 0x44, 0x52], ihdr) + png_chunk(
        crc_table(),
        seq![0x49u8, 0x44, 0x41, 0x54],
        zlib_of(scanlines(pixels, width, height)),
    ) + png_chunk(crc_table(), seq![0x49u8, 0x45, 0x4E, 0x44], Seq::empty())
}

/// The CRC table.
pub fn crc32_table() -> (table: [u32; 256])
    ensures
        table@ == crc_table(),
{
    let mut table = [0u32; 256];
    let mut n: usize = 0;
    while n < 256
        invariant
            n <= 256,
            forall|i: int| 0 <= i < n ==> #[trigger] table@[i] == crc_table()[i],
        decreases 256 - n,
    {
        let mut c = n as u32;
        let mut k: usize = 0;
        while k < 8
            invariant
                k <= 8,
                n < 256,
                c == crc_rounds(n as u32, k as nat),
            decreases 8 - k,
        {
            c = if c & 1 != 0 {
                0xEDB8_8320 ^ (c >> 1)
            } else {
                c >> 1
            };
            k = k + 1;
        }
        table[n] = c;
        n = n + 1;
    }
    assert(table@ =~= crc_table());
    table
}

/// The CRC-32 of `data` computed with `table`.
pub fn crc32(table: &[u32; 256], data: &[u8]) -> (r: u32)
    ensures
        r == crc_with(table@, data@),
{
    let mut c = 0xFFFF_FFFFu32;
    let mut i: usize = 0;
    while i < data.len()
        invariant
            i <= data@.len(),
            c == crc_register(table@, data@.subrange(0, i as int)),
        decreases data@.len() - i,
    {
        let b = data[i];
        let m = (c ^ b as u32) & 0xFF;
        assert(m < 256) by (bit_vector)
            requires
                m == (c ^ b as u32) & 0xFF,
        ;
        let idx = m as usize;
        assert(data@.subrange(0, i + 1).drop_last() =~= data@.subrange(0, i as int));
        c = table[idx] ^ (c >> 8);
        i = i + 1;
    }
    assert(data@.subrange(0, data@.len() as int) =~= data@);
    c ^ 0xFFFF_FFFF
}

/// Bytes taken between two reductions modulo 65521 without overflowing.
pub const ADLER_CHUNK: usize = 5552;

/// A step of Adler-32 keeps both sums congruent to the definition's.
proof fn lemma_adler_step(a: int, b: int, prefix: Seq<u8>, x: u8)
    requires
        a % 65521 == adler_a(prefix) % 65521,
        b % 65521 == adler_b(prefix) % 65521,
    ensures
        (a + x) % 65521 == adler_a(prefix.push(x)) % 65521,
        (b + a + x) % 65521 == adler_b(prefix.push(x)) % 65521,
{
    let p = prefix.push(x);
    assert(p.drop_last() =~= prefix);
    let m: int = 65521;
    vstd::arithmetic::div_mod::lemma_add_mod_noop(a, x as int, m);
    vstd::arithmetic::div_mod::lemma_add_mod_noop(adler_a(prefix), x as int, m);
    vstd::arithmetic::div_mod::lemma_add_mod_noop(b, a + x, m);
    vstd::arithmetic::div_mod::lemma_add_mod_noop(adler_b(prefix), adler_a(p), m);
}

/// The Adler-32 checksum of `data`, reducing the sums once per
/// `ADLER_CHUNK` bytes.
pub fn adler32(data: &[u8]) -> (r: u32)
    ensures
        r == adler32_of(data@),
{
    let mut a: u32 = 1;
    let mut b: u32 = 0;
    let mut start: usize = 0;
    while start < data.len()
        invariant
            start <= data@.len(),
            a < 65521,
            b < 65521,
            a == adler_a(data@.subrange(0, start as int)) % 65521,
            b == adler_b(data@.subrange(0, start as int)) % 65521,
        decreases data@.len() - start,
    {
        let end = if data.len() - start > ADLER_CHUNK {
            start + ADLER_CHUNK
        } else {
            data.len()
        };
        let mut i = start;
        while i < end
            invariant
                start <= i <= end <= data@.len(),
                end - start <= 5552,
                a % 65521 == adler_a(data@.subrange(0, i as int)) % 65521,
                b % 65521 == adler_b(data@.subrange(0, i as int)) % 65521,
                a <= 65520 + 255 * (i - start),
                2 * b <= 131040 * (i - start + 1) + 255 * (i - start) * (i - start + 1),
            decreases end - i,
        {
            let x = data[i];
            let ghost j: int = i - start;
            assert(2 * (b + a + x) <= 131040 * (j + 2) + 255 * (j + 1) * (j + 2)) by (nonlinear_arith)
                requires
                    a <= 65520 + 255 * j,
                    2 * b <= 131040 * (j + 1) + 255 * j * (j + 1),
                    x <= 255,
                    0 <= j,
            ;
            assert(131040 * (j + 2) + 255 * (j + 1) * (j + 2) <= 2 * 4294967295int) by (nonlinear_arith)
                requires
                    0 <= j < 5552,
            ;
            proof {
                lemma_adler_step(a as int, b as int, data@.subrange(0, i as int), x);
                assert(data@.subrange(0, i as int).push(x) =~= data@.subrange(0, i + 1));
            }
            a = a + x as u32;
            b = b + a;
            i = i + 1;
        }
        a = a % 65521;
        b = b % 65521;
        start = end;
    }
    assert(data@.subrange(0, data@.len() as int) =~= data@);
    let r = (b << 16) | a;
    assert(r == b * 0x1_0000 + a) by (bit_vector)
        requires
            a < 65521,
            b < 65521,
            r == (b << 16) | a,
    ;
    r
}

/// Appends the chunk `kind` with `body` to `out`.
pub fn write_chunk(out: &mut Vec<u8>, table: &[u32; 256], kind: &[u8; 4], body: &[u8])
    ensures
        final(out)@ == old(out)@ + png_chunk(table@, kind@, body@),
{
    push_be_u32(out, body.len() as u32);
    let mut crc_input: Vec<u8> = Vec::new();
    let mut i: usize = 0;
    while i < 4
        invariant
            i <= 4,
            crc_input@ == kind@.subrange(0, i as int),
        decreases 4 - i,
    {
        crc_input.push(kind[i]);
        i = i + 1;
        assert(crc_input@ =~= kind@.subrange(0, i as int));
    }
    let mut j: usize = 0;
    while j < body.len()
        invariant
            j <= body@.len(),
            crc_input@ == kind@ + body@.subrange(0, j as int),
        decreases body@.len() - j,
    {
        crc_input.push(body[j]);
        j = j + 1;
        assert(crc_input@ =~= kind@ + body@.subrange(0, j as int));
    }
    assert(crc_input@ =~= kind@ + body@);
    let ghost before = out@;
    let mut k: usize = 0;
    while k < crc_input.len()
        invariant
            k <= crc_input@.len(),
            out@ == before + crc_input@.subrange(0, k as int),
        decreases crc_input@.len() - k,
    {
        out.push(crc_input[k]);
        k = k + 1;
        assert(out@ =~= before + crc_input@.subrange(0, k as int));
    }
    let crc = crc32(table, crc_input.as_slice());
    push_be_u32(out, crc);
    assert(out@ =~= old(out)@ + png_chunk(table@, kind@, body@));
}

/// Appends `raw[from..to]` to `z`.
fn push_range(z: &mut Vec<u8>, raw: &[u8], from: usize, to: usize)
    requires
        from <= to <= raw@.len(),
    ensures
        final(z)@ == old(z)@ + raw@.subrange(from as int, to as int),
{
    let mut i = from;
    while i < to
        invariant
            from <= i <= to,
            to <= raw@.len(),
            z@ == old(z)@ + raw@.subrange(from as int, i as int),
        decreases to - i,
    {
        z.push(raw[i]);
        i = i + 1;
        assert(z@ =~= old(z)@ + raw@.subrange(from as int, i as int));
    }
}

/// A zlib stream of stored deflate blocks holding `raw`.
pub fn zlib_stored(raw: &[u8]) -> (z: Vec<u8>)
    ensures
        z@ == zlib_of(raw@),
{
    let mut z: Vec<u8> = Vec::new();
    z.push(0x78);
    z.push(0x01);
    let mut pos: usize = 0;
    let mut done = false;
    assert(raw@.subrange(0, raw@.len() as int) =~= raw@);
    while !done
        invariant
            pos <= raw@.len(),
            !done ==> z@ + stored_blocks(raw@.subrange(pos as int, raw@.len() as int)) == seq![
                0x78u8,
                0x01,
            ] + stored_blocks(raw@),
            done ==> z@ == seq![0x78u8, 0x01] + stored_blocks(raw@),
        decreases raw@.len() - pos + if done { 0int } else { 1int },
    {
        let rest = raw.len() - pos;
        let ghost tail = raw@.subrange(pos as int, raw@.len() as int);
        if rest <= 65535 {
            z.push(0x01);
            push_le_u16(&mut z, rest as u16);
            push_le_u16(&mut z, !(rest as u16));
            assert(!(rest as u16) == 65535 - rest) by (bit_vector)
                requires
                    rest <= 65535,
            ;
            push_range(&mut z, raw, pos, raw.len());
            assert(stored_blocks(tail) =~= seq![1u8] + le16_bytes(rest as int) + le16_bytes(
                65535 - rest,
            ) + tail);
            assert(z@ =~= seq![0x78u8, 0x01] + stored_blocks(raw@));
            done = true;
        } else {
            let ghost before = z@;
            z.push(0x00);
            push_le_u16(&mut z, 65535);
            push_le_u16(&mut z, 0);
            push_range(&mut z, raw, pos, pos + 65535);
            assert(tail.subrange(0, 65535) =~= raw@.subrange(pos as int, pos + 65535));
            assert(tail.subrange(65535, tail.len() as int) =~= raw@.subrange(
                pos + 65535,
                raw@.len() as int,
            ));
            assert(z@ + stored_blocks(raw@.subrange(pos + 65535, raw@.len() as int)) =~= before
                + stored_blocks(tail));
            pos = pos + 65535;
        }
    }
    let sum = adler32(raw);
    push_be_u32(&mut z, sum);
    z
}

/// Appends the PNG of a `width` x `height` image of 0x00RRGGBB pixels, row
/// by row; pixels missing from `pixels` are black.
pub fn write_png(out: &mut Vec<u8>, pixels: &[u32], width: usize, height: usize)
    requires
        height * (1 + 3 * width) <= usize::MAX,
    ensures
        final(out)@ == old(out)@ + png_of(pixels@, width as nat, height as nat),
{
    let table = crc32_table();
    out.push(0x89);
    out.push(0x50);
    out.push(0x4E);
    out.push(0x47);
    out.push(0x0D);
    out.push(0x0A);
    out.push(0x1A);
    out.push(0x0A);
    assert(out@ =~= old(out)@ + png_signature());
    let ghost after_sig = out@;
    let mut ihdr: Vec<u8> = Vec::new();
    push_be_u32(&mut ihdr, width as u32);
    push_be_u32(&mut ihdr, height as u32);
    ihdr.push(8);
    ihdr.push(2);
    ihdr.push(0);
    ihdr.push(0);
    ihdr.push(0);
    let ihdr_kind: [u8; 4] = [0x49, 0x48, 0x44, 0x52];
    assert(ihdr_kind@ =~= seq![0x49u8, 0x48, 0x44, 0x52]);
    write_chunk(out, &table, &ihdr_kind, ihdr.as_slice());
    assert(ihdr@ =~= be_bytes(width as u32) + be_bytes(height as u32) + seq![8u8, 2, 0, 0, 0]);
    let ghost after_ihdr = out@;
    let mut raw: Vec<u8> = Vec::new();
    let mut y: usize = 0;
    while y < height
        invariant
            y <= height,
            height * (1 + 3 * width) <= usize::MAX,
            raw@ == scanlines(pixels@, width as nat, y as nat),
        decreases height - y,
    {
        let ghost line_start = raw@;
        raw.push(0);
        assert(y * width + width <= height * (1 + 3 * width)) by (nonlinear_arith)
            requires
                y < height,
        ;
        let mut x: usize = 0;
        while x < width
            invariant
                x <= width,
                y < height,
                y * width + width <= usize::MAX,
                raw@ == line_start + seq![0u8] + row_bytes(pixels@, y * width, x as nat),
            decreases width - x,
        {
            let i = y * width + x;
            let p: u32 = if i < pixels.len() {
                pixels[i]
            } else {
                0
            };
            let r = ((p >> 16) & 0xFF) as u8;
            let g = ((p >> 8) & 0xFF) as u8;
            let b = (p & 0xFF) as u8;
            assert(r == ((p as int / 0x1_0000) % 0x100) as u8 && g == ((p as int / 0x100) % 0x100) as u8
                && b == (p as int % 0x100) as u8) by (bit_vector)
                requires
                    r == ((p >> 16) & 0xFF) as u8,
                    g == ((p >> 8) & 0xFF) as u8,
                    b == (p & 0xFF) as u8,
            ;
            raw.push(r);
            raw.push(g);
            raw.push(b);
            x = x + 1;
            assert(raw@ =~= line_start + seq![0u8] + row_bytes(pixels@, y * width, x as nat));
        }
        y = y + 1;
        assert(raw@ =~= scanlines(pixels@, width as nat, y as nat));
    }
    let z = zlib_stored(raw.as_slice());
    let idat_kind: [u8; 4] = [0x49, 0x44, 0x41, 0x54];
    assert(idat_kind@ =~= seq![0x49u8, 0x44, 0x41, 0x54]);
    write_chunk(out, &table, &idat_kind, z.as_slice());
    let iend_kind: [u8; 4] = [0x49, 0x45, 0x4E, 0x44];
    assert(iend_kind@ =~= seq![0x49u8, 0x45, 0x4E, 0x44]);
    let empty: [u8; 0] = [];
    assert(empty@ =~= Seq::<u8>::empty());
    write_chunk(out, &table, &iend_kind, &empty);
    assert(out@ =~= old(out)@ + png_of(pixels@, width as nat, height as nat));
}

/// The bytes of a row: three per pixel, red, green, blue in that order.
proof fn lemma_row_bytes_layout(pixels: Seq<u32>, start: int, n: nat)
    ensures
        row_bytes(pixels, start, n).len() == 3 * n,
        forall|x: int|
            0 <= x < n ==> {
                let p = pixel_at(pixels, start + x);
                &&& #[trigger] row_bytes(pixels, start, n)[3 * x] == (p as int / 0x1_0000 % 0x100) as u8
                &&& row_bytes(pixels, start, n)[3 * x + 1] == (p as int / 0x100 % 0x100) as u8
                &&& row_bytes(pixels, start, n)[3 * x + 2] == (p as int % 0x100) as u8
            },
    decreases n,
{
    if n > 0 {
        lemma_row_bytes_layout(pixels, start, (n - 1) as nat);
        let prev = row_bytes(pixels, start, (n - 1) as nat);
        let cur = row_bytes(pixels, start, n);
        assert forall|x: int| 0 <= x < n implies {
            let p = pixel_at(pixels, start + x);
            &&& #[trigger] row_bytes(pixels, start, n)[3 * x] == (p as int / 0x1_0000 % 0x100) as u8
            &&& row_bytes(pixels, start, n)[3 * x + 1] == (p as int / 0x100 % 0x100) as u8
            &&& row_bytes(pixels, start, n)[3 * x + 2] == (p as int % 0x100) as u8
        } by {
            if x < n - 1 {
                assert(prev[3 * x] == cur[3 * x]);
                assert(prev[3 * x + 1] == cur[3 * x + 1]);
                assert(prev[3 * x + 2] == cur[3 * x + 2]);
            }
        }
    }
}

/// The image data a PNG holds (the IDAT content, before compression): for
/// each row a filter byte of 0, then each pixel 0x00RRGGBB as its red,
/// green and blue bytes in that order (colour type 2), so scanline `y`
/// starts at `y * (1 + 3 * width)`.
pub proof fn lemma_scanline_layout(pixels: Seq<u32>, width: nat, rows: nat)
    ensures
        scanlines(pixels, width, rows).len() == rows * (1 + 3 * width),
        forall|y: int|
            0 <= y < rows ==> #[trigger] scanlines(pixels, width, rows)[y * (1 + 3 * width)] == 0,
        forall|y: int, x: int|
            0 <= y < rows && 0 <= x < width ==> {
                let p = pixel_at(pixels, y * width + x);
                &&& #[trigger] scanlines(pixels, width, rows)[y * (1 + 3 * width) + 1 + 3 * x] == (p
                    as int / 0x1_0000 % 0x100) as u8
                &&& scanlines(pixels, width, rows)[y * (1 + 3 * width) + 2 + 3 * x] == (p as int
                    / 0x100 % 0x100) as u8
                &&& scanlines(pixels, width, rows)[y * (1 + 3 * width) + 3 + 3 * x] == (p as int
                    % 0x100) as u8
            },
    decreases rows,
{
    if rows > 0 {
        let r = (rows - 1) as nat;
        lemma_scanline_layout(pixels, width, r);
        lemma_row_bytes_layout(pixels, (r * width) as int, width);
        let prev = scanlines(pixels, width, r);
        let row = row_bytes(pixels, (r * width) as int, width);
        let cur = scanlines(pixels, width, rows);
        let base = r * (1 + 3 * width);
        assert(cur == prev + seq![0u8] + row);
        assert(prev.len() == base);
        assert(rows * (1 + 3 * width) == base + 1 + 3 * width) by (nonlinear_arith)
            requires
                base == r * (1 + 3 * width),
                rows == r + 1,
        ;
        assert forall|y: int| 0 <= y < rows implies #[trigger] scanlines(pixels, width, rows)[y * (1
            + 3 * width)] == 0 by {
            if y < r {
                assert(y * (1 + 3 * width) + (1 + 3 * width) <= base) by (nonlinear_arith)
                    requires
                        y < r,
                        base == r * (1 + 3 * width),
                ;
                assert(cur[y * (1 + 3 * width)] == prev[y * (1 + 3 * width)]);
            } else {
                assert(y * (1 + 3 * width) == base);
            }
        }
        assert forall|y: int, x: int| 0 <= y < rows && 0 <= x < width implies {
            let p = pixel_at(pixels, y * width + x);
            &&& #[trigger] scanlines(pixels, width, rows)[y * (1 + 3 * width) + 1 + 3 * x] == (p as int
                / 0x1_0000 % 0x100) as u8
            &&& scanlines(pixels, width, rows)[y * (1 + 3 * width) + 2 + 3 * x] == (p as int / 0x100
                % 0x100) as u8
            &&& scanlines(pixels, width, rows)[y * (1 + 3 * width) + 3 + 3 * x] == (p as int % 0x100) as u8
        } by {
            let at = y * (1 + 3 * width) + 1 + 3 * x;
            if y < r {
                assert(at + 3 <= base) by (nonlinear_arith)
                    requires
                        at == y * (1 + 3 * width) + 1 + 3 * x,
                        x < width,
                        y < r,
                        base == r * (1 + 3 * width),
                ;
                assert(cur[at] == prev[at]);
                assert(cur[at + 1] == prev[at + 1]);
                assert(cur[at + 2] == prev[at + 2]);
            } else {
                assert(y * (1 + 3 * width) == base);
                assert(y * width == r * width);
                assert(cur[at] == row[3 * x]);
                assert(cur[at + 1] == row[3 * x + 1]);
                assert(cur[at + 2] == row[3 * x + 2]);
            }
        }
    }
}

} // verus!
