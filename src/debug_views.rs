//! Helpers of the emulator debug views: register names and colors for the
//! event view, pattern tiles and palette swatches for the PPU view.
use crate::drawing::{col_of, filled, in_rect, rect, row_of, Color, SimpleBuffer};
use crate::text::string_from_chars;
use vstd::prelude::*;
use vstd::utf8::encode_utf8;

verus! {

/// The name of a memory-mapped CPU register, or the empty string.
pub open spec fn register_label(address: u16) -> Seq<char> {
    if address == 0x2000 {
        seq!['P', 'P', 'U', 'C', 'T', 'R', 'L']
    } else if address == 0x2001 {
        seq!['P', 'P', 'U', 'M', 'A', 'S', 'K']
    } else if address == 0x2002 {
        seq!['P', 'P', 'U', 'S', 'T', 'A', 'T', 'U', 'S']
    } else if address == 0x2003 {
        seq!['O', 'A', 'M', 'A', 'D', 'D', 'R']
    } else if address == 0x2004 {
        seq!['O', 'A', 'M', 'D', 'A', 'T', 'A']
    } else if address == 0x2005 {
        seq!['P', 'P', 'U', 'S', 'C', 'R', 'O', 'L', 'L']
    } else if address == 0x2006 {
        seq!['P', 'P', 'U', 'A', 'D', 'D', 'R']
    } else if address == 0x2007 {
        seq!['P', 'P', 'U', 'D', 'A', 'T', 'A']
    } else if address == 0x4014 {
        seq!['O', 'A', 'M', 'D', 'M', 'A']
    } else {
        Seq::empty()
    }
}

/// The name of the memory-mapped CPU register at `address`; see
/// `register_label`.
pub fn cpu_register_label(address: u16) -> (r: String)
    ensures
        r@ == register_label(address),
{
    let empty: [char; 0] = [];
    let label: &[char] = match address {
        0x2000 => ['P', 'P', 'U', 'C', 'T', 'R', 'L'].as_slice(),
        0x2001 => ['P', 'P', 'U', 'M', 'A', 'S', 'K'].as_slice(),
        0x2002 => ['P', 'P', 'U', 'S', 'T', 'A', 'T', 'U', 'S'].as_slice(),
        0x2003 => ['O', 'A', 'M', 'A', 'D', 'D', 'R'].as_slice(),
        0x2004 => ['O', 'A', 'M', 'D', 'A', 'T', 'A'].as_slice(),
        0x2005 => ['P', 'P', 'U', 'S', 'C', 'R', 'O', 'L', 'L'].as_slice(),
        0x2006 => ['P', 'P', 'U', 'A', 'D', 'D', 'R'].as_slice(),
        0x2007 => ['P', 'P', 'U', 'D', 'A', 'T', 'A'].as_slice(),
        0x4014 => ['O', 'A', 'M', 'D', 'M', 'A'].as_slice(),
        _ => empty.as_slice(),
    };
    let mut out: Vec<char> = Vec::new();
    let mut i: usize = 0;
    while i < label.len()
        invariant
            i <= label@.len(),
            out@ == label@.subrange(0, i as int),
        decreases label@.len() - i,
    {
        out.push(label[i]);
        i = i + 1;
        assert(out@ =~= label@.subrange(0, i as int));
    }
    assert(out@ =~= register_label(address));
    string_from_chars(&out)
}

/// The largest UTF-8 byte length among the first `n` strings.
pub open spec fn longest_of(strings: Seq<String>, n: int) -> int
    decreases n,
{
    if n <= 0 {
        0
    } else {
        let rest = longest_of(strings, n - 1);
        let here = (encode_utf8(strings[n - 1]@).len() as usize) as int;
        if here > rest { here } else { rest }
    }
}

/// The length in bytes of the longest string (0 for none).
pub fn longest(strings: &Vec<String>) -> (r: usize)
    ensures
        r == longest_of(strings@, strings@.len() as int),
{
    let mut length: usize = 0;
    let mut i: usize = 0;
    while i < strings.len()
        invariant
            i <= strings@.len(),
            length == longest_of(strings@, i as int),
        decreases strings@.len() - i,
    {
        let st = strings[i].as_str();
        let n = st.len();
        assert(st@ == strings@[i as int]@);
        assert(n == encode_utf8(strings@[i as int]@).len() as usize);
        if n > length {
            length = n;
        }
        i = i + 1;
    }
    length
}

/// The color of a CPU register access in the event view: one per PPU
/// register, orange for the APU registers, magenta for OAM DMA and the APU
/// status and frame-counter registers, grey otherwise.
pub open spec fn register_color(address: u16) -> Seq<u8> {
    if address == 0x2000 {
        seq![255u8, 94u8, 94u8, 255u8]
    } else if address == 0x2001 {
        seq![142u8, 51u8, 255u8, 255u8]
    } else if address == 0x2002 {
        seq![26u8, 86u8, 100u8, 255u8]
    } else if address == 0x2003 {
        seq![255u8, 132u8, 224u8, 255u8]
    } else if address == 0x2004 {
        seq![250u8, 255u8, 57u8, 255u8]
    } else if address == 0x2005 {
        seq![46u8, 255u8, 40u8, 255u8]
    } else if address == 0x2006 {
        seq![61u8, 45u8, 255u8, 255u8]
    } else if address == 0x2007 {
        seq![255u8, 6u8, 13u8, 255u8]
    } else if 0x4000 <= address <= 0x4013 {
        seq![255u8, 192u8, 0u8, 255u8]
    } else if address == 0x4014 || address == 0x4015 || address == 0x4017 {
        seq![255u8, 0u8, 255u8, 255u8]
    } else {
        seq![192u8, 192u8, 192u8, 255u8]
    }
}

/// The color for an access to `address`; see `register_color`.
pub fn cpu_register_color(address: u16) -> (c: Color)
    ensures
        c.data@ == register_color(address),
{
    match address {
        0x2000 => Color::rgb(255, 94, 94),
        0x2001 => Color::rgb(142, 51, 255),
        0x2002 => Color::rgb(26, 86, 100),
        0x2003 => Color::rgb(255, 132, 224),
        0x2004 => Color::rgb(250, 255, 57),
        0x2005 => Color::rgb(46, 255, 40),
        0x2006 => Color::rgb(61, 45, 255),
        0x2007 => Color::rgb(255, 6, 13),
        0x4000..=0x4013 => Color::rgb(255, 192, 0),
        0x4014 => Color::rgb(255, 0, 255),
        0x4015 => Color::rgb(255, 0, 255),
        0x4017 => Color::rgb(255, 0, 255),
        _ => Color::rgb(192, 192, 192),
    }
}

/// Draws a 16 by 16 palette swatch at `(dx, dy)`: a white outline around a
/// 14 by 14 square of `color`.
pub fn draw_color_box(buffer: &mut SimpleBuffer, dx: u32, dy: u32, color: Color)
    requires
        old(buffer).wf(),
        dx + 16 <= old(buffer).width,
        dy + 16 <= old(buffer).height,
    ensures
        final(buffer).wf(),
        final(buffer).width == old(buffer).width,
        final(buffer).height == old(buffer).height,
        final(buffer).buffer@ == filled(
            filled(old(buffer).buffer@, old(buffer).width as int, dx as int, dy as int, 16, 16, seq![255u8, 255u8, 255u8, 255u8]),
            old(buffer).width as int,
            dx + 1,
            dy + 1,
            14,
            14,
            color.data@,
        ),
{
    rect(buffer, dx, dy, 16, 16, Color::rgb(255, 255, 255));
    rect(buffer, dx + 1, dy + 1, 14, 14, color);
}

/// `2` to the power `k`.
pub open spec fn pow2(k: nat) -> int
    decreases k,
{
    if k == 0 {
        1
    } else {
        2 * pow2((k - 1) as nat)
    }
}

proof fn lemma_pow2_positive(k: nat)
    ensures
        pow2(k) >= 1,
    decreases k,
{
    if k > 0 {
        lemma_pow2_positive((k - 1) as nat);
    }
}

/// Bit `k` of `b`.
pub open spec fn bit_of(b: u8, k: nat) -> int {
    (b as int / pow2(k)) % 2
}

/// The color of pixel `(x, y)` of an 8 by 8 pattern tile: the tile's first
/// eight bytes are the low bit planes of its rows, the next eight the high
/// ones, the leftmost pixel in bit 7; the two bits select one of four RGBA
/// entries of `palette`, drawn opaque.
pub open spec fn tile_pixel(tile: Seq<u8>, palette: Seq<u8>, x: int, y: int) -> Seq<u8> {
    let k = (7 - x) as nat;
    let idx = bit_of(tile[y], k) + 2 * bit_of(tile[8 + y], k);
    seq![palette[4 * idx], palette[4 * idx + 1], palette[4 * idx + 2], 255u8]
}

/// `buf` with the tile drawn at `(dx, dy)`.
pub open spec fn tile_drawn(buf: Seq<u8>, w: int, tile: Seq<u8>, palette: Seq<u8>, dx: int, dy: int) -> Seq<u8> {
    Seq::new(
        buf.len(),
        |i: int|
            if in_rect(col_of(i, w), row_of(i, w), dx, dy, 8, 8) {
                tile_pixel(tile, palette, col_of(i, w) - dx, row_of(i, w) - dy)[i % 4]
            } else {
                buf[i]
            },
    )
}

/// The tile drawn for the rows above `cy` and, in row `cy`, from column
/// `cx` rightward.
spec fn tile_drawn_upto(buf: Seq<u8>, w: int, tile: Seq<u8>, palette: Seq<u8>, dx: int, dy: int, cx: int, cy: int) -> Seq<u8> {
    Seq::new(
        buf.len(),
        |i: int|
            if in_rect(col_of(i, w), row_of(i, w), dx, dy, 8, 8) && (row_of(i, w) < cy || (row_of(i, w) == cy
                && col_of(i, w) >= cx)) {
                tile_pixel(tile, palette, col_of(i, w) - dx, row_of(i, w) - dy)[i % 4]
            } else {
                buf[i]
            },
    )
}

/// Draws an 8 by 8 pattern tile at `(dx, dy)` with a four-entry palette;
/// see `tile_pixel`.
pub fn draw_tile(tile: &[u8; 16], buffer: &mut SimpleBuffer, dx: u32, dy: u32, palette: &[u8])
    requires
        old(buffer).wf(),
        dx + 8 <= old(buffer).width,
        dy + 8 <= old(buffer).height,
        palette@.len() >= 16,
    ensures
        final(buffer).wf(),
        final(buffer).width == old(buffer).width,
        final(buffer).height == old(buffer).height,
        final(buffer).buffer@ == tile_drawn(old(buffer).buffer@, old(buffer).width as int, tile@, palette@, dx as int, dy as int),
{
    let ghost b0 = buffer.buffer@;
    let ghost w = buffer.width as int;
    assert(tile_drawn_upto(b0, w, tile@, palette@, dx as int, dy as int, dx + 8, dy as int) =~= b0);
    let mut py: u32 = 0;
    while py < 8
        invariant
            buffer.wf(),
            buffer.width == old(buffer).width,
            buffer.height == old(buffer).height,
            w == buffer.width,
            b0 == old(buffer).buffer@,
            dx + 8 <= buffer.width,
            dy + 8 <= buffer.height,
            palette@.len() >= 16,
            py <= 8,
            buffer.buffer@ == tile_drawn_upto(b0, w, tile@, palette@, dx as int, dy as int, dx + 8, dy + py),
        decreases 8 - py,
    {
        let mut low: u8 = tile[py as usize];
        let mut high: u8 = tile[py as usize + 8];
        let mut px: u32 = 0;
        while px < 8
            invariant
                buffer.wf(),
                buffer.width == old(buffer).width,
                buffer.height == old(buffer).height,
                w == buffer.width,
                b0 == old(buffer).buffer@,
                dx + 8 <= buffer.width,
                dy + 8 <= buffer.height,
                palette@.len() >= 16,
                py < 8,
                px <= 8,
                low == tile@[py as int] as int / pow2(px as nat),
                high == tile@[py + 8] as int / pow2(px as nat),
                buffer.buffer@ == tile_drawn_upto(b0, w, tile@, palette@, dx as int, dy as int, dx + 8 - px, dy + py),
            decreases 8 - px,
        {
            let idx: usize = (low % 2) as usize + 2 * (high % 2) as usize;
            let color = Color::rgb(palette[idx * 4], palette[idx * 4 + 1], palette[idx * 4 + 2]);
            proof {
                assert(color.data@ =~= tile_pixel(tile@, palette@, 7 - px, py as int));
            }
            buffer.put_pixel(dx + (7 - px), dy + py, color);
            assert(buffer.buffer@ =~= tile_drawn_upto(b0, w, tile@, palette@, dx as int, dy as int, dx + 8 - (px + 1), dy + py));
            proof {
                lemma_pow2_positive(px as nat);
                vstd::arithmetic::div_mod::lemma_div_denominator(tile@[py as int] as int, pow2(px as nat), 2);
                vstd::arithmetic::div_mod::lemma_div_denominator(tile@[py + 8] as int, pow2(px as nat), 2);
                assert(pow2((px + 1) as nat) == pow2(px as nat) * 2);
            }
            low = low / 2;
            high = high / 2;
            px = px + 1;
        }
        assert(tile_drawn_upto(b0, w, tile@, palette@, dx as int, dy as int, dx as int, dy + py)
            =~= tile_drawn_upto(b0, w, tile@, palette@, dx as int, dy as int, dx + 8, dy + py + 1));
        py = py + 1;
    }
    assert(buffer.buffer@ =~= tile_drawn(b0, w, tile@, palette@, dx as int, dy as int));
}

fn bit(b: u8, k: u32) -> (r: u8)
    requires
        k < 8,
    ensures
        r == bit_of(b, k as nat),
{
    let mut v: u8 = b;
    let mut i: u32 = 0;
    while i < k
        invariant
            i <= k,
            v == b as int / pow2(i as nat),
        decreases k - i,
    {
        proof {
            lemma_pow2_positive(i as nat);
            vstd::arithmetic::div_mod::lemma_div_denominator(b as int, pow2(i as nat), 2);
            assert(pow2((i + 1) as nat) == pow2(i as nat) * 2);
        }
        v = v / 2;
        i = i + 1;
    }
    v % 2
}

/// `buf` with the tile drawn at twice its size at `(dx, dy)`: each tile
/// pixel becomes a 2 by 2 block.
pub open spec fn tile2x_drawn(buf: Seq<u8>, w: int, tile: Seq<u8>, palette: Seq<u8>, dx: int, dy: int) -> Seq<u8> {
    Seq::new(
        buf.len(),
        |i: int|
            if in_rect(col_of(i, w), row_of(i, w), dx, dy, 16, 16) {
                tile_pixel(tile, palette, (col_of(i, w) - dx) / 2, (row_of(i, w) - dy) / 2)[i % 4]
            } else {
                buf[i]
            },
    )
}

spec fn tile2x_drawn_upto(buf: Seq<u8>, w: int, tile: Seq<u8>, palette: Seq<u8>, dx: int, dy: int, cx: int, cy: int) -> Seq<u8> {
    Seq::new(
        buf.len(),
        |i: int|
            if in_rect(col_of(i, w), row_of(i, w), dx, dy, 16, 16) && (row_of(i, w) < cy || (row_of(i, w) == cy
                && col_of(i, w) < cx)) {
                tile_pixel(tile, palette, (col_of(i, w) - dx) / 2, (row_of(i, w) - dy) / 2)[i % 4]
            } else {
                buf[i]
            },
    )
}

/// Draws an 8 by 8 pattern tile at twice its size at `(dx, dy)`; see
/// `tile2x_drawn`.
pub fn draw_2x_tile(tile: &[u8; 16], buffer: &mut SimpleBuffer, dx: u32, dy: u32, palette: &[u8])
    requires
        old(buffer).wf(),
        dx + 16 <= old(buffer).width,
        dy + 16 <= old(buffer).height,
        palette@.len() >= 16,
    ensures
        final(buffer).wf(),
        final(buffer).width == old(buffer).width,
        final(buffer).height == old(buffer).height,
        final(buffer).buffer@ == tile2x_drawn(old(buffer).buffer@, old(buffer).width as int, tile@, palette@, dx as int, dy as int),
{
    let ghost b0 = buffer.buffer@;
    let ghost w = buffer.width as int;
    assert(tile2x_drawn_upto(b0, w, tile@, palette@, dx as int, dy as int, dx as int, dy as int) =~= b0);
    let mut oy: u32 = 0;
    while oy < 16
        invariant
            buffer.wf(),
            buffer.width == old(buffer).width,
            buffer.height == old(buffer).height,
            w == buffer.width,
            b0 == old(buffer).buffer@,
            dx + 16 <= buffer.width,
            dy + 16 <= buffer.height,
            palette@.len() >= 16,
            oy <= 16,
            buffer.buffer@ == tile2x_drawn_upto(b0, w, tile@, palette@, dx as int, dy as int, dx as int, dy + oy),
        decreases 16 - oy,
    {
        let mut ox: u32 = 0;
        while ox < 16
            invariant
                buffer.wf(),
                buffer.width == old(buffer).width,
                buffer.height == old(buffer).height,
                w == buffer.width,
                b0 == old(buffer).buffer@,
                dx + 16 <= buffer.width,
                dy + 16 <= buffer.height,
                palette@.len() >= 16,
                oy < 16,
                ox <= 16,
                buffer.buffer@ == tile2x_drawn_upto(b0, w, tile@, palette@, dx as int, dy as int, dx + ox, dy + oy),
            decreases 16 - ox,
        {
            let x: u32 = ox / 2;
            let y: u32 = oy / 2;
            let low = bit(tile[y as usize], 7 - x);
            let high = bit(tile[y as usize + 8], 7 - x);
            let idx: usize = low as usize + 2 * high as usize;
            let color = Color::rgb(palette[idx * 4], palette[idx * 4 + 1], palette[idx * 4 + 2]);
            assert(color.data@ =~= tile_pixel(tile@, palette@, x as int, y as int));
            buffer.put_pixel(dx + ox, dy + oy, color);
            assert(buffer.buffer@ =~= tile2x_drawn_upto(b0, w, tile@, palette@, dx as int, dy as int, dx + ox + 1, dy + oy));
            ox = ox + 1;
        }
        assert(tile2x_drawn_upto(b0, w, tile@, palette@, dx as int, dy as int, dx + 16, dy + oy)
            =~= tile2x_drawn_upto(b0, w, tile@, palette@, dx as int, dy as int, dx as int, dy + oy + 1));
        oy = oy + 1;
    }
    assert(buffer.buffer@ =~= tile2x_drawn(b0, w, tile@, palette@, dx as int, dy as int));
}

/// The debug palette for pattern tables: white, light grey, dark grey,
/// black.
pub open spec fn grey_palette() -> Seq<u8> {
    seq![255u8, 255, 255, 255, 192, 192, 192, 255, 128, 128, 128, 255, 0, 0, 0, 255]
}

/// Pixel `(x, y)` of a 128 by 128 pattern-table image: tile
/// `(y / 8) * 16 + x / 8` of `pattern`, 16 bytes per tile.
pub open spec fn chr_pixel(pattern: Seq<u8>, x: int, y: int) -> Seq<u8> {
    let t = (y / 8) * 16 + x / 8;
    tile_pixel(pattern.subrange(16 * t, 16 * t + 16), grey_palette(), x % 8, y % 8)
}

/// The pattern-table image drawn at `(dx, dy)` for the tiles before tile
/// column `cx`, and in column `cx` above tile row `cy`.
spec fn chr_drawn_upto(buf: Seq<u8>, w: int, pattern: Seq<u8>, dx: int, dy: int, cx: int, cy: int) -> Seq<u8> {
    Seq::new(
        buf.len(),
        |i: int|
            if in_rect(col_of(i, w), row_of(i, w), dx, dy, 128, 128) && ((col_of(i, w) - dx) / 8 < cx || ((col_of(i, w)
                - dx) / 8 == cx && (row_of(i, w) - dy) / 8 < cy)) {
                chr_pixel(pattern, col_of(i, w) - dx, row_of(i, w) - dy)[i % 4]
            } else {
                buf[i]
            },
    )
}

/// `buf` with the whole pattern-table image drawn at `(dx, dy)`.
pub open spec fn chr_drawn(buf: Seq<u8>, w: int, pattern: Seq<u8>, dx: int, dy: int) -> Seq<u8> {
    Seq::new(
        buf.len(),
        |i: int|
            if in_rect(col_of(i, w), row_of(i, w), dx, dy, 128, 128) {
                chr_pixel(pattern, col_of(i, w) - dx, row_of(i, w) - dy)[i % 4]
            } else {
                buf[i]
            },
    )
}

/// `v` lies in the `t`-th run of 8 exactly when `v / 8 == t`, and then its
/// place in the run is `v % 8`.
proof fn lemma_tile_coords(v: int, t: int)
    requires
        0 <= v,
        0 <= t,
    ensures
        (8 * t <= v < 8 * t + 8) <==> v / 8 == t,
        v / 8 == t ==> v % 8 == v - 8 * t,
{
    vstd::arithmetic::div_mod::lemma_fundamental_div_mod(v, 8);
    if 8 * t <= v < 8 * t + 8 {
        vstd::arithmetic::div_mod::lemma_fundamental_div_mod_converse(v, 8, t, v - 8 * t);
    }
}

fn tile_bytes(pattern: &[u8], start: usize) -> (r: [u8; 16])
    requires
        start + 16 <= pattern@.len(),
    ensures
        r@ == pattern@.subrange(start as int, start + 16),
{
    let len = pattern.len();
    let mut a: [u8; 16] = [0u8; 16];
    let mut i: usize = 0;
    while i < 16
        invariant
            len == pattern@.len(),
            i <= 16,
            start + 16 <= len,
            forall|j: int| 0 <= j < i ==> a@[j] == pattern@[start + j],
        decreases 16 - i,
    {
        a[i] = pattern[start + i];
        i = i + 1;
    }
    assert(a@ =~= pattern@.subrange(start as int, start + 16));
    a
}

/// Draws a pattern table (256 tiles of 16 bytes) as a 128 by 128 image of
/// 16 by 16 tiles at `(dx, dy)`, in the grey debug palette.
pub fn generate_chr_pattern(pattern: &[u8], buffer: &mut SimpleBuffer, dx: u32, dy: u32)
    requires
        old(buffer).wf(),
        pattern@.len() >= 4096,
        dx + 128 <= old(buffer).width,
        dy + 128 <= old(buffer).height,
    ensures
        final(buffer).wf(),
        final(buffer).width == old(buffer).width,
        final(buffer).height == old(buffer).height,
        final(buffer).buffer@ == chr_drawn(old(buffer).buffer@, old(buffer).width as int, pattern@, dx as int, dy as int),
{
    let debug_palette: [u8; 16] = [255, 255, 255, 255, 192, 192, 192, 255, 128, 128, 128, 255, 0, 0, 0, 255];
    assert(debug_palette@ =~= grey_palette());
    let ghost b0 = buffer.buffer@;
    let ghost w = buffer.width as int;
    assert(chr_drawn_upto(b0, w, pattern@, dx as int, dy as int, 0, 0) =~= b0) by {
        assert forall|i: int| 0 <= i < b0.len() && in_rect(col_of(i, w), row_of(i, w), dx as int, dy as int, 128, 128)
            implies (col_of(i, w) - dx) / 8 >= 0 by {
            lemma_tile_coords(col_of(i, w) - dx, 0);
        }
    }
    let mut x: u32 = 0;
    while x < 16
        invariant
            buffer.wf(),
            buffer.width == old(buffer).width,
            buffer.height == old(buffer).height,
            w == buffer.width,
            b0 == old(buffer).buffer@,
            debug_palette@ == grey_palette(),
            pattern@.len() >= 4096,
            dx + 128 <= buffer.width,
            dy + 128 <= buffer.height,
            x <= 16,
            buffer.buffer@ == chr_drawn_upto(b0, w, pattern@, dx as int, dy as int, x as int, 0),
        decreases 16 - x,
    {
        let mut y: u32 = 0;
        while y < 16
            invariant
                buffer.wf(),
                buffer.width == old(buffer).width,
                buffer.height == old(buffer).height,
                w == buffer.width,
                b0 == old(buffer).buffer@,
                debug_palette@ == grey_palette(),
                pattern@.len() >= 4096,
                dx + 128 <= buffer.width,
                dy + 128 <= buffer.height,
                x < 16,
                y <= 16,
                buffer.buffer@ == chr_drawn_upto(b0, w, pattern@, dx as int, dy as int, x as int, y as int),
            decreases 16 - y,
        {
            let t: usize = (y * 16 + x) as usize;
            let tile = tile_bytes(pattern, t * 16);
            let ghost before = buffer.buffer@;
            draw_tile(&tile, buffer, dx + x * 8, dy + y * 8, debug_palette.as_slice());
            proof {
                let target = chr_drawn_upto(b0, w, pattern@, dx as int, dy as int, x as int, y + 1);
                assert forall|i: int| 0 <= i < target.len() implies #[trigger] buffer.buffer@[i] == target[i] by {
                    let c = col_of(i, w);
                    let r = row_of(i, w);
                    if in_rect(c, r, dx as int, dy as int, 128, 128) {
                        lemma_tile_coords(c - dx, x as int);
                        lemma_tile_coords(r - dy, y as int);
                    }
                }
                assert(buffer.buffer@ =~= target);
            }
            y = y + 1;
        }
        proof {
            let a = chr_drawn_upto(b0, w, pattern@, dx as int, dy as int, x as int, 16);
            let b = chr_drawn_upto(b0, w, pattern@, dx as int, dy as int, x + 1, 0);
            assert forall|i: int| 0 <= i < a.len() implies #[trigger] a[i] == b[i] by {
                let c = col_of(i, w);
                let r = row_of(i, w);
                if in_rect(c, r, dx as int, dy as int, 128, 128) {
                    lemma_tile_coords(c - dx, x as int);
                    lemma_tile_coords(r - dy, 16);
                    lemma_tile_coords(r - dy, 0);
                }
            }
            assert(a =~= b);
        }
        x = x + 1;
    }
    proof {
        let a = chr_drawn_upto(b0, w, pattern@, dx as int, dy as int, 16, 0);
        let b = chr_drawn(b0, w, pattern@, dx as int, dy as int);
        assert forall|i: int| 0 <= i < a.len() implies #[trigger] a[i] == b[i] by {
            let c = col_of(i, w);
            if in_rect(c, row_of(i, w), dx as int, dy as int, 128, 128) {
                lemma_tile_coords(c - dx, 16);
            }
        }
        assert(a =~= b);
    }
}

} // verus!
