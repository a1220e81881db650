//! RGBA colors, canvases and the drawing primitives on them.
use vstd::arithmetic::div_mod::{lemma_fundamental_div_mod, lemma_fundamental_div_mod_converse};
use vstd::prelude::*;
use vstd::std_specs::iter::IteratorSpec;

verus! {

/// `a` and `b` mixed with weight `alpha / 255` on `b`, each term rounded
/// down.
pub open spec fn blend_spec(a: u8, b: u8, alpha: u8) -> int {
    (a as int * (255 - alpha as int)) / 255 + (b as int * alpha as int) / 255
}

proof fn lemma_blend_fits(a: u8, b: u8, alpha: u8)
    ensures
        0 <= blend_spec(a, b, alpha) <= 255,
{
    let x = a as int * (255 - alpha as int);
    let y = b as int * alpha as int;
    assert(0 <= x <= 255 * (255 - alpha as int)) by (nonlinear_arith)
        requires
            x == a as int * (255 - alpha as int),
            0 <= a <= 255,
            0 <= alpha <= 255,
    ;
    assert(0 <= y <= 255 * alpha as int) by (nonlinear_arith)
        requires
            y == b as int * alpha as int,
            0 <= b <= 255,
            0 <= alpha <= 255,
    ;
    vstd::arithmetic::div_mod::lemma_div_is_ordered(x, 255 * (255 - alpha as int), 255);
    vstd::arithmetic::div_mod::lemma_div_is_ordered(y, 255 * alpha as int, 255);
    vstd::arithmetic::div_mod::lemma_div_multiples_vanish(255 - alpha as int, 255);
    vstd::arithmetic::div_mod::lemma_div_multiples_vanish(alpha as int, 255);
    vstd::arithmetic::div_mod::lemma_div_pos_is_pos(x, 255);
    vstd::arithmetic::div_mod::lemma_div_pos_is_pos(y, 255);
}

fn blend_component(a: u8, b: u8, alpha: u8) -> (r: u8)
    ensures
        r == blend_spec(a, b, alpha),
{
    proof {
        lemma_blend_fits(a, b, alpha);
    }
    ((a as u32 * (255 - alpha as u32) / 255) + (b as u32 * alpha as u32 / 255)) as u8
}

/// An RGBA color, one byte per component.
#[derive(Clone, Copy, Debug)]
pub struct Color {
    pub data: [u8; 4],
}

impl Color {
    pub fn rgb(r: u8, g: u8, b: u8) -> (c: Color)
        ensures
            c.data@ == seq![r, g, b, 255u8],
    {
        let c = Color { data: [r, g, b, 255] };
        assert(c.data@ =~= seq![r, g, b, 255u8]);
        c
    }

    pub fn rgba(r: u8, g: u8, b: u8, a: u8) -> (c: Color)
        ensures
            c.data@ == seq![r, g, b, a],
    {
        let c = Color { data: [r, g, b, a] };
        assert(c.data@ =~= seq![r, g, b, a]);
        c
    }

    /// A color from a packed `0xAARRGGBB` value.
    pub fn from_raw(argb: u32) -> (c: Color)
        ensures
            c.data@ == seq![
                ((argb / 0x10000) % 256) as u8,
                ((argb / 0x100) % 256) as u8,
                (argb % 256) as u8,
                (argb / 0x1000000) as u8,
            ],
    {
        let c = Color {
            data: [((argb / 0x10000) % 256) as u8, ((argb / 0x100) % 256) as u8, (argb % 256) as u8, (argb / 0x1000000) as u8],
        };
        assert(c.data@ =~= seq![
            ((argb / 0x10000) % 256) as u8,
            ((argb / 0x100) % 256) as u8,
            (argb % 256) as u8,
            (argb / 0x1000000) as u8,
        ]);
        c
    }

    /// A color from the first four bytes of `color_data`.
    pub fn from_slice(color_data: &[u8]) -> (c: Color)
        requires
            color_data@.len() >= 4,
        ensures
            c.data@ == color_data@.subrange(0, 4),
    {
        let c = Color { data: [color_data[0], color_data[1], color_data[2], color_data[3]] };
        assert(c.data@ =~= color_data@.subrange(0, 4));
        c
    }

    pub fn r(&self) -> (v: u8)
        ensures
            v == self.data@[0],
    {
        self.data[0]
    }

    pub fn g(&self) -> (v: u8)
        ensures
            v == self.data@[1],
    {
        self.data[1]
    }

    pub fn b(&self) -> (v: u8)
        ensures
            v == self.data@[2],
    {
        self.data[2]
    }

    pub fn alpha(&self) -> (v: u8)
        ensures
            v == self.data@[3],
    {
        self.data[3]
    }

    pub fn set_alpha(&mut self, a: u8)
        ensures
            final(self).data@ == old(self).data@.update(3, a),
    {
        self.data[3] = a;
        assert(self.data@ =~= old(self).data@.update(3, a));
    }
}

/// Column of the pixel that byte `i` of a `w`-pixel-wide buffer belongs to.
pub open spec fn col_of(i: int, w: int) -> int {
    (i / 4) % w
}

/// Row of the pixel that byte `i` of a `w`-pixel-wide buffer belongs to.
pub open spec fn row_of(i: int, w: int) -> int {
    (i / 4) / w
}

/// The four bytes of pixel `(x, y)` of a `w`-pixel-wide buffer.
pub open spec fn pixel_at(buf: Seq<u8>, w: int, x: int, y: int) -> Seq<u8> {
    buf.subrange((y * w + x) * 4, (y * w + x) * 4 + 4)
}

/// `(px, py)` lies in the `rw` by `rh` rectangle at `(x, y)`.
pub open spec fn in_rect(px: int, py: int, x: int, y: int, rw: int, rh: int) -> bool {
    x <= px < x + rw && y <= py < y + rh
}

/// Pixel `(x, y)` replaced by the bytes `c`.
pub open spec fn painted(buf: Seq<u8>, w: int, x: int, y: int, c: Seq<u8>) -> Seq<u8> {
    Seq::new(buf.len(), |i: int| if col_of(i, w) == x && row_of(i, w) == y { c[i % 4] } else { buf[i] })
}

/// The blend of color `c` over pixel `o`: source-over compositing computed
/// exactly and rounded down; a fully transparent `c` leaves `o` as it is.
pub open spec fn blend_px(o: Seq<u8>, c: Seq<u8>) -> Seq<u8> {
    let a = c[3] as int;
    let wo = o[3] as int * (255 - a);
    let total = 255 * a + wo;
    if a == 0 {
        o
    } else {
        seq![
            ((o[0] * wo + c[0] * 255 * a) / total) as u8,
            ((o[1] * wo + c[1] * 255 * a) / total) as u8,
            ((o[2] * wo + c[2] * 255 * a) / total) as u8,
            (total / 255) as u8,
        ]
    }
}

/// A rectangle filled with `c`.
pub open spec fn filled(buf: Seq<u8>, w: int, x: int, y: int, rw: int, rh: int, c: Seq<u8>) -> Seq<u8> {
    Seq::new(buf.len(), |i: int| if in_rect(col_of(i, w), row_of(i, w), x, y, rw, rh) { c[i % 4] } else { buf[i] })
}

/// A rectangle with `c` blended over each pixel.
pub open spec fn blend_filled(buf: Seq<u8>, w: int, x: int, y: int, rw: int, rh: int, c: Seq<u8>) -> Seq<u8> {
    Seq::new(
        buf.len(),
        |i: int|
            if in_rect(col_of(i, w), row_of(i, w), x, y, rw, rh) {
                blend_px(pixel_at(buf, w, col_of(i, w), row_of(i, w)), c)[i % 4]
            } else {
                buf[i]
            },
    )
}

/// Pixel `p = y * w + x` of a `w`-wide buffer has column `x` and row `y`.
pub proof fn lemma_pixel_coords(w: int, x: int, y: int)
    requires
        0 <= x < w,
        0 <= y,
    ensures
        (y * w + x) % w == x,
        (y * w + x) / w == y,
{
    lemma_fundamental_div_mod_converse(y * w + x, w, y, x);
}

/// Byte `i` belongs to pixel `(x, y)` exactly when it lies in that pixel's
/// four bytes.
pub proof fn lemma_byte_in_pixel(i: int, w: int, x: int, y: int)
    requires
        0 <= x < w,
        0 <= y,
        0 <= i,
    ensures
        (col_of(i, w) == x && row_of(i, w) == y) <==> ((y * w + x) * 4 <= i < (y * w + x) * 4 + 4),
        (col_of(i, w) == x && row_of(i, w) == y) ==> i % 4 == i - (y * w + x) * 4,
{
    lemma_fundamental_div_mod(i, 4);
    lemma_fundamental_div_mod(i / 4, w);
    vstd::arithmetic::div_mod::lemma_div_pos_is_pos(i, 4);
    if col_of(i, w) == x && row_of(i, w) == y {
        assert(i / 4 == y * w + x) by (nonlinear_arith)
            requires
                i / 4 == w * ((i / 4) / w) + (i / 4) % w,
                (i / 4) % w == x,
                (i / 4) / w == y,
        ;
    }
    if (y * w + x) * 4 <= i < (y * w + x) * 4 + 4 {
        lemma_fundamental_div_mod_converse(i, 4, y * w + x, i - (y * w + x) * 4);
        lemma_pixel_coords(w, x, y);
    }
}

proof fn lemma_index_fits(w: int, h: int, x: int, y: int)
    requires
        0 <= x < w,
        0 <= y < h,
    ensures
        (y * w + x) * 4 + 4 <= w * h * 4,
        0 <= (y * w + x) * 4,
{
    assert((y * w + x) * 4 + 4 <= w * h * 4) by (nonlinear_arith)
        requires
            0 <= x < w,
            0 <= y < h,
    ;
    assert(0 <= (y * w + x) * 4) by (nonlinear_arith)
        requires
            0 <= x < w,
            0 <= y,
    ;
    assert(0 <= y * w <= y * w + x) by (nonlinear_arith)
        requires
            0 <= x < w,
            0 <= y,
    ;
}

/// A canvas of RGBA pixels, row by row.
#[derive(Clone)]
pub struct SimpleBuffer {
    pub buffer: Vec<u8>,
    pub width: u32,
    pub height: u32,
}

impl SimpleBuffer {
    /// Four bytes per pixel.
    pub open spec fn wf(&self) -> bool {
        self.buffer@.len() == self.width as int * self.height as int * 4
    }

    /// A transparent black canvas.
    pub fn new(width: u32, height: u32) -> (r: SimpleBuffer)
        requires
            width as int * height as int * 4 <= u32::MAX,
        ensures
            r.wf(),
            r.width == width,
            r.height == height,
            forall|i: int| 0 <= i < r.buffer@.len() ==> #[trigger] r.buffer@[i] == 0,
    {
        let n: u32 = width * height * 4;
        let buffer: Vec<u8> = vec![0u8; n as usize];
        SimpleBuffer { width, height, buffer }
    }

    /// Where pixel `(x, y)` starts in the buffer.
    fn pixel_index(&self, x: u32, y: u32) -> (r: usize)
        requires
            self.wf(),
            x < self.width,
            y < self.height,
        ensures
            r == (y as int * self.width as int + x as int) * 4,
            r + 4 <= self.buffer@.len(),
    {
        let len = self.buffer.len();
        proof {
            lemma_index_fits(self.width as int, self.height as int, x as int, y as int);
        }
        (y as usize * self.width as usize + x as usize) * 4
    }

    pub fn put_pixel(&mut self, x: u32, y: u32, color: Color)
        requires
            old(self).wf(),
            x < old(self).width,
            y < old(self).height,
        ensures
            final(self).wf(),
            final(self).width == old(self).width,
            final(self).height == old(self).height,
            final(self).buffer@ == painted(old(self).buffer@, old(self).width as int, x as int, y as int, color.data@),
    {
        let ghost w = self.width as int;
        let index: usize = self.pixel_index(x, y);
        self.buffer.set(index, color.data[0]);
        self.buffer.set(index + 1, color.data[1]);
        self.buffer.set(index + 2, color.data[2]);
        self.buffer.set(index + 3, color.data[3]);
        proof {
            assert forall|i: int| 0 <= i < self.buffer@.len() implies #[trigger] self.buffer@[i]
                == painted(old(self).buffer@, w, x as int, y as int, color.data@)[i] by {
                lemma_byte_in_pixel(i, w, x as int, y as int);
            }
            assert(self.buffer@ =~= painted(old(self).buffer@, w, x as int, y as int, color.data@));
        }
    }

    pub fn get_pixel(&self, x: u32, y: u32) -> (c: Color)
        requires
            self.wf(),
            x < self.width,
            y < self.height,
        ensures
            c.data@ == pixel_at(self.buffer@, self.width as int, x as int, y as int),
    {
        let index: usize = self.pixel_index(x, y);
        let c = Color::rgba(self.buffer[index], self.buffer[index + 1], self.buffer[index + 2], self.buffer[index + 3]);
        assert(c.data@ =~= pixel_at(self.buffer@, self.width as int, x as int, y as int));
        c
    }

    /// Mixes `color` into pixel `(x, y)` by its alpha, per component, and
    /// makes the pixel opaque.
    pub fn blend_pixel_old(&mut self, x: u32, y: u32, color: Color)
        requires
            old(self).wf(),
            x < old(self).width,
            y < old(self).height,
        ensures
            final(self).wf(),
            final(self).width == old(self).width,
            final(self).height == old(self).height,
            ({
                let o = pixel_at(old(self).buffer@, old(self).width as int, x as int, y as int);
                let c = color.data@;
                final(self).buffer@ == painted(
                    old(self).buffer@,
                    old(self).width as int,
                    x as int,
                    y as int,
                    seq![
                        blend_spec(o[0], c[0], c[3]) as u8,
                        blend_spec(o[1], c[1], c[3]) as u8,
                        blend_spec(o[2], c[2], c[3]) as u8,
                        255u8,
                    ],
                )
            }),
    {
        let current = self.get_pixel(x, y);
        let r = blend_component(current.r(), color.r(), color.alpha());
        let g = blend_component(current.g(), color.g(), color.alpha());
        let b = blend_component(current.b(), color.b(), color.alpha());
        self.put_pixel(x, y, Color::rgba(r, g, b, 255));
    }

    /// Composites `color` over pixel `(x, y)`; see `blend_px`.
    pub fn blend_pixel(&mut self, x: u32, y: u32, color: Color)
        requires
            old(self).wf(),
            x < old(self).width,
            y < old(self).height,
        ensures
            final(self).wf(),
            final(self).width == old(self).width,
            final(self).height == old(self).height,
            final(self).buffer@ == painted(
                old(self).buffer@,
                old(self).width as int,
                x as int,
                y as int,
                blend_px(pixel_at(old(self).buffer@, old(self).width as int, x as int, y as int), color.data@),
            ),
    {
        let current = self.get_pixel(x, y);
        let ghost o = current.data@;
        if color.alpha() == 0 {
            proof {
                assert forall|i: int| 0 <= i < self.buffer@.len() implies #[trigger] self.buffer@[i]
                    == painted(self.buffer@, self.width as int, x as int, y as int, o)[i] by {
                    lemma_byte_in_pixel(i, self.width as int, x as int, y as int);
                    lemma_index_fits(self.width as int, self.height as int, x as int, y as int);
                }
                assert(self.buffer@ =~= painted(self.buffer@, self.width as int, x as int, y as int, o));
            }
            return;
        }
        let a: u32 = color.alpha() as u32;
        let oa: u32 = current.alpha() as u32;
        assert(oa * (255 - a) <= 255 * (255 - a)) by (nonlinear_arith)
            requires
                0 <= a <= 255,
                oa <= 255,
        ;
        let wo: u32 = oa * (255 - a);
        let total: u32 = 255 * a + wo;
        let r = mix_component(current.r(), color.r(), wo, a, total);
        let g = mix_component(current.g(), color.g(), wo, a, total);
        let b = mix_component(current.b(), color.b(), wo, a, total);
        let alpha: u8 = (total / 255) as u8;
        let mixed = Color::rgba(r, g, b, alpha);
        assert(mixed.data@ =~= blend_px(o, color.data@));
        self.put_pixel(x, y, mixed);
    }
}

/// One component of an exact source-over blend.
fn mix_component(o: u8, c: u8, wo: u32, a: u32, total: u32) -> (r: u8)
    requires
        1 <= a <= 255,
        wo <= 255 * (255 - a),
        total == 255 * a + wo,
    ensures
        r == (o as int * wo as int + c as int * 255 * a as int) / total as int,
{
    assert(o as int * wo as int <= 255 * 65025 && c as int * 255 * a as int <= 255 * 255 * 255) by (nonlinear_arith)
        requires
            0 <= o <= 255,
            0 <= c <= 255,
            wo <= 255 * (255 - a),
            1 <= a <= 255,
    ;
    let num: u32 = o as u32 * wo + c as u32 * 255 * a;
    proof {
        assert(o as int * wo as int + c as int * 255 * a as int <= 255 * total as int) by (nonlinear_arith)
            requires
                0 <= o <= 255,
                0 <= c <= 255,
                0 <= wo,
                total == 255 * a + wo,
        ;
        vstd::arithmetic::div_mod::lemma_div_is_ordered(num as int, 255 * total as int, total as int);
        vstd::arithmetic::div_mod::lemma_div_multiples_vanish(255, total as int);
    }
    (num / total) as u8
}

/// Pixel `(px, py)` of the `rw` by `rh` rectangle at `(x, y)` is reached by a
/// column-by-column sweep that stands at column `cx`, row `cy`.
pub open spec fn swept(px: int, py: int, x: int, y: int, rw: int, rh: int, cx: int, cy: int) -> bool {
    in_rect(px, py, x, y, rw, rh) && (px < cx || (px == cx && py < cy))
}

/// A rectangle filled with `c` up to the sweep position `(cx, cy)`.
spec fn filled_upto(buf: Seq<u8>, w: int, x: int, y: int, rw: int, rh: int, c: Seq<u8>, cx: int, cy: int) -> Seq<u8> {
    Seq::new(buf.len(), |i: int| if swept(col_of(i, w), row_of(i, w), x, y, rw, rh, cx, cy) { c[i % 4] } else { buf[i] })
}

/// A rectangle blended with `c` up to the sweep position `(cx, cy)`.
spec fn blended_upto(buf: Seq<u8>, w: int, x: int, y: int, rw: int, rh: int, c: Seq<u8>, cx: int, cy: int) -> Seq<u8> {
    Seq::new(
        buf.len(),
        |i: int|
            if swept(col_of(i, w), row_of(i, w), x, y, rw, rh, cx, cy) {
                blend_px(pixel_at(buf, w, col_of(i, w), row_of(i, w)), c)[i % 4]
            } else {
                buf[i]
            },
    )
}

/// A pixel that the sweep has not reached still holds the bytes it had
/// before the sweep began.
proof fn lemma_unswept_pixel(cur: Seq<u8>, old: Seq<u8>, w: int, h: int, px: int, py: int)
    requires
        cur.len() == old.len(),
        old.len() == w * h * 4,
        0 <= px < w,
        0 <= py < h,
        forall|i: int| 0 <= i < old.len() && col_of(i, w) == px && row_of(i, w) == py ==> #[trigger] cur[i] == old[i],
    ensures
        pixel_at(cur, w, px, py) == pixel_at(old, w, px, py),
{
    lemma_index_fits(w, h, px, py);
    let base = (py * w + px) * 4;
    assert forall|k: int| 0 <= k < 4 implies #[trigger] pixel_at(cur, w, px, py)[k] == pixel_at(old, w, px, py)[k] by {
        lemma_byte_in_pixel(base + k, w, px, py);
    }
    assert(pixel_at(cur, w, px, py) =~= pixel_at(old, w, px, py));
}

/// Fills the `width` by `height` rectangle at `(x, y)` with `color`.
pub fn rect(destination: &mut SimpleBuffer, x: u32, y: u32, width: u32, height: u32, color: Color)
    requires
        old(destination).wf(),
        x + width <= old(destination).width,
        y + height <= old(destination).height,
    ensures
        final(destination).wf(),
        final(destination).width == old(destination).width,
        final(destination).height == old(destination).height,
        final(destination).buffer@ == filled(
            old(destination).buffer@,
            old(destination).width as int,
            x as int,
            y as int,
            width as int,
            height as int,
            color.data@,
        ),
{
    let ghost b0 = destination.buffer@;
    let ghost w = destination.width as int;
    let ghost c = color.data@;
    assert(filled_upto(b0, w, x as int, y as int, width as int, height as int, c, x as int, y as int) =~= b0);
    let mut dx: u32 = x;
    while dx < x + width
        invariant
            destination.wf(),
            destination.width == old(destination).width,
            destination.height == old(destination).height,
            w == destination.width,
            b0 == old(destination).buffer@,
            c == color.data@,
            x + width <= destination.width,
            y + height <= destination.height,
            x <= dx <= x + width,
            destination.buffer@ == filled_upto(b0, w, x as int, y as int, width as int, height as int, c, dx as int, y as int),
        decreases x + width - dx,
    {
        let mut dy: u32 = y;
        while dy < y + height
            invariant
                destination.wf(),
                destination.width == old(destination).width,
                destination.height == old(destination).height,
                w == destination.width,
                b0 == old(destination).buffer@,
                c == color.data@,
                x + width <= destination.width,
                y + height <= destination.height,
                x <= dx < x + width,
                y <= dy <= y + height,
                destination.buffer@ == filled_upto(b0, w, x as int, y as int, width as int, height as int, c, dx as int, dy as int),
            decreases y + height - dy,
        {
            destination.put_pixel(dx, dy, color);
            assert(destination.buffer@ =~= filled_upto(b0, w, x as int, y as int, width as int, height as int, c, dx as int, dy + 1));
            dy = dy + 1;
        }
        assert(filled_upto(b0, w, x as int, y as int, width as int, height as int, c, dx as int, (y + height) as int)
            =~= filled_upto(b0, w, x as int, y as int, width as int, height as int, c, dx + 1, y as int));
        dx = dx + 1;
    }
    assert(destination.buffer@ =~= filled(b0, w, x as int, y as int, width as int, height as int, c));
}

/// Blends `color` over every pixel of the `width` by `height` rectangle at
/// `(x, y)`; see `blend_px`.
pub fn blend_rect(destination: &mut SimpleBuffer, x: u32, y: u32, width: u32, height: u32, color: Color)
    requires
        old(destination).wf(),
        x + width <= old(destination).width,
        y + height <= old(destination).height,
    ensures
        final(destination).wf(),
        final(destination).width == old(destination).width,
        final(destination).height == old(destination).height,
        final(destination).buffer@ == blend_filled(
            old(destination).buffer@,
            old(destination).width as int,
            x as int,
            y as int,
            width as int,
            height as int,
            color.data@,
        ),
{
    let ghost b0 = destination.buffer@;
    let ghost w = destination.width as int;
    let ghost h = destination.height as int;
    let ghost c = color.data@;
    assert(blended_upto(b0, w, x as int, y as int, width as int, height as int, c, x as int, y as int) =~= b0);
    let mut dx: u32 = x;
    while dx < x + width
        invariant
            destination.wf(),
            destination.width == old(destination).width,
            destination.height == old(destination).height,
            w == destination.width,
            h == destination.height,
            b0 == old(destination).buffer@,
            c == color.data@,
            x + width <= destination.width,
            y + height <= destination.height,
            x <= dx <= x + width,
            destination.buffer@ == blended_upto(b0, w, x as int, y as int, width as int, height as int, c, dx as int, y as int),
        decreases x + width - dx,
    {
        let mut dy: u32 = y;
        while dy < y + height
            invariant
                destination.wf(),
                destination.width == old(destination).width,
                destination.height == old(destination).height,
                w == destination.width,
                h == destination.height,
                b0 == old(destination).buffer@,
                c == color.data@,
                x + width <= destination.width,
                y + height <= destination.height,
                x <= dx < x + width,
                y <= dy <= y + height,
                destination.buffer@ == blended_upto(b0, w, x as int, y as int, width as int, height as int, c, dx as int, dy as int),
            decreases y + height - dy,
        {
            proof {
                lemma_unswept_pixel(destination.buffer@, b0, w, h, dx as int, dy as int);
            }
            destination.blend_pixel(dx, dy, color);
            assert(destination.buffer@ =~= blended_upto(b0, w, x as int, y as int, width as int, height as int, c, dx as int, dy + 1));
            dy = dy + 1;
        }
        assert(blended_upto(b0, w, x as int, y as int, width as int, height as int, c, dx as int, (y + height) as int)
            =~= blended_upto(b0, w, x as int, y as int, width as int, height as int, c, dx + 1, y as int));
        dx = dx + 1;
    }
    assert(destination.buffer@ =~= blend_filled(b0, w, x as int, y as int, width as int, height as int, c));
}

/// Source pixel `s`, tinted by `c` (each component scaled by `c`'s over
/// 255), composited by its alpha over destination pixel `d`; the result is
/// opaque.
pub open spec fn blit_px(s: Seq<u8>, d: Seq<u8>, c: Seq<u8>) -> Seq<u8> {
    let m0 = (s[0] * c[0]) / 255;
    let m1 = (s[1] * c[1]) / 255;
    let m2 = (s[2] * c[2]) / 255;
    let sa = (s[3] * c[3]) / 255;
    seq![
        ((d[0] * (255 - sa) + m0 * sa) / 255) as u8,
        ((d[1] * (255 - sa) + m1 * sa) / 255) as u8,
        ((d[2] * (255 - sa) + m2 * sa) / 255) as u8,
        255u8,
    ]
}

/// `buf` (`w` pixels wide) with the `sw` by `sh` image `src` drawn at
/// `(dx, dy)` by `blit_px`.
pub open spec fn blitted(buf: Seq<u8>, w: int, src: Seq<u8>, sw: int, sh: int, dx: int, dy: int, c: Seq<u8>) -> Seq<u8> {
    Seq::new(
        buf.len(),
        |i: int|
            if in_rect(col_of(i, w), row_of(i, w), dx, dy, sw, sh) {
                blit_px(pixel_at(src, sw, col_of(i, w) - dx, row_of(i, w) - dy), pixel_at(buf, w, col_of(i, w), row_of(i, w)), c)[i % 4]
            } else {
                buf[i]
            },
    )
}

spec fn blitted_upto(
    buf: Seq<u8>,
    w: int,
    src: Seq<u8>,
    sw: int,
    sh: int,
    dx: int,
    dy: int,
    c: Seq<u8>,
    cx: int,
    cy: int,
) -> Seq<u8> {
    Seq::new(
        buf.len(),
        |i: int|
            if swept(col_of(i, w), row_of(i, w), dx, dy, sw, sh, cx, cy) {
                blit_px(pixel_at(src, sw, col_of(i, w) - dx, row_of(i, w) - dy), pixel_at(buf, w, col_of(i, w), row_of(i, w)), c)[i % 4]
            } else {
                buf[i]
            },
    )
}

fn scale_component(a: u8, b: u8) -> (r: u8)
    ensures
        r == (a as int * b as int) / 255,
{
    proof {
        assert(a as int * b as int <= 255 * 255) by (nonlinear_arith)
            requires
                a <= 255,
                b <= 255,
        ;
        vstd::arithmetic::div_mod::lemma_div_is_ordered(a as int * b as int, 65025int, 255);
        vstd::arithmetic::div_mod::lemma_div_multiples_vanish(255, 255);
    }
    ((a as u32 * b as u32) / 255) as u8
}

fn over_component(d: u8, m: u8, sa: u8) -> (r: u8)
    ensures
        r == (d as int * (255 - sa as int) + m as int * sa as int) / 255,
{
    proof {
        assert(d as int * (255 - sa as int) + m as int * sa as int <= 255 * 255) by (nonlinear_arith)
            requires
                d <= 255,
                m <= 255,
                sa <= 255,
        ;
        assert(0 <= d as int * (255 - sa as int)) by (nonlinear_arith)
            requires
                sa <= 255,
        ;
        vstd::arithmetic::div_mod::lemma_div_is_ordered(d as int * (255 - sa as int) + m as int * sa as int, 65025int, 255);
        vstd::arithmetic::div_mod::lemma_div_multiples_vanish(255, 255);
    }
    ((d as u32 * (255 - sa as u32) + m as u32 * sa as u32) / 255) as u8
}

/// Draws `source` onto `destination` at `(dx, dy)`, tinted by `color` and
/// composited by its alpha; see `blit_px`.
pub fn blit(destination: &mut SimpleBuffer, source: &SimpleBuffer, dx: u32, dy: u32, color: Color)
    requires
        old(destination).wf(),
        source.wf(),
        dx + source.width <= old(destination).width,
        dy + source.height <= old(destination).height,
    ensures
        final(destination).wf(),
        final(destination).width == old(destination).width,
        final(destination).height == old(destination).height,
        final(destination).buffer@ == blitted(
            old(destination).buffer@,
            old(destination).width as int,
            source.buffer@,
            source.width as int,
            source.height as int,
            dx as int,
            dy as int,
            color.data@,
        ),
{
    let ghost b0 = destination.buffer@;
    let ghost w = destination.width as int;
    let ghost h = destination.height as int;
    let ghost c = color.data@;
    let ghost sb = source.buffer@;
    let ghost sw = source.width as int;
    let ghost sh = source.height as int;
    assert(blitted_upto(b0, w, sb, sw, sh, dx as int, dy as int, c, dx as int, dy as int) =~= b0);
    let mut x: u32 = 0;
    while x < source.width
        invariant
            destination.wf(),
            source.wf(),
            destination.width == old(destination).width,
            destination.height == old(destination).height,
            w == destination.width,
            h == destination.height,
            b0 == old(destination).buffer@,
            c == color.data@,
            sb == source.buffer@,
            sw == source.width,
            sh == source.height,
            dx + source.width <= destination.width,
            dy + source.height <= destination.height,
            x <= source.width,
            destination.buffer@ == blitted_upto(b0, w, sb, sw, sh, dx as int, dy as int, c, dx + x, dy as int),
        decreases source.width - x,
    {
        let mut y: u32 = 0;
        while y < source.height
            invariant
                destination.wf(),
                source.wf(),
                destination.width == old(destination).width,
                destination.height == old(destination).height,
                w == destination.width,
                h == destination.height,
                b0 == old(destination).buffer@,
                c == color.data@,
                sb == source.buffer@,
                sw == source.width,
                sh == source.height,
                dx + source.width <= destination.width,
                dy + source.height <= destination.height,
                x < source.width,
                y <= source.height,
                destination.buffer@ == blitted_upto(b0, w, sb, sw, sh, dx as int, dy as int, c, dx + x, dy + y),
            decreases source.height - y,
        {
            proof {
                lemma_unswept_pixel(destination.buffer@, b0, w, h, dx + x, dy + y);
            }
            let s = source.get_pixel(x, y);
            let d = destination.get_pixel(dx + x, dy + y);
            let m0 = scale_component(s.data[0], color.data[0]);
            let m1 = scale_component(s.data[1], color.data[1]);
            let m2 = scale_component(s.data[2], color.data[2]);
            let sa = scale_component(s.data[3], color.data[3]);
            let final_color = Color::rgb(
                over_component(d.r(), m0, sa),
                over_component(d.g(), m1, sa),
                over_component(d.b(), m2, sa),
            );
            assert(final_color.data@ =~= blit_px(pixel_at(sb, sw, x as int, y as int), pixel_at(b0, w, dx + x, dy + y), c));
            destination.put_pixel(dx + x, dy + y, final_color);
            assert(destination.buffer@ =~= blitted_upto(b0, w, sb, sw, sh, dx as int, dy as int, c, dx + x, dy + y + 1));
            y = y + 1;
        }
        assert(blitted_upto(b0, w, sb, sw, sh, dx as int, dy as int, c, dx + x, dy + sh)
            =~= blitted_upto(b0, w, sb, sw, sh, dx as int, dy as int, c, dx + x + 1, dy as int));
        x = x + 1;
    }
    assert(destination.buffer@ =~= blitted(b0, w, sb, sw, sh, dx as int, dy as int, c));
}

/// A bitmap font of the 95 printable ASCII characters (and DEL), one glyph
/// per code from 32 to 127, all `glyph_width` wide and equally tall.
pub struct Font {
    pub glyph_width: u32,
    pub glyphs: Vec<SimpleBuffer>,
}

impl Font {
    /// The glyph height (that of the first glyph).
    pub open spec fn glyph_height(&self) -> int {
        self.glyphs@[0].height as int
    }

    pub open spec fn wf(&self) -> bool {
        &&& self.glyphs@.len() == 96
        &&& forall|i: int| 0 <= i < 96 ==> {
            &&& (#[trigger] self.glyphs@[i]).wf()
            &&& self.glyphs@[i].width == self.glyph_width
            &&& self.glyphs@[i].height == self.glyphs@[0].height
        }
    }
}

/// `c` has a glyph.
pub open spec fn printable(c: char) -> bool {
    32 <= c as u32 && (c as u32) < 127
}

/// `buf` with character `c` drawn at `(x, y)`; characters without a glyph
/// draw nothing.
pub open spec fn char_drawn(buf: Seq<u8>, w: int, font: &Font, x: int, y: int, c: char, color: Seq<u8>) -> Seq<u8> {
    if printable(c) {
        let g = font.glyphs@[c as u32 - 32];
        blitted(buf, w, g.buffer@, g.width as int, g.height as int, x, y, color)
    } else {
        buf
    }
}

/// Draws character `c` at `(x, y)`; see `char_drawn`.
pub fn char(destination: &mut SimpleBuffer, font: &Font, x: u32, y: u32, c: char, color: Color)
    requires
        old(destination).wf(),
        font.wf(),
        x + font.glyph_width <= old(destination).width,
        y + font.glyph_height() <= old(destination).height,
    ensures
        final(destination).wf(),
        final(destination).width == old(destination).width,
        final(destination).height == old(destination).height,
        final(destination).buffer@ == char_drawn(old(destination).buffer@, old(destination).width as int, font, x as int, y as int, c, color.data@),
{
    let code: u32 = c as u32;
    if code >= 32 && code < 127 {
        let glyph = &font.glyphs[(code - 32) as usize];
        assert(font.glyphs@[code - 32].wf());
        blit(destination, glyph, x, y, color);
    }
}

/// `buf` with the characters `cs` drawn left to right from `(x, y)`, one
/// glyph width apart.
pub open spec fn text_drawn(buf: Seq<u8>, w: int, font: &Font, x: int, y: int, cs: Seq<char>, color: Seq<u8>) -> Seq<u8>
    decreases cs.len(),
{
    if cs.len() == 0 {
        buf
    } else {
        let n = cs.len() - 1;
        char_drawn(text_drawn(buf, w, font, x, y, cs.subrange(0, n), color), w, font, x + n * font.glyph_width, y, cs[n], color)
    }
}

/// Draws the string `s` from `(x, y)`, one glyph per character.
pub fn text(destination: &mut SimpleBuffer, font: &Font, x: u32, y: u32, s: &str, color: Color)
    requires
        old(destination).wf(),
        font.wf(),
        x + s@.len() * font.glyph_width <= old(destination).width,
        y + font.glyph_height() <= old(destination).height,
    ensures
        final(destination).wf(),
        final(destination).width == old(destination).width,
        final(destination).height == old(destination).height,
        final(destination).buffer@ == text_drawn(old(destination).buffer@, old(destination).width as int, font, x as int, y as int, s@, color.data@),
{
    broadcast use vstd::string::axiom_spec_iter;
    let ghost cs = s@;
    let ghost w = destination.width as int;
    let mut it = s.chars();
    let ghost mut i: int = 0;
    let mut cx: u32 = x;
    assert(cs.subrange(0, 0) =~= Seq::<char>::empty());
    loop
        invariant
            destination.wf(),
            font.wf(),
            destination.width == old(destination).width,
            destination.height == old(destination).height,
            w == destination.width,
            cs == s@,
            x + cs.len() * font.glyph_width <= destination.width,
            y + font.glyph_height() <= destination.height,
            0 <= i <= cs.len(),
            cx == x + i * font.glyph_width,
            it.remaining() == cs.subrange(i as int, cs.len() as int),
            destination.buffer@ == text_drawn(old(destination).buffer@, w, font, x as int, y as int, cs.subrange(0, i as int), color.data@),
        ensures
            destination.wf(),
            destination.width == old(destination).width,
            destination.height == old(destination).height,
            destination.buffer@ == text_drawn(old(destination).buffer@, w, font, x as int, y as int, cs, color.data@),
        decreases cs.len() - i,
    {
        let ghost before = it.remaining();
        match it.next() {
            Some(c) => {
                proof {
                    assert(before.len() > 0);
                    assert(before[0] == cs[i as int]);
                    assert((i + 1) * font.glyph_width == i * font.glyph_width + font.glyph_width) by (nonlinear_arith);
                    assert((i + 1) * font.glyph_width <= cs.len() * font.glyph_width) by (nonlinear_arith)
                        requires
                            i + 1 <= cs.len(),
                    ;
                }
                char(destination, font, cx, y, c, color);
                proof {
                    let next = cs.subrange(0, i + 1);
                    assert(next.subrange(0, i as int) =~= cs.subrange(0, i as int));
                    assert(it.remaining() =~= cs.subrange(i + 1, cs.len() as int));
                    i = i + 1;
                }
                cx = cx + font.glyph_width;
            },
            None => {
                assert(i == cs.len());
                assert(cs.subrange(0, i) =~= cs);
                break;
            },
        }
    }
}

/// The upper-case hexadecimal digit for `d < 16`.
pub open spec fn hex_digit(d: int) -> char {
    seq!['0', '1', '2', '3', '4', '5', '6', '7', '8', '9', 'A', 'B', 'C', 'D', 'E', 'F'][d]
}

/// `16` to the power `k`.
pub open spec fn pow16(k: nat) -> int
    decreases k,
{
    if k == 0 {
        1
    } else {
        16 * pow16((k - 1) as nat)
    }
}

proof fn lemma_pow16_positive(k: nat)
    ensures
        pow16(k) >= 1,
    decreases k,
{
    if k > 0 {
        lemma_pow16_positive((k - 1) as nat);
    }
}

/// `buf` with the lowest `k` of the `nybbles` hexadecimal digits of `value`
/// drawn, the lowest digit rightmost, from `(x, y)`.
pub open spec fn hex_drawn(
    buf: Seq<u8>,
    w: int,
    font: &Font,
    x: int,
    y: int,
    value: u32,
    nybbles: int,
    k: nat,
    color: Seq<u8>,
) -> Seq<u8>
    decreases k,
{
    if k == 0 {
        buf
    } else {
        let i = k - 1;
        char_drawn(
            hex_drawn(buf, w, font, x, y, value, nybbles, i as nat, color),
            w,
            font,
            x + (nybbles - 1 - i) * font.glyph_width,
            y,
            hex_digit((value as int / pow16(i as nat)) % 16),
            color,
        )
    }
}

/// Draws the lowest `nybbles` hexadecimal digits of `value` from `(x, y)`,
/// most significant first.
pub fn hex(destination: &mut SimpleBuffer, font: &Font, x: u32, y: u32, value: u32, nybbles: u32, color: Color)
    requires
        old(destination).wf(),
        font.wf(),
        nybbles <= 8,
        x + nybbles * font.glyph_width <= old(destination).width,
        y + font.glyph_height() <= old(destination).height,
    ensures
        final(destination).wf(),
        final(destination).width == old(destination).width,
        final(destination).height == old(destination).height,
        final(destination).buffer@ == hex_drawn(
            old(destination).buffer@,
            old(destination).width as int,
            font,
            x as int,
            y as int,
            value,
            nybbles as int,
            nybbles as nat,
            color.data@,
        ),
{
    let char_map: [char; 16] = ['0', '1', '2', '3', '4', '5', '6', '7', '8', '9', 'A', 'B', 'C', 'D', 'E', 'F'];
    assert(char_map@ =~= seq!['0', '1', '2', '3', '4', '5', '6', '7', '8', '9', 'A', 'B', 'C', 'D', 'E', 'F']);
    let ghost w = destination.width as int;
    let mut v: u32 = value;
    let mut i: u32 = 0;
    while i < nybbles
        invariant
            destination.wf(),
            font.wf(),
            destination.width == old(destination).width,
            destination.height == old(destination).height,
            w == destination.width,
            char_map@ == seq!['0', '1', '2', '3', '4', '5', '6', '7', '8', '9', 'A', 'B', 'C', 'D', 'E', 'F'],
            nybbles <= 8,
            x + nybbles * font.glyph_width <= destination.width,
            y + font.glyph_height() <= destination.height,
            i <= nybbles,
            v == value as int / pow16(i as nat),
            destination.buffer@ == hex_drawn(old(destination).buffer@, w, font, x as int, y as int, value, nybbles as int, i as nat, color.data@),
        decreases nybbles - i,
    {
        let c = char_map[(v % 16) as usize];
        proof {
            assert((nybbles - 1 - i) * font.glyph_width + font.glyph_width <= nybbles * font.glyph_width) by (nonlinear_arith)
                requires
                    i < nybbles,
            ;
            assert(0 <= (nybbles - 1 - i) * font.glyph_width) by (nonlinear_arith)
                requires
                    i < nybbles,
            ;
        }
        let cx: u32 = x + (nybbles - 1 - i) * font.glyph_width;
        char(destination, font, cx, y, c, color);
        proof {
            lemma_pow16_positive(i as nat);
            vstd::arithmetic::div_mod::lemma_div_denominator(value as int, pow16(i as nat), 16);
            assert(pow16((i + 1) as nat) == pow16(i as nat) * 16);
        }
        v = v / 16;
        i = i + 1;
    }
}

/// The RGBA bytes of a CSS color string, or `None` if it does not parse.
pub uninterp spec fn css_rgba8(s: Seq<char>) -> Option<Seq<u8>>;

/// Relies on `csscolorparser::parse` and `Color::to_rgba8`: the color's
/// components as bytes, a function of the string alone; the parse error is
/// rendered with its `Display`.
#[verifier::external_body]
fn parse_css_color(s: &str) -> (r: Result<[u8; 4], String>)
    ensures
        r is Ok <==> css_rgba8(s@) is Some,
        r matches Ok(c) ==> Some(c@) == css_rgba8(s@),
{
    match csscolorparser::parse(s) {
        Ok(c) => Ok(c.to_rgba8()),
        Err(e) => Err(e.to_string()),
    }
}

impl Color {
    /// A color from a CSS color string (`#RRGGBB`, `rgb(..)`, a name, ...).
    pub fn from_string(color_string: &str) -> (r: Result<Color, String>)
        ensures
            r is Ok <==> css_rgba8(color_string@) is Some,
            r matches Ok(c) ==> Some(c.data@) == css_rgba8(color_string@),
    {
        match parse_css_color(color_string) {
            Ok(data) => Ok(Color { data }),
            Err(e) => Err(e),
        }
    }
}

impl SimpleBuffer {
    /// A `width` by `height` canvas from RGBA pixel data, row by row.
    pub fn from_rgba(data: &[u8], width: u32, height: u32) -> (r: SimpleBuffer)
        requires
            data@.len() >= width as int * height as int * 4,
        ensures
            r.wf(),
            r.width == width,
            r.height == height,
            r.buffer@ == data@.subrange(0, width as int * height as int * 4),
    {
        let len = data.len();
        assert(0 <= width as int * height as int <= width as int * height as int * 4) by (nonlinear_arith);
        let n: usize = (width as usize) * (height as usize) * 4;
        let mut buffer: Vec<u8> = Vec::new();
        let mut i: usize = 0;
        while i < n
            invariant
                n == width as int * height as int * 4,
                n <= data@.len(),
                i <= n,
                buffer@ == data@.subrange(0, i as int),
            decreases n - i,
        {
            buffer.push(data[i]);
            i = i + 1;
            assert(buffer@ =~= data@.subrange(0, i as int));
        }
        SimpleBuffer { buffer, width, height }
    }
}

/// A backdrop drawn under each video frame.
pub trait Background {
    /// Opens the backdrop at `path`, scaled to `w` by `h`, drawn with
    /// opacity `alpha`.
    fn open(path: &str, w: u32, h: u32, alpha: u8) -> Result<Self, String> where Self: Sized;

    /// Draws the next backdrop frame onto `dest`.
    fn step(&mut self, dest: &mut SimpleBuffer) -> Result<(), String>;
}

} // verus!
