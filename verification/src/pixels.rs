//! Pixel transport: the renderer's RGBA bytes into the layouts the display servers take.
use vstd::prelude::*;

use crate::error::{Error, Result};
use crate::style::Rgba;
use crate::text::to_decimal;

verus! {

/// One rendered panel: where its top-left corner lies on the output, its size, and its rows of
/// premultiplied RGBA pixels.
#[derive(Debug)]
pub struct Rendered {
    pub ox: i32,
    pub oy: i32,
    pub w: u32,
    pub h: u32,
    pub rgba: Vec<u8>,
}

impl Rendered {
    /// The buffer holds every pixel of the panel.
    pub open spec fn wf(self) -> bool {
        4 * (self.w * self.h) <= self.rgba@.len()
    }

    /// The output pixel `(x, y)` lies under the panel.
    pub open spec fn covers(self, x: int, y: int) -> bool {
        self.ox <= x < self.ox + self.w && self.oy <= y < self.oy + self.h
    }

    /// The byte of BGRA channel `c` that the panel shows at the output pixel `(x, y)`.
    pub open spec fn shown(self, x: int, y: int, c: int) -> u8 {
        self.rgba@[offset(self.w as int, x - self.ox, y - self.oy, red_blue(c))]
    }
}

/// The position of channel `c` of pixel `(x, y)` in rows of `width` four-byte pixels.
pub open spec fn offset(width: int, x: int, y: int, c: int) -> int {
    4 * (y * width + x) + c
}

/// The channel that stands at position `c` once red and blue have changed places.
pub open spec fn red_blue(c: int) -> int {
    if c == 0 {
        2
    } else if c == 2 {
        0
    } else {
        c
    }
}

/// The bytes of `src` with red and blue exchanged in every whole pixel; where a last pixel is
/// incomplete, the bytes of `base` instead.
pub open spec fn swapped(src: Seq<u8>, base: Seq<u8>) -> Seq<u8> {
    Seq::new(
        src.len(),
        |k: int|
            if k - k % 4 + 4 <= src.len() {
                src[k - k % 4 + red_blue(k % 4)]
            } else {
                base[k]
            },
    )
}

/// Exchanging red and blue twice gives the first bytes back, whatever either destination held.
pub proof fn law_swap_undoes_itself(src: Seq<u8>, first: Seq<u8>, second: Seq<u8>)
    requires
        src.len() % 4 == 0,
    ensures
        swapped(swapped(src, first), second) == src,
{
    assert forall|k: int| 0 <= k < src.len() implies swapped(swapped(src, first), second)[k]
        == src[k] by {
        let j = k - k % 4 + red_blue(k % 4);
        assert(j - j % 4 == k - k % 4);
        assert(j % 4 == red_blue(k % 4));
        assert(swapped(src, first)[j] == src[j - j % 4 + red_blue(j % 4)]);
    }
    assert(swapped(swapped(src, first), second) =~= src);
}

/// Two positions in a row layout coincide only where pixel and channel do.
proof fn lemma_offset_is_injective(
    width: int,
    x: int,
    y: int,
    c: int,
    x2: int,
    y2: int,
    c2: int,
)
    requires
        0 <= x < width,
        0 <= x2 < width,
        0 <= c < 4,
        0 <= c2 < 4,
        offset(width, x, y, c) == offset(width, x2, y2, c2),
    ensures
        x == x2,
        y == y2,
        c == c2,
{
    assert(c == c2);
    assert(y * width + x == y2 * width + x2);
    assert(y == y2) by (nonlinear_arith)
        requires
            y * width + x == y2 * width + x2,
            0 <= x < width,
            0 <= x2 < width,
    ;
}

/// A pixel inside the bounds lies inside the buffer.
proof fn lemma_offset_in_range(width: int, height: int, x: int, y: int)
    requires
        0 <= x < width,
        0 <= y < height,
    ensures
        0 <= offset(width, x, y, 0),
        offset(width, x, y, 0) + 4 <= 4 * (width * height),
        0 <= y * width,
{
    assert(y * width + x + 1 <= width * height && 0 <= y * width) by (nonlinear_arith)
        requires
            0 <= x < width,
            0 <= y < height,
    ;
}

/// Writes the four bytes of one pixel at `at`.
fn put(canvas: &mut [u8], at: usize, p0: u8, p1: u8, p2: u8, p3: u8)
    requires
        at + 4 <= old(canvas)@.len(),
    ensures
        final(canvas)@ == old(canvas)@.update(at as int, p0).update(at + 1, p1).update(
            at + 2,
            p2,
        ).update(at + 3, p3),
{
    let size: usize = canvas.len();
    assert(at + 4 <= size);
    canvas[at] = p0;
    canvas[at + 1] = p1;
    canvas[at + 2] = p2;
    canvas[at + 3] = p3;
}

/// Copies an RGBA buffer into a BGRA one of the same size; alpha passes through, since both sides
/// are premultiplied. Buffers of different sizes are refused and the destination is left alone.
pub fn blit_argb8888(src: &[u8], dst: &mut [u8]) -> (r: Result<()>)
    ensures
        r is Ok <==> src@.len() == old(dst)@.len(),
        r is Ok ==> final(dst)@ == swapped(src@, old(dst)@),
        r matches Err(e) ==> {
            &&& final(dst)@ == old(dst)@
            &&& crate::error::platform_failure(
                e,
                "wl_shm blit size mismatch: src "@ + crate::text::decimal(src@.len())
                    + " bytes, dst "@ + crate::text::decimal(old(dst)@.len()) + " bytes"@,
            )
        },
{
    if src.len() != dst.len() {
        let mut message: String = "wl_shm blit size mismatch: src ".to_owned();
        message.append(to_decimal(src.len()).as_str());
        message.append(" bytes, dst ");
        message.append(to_decimal(dst.len()).as_str());
        message.append(" bytes");
        return Err(Error::Platform(message));
    }
    let ghost base = dst@;
    let size: usize = src.len();
    let mut at: usize = 0;
    while size - at >= 4
        invariant
            size == src@.len(),
            size == dst@.len(),
            base.len() == size,
            at <= size,
            at % 4 == 0,
            forall|k: int| 0 <= k < at ==> #[trigger] dst@[k] == swapped(src@, base)[k],
            forall|k: int| at <= k < size ==> #[trigger] dst@[k] == base[k],
        decreases size - at,
    {
        put(dst, at, src[at + 2], src[at + 1], src[at], src[at + 3]);
        at = at + 4;
    }
    assert(dst@ =~= swapped(src@, base));
    Ok(())
}

/// The canvas after the panel was drawn over it, byte for byte.
pub open spec fn composited(
    before: Seq<u8>,
    after: Seq<u8>,
    out_w: u32,
    out_h: u32,
    r: Rendered,
) -> bool {
    &&& after.len() == before.len()
    &&& forall|x: int, y: int, c: int|
        #![trigger after[offset(out_w as int, x, y, c)]]
        0 <= x < out_w && 0 <= y < out_h && 0 <= c < 4 ==> after[offset(out_w as int, x, y, c)]
            == if r.covers(x, y) {
            r.shown(x, y, c)
        } else {
            before[offset(out_w as int, x, y, c)]
        }
    &&& forall|k: int|
        4 * (out_w * out_h) <= k < before.len() ==> #[trigger] after[k] == before[k]
}

/// The rows before `row`, and of that row the columns before `col`, have been drawn.
spec fn drawn(r: Rendered, row: int, col: int, x: int, y: int) -> bool {
    r.covers(x, y) && (y - r.oy < row || (y - r.oy == row && x - r.ox < col))
}

spec fn partly(
    before: Seq<u8>,
    now: Seq<u8>,
    out_w: u32,
    out_h: u32,
    r: Rendered,
    row: int,
    col: int,
) -> bool {
    &&& now.len() == before.len()
    &&& forall|x: int, y: int, c: int|
        #![trigger now[offset(out_w as int, x, y, c)]]
        0 <= x < out_w && 0 <= y < out_h && 0 <= c < 4 ==> now[offset(out_w as int, x, y, c)]
            == if drawn(r, row, col, x, y) {
            r.shown(x, y, c)
        } else {
            before[offset(out_w as int, x, y, c)]
        }
    &&& forall|k: int|
        4 * (out_w * out_h) <= k < before.len() ==> #[trigger] now[k] == before[k]
}

/// Draws one panel into an output-sized BGRA canvas at the panel's origin. What falls off an edge
/// of the output is clipped; every pixel the panel does not cover stays as it was.
pub fn composite_panel(canvas: &mut [u8], out_w: u32, out_h: u32, r: &Rendered)
    requires
        r.wf(),
        4 * (out_w * out_h) <= old(canvas)@.len(),
    ensures
        composited(old(canvas)@, final(canvas)@, out_w, out_h, *r),
{
    let ghost before = canvas@;
    let size: usize = canvas.len();
    let source: usize = r.rgba.len();
    let mut row: u32 = 0;
    while row < r.h
        invariant
            r.wf(),
            size == before.len(),
            source == r.rgba@.len(),
            4 * (out_w * out_h) <= size,
            row <= r.h,
            partly(before, canvas@, out_w, out_h, *r, row as int, 0),
        decreases r.h - row,
    {
        let y: i64 = r.oy as i64 + row as i64;
        if 0 <= y && y < out_h as i64 {
            let mut col: u32 = 0;
            while col < r.w
                invariant
                    r.wf(),
                    size == before.len(),
                    source == r.rgba@.len(),
                    4 * (out_w * out_h) <= size,
                    row < r.h,
                    y == r.oy + row,
                    0 <= y < out_h,
                    col <= r.w,
                    partly(before, canvas@, out_w, out_h, *r, row as int, col as int),
                decreases r.w - col,
            {
                let x: i64 = r.ox as i64 + col as i64;
                if 0 <= x && x < out_w as i64 {
                    proof {
                        lemma_offset_in_range(r.w as int, r.h as int, col as int, row as int);
                        lemma_offset_in_range(out_w as int, out_h as int, x as int, y as int);
                    }
                    let s: usize = 4 * (row as usize * r.w as usize + col as usize);
                    let d: usize = 4 * (y as usize * out_w as usize + x as usize);
                    let ghost prior = canvas@;
                    put(canvas, d, r.rgba[s + 2], r.rgba[s + 1], r.rgba[s], r.rgba[s + 3]);
                    proof {
                        assert(s == offset(r.w as int, x - r.ox, y - r.oy, 0));
                        assert(d == offset(out_w as int, x as int, y as int, 0));
                        assert forall|x2: int, y2: int, c: int|
                            0 <= x2 < out_w && 0 <= y2 < out_h && 0 <= c
                                < 4 implies #[trigger] canvas@[offset(out_w as int, x2, y2, c)]
                            == if drawn(*r, row as int, col + 1, x2, y2) {
                            r.shown(x2, y2, c)
                        } else {
                            before[offset(out_w as int, x2, y2, c)]
                        } by {
                            let k = offset(out_w as int, x2, y2, c);
                            lemma_offset_in_range(out_w as int, out_h as int, x2, y2);
                            if d <= k < d + 4 {
                                lemma_offset_is_injective(
                                    out_w as int,
                                    x2,
                                    y2,
                                    c,
                                    x as int,
                                    y as int,
                                    k - d,
                                );
                            } else {
                                assert(canvas@[k] == prior[k]);
                                assert(!(x2 == x && y2 == y));
                            }
                        }
                    }
                }
                col = col + 1;
            }
        }
        row = row + 1;
        assert(forall|x: int, y: int| #[trigger]
            drawn(*r, row - 1, r.w as int, x, y) == drawn(*r, row as int, 0, x, y));
    }
}

/// The byte of BGRA channel `c` that an output shows at `(x, y)`: that of the last panel there, and
/// transparent black where there is none.
pub open spec fn topmost(panels: Seq<Rendered>, x: int, y: int, c: int) -> u8
    decreases panels.len(),
{
    if panels.len() == 0 {
        0
    } else if panels.last().covers(x, y) {
        panels.last().shown(x, y, c)
    } else {
        topmost(panels.drop_last(), x, y, c)
    }
}

/// What stands at a pixel comes from a panel that covers it and that no later panel covers.
pub proof fn law_the_last_panel_is_on_top(panels: Seq<Rendered>, k: int, x: int, y: int, c: int)
    requires
        0 <= k < panels.len(),
        panels[k].covers(x, y),
        forall|j: int| k < j < panels.len() ==> !(#[trigger] panels[j]).covers(x, y),
    ensures
        topmost(panels, x, y, c) == panels[k].shown(x, y, c),
    decreases panels.len(),
{
    if k < panels.len() - 1 {
        assert(!panels[panels.len() - 1].covers(x, y));
        assert forall|j: int| k < j < panels.len() - 1 implies !(
        #[trigger] panels.drop_last()[j]).covers(x, y) by {
            assert(panels.drop_last()[j] == panels[j]);
        }
        law_the_last_panel_is_on_top(panels.drop_last(), k, x, y, c);
    }
}

/// Draws the whole output: transparent, with the panels over it, each above the ones before it.
pub fn compose_panels(canvas: &mut [u8], out_w: u32, out_h: u32, panels: &Vec<Rendered>)
    requires
        4 * (out_w * out_h) <= old(canvas)@.len(),
        forall|k: int| 0 <= k < panels@.len() ==> (#[trigger] panels@[k]).wf(),
    ensures
        final(canvas)@.len() == old(canvas)@.len(),
        forall|x: int, y: int, c: int|
            #![trigger final(canvas)@[offset(out_w as int, x, y, c)]]
            0 <= x < out_w && 0 <= y < out_h && 0 <= c < 4 ==> final(canvas)@[offset(
                out_w as int,
                x,
                y,
                c,
            )] == topmost(panels@, x, y, c),
        forall|k: int|
            4 * (out_w * out_h) <= k < old(canvas)@.len() ==> #[trigger] final(canvas)@[k] == 0,
{
    let size: usize = canvas.len();
    let mut k: usize = 0;
    while k < size
        invariant
            size == canvas@.len(),
            size == old(canvas)@.len(),
            k <= size,
            forall|j: int| 0 <= j < k ==> #[trigger] canvas@[j] == 0,
        decreases size - k,
    {
        canvas[k] = 0;
        k = k + 1;
    }
    proof {
        assert forall|x: int, y: int, c: int|
            #![trigger canvas@[offset(out_w as int, x, y, c)]]
            0 <= x < out_w && 0 <= y < out_h && 0 <= c < 4 implies canvas@[offset(
            out_w as int,
            x,
            y,
            c,
        )] == topmost(panels@.take(0), x, y, c) by {
            lemma_offset_in_range(out_w as int, out_h as int, x, y);
        }
    }
    let mut n: usize = 0;
    while n < panels.len()
        invariant
            size == canvas@.len(),
            size == old(canvas)@.len(),
            4 * (out_w * out_h) <= size,
            forall|j: int| 0 <= j < panels@.len() ==> (#[trigger] panels@[j]).wf(),
            n <= panels@.len(),
            forall|x: int, y: int, c: int|
                #![trigger canvas@[offset(out_w as int, x, y, c)]]
                0 <= x < out_w && 0 <= y < out_h && 0 <= c < 4 ==> canvas@[offset(
                    out_w as int,
                    x,
                    y,
                    c,
                )] == topmost(panels@.take(n as int), x, y, c),
            forall|j: int| 4 * (out_w * out_h) <= j < size ==> #[trigger] canvas@[j] == 0,
        decreases panels@.len() - n,
    {
        let ghost before = canvas@;
        composite_panel(canvas, out_w, out_h, &panels[n]);
        proof {
            let now = panels@.take(n + 1);
            assert(now.drop_last() =~= panels@.take(n as int));
            assert(now.last() == panels@[n as int]);
            assert forall|x: int, y: int, c: int|
                #![trigger canvas@[offset(out_w as int, x, y, c)]]
                0 <= x < out_w && 0 <= y < out_h && 0 <= c < 4 implies canvas@[offset(
                out_w as int,
                x,
                y,
                c,
            )] == topmost(now, x, y, c) by {
                assert(before[offset(out_w as int, x, y, c)] == topmost(
                    panels@.take(n as int),
                    x,
                    y,
                    c,
                ));
            }
        }
        n = n + 1;
    }
    assert(panels@.take(n as int) =~= panels@);
}

/// How a TrueColor visual lays the color channels out in a pixel value.
#[derive(Debug, Clone, Copy, PartialEq, Eq, Structural)]
pub struct Visual {
    pub visual_id: u32,
    pub red_mask: u32,
    pub green_mask: u32,
    pub blue_mask: u32,
}

/// The byte order of pixel values in an image.
#[derive(Debug, Clone, Copy, PartialEq, Eq, Structural)]
pub enum ByteOrder {
    LsbFirst,
    MsbFirst,
}

/// The lowest bit of a channel mask; zero for an empty mask.
pub open spec fn lowest_bit(mask: u32) -> u32 {
    if mask == 0 {
        0
    } else {
        mask.trailing_zeros()
    }
}

/// The bit shift for a channel mask (its least-significant set bit).
pub fn mask_shift(mask: u32) -> (r: u32)
    ensures
        r == lowest_bit(mask),
        r < 32,
        mask != 0 ==> (mask >> r) & 1 == 1,
{
    broadcast use vstd::std_specs::bits::axiom_u32_trailing_zeros;

    if mask == 0 {
        0
    } else {
        mask.trailing_zeros()
    }
}

/// A color as a pixel value of `visual`.
pub open spec fn packed(visual: Visual, r: u8, g: u8, b: u8) -> u32 {
    ((r as u32) << lowest_bit(visual.red_mask)) | ((g as u32) << lowest_bit(visual.green_mask)) | ((
    b as u32) << lowest_bit(visual.blue_mask))
}

/// Packs an 8-bit-per-channel color into a pixel value of `visual`.
pub fn pack_rgb(visual: &Visual, r: u8, g: u8, b: u8) -> (value: u32)
    ensures
        value == packed(*visual, r, g, b),
{
    ((r as u32) << mask_shift(visual.red_mask)) | ((g as u32) << mask_shift(visual.green_mask)) | ((
    b as u32) << mask_shift(visual.blue_mask))
}

/// A premultiplied channel of alpha `a` over an opaque background channel.
pub open spec fn over(channel: u8, background: u8, a: u8) -> u8 {
    let sum = channel + background * (255 - a) / 255;
    if sum > 255 {
        255
    } else {
        sum as u8
    }
}

/// An opaque pixel hides the background; a fully transparent one shows it unchanged; and a channel
/// that is premultiplied, so no larger than its alpha, never saturates.
pub proof fn law_over_opaque_and_transparent(channel: u8, background: u8, a: u8)
    ensures
        over(channel, background, 255) == channel,
        over(0, background, 0) == background,
        channel <= a ==> over(channel, background, a) == channel + background * (255 - a) / 255,
{
    assert(background * 255 / 255 == background);
    assert(background * 0 / 255 == 0);
    assert(background * (255 - a) / 255 <= 255 - a) by (nonlinear_arith)
        requires
            0 <= background <= 255,
            0 <= a <= 255,
    ;
    assert(0 <= background * (255 - a) / 255) by (nonlinear_arith)
        requires
            0 <= background <= 255,
            0 <= a <= 255,
    ;
}

/// Byte `k` of a pixel value, least significant first.
pub open spec fn byte_of(value: u32, k: int) -> u8 {
    if k == 0 {
        (value % 0x100) as u8
    } else if k == 1 {
        (value / 0x100 % 0x100) as u8
    } else if k == 2 {
        (value / 0x1_0000 % 0x100) as u8
    } else {
        (value / 0x100_0000) as u8
    }
}

/// The four bytes of a pixel value make it up again.
pub proof fn law_bytes_make_up_the_value(value: u32)
    ensures
        byte_of(value, 0) + 0x100 * byte_of(value, 1) + 0x1_0000 * byte_of(value, 2) + 0x100_0000
            * byte_of(value, 3) == value,
{
    let low = value % 0x100;
    let rest = value / 0x100;
    let high = value / 0x1_0000;
    assert(high == rest / 0x100) by (bit_vector)
        requires
            rest == value / 0x100,
            high == value / 0x1_0000,
    ;
    assert(value / 0x100_0000 == high / 0x100) by (bit_vector)
        requires
            high == value / 0x1_0000,
    ;
    assert(value == low + 0x100 * rest);
    assert(rest == rest % 0x100 + 0x100 * high);
    assert(high == high % 0x100 + 0x100 * (high / 0x100));
    assert(high / 0x100 < 0x100);
}

/// The pixel value shown for source pixel `i`, composited over `bg`.
pub open spec fn encoded_value(pixels: Seq<u8>, i: int, visual: Visual, bg: Rgba) -> u32 {
    let a = pixels[4 * i + 3];
    packed(
        visual,
        over(pixels[4 * i], bg.r, a),
        over(pixels[4 * i + 1], bg.g, a),
        over(pixels[4 * i + 2], bg.b, a),
    )
}

/// The bytes one pixel takes in an image of this depth: four at least.
pub open spec fn pixel_stride(bits_per_pixel: u8) -> int {
    if bits_per_pixel / 8 < 4 {
        4
    } else {
        (bits_per_pixel / 8) as int
    }
}

/// Byte `j` of an encoded pixel.
pub open spec fn encoded_byte(value: u32, order: ByteOrder, j: int) -> u8 {
    if j >= 4 {
        0
    } else if order is MsbFirst {
        byte_of(value, 3 - j)
    } else {
        byte_of(value, j)
    }
}

/// Byte `j` of pixel `i` of the encoded image.
pub open spec fn encoded_at(
    pixels: Seq<u8>,
    visual: Visual,
    order: ByteOrder,
    bg: Rgba,
    i: int,
    j: int,
) -> u8 {
    if 4 * i + 4 <= pixels.len() {
        encoded_byte(encoded_value(pixels, i, visual, bg), order, j)
    } else {
        0
    }
}

/// The position of byte `j` of pixel `i` in a run of pixels of `stride` bytes.
pub open spec fn slot(stride: int, i: int, j: int) -> int {
    i * stride + j
}

/// The bytes one pixel takes in an image with `bits_per_pixel`.
pub fn bytes_per_pixel(bits_per_pixel: u8) -> (r: usize)
    ensures
        r == pixel_stride(bits_per_pixel),
        4 <= r <= 31,
{
    let whole: usize = (bits_per_pixel / 8) as usize;
    if whole < 4 {
        4
    } else {
        whole
    }
}

fn over_background(channel: u8, background: u8, a: u8) -> (r: u8)
    ensures
        r == over(channel, background, a),
{
    let inv: u32 = 255 - a as u32;
    assert(0 <= background * inv <= 255 * 255) by (nonlinear_arith)
        requires
            0 <= background <= 255,
            0 <= inv <= 255,
    ;
    let sum: u32 = channel as u32 + background as u32 * inv / 255;
    if sum > 255 {
        255
    } else {
        sum as u8
    }
}

fn value_byte(value: u32, k: u32) -> (r: u8)
    requires
        k < 4,
    ensures
        r == byte_of(value, k as int),
{
    if k == 0 {
        (value % 0x100) as u8
    } else if k == 1 {
        (value / 0x100 % 0x100) as u8
    } else if k == 2 {
        (value / 0x1_0000 % 0x100) as u8
    } else {
        (value / 0x100_0000) as u8
    }
}

/// Slot `i` of a run of equally long slots ends before the run does.
proof fn lemma_slot(i: int, count: int, stride: int)
    requires
        0 <= i < count,
        0 < stride,
    ensures
        0 <= i * stride,
        i * stride + stride <= count * stride,
        (i + 1) * stride == i * stride + stride,
{
    assert(0 <= i * stride && i * stride + stride <= count * stride && (i + 1) * stride == i
        * stride + stride) by (nonlinear_arith)
        requires
            0 <= i < count,
            0 < stride,
    ;
}

/// Encodes a premultiplied RGBA framebuffer as image bytes for the visual and byte order of the
/// server, composited over the opaque background, so that the result is opaque.
pub fn encode_framebuffer(
    pixels: &[u8],
    width: u32,
    height: u32,
    visual: &Visual,
    byte_order: ByteOrder,
    bits_per_pixel: u8,
    bg: Rgba,
) -> (out: Vec<u8>)
    requires
        pixels@.len() / 4 <= width * height,
        width * height * pixel_stride(bits_per_pixel) <= usize::MAX,
    ensures
        out@.len() == width * height * pixel_stride(bits_per_pixel),
        forall|i: int, j: int|
            #![trigger out@[slot(pixel_stride(bits_per_pixel), i, j)]]
            0 <= i < width * height && 0 <= j < pixel_stride(bits_per_pixel)
                ==> out@[slot(pixel_stride(bits_per_pixel), i, j)] == encoded_at(
                pixels@,
                *visual,
                byte_order,
                bg,
                i,
                j,
            ),
{
    let stride: usize = bytes_per_pixel(bits_per_pixel);
    let ghost total: int = width * height;
    assert(0 <= total <= usize::MAX) by (nonlinear_arith)
        requires
            total == width * height,
            total * stride <= usize::MAX,
            4 <= stride,
            0 <= width,
            0 <= height,
    ;
    let count: usize = width as usize * height as usize;
    let mut out: Vec<u8> = vec![0u8; count * stride];
    assert forall|p: int, j: int| 0 <= p < count && 0 <= j < stride implies #[trigger] out@[slot(
        stride as int,
        p,
        j,
    )] == 0 by {
        lemma_slot(p, count as int, stride as int);
    }
    let size: usize = pixels.len();
    let whole: usize = size / 4;
    let mut i: usize = 0;
    while i < whole
        invariant
            size == pixels@.len(),
            whole == size / 4,
            whole <= count,
            i <= whole,
            stride == pixel_stride(bits_per_pixel),
            4 <= stride <= 31,
            count * stride == out@.len(),
            count * stride <= usize::MAX,
            forall|p: int, j: int|
                #![trigger out@[slot(stride as int, p, j)]]
                0 <= p < count && 0 <= j < stride ==> out@[slot(stride as int, p, j)] == if p < i {
                    encoded_at(pixels@, *visual, byte_order, bg, p, j)
                } else {
                    0
                },
        decreases whole - i,
    {
        let s: usize = 4 * i;
        let a: u8 = pixels[s + 3];
        let r: u8 = over_background(pixels[s], bg.r, a);
        let g: u8 = over_background(pixels[s + 1], bg.g, a);
        let b: u8 = over_background(pixels[s + 2], bg.b, a);
        let value: u32 = pack_rgb(visual, r, g, b);
        proof {
            lemma_slot(i as int, count as int, stride as int);
        }
        let o: usize = i * stride;
        let ghost prior = out@;
        match byte_order {
            ByteOrder::MsbFirst => {
                put(
                    out.as_mut_slice(),
                    o,
                    value_byte(value, 3),
                    value_byte(value, 2),
                    value_byte(value, 1),
                    value_byte(value, 0),
                );
            },
            ByteOrder::LsbFirst => {
                put(
                    out.as_mut_slice(),
                    o,
                    value_byte(value, 0),
                    value_byte(value, 1),
                    value_byte(value, 2),
                    value_byte(value, 3),
                );
            },
        }
        proof {
            assert(value == encoded_value(pixels@, i as int, *visual, bg));
            assert forall|p: int, j: int|
                0 <= p < count && 0 <= j < stride implies #[trigger] out@[slot(stride as int, p, j)] == if p
                < i + 1 {
                encoded_at(pixels@, *visual, byte_order, bg, p, j)
            } else {
                0
            } by {
                lemma_slot(p, count as int, stride as int);
                if p < i {
                    lemma_slot(p, i as int, stride as int);
                } else if p > i {
                    lemma_slot(i as int, p, stride as int);
                }
                assert(prior[slot(stride as int, p, j)] == if p < i {
                    encoded_at(pixels@, *visual, byte_order, bg, p, j)
                } else {
                    0
                });
            }
        }
        i = i + 1;
    }
    out
}

/// One slice of an image that fits a single request.
#[derive(Debug, Clone, Copy, PartialEq, Eq, Structural)]
pub struct Band {
    /// The first row of the band.
    pub y: u16,
    /// How many rows it holds.
    pub rows: u16,
    /// Where its bytes begin in the image.
    pub start: usize,
    /// Where they end.
    pub end: usize,
}

/// The bytes of one image row.
pub open spec fn row_bytes(width: u16, bits_per_pixel: u8) -> int {
    width * pixel_stride(bits_per_pixel)
}

/// The bytes a band may hold: the request limit less room for the header, one row at least.
pub open spec fn band_budget(width: u16, bits_per_pixel: u8, max_request: usize) -> int {
    let room = if max_request < 1024 {
        0int
    } else {
        max_request - 1024
    };
    if room < row_bytes(width, bits_per_pixel) {
        row_bytes(width, bits_per_pixel)
    } else {
        room
    }
}

/// The bands cover the rows up to `upto` one after the other, each with the bytes of its rows, each
/// of at least one row and within the budget, and each but the last as large as the budget allows.
pub open spec fn bands_cover(bands: Seq<Band>, upto: int, row: int, budget: int) -> bool {
    &&& bands.len() == 0 ==> upto == 0
    &&& bands.len() > 0 ==> bands[0].y == 0 && bands.last().y + bands.last().rows == upto
    &&& forall|k: int| #![trigger bands[k]]
        0 <= k < bands.len() ==> {
            &&& bands[k].rows >= 1
            &&& bands[k].start == bands[k].y * row
            &&& bands[k].end == bands[k].start + bands[k].rows * row
            &&& bands[k].rows * row <= budget
            &&& k + 1 < bands.len() ==> bands[k].y + bands[k].rows == bands[k + 1].y
            &&& k + 1 < bands.len() ==> (bands[k].rows + 1) * row > budget
        }
}

/// Splits an image of `width` by `height` pixels into bands of rows, so that no request exceeds the
/// limit of the server. An empty image needs no request.
pub fn bands(width: u16, height: u16, bits_per_pixel: u8, max_request: usize) -> (r: Vec<Band>)
    requires
        height * row_bytes(width, bits_per_pixel) <= usize::MAX,
    ensures
        width == 0 || height == 0 ==> r@.len() == 0,
        width != 0 && height != 0 ==> bands_cover(
            r@,
            height as int,
            row_bytes(width, bits_per_pixel),
            band_budget(width, bits_per_pixel, max_request),
        ),
{
    let mut r: Vec<Band> = Vec::new();
    if width == 0 || height == 0 {
        return r;
    }
    let stride: usize = bytes_per_pixel(bits_per_pixel);
    assert(0 < width * stride <= 0xffff * 31) by (nonlinear_arith)
        requires
            0 < width <= 0xffff,
            4 <= stride <= 31,
    ;
    let row: usize = width as usize * stride;
    let room: usize = if max_request < 1024 {
        0
    } else {
        max_request - 1024
    };
    let budget: usize = if room < row {
        row
    } else {
        room
    };
    let per_band: usize = budget / row;
    assert(per_band >= 1 && per_band * row <= budget && (per_band + 1) * row > budget)
        by (nonlinear_arith)
        requires
            per_band == budget / row,
            0 < row <= budget,
    ;
    let mut y: u16 = 0;
    while y < height
        invariant
            y <= height,
            0 < row,
            per_band >= 1,
            per_band * row <= budget,
            (per_band + 1) * row > budget,
            height * row <= usize::MAX,
            bands_cover(r@, y as int, row as int, budget as int),
            y < height && r@.len() > 0 ==> r@.last().rows == per_band,
        decreases height - y,
    {
        let left: u16 = height - y;
        let rows: u16 = if per_band < left as usize {
            per_band as u16
        } else {
            left
        };
        assert(y * row <= height * row && rows * row <= per_band * row && y * row + rows * row
            == (y + rows) * row && (y + rows) * row <= height * row) by (nonlinear_arith)
            requires
                0 < row,
                0 <= y,
                y + rows <= height,
                rows <= per_band,
        ;
        assert(0 <= y * row && 0 <= rows * row) by (nonlinear_arith)
            requires
                0 < row,
                0 <= y,
                0 <= rows,
        ;
        let start: usize = y as usize * row;
        let end: usize = start + rows as usize * row;
        let ghost prior = r@;
        r.push(Band { y, rows, start, end });
        proof {
            assert forall|k: int| #![trigger r@[k]] 0 <= k < r@.len() implies {
                &&& r@[k].rows >= 1
                &&& r@[k].start == r@[k].y * row
                &&& r@[k].end == r@[k].start + r@[k].rows * row
                &&& r@[k].rows * row <= budget
                &&& k + 1 < r@.len() ==> r@[k].y + r@[k].rows == r@[k + 1].y
                &&& k + 1 < r@.len() ==> (r@[k].rows + 1) * row > budget
            } by {
                if k < prior.len() {
                    assert(r@[k] == prior[k]);
                }
            }
        }
        y = y + rows;
    }
    r
}

/// The bytes of `rgba` with alpha moved to the front of every whole pixel.
pub open spec fn alpha_first(rgba: Seq<u8>) -> Seq<u8> {
    Seq::new(
        4 * (rgba.len() / 4),
        |k: int| rgba[k - k % 4 + if k % 4 == 0 { 3 } else { k % 4 - 1 }],
    )
}

/// Straight-alpha RGBA into the ARGB order of a tray pixmap. An incomplete last pixel is dropped.
pub fn to_argb32(rgba: &[u8]) -> (out: Vec<u8>)
    ensures
        out@ == alpha_first(rgba@),
{
    let mut out: Vec<u8> = Vec::new();
    let size: usize = rgba.len();
    let mut at: usize = 0;
    while size - at >= 4
        invariant
            size == rgba@.len(),
            at <= size,
            at % 4 == 0,
            out@.len() == at,
            forall|k: int| 0 <= k < at ==> #[trigger] out@[k] == alpha_first(rgba@)[k],
        decreases size - at,
    {
        out.push(rgba[at + 3]);
        out.push(rgba[at]);
        out.push(rgba[at + 1]);
        out.push(rgba[at + 2]);
        at = at + 4;
    }
    assert(out@ =~= alpha_first(rgba@));
    out
}

/// Premultiplied RGBA into the BGRA bitmap of a layered window of `pixels` pixels.
pub fn to_bgra(src: &[u8], pixels: usize) -> (out: Vec<u8>)
    requires
        4 * pixels <= src@.len(),
    ensures
        out@ == swapped(src@.take(4 * pixels), src@),
{
    let size: usize = src.len();
    let mut out: Vec<u8> = Vec::new();
    let mut i: usize = 0;
    while i < pixels
        invariant
            size == src@.len(),
            4 * pixels <= size,
            i <= pixels,
            out@.len() == 4 * i,
            forall|k: int|
                0 <= k < 4 * i ==> #[trigger] out@[k] == swapped(src@.take(4 * pixels), src@)[k],
        decreases pixels - i,
    {
        let s: usize = 4 * i;
        out.push(src[s + 2]);
        out.push(src[s + 1]);
        out.push(src[s]);
        out.push(src[s + 3]);
        i = i + 1;
    }
    assert(out@ =~= swapped(src@.take(4 * pixels), src@));
    out
}

/// BGRA channel `c` of the source pixel `(x, y)`; a fully transparent pixel is black.
pub open spec fn icon_channel(rgba: Seq<u8>, width: int, x: int, y: int, c: int) -> u8 {
    if c < 3 && rgba[offset(width, x, y, 3)] == 0 {
        0
    } else {
        rgba[offset(width, x, y, red_blue(c))]
    }
}

/// The nearest source coordinate for position `at` of `size`.
pub open spec fn nearest(at: int, source: int, size: int) -> int {
    at * source / size
}

/// The nearest source coordinate lies inside the source.
proof fn lemma_nearest_in_range(at: int, source: int, size: int)
    requires
        0 <= at < size,
        0 < source,
    ensures
        0 <= nearest(at, source, size) < source,
        0 <= at * source < size * source,
{
    assert(0 <= at * source < size * source) by (nonlinear_arith)
        requires
            0 <= at < size,
            0 < source,
    ;
    assert(0 <= at * source / size < source) by (nonlinear_arith)
        requires
            0 <= at * source < size * source,
            0 < size,
    ;
}

/// At its own size an icon is copied pixel for pixel.
pub proof fn law_nearest_keeps_the_size(at: int, size: int)
    requires
        0 <= at < size,
    ensures
        nearest(at, size, size) == at,
{
    assert(at * size / size == at) by (nonlinear_arith)
        requires
            0 < size,
    ;
}

/// Scales a straight-alpha RGBA icon to a square BGRA bitmap by taking the nearest source pixel;
/// `None` for an empty source or size.
pub fn scale_icon(rgba: &[u8], width: u32, height: u32, size: u32) -> (r: Option<Vec<u8>>)
    requires
        4 * (width * height) <= rgba@.len(),
        4 * (size * size) <= usize::MAX,
    ensures
        r is Some <==> width != 0 && height != 0 && size != 0,
        r matches Some(out) ==> {
            &&& out@.len() == 4 * (size * size)
            &&& forall|x: int, y: int, c: int|
                #![trigger out@[offset(size as int, x, y, c)]]
                0 <= x < size && 0 <= y < size && 0 <= c < 4 ==> out@[offset(size as int, x, y, c)]
                    == icon_channel(
                    rgba@,
                    width as int,
                    nearest(x, width as int, size as int),
                    nearest(y, height as int, size as int),
                    c,
                )
        },
{
    if width == 0 || height == 0 || size == 0 {
        return None;
    }
    let source: usize = rgba.len();
    let mut out: Vec<u8> = Vec::new();
    let mut row: u32 = 0;
    while row < size
        invariant
            0 < width,
            0 < height,
            0 < size,
            source == rgba@.len(),
            4 * (width * height) <= source,
            4 * (size * size) <= usize::MAX,
            row <= size,
            out@.len() == 4 * (row * size),
            forall|x: int, y: int, c: int|
                #![trigger out@[offset(size as int, x, y, c)]]
                0 <= x < size && 0 <= y < row && 0 <= c < 4 ==> out@[offset(size as int, x, y, c)]
                    == icon_channel(
                    rgba@,
                    width as int,
                    nearest(x, width as int, size as int),
                    nearest(y, height as int, size as int),
                    c,
                ),
        decreases size - row,
    {
        proof {
            lemma_nearest_in_range(row as int, height as int, size as int);
        }
        assert(row * height <= 0xffff_ffff * 0xffff_ffff) by (nonlinear_arith)
            requires
                0 <= row <= 0xffff_ffff,
                0 <= height <= 0xffff_ffff,
        ;
        let sy: u64 = row as u64 * height as u64 / size as u64;
        let mut col: u32 = 0;
        while col < size
            invariant
                0 < width,
                0 < height,
                0 < size,
                source == rgba@.len(),
                4 * (width * height) <= source,
                4 * (size * size) <= usize::MAX,
                row < size,
                col <= size,
                sy == nearest(row as int, height as int, size as int),
                0 <= sy < height,
                out@.len() == offset(size as int, col as int, row as int, 0),
                forall|x: int, y: int, c: int|
                    #![trigger out@[offset(size as int, x, y, c)]]
                    0 <= x < size && (0 <= y < row || (y == row && x < col)) && 0 <= c < 4
                        ==> out@[offset(size as int, x, y, c)] == icon_channel(
                        rgba@,
                        width as int,
                        nearest(x, width as int, size as int),
                        nearest(y, height as int, size as int),
                        c,
                    ),
            decreases size - col,
        {
            proof {
                lemma_nearest_in_range(col as int, width as int, size as int);
            }
            assert(col * width <= 0xffff_ffff * 0xffff_ffff) by (nonlinear_arith)
                requires
                    0 <= col <= 0xffff_ffff,
                    0 <= width <= 0xffff_ffff,
            ;
            let sx: u64 = col as u64 * width as u64 / size as u64;
            proof {
                lemma_offset_in_range(width as int, height as int, sx as int, sy as int);
                lemma_offset_in_range(size as int, size as int, col as int, row as int);
            }
            let s: usize = 4 * (sy as usize * width as usize + sx as usize);
            let a: u8 = rgba[s + 3];
            let ghost prior = out@;
            if a == 0 {
                out.push(0);
                out.push(0);
                out.push(0);
            } else {
                out.push(rgba[s + 2]);
                out.push(rgba[s + 1]);
                out.push(rgba[s]);
            }
            out.push(a);
            proof {
                let at = offset(size as int, col as int, row as int, 0);
                assert forall|x: int, y: int, c: int|
                    0 <= x < size && (0 <= y < row || (y == row && x < col + 1)) && 0 <= c
                        < 4 implies #[trigger] out@[offset(size as int, x, y, c)] == icon_channel(
                    rgba@,
                    width as int,
                    nearest(x, width as int, size as int),
                    nearest(y, height as int, size as int),
                    c,
                ) by {
                    let k = offset(size as int, x, y, c);
                    if y == row && x == col {
                        assert(k == at + c);
                    } else {
                        if y < row {
                            lemma_offset_in_range(size as int, row as int, x, y);
                            assert(row * size == size * row) by (nonlinear_arith);
                        }
                        lemma_offset_in_range(size as int, size as int, x, y);
                        assert(0 <= k < prior.len());
                        assert(out@[k] == prior[k]);
                    }
                }
            }
            col = col + 1;
        }
        assert((row + 1) * size == row * size + size) by (nonlinear_arith);
        row = row + 1;
    }
    Some(out)
}

/// Scaling spreads the whole source over the whole target: the source pixel of position `at` is the
/// one that `at` falls into when the target is laid over the source. So it begins at the first
/// pixel, ends in the last where the target is no smaller than the source, never runs backwards,
/// and skips or repeats pixels evenly.
pub proof fn law_scaling_spreads_the_whole_source(at: int, source: int, size: int)
    requires
        0 <= at < size,
        0 < source,
    ensures
        nearest(at, source, size) * size <= at * source < (nearest(at, source, size) + 1) * size,
        0 <= nearest(at, source, size) < source,
        nearest(0, source, size) == 0,
        at + 1 < size ==> nearest(at, source, size) <= nearest(at + 1, source, size),
        source <= size ==> nearest(size - 1, source, size) == source - 1,
{
    let n = nearest(at, source, size);
    lemma_nearest_in_range(at, source, size);
    lemma_nearest_in_range(0, source, size);
    assert(n * size <= at * source < (n + 1) * size) by (nonlinear_arith)
        requires
            n == at * source / size,
            0 < size,
    ;
    assert(0 * source / size == 0) by (nonlinear_arith)
        requires
            0 < size,
    ;
    if at + 1 < size {
        assert(at * source / size <= (at + 1) * source / size) by (nonlinear_arith)
            requires
                0 < size,
                0 < source,
                0 <= at,
        ;
    }
    if source <= size {
        let last = (size - 1) * source / size;
        assert(last == source - 1) by (nonlinear_arith)
            requires
                last == (size - 1) * source / size,
                0 < source <= size,
        ;
    }
}

/// In the byte order of a bitmap, blue comes first and red third; green and alpha keep their places.
/// That holds of every whole pixel that is exchanged, and an incomplete one is left to the
/// destination.
pub proof fn law_red_and_blue_change_places(src: Seq<u8>, base: Seq<u8>, p: int)
    requires
        0 <= p,
    ensures
        swapped(src, base).len() == src.len(),
        4 * p + 4 <= src.len() ==> {
            &&& swapped(src, base)[4 * p] == src[4 * p + 2]
            &&& swapped(src, base)[4 * p + 1] == src[4 * p + 1]
            &&& swapped(src, base)[4 * p + 2] == src[4 * p]
            &&& swapped(src, base)[4 * p + 3] == src[4 * p + 3]
        },
        forall|k: int|
            4 * p <= k < src.len() && src.len() < 4 * p + 4 ==> #[trigger] swapped(src, base)[k]
                == base[k],
        red_blue(0) == 2 && red_blue(1) == 1 && red_blue(2) == 0 && red_blue(3) == 3,
{
}

/// Pixels lie row after row and channel after channel: the first byte is that of the first pixel,
/// the next pixel four bytes on, and a row begins where the one above ends. No two share a byte.
pub proof fn law_pixels_lie_row_after_row(
    width: int,
    x: int,
    y: int,
    c: int,
    x2: int,
    y2: int,
    c2: int,
)
    requires
        0 <= x < width,
        0 <= x2 < width,
        0 <= c < 4,
        0 <= c2 < 4,
    ensures
        offset(width, 0, 0, 0) == 0,
        offset(width, x, y, c) == offset(width, x, y, 0) + c,
        offset(width, x + 1, y, 0) == offset(width, x, y, 0) + 4,
        offset(width, 0, y + 1, 0) == offset(width, width, y, 0),
        offset(width, x, y, c) == offset(width, x2, y2, c2) ==> x == x2 && y == y2 && c == c2,
{
    assert((y + 1) * width == y * width + width) by (nonlinear_arith);
    assert(0 * width == 0);
    if offset(width, x, y, c) == offset(width, x2, y2, c2) {
        lemma_offset_is_injective(width, x, y, c, x2, y2, c2);
    }
}

/// A panel covers its own size from its origin on and shows there its own pixels, red and blue
/// exchanged, wherever it lies.
pub proof fn law_a_panel_shows_its_pixels(r: Rendered, i: int, j: int)
    ensures
        r.covers(r.ox + i, r.oy + j) <==> 0 <= i < r.w && 0 <= j < r.h,
        r.shown(r.ox + i, r.oy + j, 0) == r.rgba@[4 * (j * r.w + i) + 2],
        r.shown(r.ox + i, r.oy + j, 1) == r.rgba@[4 * (j * r.w + i) + 1],
        r.shown(r.ox + i, r.oy + j, 2) == r.rgba@[4 * (j * r.w + i)],
        r.shown(r.ox + i, r.oy + j, 3) == r.rgba@[4 * (j * r.w + i) + 3],
{
}

/// Where no panel lies, the output is transparent.
pub proof fn law_the_output_is_clear_around_the_panels(panels: Seq<Rendered>, x: int, y: int, c: int)
    requires
        forall|k: int| 0 <= k < panels.len() ==> !(#[trigger] panels[k]).covers(x, y),
    ensures
        topmost(panels, x, y, c) == 0,
    decreases panels.len(),
{
    if panels.len() > 0 {
        assert(!panels[panels.len() - 1].covers(x, y));
        assert forall|k: int| 0 <= k < panels.len() - 1 implies !(
        #[trigger] panels.drop_last()[k]).covers(x, y) by {
            assert(panels.drop_last()[k] == panels[k]);
        }
        law_the_output_is_clear_around_the_panels(panels.drop_last(), x, y, c);
    }
}

/// Drawing a panel shows it where it lies on the output and leaves every other byte alone.
pub proof fn law_drawing_a_panel_touches_nothing_else(
    before: Seq<u8>,
    after: Seq<u8>,
    out_w: u32,
    out_h: u32,
    r: Rendered,
    x: int,
    y: int,
    c: int,
)
    requires
        composited(before, after, out_w, out_h, r),
        0 <= x < out_w,
        0 <= y < out_h,
        0 <= c < 4,
    ensures
        after.len() == before.len(),
        r.ox <= x < r.ox + r.w && r.oy <= y < r.oy + r.h ==> after[4 * (y * out_w + x) + c]
            == r.rgba@[4 * ((y - r.oy) * r.w + (x - r.ox)) + red_blue(c)],
        !(r.ox <= x < r.ox + r.w && r.oy <= y < r.oy + r.h) ==> after[4 * (y * out_w + x) + c]
            == before[4 * (y * out_w + x) + c],
{
    assert(after[offset(out_w as int, x, y, c)] == if r.covers(x, y) {
        r.shown(x, y, c)
    } else {
        before[offset(out_w as int, x, y, c)]
    });
}

/// A scaled icon keeps the transparency of each pixel and the colors of those that can be seen, blue
/// first; what cannot be seen is black.
pub proof fn law_an_icon_keeps_what_can_be_seen(rgba: Seq<u8>, width: int, x: int, y: int)
    ensures
        ({
            let at = 4 * (y * width + x);
            let seen = rgba[at + 3] != 0;
            &&& icon_channel(rgba, width, x, y, 3) == rgba[at + 3]
            &&& seen ==> icon_channel(rgba, width, x, y, 0) == rgba[at + 2]
            &&& seen ==> icon_channel(rgba, width, x, y, 1) == rgba[at + 1]
            &&& seen ==> icon_channel(rgba, width, x, y, 2) == rgba[at]
            &&& !seen ==> icon_channel(rgba, width, x, y, 0) == 0 && icon_channel(
                rgba,
                width,
                x,
                y,
                1,
            ) == 0 && icon_channel(rgba, width, x, y, 2) == 0
        }),
{
}

/// An opaque pixel is shown as it is and a fully transparent one as the background, whatever the
/// visual.
pub proof fn law_encoding_composites_over_the_background(
    pixels: Seq<u8>,
    i: int,
    visual: Visual,
    bg: Rgba,
)
    ensures
        pixels[4 * i + 3] == 255 ==> encoded_value(pixels, i, visual, bg) == packed(
            visual,
            pixels[4 * i],
            pixels[4 * i + 1],
            pixels[4 * i + 2],
        ),
        pixels[4 * i] == 0 && pixels[4 * i + 1] == 0 && pixels[4 * i + 2] == 0 && pixels[4 * i + 3]
            == 0 ==> encoded_value(pixels, i, visual, bg) == packed(visual, bg.r, bg.g, bg.b),
{
    law_over_opaque_and_transparent(pixels[4 * i], bg.r, 0);
    law_over_opaque_and_transparent(pixels[4 * i + 1], bg.g, 0);
    law_over_opaque_and_transparent(pixels[4 * i + 2], bg.b, 0);
}

/// The bytes of an encoded pixel make up its value, the least significant first or last as the
/// server orders them; what a pixel takes beyond them is zero.
pub proof fn law_encoded_bytes_make_up_the_value(value: u32, j: int)
    ensures
        encoded_byte(value, ByteOrder::LsbFirst, 0) + 0x100 * encoded_byte(
            value,
            ByteOrder::LsbFirst,
            1,
        ) + 0x1_0000 * encoded_byte(value, ByteOrder::LsbFirst, 2) + 0x100_0000 * encoded_byte(
            value,
            ByteOrder::LsbFirst,
            3,
        ) == value,
        encoded_byte(value, ByteOrder::MsbFirst, 3) + 0x100 * encoded_byte(
            value,
            ByteOrder::MsbFirst,
            2,
        ) + 0x1_0000 * encoded_byte(value, ByteOrder::MsbFirst, 1) + 0x100_0000 * encoded_byte(
            value,
            ByteOrder::MsbFirst,
            0,
        ) == value,
        j >= 4 ==> encoded_byte(value, ByteOrder::LsbFirst, j) == 0 && encoded_byte(
            value,
            ByteOrder::MsbFirst,
            j,
        ) == 0,
{
    law_bytes_make_up_the_value(value);
}

/// Every whole pixel of the framebuffer is encoded in its place, and the rest of the image is zero.
pub proof fn law_every_pixel_is_encoded_in_its_place(
    pixels: Seq<u8>,
    visual: Visual,
    order: ByteOrder,
    bg: Rgba,
    stride: int,
    i: int,
    j: int,
)
    requires
        0 < stride,
    ensures
        4 * i + 4 <= pixels.len() ==> encoded_at(pixels, visual, order, bg, i, j) == encoded_byte(
            encoded_value(pixels, i, visual, bg),
            order,
            j,
        ),
        4 * i + 4 > pixels.len() ==> encoded_at(pixels, visual, order, bg, i, j) == 0,
        slot(stride, 0, 0) == 0,
        slot(stride, i, j) == slot(stride, i, 0) + j,
        slot(stride, i + 1, 0) == slot(stride, i, 0) + stride,
{
    assert((i + 1) * stride == i * stride + stride) by (nonlinear_arith);
    assert(0 * stride == 0);
}

/// A pixel takes a whole number of bytes, as many as its bits fill, and never fewer than the four of
/// its value.
pub proof fn law_a_pixel_takes_at_least_four_bytes(bits: u8)
    ensures
        pixel_stride(bits) >= 4,
        bits >= 32 ==> pixel_stride(bits) * 8 <= bits < pixel_stride(bits) * 8 + 8,
        bits < 40 ==> pixel_stride(bits) == 4,
{
}

/// A color can be read back from its pixel value, each channel from the byte of its mask.
pub proof fn law_a_packed_color_reads_back(visual: Visual, red: u32, green: u32, blue: u32, r: u8, g: u8, b: u8)
    requires
        red == 0 || red == 8 || red == 16 || red == 24,
        green == 0 || green == 8 || green == 16 || green == 24,
        blue == 0 || blue == 8 || blue == 16 || blue == 24,
        red != green && green != blue && blue != red,
        visual.red_mask == 0xffu32 << red,
        visual.green_mask == 0xffu32 << green,
        visual.blue_mask == 0xffu32 << blue,
    ensures
        (packed(visual, r, g, b) & visual.red_mask) >> red == r,
        (packed(visual, r, g, b) & visual.green_mask) >> green == g,
        (packed(visual, r, g, b) & visual.blue_mask) >> blue == b,
        packed(visual, r, g, b) & !(visual.red_mask | visual.green_mask | visual.blue_mask) == 0,
{
    lemma_lowest_bit_of_a_byte(red);
    lemma_lowest_bit_of_a_byte(green);
    lemma_lowest_bit_of_a_byte(blue);
    let value = packed(visual, r, g, b);
    assert(value == ((r as u32) << red) | ((g as u32) << green) | ((b as u32) << blue));
    let rm = visual.red_mask;
    let gm = visual.green_mask;
    let bm = visual.blue_mask;
    assert((value & rm) >> red == r && (value & gm) >> green == g && (value & bm) >> blue == b
        && value & !(rm | gm | bm) == 0) by (bit_vector)
        requires
            red == 0 || red == 8 || red == 16 || red == 24,
            green == 0 || green == 8 || green == 16 || green == 24,
            blue == 0 || blue == 8 || blue == 16 || blue == 24,
            red != green && green != blue && blue != red,
            rm == 0xffu32 << red,
            gm == 0xffu32 << green,
            bm == 0xffu32 << blue,
            value == ((r as u32) << red) | ((g as u32) << green) | ((b as u32) << blue),
    ;
}

/// The lowest bit of a byte-wide mask is where the byte begins.
proof fn lemma_lowest_bit_of_a_byte(shift: u32)
    requires
        shift == 0 || shift == 8 || shift == 16 || shift == 24,
    ensures
        lowest_bit(0xffu32 << shift) == shift,
{
    broadcast use vstd::std_specs::bits::axiom_u32_trailing_zeros;

    let mask = 0xffu32 << shift;
    let zeros = lowest_bit(mask);
    assert(mask != 0 && (mask >> shift) & 1 == 1) by (bit_vector)
        requires
            shift == 0 || shift == 8 || shift == 16 || shift == 24,
            mask == 0xffu32 << shift,
    ;
    if shift < zeros {
        assert((mask >> shift) & 1 == 0);
    }
    if zeros < shift {
        assert((mask >> zeros) & 1 == 0) by (bit_vector)
            requires
                shift == 0 || shift == 8 || shift == 16 || shift == 24,
                mask == 0xffu32 << shift,
                zeros < shift,
        ;
    }
}

/// The bands of an image cover its rows once each and its bytes without a gap, and each fits a
/// request that has room for a header and at least one row.
pub proof fn law_bands_cover_each_row_once(
    list: Seq<Band>,
    width: u16,
    height: int,
    bits_per_pixel: u8,
    max_request: usize,
    row: int,
)
    requires
        bands_cover(
            list,
            height,
            row_bytes(width, bits_per_pixel),
            band_budget(width, bits_per_pixel, max_request),
        ),
        0 <= row < height,
    ensures
        exists|k: int| 0 <= k < list.len() && in_band(#[trigger] list[k], row),
        forall|a: int, b: int|
            0 <= a < list.len() && 0 <= b < list.len() && in_band(#[trigger] list[a], row)
                && in_band(#[trigger] list[b], row) ==> a == b,
        forall|k: int|
            0 <= k < list.len() ==> (#[trigger] list[k]).start == list[k].y * (width * pixel_stride(
                bits_per_pixel,
            )) && list[k].end - list[k].start == list[k].rows * (width * pixel_stride(
                bits_per_pixel,
            )),
        width * pixel_stride(bits_per_pixel) + 1024 <= max_request ==> forall|k: int|
            0 <= k < list.len() ==> (#[trigger] list[k]).end - list[k].start + 1024 <= max_request,
{
    let bytes = row_bytes(width, bits_per_pixel);
    let budget = band_budget(width, bits_per_pixel, max_request);
    lemma_bands_ascend(list, height, bytes, budget);
    lemma_some_band(list, height, bytes, budget, row, list.len() as int);
    assert forall|a: int, b: int|
        0 <= a < list.len() && 0 <= b < list.len() && in_band(#[trigger] list[a], row) && in_band(
            #[trigger] list[b],
            row,
        ) implies a == b by {}
}

/// The row is one of those of the band.
pub open spec fn in_band(band: Band, row: int) -> bool {
    band.y <= row < band.y + band.rows
}

/// Each band begins at or below the end of every earlier one.
proof fn lemma_bands_ascend(list: Seq<Band>, upto: int, bytes: int, budget: int)
    requires
        bands_cover(list, upto, bytes, budget),
    ensures
        forall|a: int, b: int|
            0 <= a < b < list.len() ==> (#[trigger] list[a]).y + list[a].rows <= (
            #[trigger] list[b]).y,
{
    assert forall|a: int, b: int| 0 <= a < b < list.len() implies (#[trigger] list[a]).y
        + list[a].rows <= (#[trigger] list[b]).y by {
        lemma_band_after(list, upto, bytes, budget, a, b);
    }
}

proof fn lemma_band_after(list: Seq<Band>, upto: int, bytes: int, budget: int, a: int, b: int)
    requires
        bands_cover(list, upto, bytes, budget),
        0 <= a < b < list.len(),
    ensures
        list[a].y + list[a].rows <= list[b].y,
    decreases b - a,
{
    if a + 1 < b {
        lemma_band_after(list, upto, bytes, budget, a + 1, b);
    }
}

/// A row before the end of the first `n` bands is in one of them.
proof fn lemma_some_band(list: Seq<Band>, upto: int, bytes: int, budget: int, row: int, n: int)
    requires
        bands_cover(list, upto, bytes, budget),
        0 < n <= list.len() || n == 0 && list.len() == 0,
        0 <= row,
        n > 0 ==> row < list[n - 1].y + list[n - 1].rows,
        n == 0 ==> row < upto,
    ensures
        exists|k: int| 0 <= k < list.len() && in_band(#[trigger] list[k], row),
    decreases n,
{
    if n > 0 {
        if list[n - 1].y <= row {
            assert(in_band(list[n - 1], row));
        } else {
            assert(n > 1);
            assert(list[n - 2].y + list[n - 2].rows == list[n - 1].y);
            lemma_some_band(list, upto, bytes, budget, row, n - 1);
        }
    }
}

/// In the order of a tray pixmap alpha comes first and the colors follow as they were, for every
/// whole pixel; an incomplete one is dropped.
pub proof fn law_alpha_comes_first(rgba: Seq<u8>, p: int)
    requires
        0 <= p,
    ensures
        4 * p + 4 <= rgba.len() ==> {
            &&& alpha_first(rgba)[4 * p] == rgba[4 * p + 3]
            &&& alpha_first(rgba)[4 * p + 1] == rgba[4 * p]
            &&& alpha_first(rgba)[4 * p + 2] == rgba[4 * p + 1]
            &&& alpha_first(rgba)[4 * p + 3] == rgba[4 * p + 2]
        },
        alpha_first(rgba).len() <= rgba.len() < alpha_first(rgba).len() + 4,
        alpha_first(rgba).len() % 4 == 0,
{
}

} // verus!
