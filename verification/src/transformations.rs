//! Buffer-level image transformations: grayscale conversion, cropping and
//! transposition, each a pure function of the flattened pixel buffer.

use vstd::prelude::*;

use crate::image::PixelFormat;

verus! {

use vstd::arithmetic::div_mod::lemma_fundamental_div_mod;
use vstd::arithmetic::div_mod::lemma_fundamental_div_mod_converse;

/// A transformation an image can undergo.
#[derive(Debug, Clone, Copy, PartialEq, Eq, Structural)]
pub enum Transformation {
    Grayscale,
    /// Crop from `x0`, `y0` to `x1`, `y1`.
    Crop(u32, u32, u32, u32),
    Transpose,
}

/// The grayscale value of one color pixel: the weighted luma of the
/// normalized channels, rounded to the nearest unit and rescaled to the
/// pixel range, which maps every pixel to full black or full white
/// depending on whether its luma reaches mid-intensity.
pub open spec fn luma(r: u8, g: u8, b: u8) -> u8 {
    if 299 * (r as int) + 587 * (g as int) + 114 * (b as int) >= 127500 {
        255
    } else {
        0
    }
}

/// Bytes per pixel of each stored format.
pub open spec fn pixel_size_spec(pf: PixelFormat) -> int {
    match pf {
        PixelFormat::Grayscale => 1,
        PixelFormat::GrayscaleA => 2,
        PixelFormat::RGB => 3,
        PixelFormat::RGBA => 4,
        PixelFormat::YCbCr => 3,
    }
}

fn pixel_size(pf: PixelFormat) -> (ps: usize)
    ensures
        ps == pixel_size_spec(pf),
{
    match pf {
        PixelFormat::Grayscale => 1,
        PixelFormat::GrayscaleA => 2,
        PixelFormat::RGB => 3,
        PixelFormat::RGBA => 4,
        PixelFormat::YCbCr => 3,
    }
}

fn luma_value(r: u8, g: u8, b: u8) -> (l: u8)
    ensures
        l == luma(r, g, b),
{
    let weighted: u32 = 299 * (r as u32) + 587 * (g as u32) + 114 * (b as u32);
    if weighted >= 127500 {
        255
    } else {
        0
    }
}

/// Converts a buffer to grayscale, preserving an alpha channel where one
/// is present. Color formats collapse to thresholded luma; grayscale
/// formats are copied unchanged; a luminance-chroma buffer keeps only its
/// luminance component.
pub fn grayscale(image_buffer: &Vec<u8>, pixel_format: PixelFormat) -> (r: (Vec<u8>, PixelFormat))
    requires
        pixel_format is RGB ==> image_buffer@.len() % 3 == 0,
        pixel_format is RGBA ==> image_buffer@.len() % 4 == 0,
    ensures
        pixel_format is RGB ==> {
            &&& r.1 is Grayscale
            &&& r.0@.len() == image_buffer@.len() / 3
            &&& forall|i: int|
                0 <= i < r.0@.len() ==> #[trigger] r.0@[i] == luma(
                    image_buffer@[3 * i],
                    image_buffer@[3 * i + 1],
                    image_buffer@[3 * i + 2],
                )
        },
        pixel_format is RGBA ==> {
            &&& r.1 is GrayscaleA
            &&& r.0@.len() == image_buffer@.len() / 2
            &&& forall|j: int|
                0 <= j < r.0@.len() ==> #[trigger] r.0@[j] == (if j % 2 == 0 {
                    luma(
                        image_buffer@[2 * j],
                        image_buffer@[2 * j + 1],
                        image_buffer@[2 * j + 2],
                    )
                } else {
                    image_buffer@[2 * j + 1]
                })
        },
        pixel_format is Grayscale ==> r.0@ == image_buffer@ && r.1 is Grayscale,
        pixel_format is GrayscaleA ==> r.0@ == image_buffer@ && r.1 is GrayscaleA,
        pixel_format is YCbCr ==> {
            &&& r.1 is Grayscale
            &&& r.0@.len() == (image_buffer@.len() + 2) / 3
            &&& forall|i: int| 0 <= i < r.0@.len() ==> #[trigger] r.0@[i] == image_buffer@[3 * i]
        },
{
    let len = image_buffer.len();
    match pixel_format {
        PixelFormat::RGB => {
            proof {
                lemma_fundamental_div_mod(len as int, 3);
            }
            let chunks: usize = len / 3;
            let mut new_buff: Vec<u8> = Vec::new();
            let mut i: usize = 0;
            while i < chunks
                invariant
                    i <= chunks,
                    image_buffer@.len() == len,
                    len as int == 3 * chunks,
                    new_buff@.len() == i,
                    forall|k: int|
                        0 <= k < i ==> #[trigger] new_buff@[k] == luma(
                            image_buffer@[3 * k],
                            image_buffer@[3 * k + 1],
                            image_buffer@[3 * k + 2],
                        ),
                decreases chunks - i,
            {
                let l = luma_value(
                    image_buffer[3 * i],
                    image_buffer[3 * i + 1],
                    image_buffer[3 * i + 2],
                );
                new_buff.push(l);
                i += 1;
            }
            (new_buff, PixelFormat::Grayscale)
        },
        PixelFormat::RGBA => {
            proof {
                lemma_fundamental_div_mod(len as int, 4);
            }
            let chunks: usize = len / 4;
            let mut new_buff: Vec<u8> = Vec::new();
            let mut i: usize = 0;
            while i < chunks
                invariant
                    i <= chunks,
                    image_buffer@.len() == len,
                    len as int == 4 * chunks,
                    new_buff@.len() == 2 * i,
                    forall|j: int|
                        0 <= j < 2 * i ==> #[trigger] new_buff@[j] == (if j % 2 == 0 {
                            luma(
                                image_buffer@[2 * j],
                                image_buffer@[2 * j + 1],
                                image_buffer@[2 * j + 2],
                            )
                        } else {
                            image_buffer@[2 * j + 1]
                        }),
                decreases chunks - i,
            {
                let l = luma_value(
                    image_buffer[4 * i],
                    image_buffer[4 * i + 1],
                    image_buffer[4 * i + 2],
                );
                new_buff.push(l);
                new_buff.push(image_buffer[4 * i + 3]);
                proof {
                    assert forall|j: int|
                        0 <= j < 2 * (i + 1) implies #[trigger] new_buff@[j] == (if j % 2 == 0 {
                        luma(
                            image_buffer@[2 * j],
                            image_buffer@[2 * j + 1],
                            image_buffer@[2 * j + 2],
                        )
                    } else {
                        image_buffer@[2 * j + 1]
                    }) by {
                        if j == 2 * i {
                            lemma_fundamental_div_mod_converse(j, 2, i as int, 0);
                        } else if j == 2 * i + 1 {
                            lemma_fundamental_div_mod_converse(j, 2, i as int, 1);
                        }
                    }
                }
                i += 1;
            }
            proof {
                lemma_fundamental_div_mod_converse(len as int, 2, 2 * chunks, 0);
            }
            (new_buff, PixelFormat::GrayscaleA)
        },
        PixelFormat::Grayscale => {
            let mut new_buff: Vec<u8> = Vec::new();
            append_all(&mut new_buff, image_buffer);
            (new_buff, PixelFormat::Grayscale)
        },
        PixelFormat::GrayscaleA => {
            let mut new_buff: Vec<u8> = Vec::new();
            append_all(&mut new_buff, image_buffer);
            (new_buff, PixelFormat::GrayscaleA)
        },
        PixelFormat::YCbCr => {
            let full: usize = len / 3;
            let mut new_buff: Vec<u8> = Vec::new();
            let mut i: usize = 0;
            proof {
                lemma_fundamental_div_mod(len as int, 3);
            }
            while i < full
                invariant
                    i <= full,
                    image_buffer@.len() == len,
                    full == len as int / 3,
                    3 * full <= len,
                    new_buff@.len() == i,
                    forall|k: int| 0 <= k < i ==> #[trigger] new_buff@[k] == image_buffer@[3 * k],
                decreases full - i,
            {
                new_buff.push(image_buffer[3 * i]);
                i += 1;
            }
            if len % 3 != 0 {
                proof {
                    lemma_fundamental_div_mod(len as int, 3);
                }
                new_buff.push(image_buffer[3 * full]);
                proof {
                    lemma_fundamental_div_mod_converse(
                        len as int + 2,
                        3,
                        full as int + 1,
                        len as int % 3 - 1,
                    );
                }
            } else {
                proof {
                    lemma_fundamental_div_mod(len as int, 3);
                    lemma_fundamental_div_mod_converse(len as int + 2, 3, full as int, 2);
                }
            }
            (new_buff, PixelFormat::Grayscale)
        },
    }
}

/// Appends every byte of `src` to `dst`, in order.
fn append_all(dst: &mut Vec<u8>, src: &Vec<u8>)
    ensures
        final(dst)@ == old(dst)@ + src@,
{
    let mut i: usize = 0;
    while i < src.len()
        invariant
            i <= src@.len(),
            dst@ == old(dst)@ + src@.subrange(0, i as int),
        decreases src@.len() - i,
    {
        dst.push(src[i]);
        proof {
            assert(old(dst)@ + src@.subrange(0, i as int) + seq![src@[i as int]] =~= old(dst)@
                + src@.subrange(0, i as int + 1));
        }
        i += 1;
    }
    proof {
        assert(src@.subrange(0, src@.len() as int) =~= src@);
    }
}

/// The source position in the original buffer of the byte at flat output
/// position `i` of a crop: output pixels are laid out row by row over the
/// crop window, and each source pixel sits at `(y * x1 + x) * ps`, with
/// `x1` serving as the row stride.
pub open spec fn crop_source_index(i: int, ps: int, x0: int, y0: int, x1: int) -> int {
    let pix = i / ps;
    let k = i % ps;
    let row = pix / (x1 - x0);
    let col = pix % (x1 - x0);
    ((row + y0) * x1 + (col + x0)) * ps + k
}

/// The buffer a crop produces.
pub open spec fn crop_spec(
    buf: Seq<u8>,
    pf: PixelFormat,
    x0: int,
    y0: int,
    x1: int,
    y1: int,
) -> Seq<u8> {
    let ps = pixel_size_spec(pf);
    Seq::new(
        ((y1 - y0) * (x1 - x0) * ps) as nat,
        |i: int| buf[crop_source_index(i, ps, x0, y0, x1)],
    )
}

/// The byte of the crop output at window position `y`, `x`, channel `k`
/// is the source byte of that pixel and channel.
pub proof fn lemma_crop_spec_at(
    buf: Seq<u8>,
    pf: PixelFormat,
    x0: int,
    y0: int,
    x1: int,
    y1: int,
    y: int,
    x: int,
    k: int,
)
    requires
        0 <= x0 <= x < x1,
        0 <= y0 <= y < y1,
        0 <= k < pixel_size_spec(pf),
        y1 * x1 * pixel_size_spec(pf) <= buf.len(),
    ensures
        ({
            let ps = pixel_size_spec(pf);
            let i = ((y - y0) * (x1 - x0) + (x - x0)) * ps + k;
            &&& 0 <= i < crop_spec(buf, pf, x0, y0, x1, y1).len()
            &&& crop_spec(buf, pf, x0, y0, x1, y1)[i] == buf[(y * x1 + x) * ps + k]
        }),
{
    let ps = pixel_size_spec(pf);
    let w = x1 - x0;
    let pix = (y - y0) * w + (x - x0);
    let i = pix * ps + k;
    assert(0 <= pix < (y1 - y0) * w) by (nonlinear_arith)
        requires
            0 <= x0 <= x < x1,
            0 <= y0 <= y < y1,
            w == x1 - x0,
            pix == (y - y0) * w + (x - x0),
    ;
    assert(0 <= i < (y1 - y0) * w * ps) by (nonlinear_arith)
        requires
            0 <= pix < (y1 - y0) * w,
            0 <= k < ps,
            i == pix * ps + k,
    ;
    lemma_fundamental_div_mod_converse(i, ps, pix, k);
    lemma_fundamental_div_mod_converse(pix, w, y - y0, x - x0);
    assert(0 <= (y * x1 + x) * ps + k < buf.len()) by (nonlinear_arith)
        requires
            0 <= x0 <= x < x1,
            0 <= y0 <= y < y1,
            0 <= k < ps,
            y1 * x1 * ps <= buf.len(),
    ;
}

/// Crops the window from `x0`, `y0` to `x1`, `y1` out of the buffer,
/// reading each source pixel at `(y * x1 + x) * ps`: the crop's right
/// edge `x1` serves as the row stride of the source.
pub fn crop(
    image_buffer: &Vec<u8>,
    pixel_format: PixelFormat,
    x0: u32,
    y0: u32,
    x1: u32,
    y1: u32,
) -> (r: Vec<u8>)
    requires
        x0 <= x1,
        y0 <= y1,
        x0 < x1 && y0 < y1 ==> (y1 as int) * (x1 as int) <= u32::MAX,
        x0 < x1 && y0 < y1 ==> (y1 as int) * (x1 as int) * pixel_size_spec(pixel_format)
            <= image_buffer@.len(),
    ensures
        r@ == crop_spec(
            image_buffer@,
            pixel_format,
            x0 as int,
            y0 as int,
            x1 as int,
            y1 as int,
        ),
{
    let ps = pixel_size(pixel_format);
    let ghost gps = pixel_size_spec(pixel_format);
    let ghost w = x1 as int - x0 as int;
    let ghost target = crop_spec(
        image_buffer@,
        pixel_format,
        x0 as int,
        y0 as int,
        x1 as int,
        y1 as int,
    );
    let buf_len: usize = image_buffer.len();
    let mut new_buff: Vec<u8> = Vec::new();
    if x0 == x1 || y0 == y1 {
        proof {
            assert(target.len() == ((y1 - y0) * (x1 - x0) * gps) as nat);
            assert((y1 - y0) * (x1 - x0) == 0) by (nonlinear_arith)
                requires
                    x0 == x1 || y0 == y1,
                    x0 <= x1,
                    y0 <= y1,
            ;
            assert(new_buff@ =~= target);
        }
        return new_buff;
    }
    let mut y: u32 = y0;
    while y < y1
        invariant
            y0 <= y <= y1,
            x0 < x1,
            y0 < y1,
            ps == gps,
            gps == pixel_size_spec(pixel_format),
            w == x1 - x0,
            (y1 as int) * (x1 as int) <= u32::MAX,
            (y1 as int) * (x1 as int) * gps <= image_buffer@.len(),
            buf_len == image_buffer@.len(),
            target == crop_spec(
                image_buffer@,
                pixel_format,
                x0 as int,
                y0 as int,
                x1 as int,
                y1 as int,
            ),
            new_buff@.len() == (y - y0) * w * gps,
            forall|i: int| 0 <= i < new_buff@.len() ==> #[trigger] new_buff@[i] == target[i],
        decreases y1 - y,
    {
        let mut x: u32 = x0;
        while x < x1
            invariant
                y0 <= y < y1,
                x0 <= x <= x1,
                x0 < x1,
                ps == gps,
                gps == pixel_size_spec(pixel_format),
                w == x1 - x0,
                (y1 as int) * (x1 as int) <= u32::MAX,
                (y1 as int) * (x1 as int) * gps <= image_buffer@.len(),
                buf_len == image_buffer@.len(),
                target == crop_spec(
                    image_buffer@,
                    pixel_format,
                    x0 as int,
                    y0 as int,
                    x1 as int,
                    y1 as int,
                ),
                new_buff@.len() == ((y - y0) * w + (x - x0)) * gps,
                forall|i: int| 0 <= i < new_buff@.len() ==> #[trigger] new_buff@[i] == target[i],
            decreases x1 - x,
        {
            proof {
                assert((y as int) * (x1 as int) + (x as int) < (y1 as int) * (x1 as int))
                    by (nonlinear_arith)
                    requires
                        y0 <= y < y1,
                        x0 <= x < x1,
                ;
                assert(((y as int) * (x1 as int) + (x as int)) * gps + gps <= (y1 as int) * (
                x1 as int) * gps) by (nonlinear_arith)
                    requires
                        (y as int) * (x1 as int) + (x as int) < (y1 as int) * (x1 as int),
                        1 <= gps,
                ;
            }
            let base: usize = ((y * x1 + x) as usize) * ps;
            let mut k: usize = 0;
            while k < ps
                invariant
                    0 <= k <= ps,
                    y0 <= y < y1,
                    x0 <= x < x1,
                    x0 < x1,
                    ps == gps,
                    gps == pixel_size_spec(pixel_format),
                    w == x1 - x0,
                    (y1 as int) * (x1 as int) <= u32::MAX,
                    (y1 as int) * (x1 as int) * gps <= image_buffer@.len(),
                    buf_len == image_buffer@.len(),
                    base == ((y as int) * (x1 as int) + (x as int)) * gps,
                    base + gps <= image_buffer@.len(),
                    target == crop_spec(
                        image_buffer@,
                        pixel_format,
                        x0 as int,
                        y0 as int,
                        x1 as int,
                        y1 as int,
                    ),
                    new_buff@.len() == ((y - y0) * w + (x - x0)) * gps + k,
                    forall|i: int| 0 <= i < new_buff@.len() ==> #[trigger] new_buff@[i] == target[i],
                decreases ps - k,
            {
                new_buff.push(image_buffer[base + k]);
                proof {
                    lemma_crop_spec_at(
                        image_buffer@,
                        pixel_format,
                        x0 as int,
                        y0 as int,
                        x1 as int,
                        y1 as int,
                        y as int,
                        x as int,
                        k as int,
                    );
                }
                k += 1;
            }
            x += 1;
            proof {
                assert(((y - y0) * w + (x - 1 - x0)) * gps + gps == ((y - y0) * w + (x - x0))
                    * gps) by (nonlinear_arith)
                    requires
                        w == x1 - x0,
                        x0 < x <= x1,
                ;
            }
        }
        y += 1;
        proof {
            assert(((y - 1 - y0) * w + (x1 - x0)) * gps == (y - y0) * w * gps) by (nonlinear_arith)
                requires
                    w == x1 - x0,
                    y0 < y <= y1,
            ;
        }
    }
    proof {
        assert(new_buff@.len() == (y1 - y0) * w * gps);
        assert(new_buff@ =~= target);
    }
    new_buff
}

/// Returns the buffer unchanged; the caller records the transposition by
/// swapping the image's stored width and height.
pub fn transpose(image_buffer: &Vec<u8>) -> (r: Vec<u8>)
    ensures
        r@ == image_buffer@,
{
    let mut new_buff: Vec<u8> = Vec::new();
    append_all(&mut new_buff, image_buffer);
    new_buff
}

} // verus!
