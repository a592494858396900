use vstd::prelude::*;

verus! {

/// An owned, in-memory image: RGBA pixels in row-major order, one `u32` per
/// pixel holding the R, G, B, A bytes from least to most significant.
#[derive(Debug, Clone)]
pub struct Image {
    pub width: u32,
    pub height: u32,
    pub pixels: Vec<u32>,
}

impl Image {
    /// The pixel buffer holds exactly width times height pixels.
    pub open spec fn wf(self) -> bool {
        self.pixels@.len() == self.width * self.height
    }
}

/// Pixel (x, y) of a row-major pixel sequence with row length `w`.
pub open spec fn px(s: Seq<u32>, w: int, x: int, y: int) -> u32 {
    s[y * w + x]
}

/// A row-major index decomposes back into its row and column.
pub proof fn lemma_row_major(w: int, x: int, y: int)
    requires
        0 < w,
        0 <= x < w,
        0 <= y,
    ensures
        (y * w + x) / w == y,
        (y * w + x) % w == x,
        0 <= y * w + x,
{
    vstd::arithmetic::div_mod::lemma_fundamental_div_mod_converse_div(y * w + x, w, y, x);
    vstd::arithmetic::div_mod::lemma_fundamental_div_mod_converse_mod(y * w + x, w, y, x);
    vstd::arithmetic::mul::lemma_mul_nonnegative(y, w);
}

/// A flat index below `w * h` lies in row `j / w`, column `j % w`, and both
/// are in bounds.
pub proof fn lemma_flat_coords(w: int, h: int, j: int)
    requires
        0 < w,
        0 <= h,
        0 <= j < w * h,
    ensures
        0 <= j % w < w,
        0 <= j / w < h,
        j == (j / w) * w + j % w,
{
    vstd::arithmetic::div_mod::lemma_mod_bound(j, w);
    vstd::arithmetic::div_mod::lemma_fundamental_div_mod(j, w);
    vstd::arithmetic::mul::lemma_mul_is_commutative(w, j / w);
    assert(j == (j / w) * w + j % w);
    assert(0 <= j / w) by (nonlinear_arith)
        requires
            0 < w,
            0 <= j,
    ;
    assert(j / w < h) by (nonlinear_arith)
        requires
            0 < w,
            j < w * h,
            j == (j / w) * w + j % w,
            0 <= j % w,
    ;
}

/// A rotation or flip of a pixel grid.
#[derive(Clone, Copy, Debug, PartialEq, Eq, Structural)]
pub enum RotOp {
    /// Quarter turn clockwise.
    Rot90,
    /// Half turn.
    Rot180,
    /// Quarter turn counter-clockwise.
    Rot270,
    /// Mirror around the vertical axis.
    FlipH,
    /// Mirror around the horizontal axis.
    FlipV,
}

/// The operation exchanges the grid's axes.
pub open spec fn op_swaps(op: RotOp) -> bool {
    op == RotOp::Rot90 || op == RotOp::Rot270
}

/// Source column that destination pixel (x, y) reads, for a source grid of
/// `w` by `h` pixels.
pub open spec fn op_src_x(op: RotOp, w: int, h: int, x: int, y: int) -> int {
    match op {
        RotOp::Rot90 => y,
        RotOp::Rot180 => w - 1 - x,
        RotOp::Rot270 => w - 1 - y,
        RotOp::FlipH => w - 1 - x,
        RotOp::FlipV => x,
    }
}

/// Source row that destination pixel (x, y) reads, for a source grid of `w`
/// by `h` pixels.
pub open spec fn op_src_y(op: RotOp, w: int, h: int, x: int, y: int) -> int {
    match op {
        RotOp::Rot90 => h - 1 - x,
        RotOp::Rot180 => h - 1 - y,
        RotOp::Rot270 => x,
        RotOp::FlipH => y,
        RotOp::FlipV => h - 1 - y,
    }
}

/// The rotated or flipped pixel grid, row-major.
pub open spec fn rotated(s: Seq<u32>, w: int, h: int, op: RotOp) -> Seq<u32> {
    let nw = if op_swaps(op) {
        h
    } else {
        w
    };
    Seq::new(
        (w * h) as nat,
        |j: int| px(s, w, op_src_x(op, w, h, j % nw, j / nw), op_src_y(op, w, h, j % nw, j / nw)),
    )
}

/// Apply a rotation or flip to an image.
#[verifier::loop_isolation(false)]
pub fn rotate_image(img: &Image, op: RotOp) -> (r: Image)
    requires
        img.wf(),
    ensures
        r.wf(),
        r.width == (if op_swaps(op) {
            img.height
        } else {
            img.width
        }),
        r.height == (if op_swaps(op) {
            img.width
        } else {
            img.height
        }),
        r.pixels@ == rotated(img.pixels@, img.width as int, img.height as int, op),
{
    let w = img.width;
    let h = img.height;
    let swaps = match op {
        RotOp::Rot90 | RotOp::Rot270 => true,
        _ => false,
    };
    let nw = if swaps {
        h
    } else {
        w
    };
    let nh = if swaps {
        w
    } else {
        h
    };
    let total = img.pixels.len();
    let ghost canon = rotated(img.pixels@, w as int, h as int, op);
    proof {
        vstd::arithmetic::mul::lemma_mul_is_commutative(h as int, w as int);
        vstd::arithmetic::mul::lemma_mul_is_commutative(nh as int, nw as int);
        assert(nw * nh == w * h);
    }
    let mut pixels: Vec<u32> = Vec::new();
    let mut y: u32 = 0;
    while y < nh
        invariant
            img.wf(),
            w == img.width,
            h == img.height,
            nw as int == if op_swaps(op) { h as int } else { w as int },
            nh as int == if op_swaps(op) { w as int } else { h as int },
            nw * nh == w * h,
            canon == rotated(img.pixels@, w as int, h as int, op),
            canon.len() == w * h,
            0 <= y <= nh,
            pixels@.len() == y * nw,
            pixels@ =~= canon.subrange(0, (y * nw) as int),
        decreases nh - y,
    {
        let mut x: u32 = 0;
        proof {
            vstd::arithmetic::mul::lemma_mul_upper_bound(
                y as int,
                nh as int - 1,
                nw as int,
                nw as int,
            );
            assert((nh as int - 1) * nw as int + nw as int == nh as int * nw as int)
                by (nonlinear_arith);
            assert(nh as int * nw as int == nw as int * nh as int) by (nonlinear_arith);
        }
        while x < nw
            invariant
                img.wf(),
                w == img.width,
                h == img.height,
                nw as int == if op_swaps(op) { h as int } else { w as int },
                nh as int == if op_swaps(op) { w as int } else { h as int },
                nw * nh == w * h,
                canon == rotated(img.pixels@, w as int, h as int, op),
                canon.len() == w * h,
                0 <= y < nh,
                0 <= x <= nw,
                y * nw + nw <= nw * nh,
                pixels@.len() == y * nw + x,
                pixels@ =~= canon.subrange(0, (y * nw + x) as int),
            decreases nw - x,
        {
            let sx: u32;
            let sy: u32;
            match op {
                RotOp::Rot90 => {
                    sx = y;
                    sy = h - 1 - x;
                },
                RotOp::Rot180 => {
                    sx = w - 1 - x;
                    sy = h - 1 - y;
                },
                RotOp::Rot270 => {
                    sx = w - 1 - y;
                    sy = x;
                },
                RotOp::FlipH => {
                    sx = w - 1 - x;
                    sy = y;
                },
                RotOp::FlipV => {
                    sx = x;
                    sy = h - 1 - y;
                },
            }
            proof {
                assert(sx < w && sy < h);
                assert(sy * w + sx < w * h) by (nonlinear_arith)
                    requires
                        0 <= sx < w,
                        0 <= sy < h,
                ;
                vstd::arithmetic::mul::lemma_mul_nonnegative(sy as int, w as int);
            }
            let idx: usize = sy as usize * w as usize + sx as usize;
            let v = img.pixels[idx];
            pixels.push(v);
            proof {
                let l = (y * nw + x) as int;
                lemma_row_major(nw as int, x as int, y as int);
                assert(canon[l] == v);
                assert(pixels@ =~= canon.subrange(0, l + 1));
            }
            x = x + 1;
        }
        proof {
            assert((y as int + 1) * nw as int == y as int * nw as int + nw as int)
                by (nonlinear_arith);
        }
        y = y + 1;
    }
    proof {
        assert(pixels@ =~= canon);
    }
    Image { width: nw, height: nh, pixels }
}

/// Pixel value of the byte quadruple at group `i`: R, G, B, A bytes from
/// least to most significant.
pub open spec fn pixel_from_bytes(s: Seq<u8>, i: int) -> u32 {
    (s[4 * i] as u32) | ((s[4 * i + 1] as u32) << 8u32) | ((s[4 * i + 2] as u32) << 16u32) | (
    (s[4 * i + 3] as u32) << 24u32)
}

/// The pixel grid an RGBA byte buffer decodes to.
pub open spec fn decoded(s: Seq<u8>, n: int) -> Seq<u32> {
    Seq::new(n as nat, |i: int| pixel_from_bytes(s, i))
}

/// Decode an RGBA byte buffer of the given dimensions into an image.
#[verifier::loop_isolation(false)]
pub fn image_from_rgba(width: u32, height: u32, data: &Vec<u8>) -> (r: Image)
    requires
        data@.len() == 4 * (width * height),
    ensures
        r.wf(),
        r.width == width,
        r.height == height,
        r.pixels@ == decoded(data@, (width * height) as int),
{
    let ghost n_int = (width as int) * (height as int);
    let n: usize = data.len() / 4;
    proof {
        assert(data@.len() as int == 4 * n_int);
        vstd::arithmetic::div_mod::lemma_fundamental_div_mod_converse_div(4 * n_int, 4, n_int, 0);
        assert(n_int == 4 * n_int / 4);
    }
    let ghost canon = decoded(data@, n_int);
    let mut pixels: Vec<u32> = Vec::new();
    let mut i: usize = 0;
    while i < n
        invariant
            data@.len() == 4 * n,
            n == n_int,
            canon == decoded(data@, n_int),
            canon.len() == n,
            0 <= i <= n,
            pixels@.len() == i,
            pixels@ =~= canon.subrange(0, i as int),
        decreases n - i,
    {
        let b0 = data[4 * i];
        let b1 = data[4 * i + 1];
        let b2 = data[4 * i + 2];
        let b3 = data[4 * i + 3];
        let v: u32 = (b0 as u32) | ((b1 as u32) << 8u32) | ((b2 as u32) << 16u32) | ((
        b3 as u32) << 24u32);
        pixels.push(v);
        proof {
            assert(canon[i as int] == v);
            assert(pixels@ =~= canon.subrange(0, i as int + 1));
        }
        i = i + 1;
    }
    proof {
        assert(pixels@ =~= canon);
    }
    Image { width, height, pixels }
}

/// Byte `k` (0 = R .. 3 = A) of a packed pixel.
pub open spec fn pixel_byte(p: u32, k: int) -> u8 {
    if k == 0 {
        (p & 0xffu32) as u8
    } else if k == 1 {
        ((p >> 8u32) & 0xffu32) as u8
    } else if k == 2 {
        ((p >> 16u32) & 0xffu32) as u8
    } else {
        ((p >> 24u32) & 0xffu32) as u8
    }
}

/// Encode an image's pixels back into an RGBA byte buffer, row-major.
#[verifier::loop_isolation(false)]
pub fn image_to_rgba(img: &Image) -> (r: Vec<u8>)
    requires
        img.wf(),
        4 * (img.width * img.height) <= usize::MAX,
    ensures
        r@.len() == 4 * (img.width * img.height),
        forall|i: int, k: int|
            0 <= i < img.width * img.height && 0 <= k < 4 ==> r@[4 * i + k] == #[trigger] pixel_byte(
                img.pixels@[i],
                k,
            ),
{
    let n: usize = img.pixels.len();
    let mut bytes: Vec<u8> = Vec::new();
    let mut i: usize = 0;
    while i < n
        invariant
            img.wf(),
            n == img.pixels@.len(),
            4 * n <= usize::MAX,
            0 <= i <= n,
            bytes@.len() == 4 * i,
            forall|i2: int, k: int|
                0 <= i2 < i && 0 <= k < 4 ==> bytes@[4 * i2 + k] == #[trigger] pixel_byte(
                    img.pixels@[i2],
                    k,
                ),
        decreases n - i,
    {
        let p = img.pixels[i];
        bytes.push((p & 0xff) as u8);
        bytes.push(((p >> 8u32) & 0xff) as u8);
        bytes.push(((p >> 16u32) & 0xff) as u8);
        bytes.push(((p >> 24u32) & 0xff) as u8);
        i = i + 1;
    }
    bytes
}

/// What the sampling resize of an RGBA pixel grid returns; a function of the
/// source pixels and the two dimension pairs alone.
pub uninterp spec fn resized(s: Seq<u32>, w: int, h: int, nw: int, nh: int) -> Seq<u32>;

/// Relies on image::imageops::resize: the result is an image of exactly the
/// requested dimensions, computed from the source pixels alone. The resampler
/// works in two passes and first allocates an intermediate buffer of the
/// source width by the target height, whose length check panics on overflow;
/// the third size bound keeps that buffer representable too.
#[verifier::external_body]
fn resize_pixels(pixels: &Vec<u32>, w: u32, h: u32, nw: u32, nh: u32) -> (r: Vec<u32>)
    requires
        pixels@.len() == w * h,
        0 < w,
        0 < h,
        0 < nw,
        0 < nh,
        4 * ((w * h) as int) <= usize::MAX,
        4 * ((nw * nh) as int) <= usize::MAX,
        4 * ((w as int) * (nh as int)) <= usize::MAX,
    ensures
        r@.len() == nw * nh,
        r@ == resized(pixels@, w as int, h as int, nw as int, nh as int),
{
    let mut bytes: Vec<u8> = Vec::with_capacity(pixels.len() * 4);
    for p in pixels.iter() {
        bytes.extend_from_slice(&p.to_le_bytes());
    }
    let buf = image::RgbaImage::from_raw(w, h, bytes).expect("buffer length matches dimensions");
    let out = image::imageops::resize(&buf, nw, nh, image::imageops::FilterType::Nearest);
    out.into_raw().chunks_exact(4).map(|c| u32::from_le_bytes([c[0], c[1], c[2], c[3]])).collect()
}

/// Resize an image to the given dimensions with the sampling resizer. The
/// last size bound covers the resampler's intermediate source-width by
/// target-height buffer.
pub fn resize_image(img: &Image, nw: u32, nh: u32) -> (r: Image)
    requires
        img.wf(),
        0 < img.width,
        0 < img.height,
        0 < nw,
        0 < nh,
        4 * ((img.width * img.height) as int) <= usize::MAX,
        4 * ((nw * nh) as int) <= usize::MAX,
        4 * ((img.width as int) * (nh as int)) <= usize::MAX,
    ensures
        r.wf(),
        r.width == nw,
        r.height == nh,
        r.pixels@ == resized(img.pixels@, img.width as int, img.height as int, nw as int, nh as int),
{
    let pixels = resize_pixels(&img.pixels, img.width, img.height, nw, nh);
    Image { width: nw, height: nh, pixels }
}

/// The value of canvas pixel (x, y) after `img` (of `iw` by `ih` pixels) is
/// laid over a canvas of row length `cw` at offset (ox, oy), overwriting
/// where it lands and clipped at the canvas edges.
pub open spec fn placed_px(
    canvas: Seq<u32>,
    cw: int,
    img: Seq<u32>,
    iw: int,
    ih: int,
    ox: int,
    oy: int,
    x: int,
    y: int,
) -> u32 {
    if ox <= x < ox + iw && oy <= y < oy + ih {
        px(img, iw, x - ox, y - oy)
    } else {
        px(canvas, cw, x, y)
    }
}

/// The canvas after `img` is laid over it at offset (ox, oy).
pub open spec fn placed(
    canvas: Seq<u32>,
    cw: int,
    ch: int,
    img: Seq<u32>,
    iw: int,
    ih: int,
    ox: int,
    oy: int,
) -> Seq<u32> {
    Seq::new(
        (cw * ch) as nat,
        |j: int| placed_px(canvas, cw, img, iw, ih, ox, oy, j % cw, j / cw),
    )
}

/// Lay `img` over a copy of `canvas` at offset (ox, oy), overwriting the
/// covered pixels and clipping whatever falls outside the canvas.
#[verifier::loop_isolation(false)]
pub fn place_image(canvas: &Image, img: &Image, ox: i64, oy: i64) -> (r: Image)
    requires
        canvas.wf(),
        img.wf(),
        -0x7fff_ffff_0000_0000 <= ox <= 0x7fff_ffff_0000_0000,
        -0x7fff_ffff_0000_0000 <= oy <= 0x7fff_ffff_0000_0000,
    ensures
        r.wf(),
        r.width == canvas.width,
        r.height == canvas.height,
        r.pixels@ == placed(
            canvas.pixels@,
            canvas.width as int,
            canvas.height as int,
            img.pixels@,
            img.width as int,
            img.height as int,
            ox as int,
            oy as int,
        ),
{
    let cw = canvas.width;
    let ch = canvas.height;
    let iw = img.width;
    let ih = img.height;
    let canvas_total = canvas.pixels.len();
    let img_total = img.pixels.len();
    let ghost canon = placed(
        canvas.pixels@,
        cw as int,
        ch as int,
        img.pixels@,
        iw as int,
        ih as int,
        ox as int,
        oy as int,
    );
    let mut pixels: Vec<u32> = Vec::new();
    let mut y: u32 = 0;
    while y < ch
        invariant
            canvas.wf(),
            img.wf(),
            cw == canvas.width,
            ch == canvas.height,
            iw == img.width,
            ih == img.height,
            -0x7fff_ffff_0000_0000 <= ox <= 0x7fff_ffff_0000_0000,
            -0x7fff_ffff_0000_0000 <= oy <= 0x7fff_ffff_0000_0000,
            canon == placed(
                canvas.pixels@,
                cw as int,
                ch as int,
                img.pixels@,
                iw as int,
                ih as int,
                ox as int,
                oy as int,
            ),
            canon.len() == cw * ch,
            0 <= y <= ch,
            pixels@.len() == y * cw,
            pixels@ =~= canon.subrange(0, (y * cw) as int),
        decreases ch - y,
    {
        proof {
            vstd::arithmetic::mul::lemma_mul_upper_bound(
                y as int,
                ch as int - 1,
                cw as int,
                cw as int,
            );
            assert((ch as int - 1) * cw as int + cw as int == ch as int * cw as int)
                by (nonlinear_arith);
            assert(ch as int * cw as int == cw as int * ch as int) by (nonlinear_arith);
        }
        let mut x: u32 = 0;
        while x < cw
            invariant
                canvas.wf(),
                img.wf(),
                cw == canvas.width,
                ch == canvas.height,
                iw == img.width,
                ih == img.height,
                -0x7fff_ffff_0000_0000 <= ox <= 0x7fff_ffff_0000_0000,
                -0x7fff_ffff_0000_0000 <= oy <= 0x7fff_ffff_0000_0000,
                canon == placed(
                    canvas.pixels@,
                    cw as int,
                    ch as int,
                    img.pixels@,
                    iw as int,
                    ih as int,
                    ox as int,
                    oy as int,
                ),
                canon.len() == cw * ch,
                0 <= y < ch,
                0 <= x <= cw,
                y * cw + cw <= cw * ch,
                pixels@.len() == y * cw + x,
                pixels@ =~= canon.subrange(0, (y * cw + x) as int),
            decreases cw - x,
        {
            let xi = x as i64;
            let yi = y as i64;
            let in_img = xi >= ox && xi - ox < iw as i64 && yi >= oy && yi - oy < ih as i64;
            let v: u32;
            if in_img {
                let sx = (xi - ox) as u64 as usize;
                let sy = (yi - oy) as u64 as usize;
                proof {
                    assert(sy * iw < iw * ih) by (nonlinear_arith)
                        requires
                            0 <= sy < ih as int,
                            0 < iw as int,
                            sy == yi - oy,
                    ;
                    vstd::arithmetic::mul::lemma_mul_nonnegative(sy as int, iw as int);
                    assert((sy as int * iw as int + sx as int) < iw as int * ih as int)
                        by (nonlinear_arith)
                        requires
                            0 <= sx < iw as int,
                            0 <= sy < ih as int,
                            0 < iw as int,
                    ;
                }
                v = img.pixels[sy * iw as usize + sx];
            } else {
                proof {
                    assert((y as int * cw as int + x as int) < cw as int * ch as int)
                        by (nonlinear_arith)
                        requires
                            0 <= x < cw as int,
                            0 <= y < ch as int,
                            0 < cw as int,
                    ;
                    vstd::arithmetic::mul::lemma_mul_nonnegative(y as int, cw as int);
                }
                v = canvas.pixels[y as usize * cw as usize + x as usize];
            }
            pixels.push(v);
            proof {
                let l = (y * cw + x) as int;
                lemma_row_major(cw as int, x as int, y as int);
                assert(canon[l] == placed_px(
                    canvas.pixels@,
                    cw as int,
                    img.pixels@,
                    iw as int,
                    ih as int,
                    ox as int,
                    oy as int,
                    x as int,
                    y as int,
                ));
                assert(canon[l] == v);
                assert(pixels@ =~= canon.subrange(0, l + 1));
            }
            x = x + 1;
        }
        proof {
            assert((y as int + 1) * cw as int == y as int * cw as int + cw as int)
                by (nonlinear_arith);
        }
        y = y + 1;
    }
    proof {
        assert(pixels@ =~= canon);
    }
    Image { width: cw, height: ch, pixels }
}

/// A fully transparent canvas: every pixel zero.
pub open spec fn zeros(n: int) -> Seq<u32> {
    Seq::new(n as nat, |j: int| 0u32)
}

/// Allocate a transparent canvas of the given dimensions.
#[verifier::loop_isolation(false)]
pub fn new_canvas(width: u32, height: u32) -> (r: Image)
    requires
        width * height <= usize::MAX,
    ensures
        r.wf(),
        r.width == width,
        r.height == height,
        r.pixels@ == zeros((width * height) as int),
{
    proof {
        vstd::arithmetic::mul::lemma_mul_upper_bound(
            width as int,
            u32::MAX as int,
            height as int,
            u32::MAX as int,
        );
    }
    let n: usize = (width as u64 * height as u64) as usize;
    let mut pixels: Vec<u32> = Vec::new();
    let mut i: usize = 0;
    while i < n
        invariant
            n == width * height,
            0 <= i <= n,
            pixels@.len() == i,
            forall|j: int| 0 <= j < i ==> pixels@[j] == 0u32,
        decreases n - i,
    {
        pixels.push(0);
        i = i + 1;
    }
    proof {
        assert(pixels@ =~= zeros((width * height) as int));
    }
    Image { width, height, pixels }
}

} // verus!
