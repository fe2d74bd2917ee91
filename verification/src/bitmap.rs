use vstd::prelude::*;

verus! {

/// One pixel: red, green, blue and straight (not premultiplied) alpha.
#[derive(Copy, Clone, Debug, PartialEq, Eq, Structural)]
pub struct Rgba {
    pub r: u8,
    pub g: u8,
    pub b: u8,
    pub a: u8,
}

impl View for Rgba {
    type V = (u8, u8, u8, u8);

    open spec fn view(&self) -> (u8, u8, u8, u8) {
        (self.r, self.g, self.b, self.a)
    }
}

/// What `image::Pixel::blend` leaves in an `image::Rgba<u8>` background pixel
/// when the overlay is neither fully transparent nor fully opaque. The crate
/// computes it in single-precision floating point.
pub uninterp spec fn blend_channels(bg: (u8, u8, u8, u8), fg: (u8, u8, u8, u8)) -> (
    u8,
    u8,
    u8,
    u8,
);

/// The pixel that results from compositing `fg` over `bg`.
///
/// A fully transparent overlay leaves the background as it is, a fully opaque
/// one replaces it.
pub open spec fn over(bg: Rgba, fg: Rgba) -> Rgba {
    if fg.a == 0 {
        bg
    } else if fg.a == 255 {
        fg
    } else {
        let c = blend_channels(bg@, fg@);
        Rgba { r: c.0, g: c.1, b: c.2, a: c.3 }
    }
}

/// Calls `image::Pixel::blend` on two `image::Rgba<u8>` pixels.
///
/// Trusted: for an overlay alpha of 0 the crate returns before touching the
/// background, for 255 it copies the overlay, and in between the result is
/// whatever its arithmetic gives, which depends on the eight channel values
/// alone.
#[verifier::external_body]
fn blend_with_image_crate(bg: Rgba, fg: Rgba) -> (out: Rgba)
    ensures
        fg.a == 0 ==> out == bg,
        fg.a == 255 ==> out == fg,
        0 < fg.a < 255 ==> out@ == blend_channels(bg@, fg@),
{
    let mut pixel = image::Rgba([bg.r, bg.g, bg.b, bg.a]);
    image::Pixel::blend(&mut pixel, &image::Rgba([fg.r, fg.g, fg.b, fg.a]));
    Rgba { r: pixel.0[0], g: pixel.0[1], b: pixel.0[2], a: pixel.0[3] }
}

impl Rgba {
    /// Black with alpha 0, the content of a fresh image.
    pub open spec fn transparent() -> Rgba {
        Rgba { r: 0, g: 0, b: 0, a: 0 }
    }

    /// The same colour with another alpha.
    pub open spec fn with_alpha(self, a: u8) -> Rgba {
        Rgba { r: self.r, g: self.g, b: self.b, a }
    }

    pub fn new(r: u8, g: u8, b: u8, a: u8) -> (p: Rgba)
        ensures
            p == (Rgba { r, g, b, a }),
    {
        Rgba { r, g, b, a }
    }

    /// Composites `other` over this pixel, in place.
    pub fn blend(&mut self, other: &Rgba)
        ensures
            *final(self) == over(*old(self), *other),
            other.a == 0 ==> *final(self) == *old(self),
            other.a == 255 ==> *final(self) == *other,
    {
        *self = blend_with_image_crate(*self, *other);
    }
}

/// Blending a fully transparent pixel over any background changes nothing.
pub proof fn lemma_over_transparent(bg: Rgba, fg: Rgba)
    requires
        fg.a == 0,
    ensures
        over(bg, fg) == bg,
{
}

/// Blending a fully opaque pixel over any background gives that pixel.
pub proof fn lemma_over_opaque(bg: Rgba, fg: Rgba)
    requires
        fg.a == 255,
    ensures
        over(bg, fg) == fg,
{
}

/// The mathematical content of an image: `height` rows of `width` pixels.
pub struct Raster {
    pub width: nat,
    pub height: nat,
    pub rows: Seq<Seq<Rgba>>,
}

impl Raster {
    /// The raster whose pixel at `(x, y)` is `f(x, y)`.
    pub open spec fn build(width: nat, height: nat, f: spec_fn(int, int) -> Rgba) -> Raster {
        Raster { width, height, rows: Seq::new(height, |y: int| Seq::new(width, |x: int| f(x, y))) }
    }

    /// A raster of one colour.
    pub open spec fn filled(width: nat, height: nat, pixel: Rgba) -> Raster {
        Raster::build(width, height, |x: int, y: int| pixel)
    }

    /// Every row is there and has the full width.
    pub open spec fn wf(self) -> bool {
        &&& self.rows.len() == self.height
        &&& forall|y: int| 0 <= y < self.height ==> (#[trigger] self.rows[y]).len() == self.width
    }

    /// `(x, y)` is a coordinate of this raster.
    pub open spec fn contains(self, x: int, y: int) -> bool {
        0 <= x < self.width && 0 <= y < self.height
    }

    /// The pixel at column `x` of row `y`.
    pub open spec fn at(self, x: int, y: int) -> Rgba {
        self.rows[y][x]
    }

    /// The raster with the pixel at `(x, y)` replaced.
    pub open spec fn with_pixel(self, x: int, y: int, pixel: Rgba) -> Raster {
        Raster {
            width: self.width,
            height: self.height,
            rows: self.rows.update(y, self.rows[y].update(x, pixel)),
        }
    }

    /// The part of the raster that starts at `(x, y)` and is at most `width` by
    /// `height` large; what lies outside the raster is cut off.
    pub open spec fn cropped(self, x: nat, y: nat, width: nat, height: nat) -> Raster {
        let x0 = if x <= self.width { x } else { self.width };
        let y0 = if y <= self.height { y } else { self.height };
        let w = if width <= self.width - x0 { width } else { (self.width - x0) as nat };
        let h = if height <= self.height - y0 { height } else { (self.height - y0) as nat };
        Raster::build(w, h, |i: int, j: int| self.at(x0 + i, y0 + j))
    }
}

/// Two well-formed rasters of one size with the same pixels are the same.
pub proof fn lemma_raster_ext(a: Raster, b: Raster)
    requires
        a.wf(),
        b.wf(),
        a.width == b.width,
        a.height == b.height,
        forall|x: int, y: int| a.contains(x, y) ==> a.at(x, y) == b.at(x, y),
    ensures
        a == b,
{
    assert forall|y: int| 0 <= y < a.height implies a.rows[y] =~= b.rows[y] by {
        assert forall|x: int| 0 <= x < a.width implies a.rows[y][x] == b.rows[y][x] by {
            assert(a.contains(x, y));
            assert(a.at(x, y) == b.at(x, y));
        }
    }
    assert(a.rows =~= b.rows);
}

proof fn lemma_index_in_range(x: int, y: int, w: int, h: int)
    requires
        0 <= x < w,
        0 <= y < h,
    ensures
        0 <= y * w + x < w * h,
{
    assert(0 <= y * w) by (nonlinear_arith)
        requires
            0 <= y,
            0 <= w,
    ;
    assert(y * w + w <= h * w) by (nonlinear_arith)
        requires
            0 <= y < h,
            0 <= w,
    ;
    assert(h * w == w * h) by (nonlinear_arith);
}

proof fn lemma_index_injective(x1: int, y1: int, x2: int, y2: int, w: int)
    requires
        0 <= x1 < w,
        0 <= x2 < w,
        0 <= y1,
        0 <= y2,
        y1 * w + x1 == y2 * w + x2,
    ensures
        x1 == x2,
        y1 == y2,
{
    if y1 < y2 {
        assert(y1 * w + w <= y2 * w) by (nonlinear_arith)
            requires
                y1 < y2,
                0 <= w,
        ;
    }
    if y2 < y1 {
        assert(y2 * w + w <= y1 * w) by (nonlinear_arith)
            requires
                y2 < y1,
                0 <= w,
        ;
    }
}

/// The pixel that row-by-row storage of width `w` holds for `(x, y)`.
spec fn cell(data: Seq<Rgba>, w: int, x: int, y: int) -> Rgba {
    data[y * w + x]
}

/// Appending the next pixel of row `y` leaves what was stored untouched.
proof fn lemma_push_cell(data: Seq<Rgba>, pixel: Rgba, w: int, x: int, y: int)
    requires
        0 <= x < w,
        0 <= y,
        data.len() == y * w + x,
    ensures
        cell(data.push(pixel), w, x, y) == pixel,
        forall|i: int| 0 <= i < x ==> #[trigger] cell(data.push(pixel), w, i, y) == cell(data, w, i, y),
        forall|i: int, j: int|
            0 <= i < w && 0 <= j < y ==> #[trigger] cell(data.push(pixel), w, i, j) == cell(
                data,
                w,
                i,
                j,
            ),
{
    assert forall|i: int, j: int| 0 <= i < w && 0 <= j < y implies #[trigger] cell(
        data.push(pixel),
        w,
        i,
        j,
    ) == cell(data, w, i, j) by {
        lemma_index_in_range(i, j, w, y);
        assert(w * y == y * w) by (nonlinear_arith);
    }
}

/// A bitmap of `width` by `height` RGBA pixels, stored row by row.
#[derive(Debug)]
pub struct Image {
    width: u32,
    height: u32,
    data: Vec<Rgba>,
}

impl View for Image {
    type V = Raster;

    closed spec fn view(&self) -> Raster {
        Raster::build(
            self.width as nat,
            self.height as nat,
            |x: int, y: int| cell(self.data@, self.width as int, x, y),
        )
    }
}

impl Image {
    #[verifier::type_invariant]
    spec fn inv(&self) -> bool {
        self.data@.len() == self.width * self.height
    }

    /// The view of an image has all its rows, and its sizes fit `u32`.
    pub proof fn lemma_view_wf(&self)
        ensures
            self@.wf(),
            self@.width <= u32::MAX,
            self@.height <= u32::MAX,
    {
    }

    /// An image of the given size with every pixel transparent black.
    pub fn new(width: u32, height: u32) -> (img: Image)
        ensures
            img@ == Raster::filled(width as nat, height as nat, Rgba::transparent()),
    {
        Image::filled(width, height, Rgba { r: 0, g: 0, b: 0, a: 0 })
    }

    /// An image of the given size with every pixel equal to `pixel`.
    pub fn filled(width: u32, height: u32, pixel: Rgba) -> (img: Image)
        ensures
            img@ == Raster::filled(width as nat, height as nat, pixel),
    {
        let mut data: Vec<Rgba> = Vec::new();
        let mut y: u32 = 0;
        while y < height
            invariant
                y <= height,
                data@.len() == y * width,
                forall|i: int| 0 <= i < data@.len() ==> data@[i] == pixel,
            decreases height - y,
        {
            let mut x: u32 = 0;
            while x < width
                invariant
                    x <= width,
                    data@.len() == y * width + x,
                    forall|i: int| 0 <= i < data@.len() ==> data@[i] == pixel,
                decreases width - x,
            {
                data.push(pixel);
                x += 1;
            }
            assert((y + 1) * width == y * width + width) by (nonlinear_arith);
            y += 1;
        }
        assert(height * width == width * height) by (nonlinear_arith);
        let img = Image { width, height, data };
        proof {
            let want = Raster::filled(width as nat, height as nat, pixel);
            assert forall|j: int| 0 <= j < height implies img@.rows[j] =~= want.rows[j] by {
                assert forall|i: int| 0 <= i < width implies img@.rows[j][i] == pixel by {
                    lemma_index_in_range(i, j, width as int, height as int);
                }
            }
            assert(img@.rows =~= want.rows);
        }
        img
    }

    /// The number of columns.
    pub fn width(&self) -> (w: u32)
        ensures
            w == self@.width,
    {
        self.width
    }

    /// The number of rows.
    pub fn height(&self) -> (h: u32)
        ensures
            h == self@.height,
    {
        self.height
    }

    /// The pixel at column `x` of row `y`.
    pub fn get_pixel(&self, x: u32, y: u32) -> (pixel: Rgba)
        requires
            self@.contains(x as int, y as int),
        ensures
            pixel == self@.at(x as int, y as int),
    {
        proof {
            use_type_invariant(self);
            lemma_index_in_range(x as int, y as int, self.width as int, self.height as int);
        }
        let _len: usize = self.data.len();
        let index: usize = (y as usize) * (self.width as usize) + (x as usize);
        self.data[index]
    }

    /// Replaces the pixel at column `x` of row `y`.
    pub fn put_pixel(&mut self, x: u32, y: u32, pixel: Rgba)
        requires
            old(self)@.contains(x as int, y as int),
        ensures
            final(self)@ == old(self)@.with_pixel(x as int, y as int, pixel),
    {
        proof {
            use_type_invariant(&*self);
            lemma_index_in_range(x as int, y as int, self.width as int, self.height as int);
        }
        let _len: usize = self.data.len();
        let index: usize = (y as usize) * (self.width as usize) + (x as usize);
        self.data[index] = pixel;
        proof {
            let before = old(self)@;
            let want = before.with_pixel(x as int, y as int, pixel);
            let w = self.width as int;
            assert forall|j: int| 0 <= j < self.height implies self@.rows[j] =~= want.rows[j] by {
                assert forall|i: int| 0 <= i < w implies self@.rows[j][i] == want.rows[j][i] by {
                    lemma_index_in_range(i, j, w, self.height as int);
                    if j * w + i == y * w + x {
                        lemma_index_injective(i, j, x as int, y as int, w);
                    }
                }
            }
            assert(self@.rows =~= want.rows);
        }
    }

    /// A copy of the part of the image that starts at `(x, y)` and is at most
    /// `width` by `height` large. What lies outside the image is cut off, so
    /// the copy may be smaller than asked for.
    pub fn crop(&self, x: u32, y: u32, width: u32, height: u32) -> (img: Image)
        ensures
            img@ == self@.cropped(x as nat, y as nat, width as nat, height as nat),
    {
        let x0: u32 = if x <= self.width { x } else { self.width };
        let y0: u32 = if y <= self.height { y } else { self.height };
        let w: u32 = if width <= self.width - x0 { width } else { self.width - x0 };
        let h: u32 = if height <= self.height - y0 { height } else { self.height - y0 };
        let mut data: Vec<Rgba> = Vec::new();
        let mut j: u32 = 0;
        while j < h
            invariant
                j <= h,
                x0 + w <= self.width,
                y0 + h <= self.height,
                data@.len() == j * w,
                forall|i2: int, j2: int|
                    0 <= i2 < w && 0 <= j2 < j ==> #[trigger] cell(data@, w as int, i2, j2)
                        == self@.at(x0 + i2, y0 + j2),
            decreases h - j,
        {
            let mut i: u32 = 0;
            while i < w
                invariant
                    i <= w,
                    j < h,
                    x0 + w <= self.width,
                    y0 + h <= self.height,
                    data@.len() == j * w + i,
                    forall|i2: int, j2: int|
                        0 <= i2 < w && 0 <= j2 < j ==> #[trigger] cell(data@, w as int, i2, j2)
                            == self@.at(x0 + i2, y0 + j2),
                    forall|i2: int|
                        0 <= i2 < i ==> #[trigger] cell(data@, w as int, i2, j as int) == self@.at(
                            x0 + i2,
                            y0 + j,
                        ),
                decreases w - i,
            {
                let pixel = self.get_pixel(x0 + i, y0 + j);
                proof {
                    lemma_push_cell(data@, pixel, w as int, i as int, j as int);
                }
                data.push(pixel);
                i += 1;
            }
            assert((j + 1) * w == j * w + w) by (nonlinear_arith);
            j += 1;
        }
        assert(h * w == w * h) by (nonlinear_arith);
        let img = Image { width: w, height: h, data };
        proof {
            let want = self@.cropped(x as nat, y as nat, width as nat, height as nat);
            assert(want.width == w && want.height == h);
            assert forall|j2: int| 0 <= j2 < h implies img@.rows[j2] =~= want.rows[j2] by {
                assert forall|i2: int| 0 <= i2 < w implies img@.rows[j2][i2] == want.rows[j2][i2] by {
                    assert(cell(data@, w as int, i2, j2) == self@.at(x0 + i2, y0 + j2));
                }
            }
            assert(img@.rows =~= want.rows);
        }
        img
    }
}

impl Clone for Image {
    fn clone(&self) -> (img: Image)
        ensures
            img@ == self@,
    {
        let mut data: Vec<Rgba> = Vec::new();
        let n: usize = self.data.len();
        let mut i: usize = 0;
        while i < n
            invariant
                i <= n,
                n == self.data@.len(),
                data@ == self.data@.subrange(0, i as int),
            decreases n - i,
        {
            data.push(self.data[i]);
            i += 1;
            assert(data@ =~= self.data@.subrange(0, i as int));
        }
        assert(data@ =~= self.data@);
        proof {
            use_type_invariant(self);
        }
        let img = Image { width: self.width, height: self.height, data };
        assert(img@.rows =~~= self@.rows);
        img
    }
}

} // verus!
