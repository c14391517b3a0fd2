//! Fitting a decoded image onto an output: resampling, centering on a
//! canvas of the output's size, and conversion to the wire byte order.

use vstd::prelude::*;

verus! {

broadcast use vstd::arithmetic::div_mod::lemma_multiply_divide_lt,
    vstd::arithmetic::div_mod::lemma_multiply_divide_le;

/// Why an image could not be shown.
#[derive(PartialEq, Eq, Structural, Clone, Copy, Debug)]
pub enum BackgroundImageError {
    ImageOpenError,
    ImageDecodeError,
}

impl BackgroundImageError {
    /// A human-readable description.
    pub fn message(&self) -> (r: &'static str)
        ensures
            *self == BackgroundImageError::ImageOpenError ==> r@ == "Error when opening image file"@,
            *self == BackgroundImageError::ImageDecodeError ==> r@
                == "Error when decoding image file"@,
    {
        match self {
            BackgroundImageError::ImageOpenError => "Error when opening image file",
            BackgroundImageError::ImageDecodeError => "Error when decoding image file",
        }
    }
}

/// A decoded image: `width * height` pixels of R, G, B, A bytes, row-major.
pub struct RgbaBuffer {
    pub width: u32,
    pub height: u32,
    pub data: Vec<u8>,
}

impl RgbaBuffer {
    pub open spec fn wf(&self) -> bool {
        self.data@.len() == self.width * self.height * 4
    }
}

/// What `image::imageops::resize` with the Lanczos3 filter makes of an RGBA
/// image of `width` x `height` at `new_width` x `new_height`.
pub uninterp spec fn lanczos3_of(
    data: Seq<u8>,
    width: u32,
    height: u32,
    new_width: u32,
    new_height: u32,
) -> Seq<u8>;

/// What `image::imageops::overlay` makes of a transparent canvas of
/// `canvas_width` x `canvas_height` with an RGBA image of `width` x `height`
/// placed at (`x`, `y`).
pub uninterp spec fn overlay_of(
    top: Seq<u8>,
    width: u32,
    height: u32,
    canvas_width: u32,
    canvas_height: u32,
    x: i64,
    y: i64,
) -> Seq<u8>;

/// Relies on `image::RgbaImage::from_raw` and `image::imageops::resize`
/// (Lanczos3): the result is `new_width` x `new_height` RGBA pixels.
#[verifier::external_body]
fn resize_lanczos3(data: Vec<u8>, width: u32, height: u32, new_width: u32, new_height: u32) -> (r:
    Vec<u8>)
    requires
        data@.len() == width * height * 4,
        width * new_height * 16 <= isize::MAX,
        new_width * new_height * 4 <= isize::MAX,
    ensures
        r@ == lanczos3_of(data@, width, height, new_width, new_height),
        r@.len() == new_width * new_height * 4,
{
    let image = image::RgbaImage::from_raw(width, height, data).unwrap();
    image::imageops::resize(&image, new_width, new_height, image::imageops::FilterType::Lanczos3)
        .into_raw()
}

/// Relies on `image::RgbaImage::new` (every byte zero) and
/// `image::imageops::overlay`, which blends only the canvas pixels that the
/// placed image covers; blending an opaque pixel replaces the canvas pixel.
#[verifier::external_body]
fn overlay_on_blank(
    top: Vec<u8>,
    width: u32,
    height: u32,
    canvas_width: u32,
    canvas_height: u32,
    x: i64,
    y: i64,
) -> (r: Vec<u8>)
    requires
        top@.len() == width * height * 4,
        canvas_width * canvas_height * 4 <= isize::MAX,
    ensures
        r@ == overlay_of(top@, width, height, canvas_width, canvas_height, x, y),
        r@.len() == canvas_width * canvas_height * 4,
        forall|px: int, py: int, c: int|
            0 <= px < canvas_width && 0 <= py < canvas_height && 0 <= c < 4 && !(x <= px < x
                + width && y <= py < y + height) ==> #[trigger] r@[(py * canvas_width + px) * 4
                + c] == 0,
        forall|px: int, py: int, c: int|
            0 <= px < canvas_width && 0 <= py < canvas_height && 0 <= c < 4 && x <= px < x + width
                && y <= py < y + height && top@[((py - y) * width + (px - x)) * 4 + 3] == 255
                ==> #[trigger] r@[(py * canvas_width + px) * 4 + c] == top@[((py - y) * width + (
            px - x)) * 4 + c],
{
    let top = image::RgbaImage::from_raw(width, height, top).unwrap();
    let mut canvas = image::RgbaImage::new(canvas_width, canvas_height);
    image::imageops::overlay(&mut canvas, &top, x, y);
    canvas.into_raw()
}

/// The size an image of `w` x `h` is resampled to for a `tw` x `th` target:
/// the axis with the larger reduction ratio is set to the target and the
/// other is scaled by the same ratio, rounded down; equal ratios give the
/// target size; an image that fits on both axes keeps its size.
pub open spec fn fitted_size(w: u32, h: u32, tw: u32, th: u32) -> (u32, u32) {
    let wa = w > tw;
    let ha = h > th;
    if wa && (!ha || w * th > h * tw) {
        (tw, ((h * tw) / (w as int)) as u32)
    } else if ha && (!wa || h * tw > w * th) {
        (((w * th) / (h as int)) as u32, th)
    } else if wa && ha {
        (tw, th)
    } else {
        (w, h)
    }
}

/// Where an extent of `size` starts when centered in `target`.
pub open spec fn centered(target: u32, size: u32) -> i64 {
    if size < target {
        ((target - size) / 2) as i64
    } else {
        0
    }
}

/// The image after the resampling step: resampled when it exceeds the target
/// on some axis, unchanged otherwise.
pub open spec fn resampled(data: Seq<u8>, w: u32, h: u32, tw: u32, th: u32) -> (u32, u32, Seq<u8>) {
    if w > tw || h > th {
        let (nw, nh) = fitted_size(w, h, tw, th);
        (nw, nh, lanczos3_of(data, w, h, nw, nh))
    } else {
        (w, h, data)
    }
}

/// An image of `w` x `h` centered on a transparent `tw` x `th` canvas when it
/// is smaller on some axis; unchanged otherwise.
pub open spec fn letterboxed(data: Seq<u8>, w: u32, h: u32, tw: u32, th: u32) -> Seq<u8> {
    if w < tw || h < th {
        overlay_of(data, w, h, tw, th, centered(tw, w), centered(th, h))
    } else {
        data
    }
}

/// The pixels of an image of `w` x `h` fitted to a `tw` x `th` output.
pub open spec fn fitted_pixels(data: Seq<u8>, w: u32, h: u32, tw: u32, th: u32) -> Seq<u8> {
    let (rw, rh, rdata) = resampled(data, w, h, tw, th);
    letterboxed(rdata, rw, rh, tw, th)
}

/// RGBA bytes reordered into the wire format, B, G, R, A per pixel.
pub open spec fn wire_of(rgba: Seq<u8>) -> Seq<u8> {
    Seq::new(
        rgba.len(),
        |k: int|
            {
                let base = k - k % 4;
                if k % 4 == 0 {
                    rgba[base + 2]
                } else if k % 4 == 2 {
                    rgba[base]
                } else {
                    rgba[k]
                }
            },
    )
}

proof fn lemma_fitted_size_bounded(w: u32, h: u32, tw: u32, th: u32)
    requires
        tw > 0,
        th > 0,
        w > tw || h > th,
    ensures
        fitted_size(w, h, tw, th).0 <= tw,
        fitted_size(w, h, tw, th).1 <= th,
        fitted_size(w, h, tw, th).0 <= w,
        fitted_size(w, h, tw, th).1 <= h,
{
    let wa = w > tw;
    let ha = h > th;
    if wa && (!ha || w * th > h * tw) {
        assert(h * tw <= w * h) by (nonlinear_arith)
            requires
                tw < w,
        ;
        assert((h * tw) / (w as int) <= h);
        if ha {
            assert((h * tw) / (w as int) < th);
        }
    } else if ha && (!wa || h * tw > w * th) {
        assert(w * th <= h * w) by (nonlinear_arith)
            requires
                th < h,
        ;
        assert((w * th) / (h as int) <= w);
        if wa {
            assert((w * th) / (h as int) < tw);
        }
    }
}

/// Resamples `image` so that it fits a `target_width` x `target_height`
/// output (see `fitted_size`); an image that already fits is copied.
pub fn downsize_image(image: &RgbaBuffer, target_width: u32, target_height: u32) -> (r: RgbaBuffer)
    requires
        image.wf(),
        target_width > 0,
        target_height > 0,
        image.width * image.height * 16 <= isize::MAX,
        target_width * target_height * 4 <= isize::MAX,
    ensures
        r.wf(),
        (r.width, r.height, r.data@) == resampled(
            image.data@,
            image.width,
            image.height,
            target_width,
            target_height,
        ),
        (image.width > target_width || image.height > target_height) ==> (r.width
            <= target_width && r.height <= target_height && (r.width == target_width || r.height
            == target_height)),
{
    let w = image.width;
    let h = image.height;
    if !(w > target_width || h > target_height) {
        return RgbaBuffer { width: w, height: h, data: image.data.clone() };
    }
    proof {
        lemma_fitted_size_bounded(w, h, target_width, target_height);
        assert(w * h <= u32::MAX * u32::MAX) by (nonlinear_arith)
            requires
                w <= u32::MAX,
                h <= u32::MAX,
        ;
        assert(w * target_height <= u32::MAX * u32::MAX) by (nonlinear_arith)
            requires
                w <= u32::MAX,
                target_height <= u32::MAX,
        ;
        assert(h * target_width <= u32::MAX * u32::MAX) by (nonlinear_arith)
            requires
                h <= u32::MAX,
                target_width <= u32::MAX,
        ;
    }
    let wth = (w as u64) * (target_height as u64);
    let htw = (h as u64) * (target_width as u64);
    let wa = w > target_width;
    let ha = h > target_height;
    let new_width: u32;
    let new_height: u32;
    if wa && (!ha || wth > htw) {
        new_width = target_width;
        new_height = (htw / (w as u64)) as u32;
    } else if ha && (!wa || htw > wth) {
        new_width = (wth / (h as u64)) as u32;
        new_height = target_height;
    } else {
        new_width = target_width;
        new_height = target_height;
    }
    proof {
        assert(w * new_height <= w * h) by (nonlinear_arith)
            requires
                new_height <= h,
        ;
        assert(new_width * new_height <= target_width * target_height) by (nonlinear_arith)
            requires
                new_width <= target_width,
                new_height <= target_height,
        ;
    }
    let data = resize_lanczos3(image.data.clone(), w, h, new_width, new_height);
    RgbaBuffer { width: new_width, height: new_height, data }
}

/// Centers `image` on a transparent `target_width` x `target_height` canvas:
/// offset `floor((target - size) / 2)` on each axis where the image is
/// smaller, 0 where it is not; uncovered canvas pixels are all zero.
pub fn overlay_image(image: &RgbaBuffer, target_width: u32, target_height: u32) -> (r: RgbaBuffer)
    requires
        image.wf(),
        target_width * target_height * 4 <= isize::MAX,
    ensures
        r.wf(),
        r.width == target_width,
        r.height == target_height,
        r.data@ == overlay_of(
            image.data@,
            image.width,
            image.height,
            target_width,
            target_height,
            centered(target_width, image.width),
            centered(target_height, image.height),
        ),
        forall|px: int, py: int, c: int|
            0 <= px < target_width && 0 <= py < target_height && 0 <= c < 4 && !(centered(
                target_width,
                image.width,
            ) <= px < centered(target_width, image.width) + image.width && centered(
                target_height,
                image.height,
            ) <= py < centered(target_height, image.height) + image.height)
                ==> #[trigger] r.data@[(py * target_width + px) * 4 + c] == 0,
        ({
            let ox = centered(target_width, image.width);
            let oy = centered(target_height, image.height);
            forall|px: int, py: int, c: int|
                0 <= px < target_width && 0 <= py < target_height && 0 <= c < 4 && ox <= px < ox
                    + image.width && oy <= py < oy + image.height && image.data@[((py - oy)
                    * image.width + (px - ox)) * 4 + 3] == 255 ==> #[trigger] r.data@[(py
                    * target_width + px) * 4 + c] == image.data@[((py - oy) * image.width + (px
                    - ox)) * 4 + c]
        }),
{
    let x: i64 = if image.width < target_width {
        ((target_width - image.width) / 2) as i64
    } else {
        0
    };
    let y: i64 = if image.height < target_height {
        ((target_height - image.height) / 2) as i64
    } else {
        0
    };
    let data = overlay_on_blank(
        image.data.clone(),
        image.width,
        image.height,
        target_width,
        target_height,
        x,
        y,
    );
    RgbaBuffer { width: target_width, height: target_height, data }
}

/// Fits `image` to a `screen_width` x `screen_height` output: resampled
/// when it exceeds the output on some axis, then centered when it is smaller
/// on some axis.  The result has exactly the output's size.
pub fn fit_image_to_screen(image: RgbaBuffer, screen_width: u32, screen_height: u32) -> (r:
    RgbaBuffer)
    requires
        image.wf(),
        screen_width > 0,
        screen_height > 0,
        image.width * image.height * 16 <= isize::MAX,
        screen_width * screen_height * 4 <= isize::MAX,
    ensures
        r.wf(),
        r.width == screen_width,
        r.height == screen_height,
        r.data@.len() == screen_width * screen_height * 4,
        r.data@ == fitted_pixels(image.data@, image.width, image.height, screen_width, screen_height),
        (image.width <= screen_width && image.height <= screen_height) ==> r.data@ == letterboxed(
            image.data@,
            image.width,
            image.height,
            screen_width,
            screen_height,
        ),
        ({
            let (rw, rh, rdata) = resampled(
                image.data@,
                image.width,
                image.height,
                screen_width,
                screen_height,
            );
            forall|px: int, py: int, c: int|
                0 <= px < screen_width && 0 <= py < screen_height && 0 <= c < 4 && !(centered(
                    screen_width,
                    rw,
                ) <= px < centered(screen_width, rw) + rw && centered(screen_height, rh) <= py
                    < centered(screen_height, rh) + rh) ==> #[trigger] r.data@[(py * screen_width
                    + px) * 4 + c] == 0
        }),
{
    let ghost src = image.data@;
    let mut new_image: RgbaBuffer;
    if image.width > screen_width || image.height > screen_height {
        new_image = downsize_image(&image, screen_width, screen_height);
    } else {
        new_image = image;
    }
    if new_image.width < screen_width || new_image.height < screen_height {
        new_image = overlay_image(&new_image, screen_width, screen_height);
    }
    new_image
}

/// Writes `rgba` into `buf` in wire byte order (B, G, R, A per pixel).
#[verifier::rlimit(30)]
pub fn to_wire_order(rgba: &Vec<u8>, buf: &mut [u8])
    requires
        old(buf)@.len() == rgba@.len(),
        rgba@.len() % 4 == 0,
    ensures
        final(buf)@ == wire_of(rgba@),
{
    let n = rgba.len();
    let mut i: usize = 0;
    while i < n
        invariant
            n == rgba@.len(),
            n % 4 == 0,
            i % 4 == 0,
            i <= n,
            buf@.len() == n,
            forall|k: int| 0 <= k < i ==> #[trigger] buf@[k] == wire_of(rgba@)[k],
        decreases n - i,
    {
        let ghost before = buf@;
        buf[i] = rgba[i + 2];
        buf[i + 1] = rgba[i + 1];
        buf[i + 2] = rgba[i];
        buf[i + 3] = rgba[i + 3];
        proof {
            let w = wire_of(rgba@);
            assert(i % 4 == 0 && (i + 1) % 4 == 1 && (i + 2) % 4 == 2 && (i + 3) % 4 == 3);
            assert(buf@[i as int] == w[i as int]);
            assert(buf@[i + 1] == w[i + 1]);
            assert(buf@[i + 2] == w[i + 2]);
            assert(buf@[i + 3] == w[i + 3]);
            assert forall|k: int| 0 <= k < i + 4 implies #[trigger] buf@[k] == w[k] by {
                if k < i {
                    assert(buf@[k] == before[k]);
                }
            }
        }
        i = i + 4;
    }
    assert(buf@ == wire_of(rgba@));
}

/// Fits a decoded image to a `screen_width` x `screen_height` output and
/// writes it into `buf` in wire byte order.  A decoded buffer whose length
/// does not match its size, or too large to resample, is a decode error and
/// leaves `buf` untouched.
pub fn fill_buffer_with_image(
    image: RgbaBuffer,
    screen_width: u32,
    screen_height: u32,
    buf: &mut [u8],
) -> (r: Result<(), BackgroundImageError>)
    requires
        old(buf)@.len() == screen_width * screen_height * 4,
        screen_width > 0,
        screen_height > 0,
        screen_width * screen_height * 4 <= isize::MAX,
    ensures
        r is Ok <==> (image.wf() && image.width * image.height * 16 <= isize::MAX),
        r is Err ==> r == Err::<(), _>(BackgroundImageError::ImageDecodeError) && final(buf)@ == old(
            buf,
        )@,
        r is Ok ==> final(buf)@ == wire_of(
            fitted_pixels(image.data@, image.width, image.height, screen_width, screen_height),
        ),
        r is Ok && image.width == screen_width && image.height == screen_height ==> final(buf)@
            == wire_of(image.data@),
        final(buf)@.len() == old(buf)@.len(),
{
    proof {
        assert(image.width * image.height <= u32::MAX * u32::MAX) by (nonlinear_arith)
            requires
                image.width <= u32::MAX,
                image.height <= u32::MAX,
        ;
    }
    let area = (image.width as u128) * (image.height as u128);
    if area * 16 > isize::MAX as u128 || image.data.len() as u128 != area * 4 {
        return Err(BackgroundImageError::ImageDecodeError);
    }
    let fitted = fit_image_to_screen(image, screen_width, screen_height);
    to_wire_order(&fitted.data, buf);
    Ok(())
}

/// Fitting is a function of the source pixels and the target size: the same
/// inputs give byte-identical output.
pub proof fn lemma_fit_deterministic(
    data1: Seq<u8>,
    data2: Seq<u8>,
    w: u32,
    h: u32,
    tw: u32,
    th: u32,
)
    requires
        data1 == data2,
    ensures
        wire_of(fitted_pixels(data1, w, h, tw, th)) == wire_of(fitted_pixels(data2, w, h, tw, th)),
{
}

/// A resampled image never exceeds the target on either axis.
pub proof fn lemma_resampled_within_target(data: Seq<u8>, w: u32, h: u32, tw: u32, th: u32)
    requires
        tw > 0,
        th > 0,
    ensures
        (w > tw || h > th) ==> resampled(data, w, h, tw, th).0 <= tw && resampled(
            data,
            w,
            h,
            tw,
            th,
        ).1 <= th,
{
    if w > tw || h > th {
        lemma_fitted_size_bounded(w, h, tw, th);
    }
}

/// An image that fits the target on both axes is not resampled, only
/// centered.
pub proof fn lemma_no_resample_when_fits(data: Seq<u8>, w: u32, h: u32, tw: u32, th: u32)
    requires
        w <= tw,
        h <= th,
    ensures
        resampled(data, w, h, tw, th) == (w, h, data),
        fitted_pixels(data, w, h, tw, th) == letterboxed(data, w, h, tw, th),
{
}

/// An image of exactly the target size is neither resampled nor
/// letterboxed: the output is its pixels in wire byte order.
pub proof fn lemma_exact_size_is_reorder_only(data: Seq<u8>, w: u32, h: u32)
    ensures
        fitted_pixels(data, w, h, w, h) == data,
        wire_of(fitted_pixels(data, w, h, w, h)) == wire_of(data),
{
}

/// Every pixel `blue, green, red, alpha`, over `len` bytes.
pub open spec fn flat_fill(len: nat, blue: u8, green: u8, red: u8, alpha: u8) -> Seq<u8> {
    Seq::new(
        len,
        |k: int|
            if k % 4 == 0 {
                blue
            } else if k % 4 == 1 {
                green
            } else if k % 4 == 2 {
                red
            } else {
                alpha
            },
    )
}

/// Fills `buf` with one color, in wire byte order.
pub fn fill_buffer_with_color(buf: &mut [u8], blue: u8, green: u8, red: u8, alpha: u8)
    ensures
        final(buf)@ == flat_fill(old(buf)@.len(), blue, green, red, alpha),
{
    let n = buf.len();
    for k in 0..n
        invariant
            n == buf@.len(),
            forall|i: int|
                0 <= i < k ==> #[trigger] buf@[i] == flat_fill(n as nat, blue, green, red, alpha)[i],
    {
        let c = k % 4;
        let v = if c == 0 {
            blue
        } else if c == 1 {
            green
        } else if c == 2 {
            red
        } else {
            alpha
        };
        buf[k] = v;
    }
    assert(buf@ == flat_fill(n as nat, blue, green, red, alpha));
}

/// Writes the frame of an output of `screen_width` x `screen_height` into
/// `buf`: the fitted image when one was decoded and can be fitted, a flat
/// random color otherwise (no image in the rotation, or an image that could
/// not be opened or decoded, which is reported).
pub fn render_frame(
    decoded: Option<Result<RgbaBuffer, BackgroundImageError>>,
    screen_width: u32,
    screen_height: u32,
    buf: &mut [u8],
) -> (r: Result<(), BackgroundImageError>)
    requires
        old(buf)@.len() == screen_width * screen_height * 4,
        screen_width > 0,
        screen_height > 0,
        screen_width * screen_height * 4 <= isize::MAX,
    ensures
        final(buf)@.len() == old(buf)@.len(),
        match decoded {
            Some(Ok(image)) => if image.wf() && image.width * image.height * 16 <= isize::MAX {
                r is Ok && final(buf)@ == wire_of(
                    fitted_pixels(
                        image.data@,
                        image.width,
                        image.height,
                        screen_width,
                        screen_height,
                    ),
                )
            } else {
                r == Err::<(), _>(BackgroundImageError::ImageDecodeError)
            },
            Some(Err(e)) => r == Err::<(), _>(e),
            None => r is Ok,
        },
        r is Err || decoded is None ==> exists|blue: u8, green: u8, red: u8, alpha: u8|
            final(buf)@ == flat_fill(old(buf)@.len(), blue, green, red, alpha),
{
    match decoded {
        Some(Ok(image)) => {
            let r = fill_buffer_with_image(image, screen_width, screen_height, buf);
            if r.is_err() {
                let _ = fill_buffer_random(buf);
            }
            r
        },
        Some(Err(e)) => {
            let _ = fill_buffer_random(buf);
            Err(e)
        },
        None => fill_buffer_random(buf),
    }
}

/// Relies on `rand::random_range`: a uniformly drawn byte.
#[verifier::external_body]
fn random_channel() -> (r: u8) {
    rand::random_range(0..=255u8)
}

/// Fills `buf` with one randomly drawn color: the fallback frame when an
/// image cannot be shown.
pub fn fill_buffer_random(buf: &mut [u8]) -> (r: Result<(), BackgroundImageError>)
    ensures
        r is Ok,
        exists|blue: u8, green: u8, red: u8, alpha: u8|
            final(buf)@ == flat_fill(old(buf)@.len(), blue, green, red, alpha),
{
    let red = random_channel();
    let green = random_channel();
    let blue = random_channel();
    let alpha = random_channel();
    fill_buffer_with_color(buf, blue, green, red, alpha);
    Ok(())
}

} // verus!
