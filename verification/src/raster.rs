//! Raster image tracing: which pixels of an image are ink.
//!
//! An image is decoded to 8-bit luminance; a pixel is ink when its luminance
//! is strictly below the threshold (or, inverted, when it is not). Each ink
//! pixel becomes a unit cell: column `x`, and row `y` counted from the top, or
//! from the bottom when the output is flipped to the Y-up convention of PCB
//! tools. Scaling the cells and merging them into polygons is left to the
//! caller.
use vstd::prelude::*;

verus! {

/// Why an image could not be traced.
#[derive(Clone, Debug, PartialEq, Eq)]
pub enum ImageError {
    /// The bytes could not be decoded as a supported image format.
    Decode(String),
    /// An I/O error occurred while reading the file.
    Io(String),
    /// The image has no ink pixel under the options.
    Empty,
}

/// The content of an [`ImageError`].
pub enum ImageErrorView {
    Decode(Seq<char>),
    Io(Seq<char>),
    Empty,
}

impl View for ImageError {
    type V = ImageErrorView;

    open spec fn view(&self) -> ImageErrorView {
        match self {
            ImageError::Decode(m) => ImageErrorView::Decode(m@),
            ImageError::Io(m) => ImageErrorView::Io(m@),
            ImageError::Empty => ImageErrorView::Empty,
        }
    }
}

/// The text of an [`ImageError`].
pub open spec fn image_error_text(e: ImageErrorView) -> Seq<char> {
    match e {
        ImageErrorView::Decode(m) => "failed to decode image: "@ + m,
        ImageErrorView::Io(m) => "io error: "@ + m,
        ImageErrorView::Empty => "no traceable content (image is empty after thresholding)"@,
    }
}

impl ImageError {
    /// The message describing the error.
    pub fn message(&self) -> (m: String)
        ensures
            m@ == image_error_text(self@),
    {
        match self {
            ImageError::Decode(t) => {
                let mut m = crate::text::owned_str("failed to decode image: ");
                crate::text::push_str(&mut m, t.as_str());
                m
            },
            ImageError::Io(t) => {
                let mut m = crate::text::owned_str("io error: ");
                crate::text::push_str(&mut m, t.as_str());
                m
            },
            ImageError::Empty => crate::text::owned_str(
                "no traceable content (image is empty after thresholding)",
            ),
        }
    }
}

/// How ink is selected and where cells go.
#[derive(Clone, Copy, Debug, PartialEq, Eq)]
pub struct TraceOptions {
    /// Luminance cutoff: pixels strictly darker are ink (unless inverted).
    pub threshold: u8,
    /// Select the light pixels instead of the dark ones.
    pub invert: bool,
    /// Count rows from the bottom (Y-up output).
    pub flip_y: bool,
}

impl Default for TraceOptions {
    /// Threshold 128, dark pixels are ink, Y-up output.
    fn default() -> (o: TraceOptions)
        ensures
            o.threshold == 128 && !o.invert && o.flip_y,
    {
        TraceOptions { threshold: 128, invert: false, flip_y: true }
    }
}

/// The traced image: its ink cells in row-major order of the source, and
/// its size in pixels.
#[derive(Clone, Debug, PartialEq, Eq)]
pub struct ImageDoc {
    pub cells: Vec<(u32, u32)>,
    pub width: u32,
    pub height: u32,
}

/// What the image decoder makes of `bytes`: the width, height and 8-bit
/// luminance pixels (row-major) of the image, or the decoder's message.
pub uninterp spec fn decoded_gray(bytes: Seq<u8>) -> Result<(u32, u32, Seq<u8>), Seq<char>>;

/// Decodes `bytes` (format guessed from its content) and converts the image
/// to 8-bit luminance (`image::load_from_memory`, then `to_luma8`). The
/// contract names the result, and states that the pixel buffer covers
/// `width × height` pixels, as every `ImageBuffer` does.
#[verifier::external_body]
fn decode_gray(bytes: &[u8]) -> (r: Result<(u32, u32, Vec<u8>), String>)
    ensures
        match r {
            Ok((w, h, px)) => decoded_gray(bytes@) == Ok::<(u32, u32, Seq<u8>), Seq<char>>(
                (w, h, px@),
            ) && px@.len() >= w * h,
            Err(m) => decoded_gray(bytes@) == Err::<(u32, u32, Seq<u8>), Seq<char>>(m@),
        },
{
    match image::load_from_memory(bytes) {
        Ok(img) => {
            let luma = img.to_luma8();
            let (w, h) = luma.dimensions();
            Ok((w, h, luma.into_raw()))
        },
        Err(e) => Err(e.to_string()),
    }
}

/// A pixel value is ink.
pub open spec fn is_ink(v: u8, opts: TraceOptions) -> bool {
    (v < opts.threshold) != opts.invert
}

/// The cell of the pixel at column `x`, row `y` of an image `h` rows high.
pub open spec fn cell_of(x: int, y: int, h: int, opts: TraceOptions) -> (u32, u32) {
    (x as u32, if opts.flip_y {
        (h - y - 1) as u32
    } else {
        y as u32
    })
}

/// The ink cells among the first `k` pixels (row-major) of a `w`-wide,
/// `h`-high image.
pub open spec fn ink_cells(w: int, h: int, px: Seq<u8>, opts: TraceOptions, k: int) -> Seq<(u32, u32)>
    decreases k,
{
    if k <= 0 || w <= 0 {
        Seq::<(u32, u32)>::empty()
    } else {
        let prev = ink_cells(w, h, px, opts, k - 1);
        let i = k - 1;
        if is_ink(px[i], opts) {
            prev.push(cell_of(i % w, i / w, h, opts))
        } else {
            prev
        }
    }
}

/// The tracing of a decoded image: refused when no pixel is ink.
pub open spec fn trace_spec(w: u32, h: u32, px: Seq<u8>, opts: TraceOptions) -> Result<
    (Seq<(u32, u32)>, u32, u32),
    ImageErrorView,
> {
    let cells = ink_cells(w as int, h as int, px, opts, w * h);
    if cells.len() == 0 {
        Err(ImageErrorView::Empty)
    } else {
        Ok((cells, w, h))
    }
}

/// Traces a decoded `w × h` luminance image (row-major pixels).
pub fn trace_decoded(w: u32, h: u32, px: &[u8], opts: &TraceOptions) -> (r: Result<ImageDoc, ImageError>)
    requires
        px@.len() >= w * h,
    ensures
        match r {
            Ok(d) => trace_spec(w, h, px@, *opts) == Ok::<(Seq<(u32, u32)>, u32, u32), ImageErrorView>(
                (d.cells@, d.width, d.height),
            ),
            Err(e) => trace_spec(w, h, px@, *opts) == Err::<(Seq<(u32, u32)>, u32, u32), ImageErrorView>(
                e@,
            ),
        },
{
    let n = px.len();
    let mut cells: Vec<(u32, u32)> = Vec::new();
    let mut y: u32 = 0;
    while y < h
        invariant
            y <= h,
            n == px@.len(),
            px@.len() >= w * h,
            cells@ == ink_cells(w as int, h as int, px@, *opts, y * w),
        decreases h - y,
    {
        let mut x: u32 = 0;
        while x < w
            invariant
                y < h,
                x <= w,
                n == px@.len(),
                px@.len() >= w * h,
                cells@ == ink_cells(w as int, h as int, px@, *opts, y * w + x),
            decreases w - x,
        {
            proof {
                assert(y * w + x < h * w) by (nonlinear_arith)
                    requires
                        y < h,
                        x < w,
                ;
                assert(h * w == w * h) by (nonlinear_arith);
                assert(y * w <= y * w + x);
                assert(y * w + x < n);
                vstd::arithmetic::div_mod::lemma_fundamental_div_mod_converse(
                    y * w + x,
                    w as int,
                    y as int,
                    x as int,
                );
            }
            let i: usize = (y as usize) * (w as usize) + (x as usize);
            let v = px[i];
            if (v < opts.threshold) != opts.invert {
                let row = if opts.flip_y {
                    h - y - 1
                } else {
                    y
                };
                cells.push((x, row));
            }
            x = x + 1;
        }
        proof {
            assert(y * w + w == (y + 1) * w) by (nonlinear_arith);
        }
        y = y + 1;
    }
    proof {
        assert(h * w == w * h) by (nonlinear_arith);
    }
    if cells.len() == 0 {
        return Err(ImageError::Empty);
    }
    Ok(ImageDoc { cells, width: w, height: h })
}

/// Decodes `bytes` and traces the image: refused when the bytes do not
/// decode, or when no pixel is ink.
pub fn trace_bytes(bytes: &[u8], opts: &TraceOptions) -> (r: Result<ImageDoc, ImageError>)
    ensures
        match decoded_gray(bytes@) {
            Err(m) => r matches Err(e) && e@ == ImageErrorView::Decode(m),
            Ok((w, h, px)) => match r {
                Ok(d) => trace_spec(w, h, px, *opts) == Ok::<
                    (Seq<(u32, u32)>, u32, u32),
                    ImageErrorView,
                >((d.cells@, d.width, d.height)),
                Err(e) => trace_spec(w, h, px, *opts) == Err::<
                    (Seq<(u32, u32)>, u32, u32),
                    ImageErrorView,
                >(e@),
            },
        },
{
    match decode_gray(bytes) {
        Err(m) => Err(ImageError::Decode(m)),
        Ok((w, h, px)) => trace_decoded(w, h, &px, opts),
    }
}

} // verus!
