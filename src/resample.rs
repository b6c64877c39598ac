use vstd::prelude::*;
use crate::picture::Picture;

verus! {

/// `width * target / height` rounded to the nearest integer, halves up.
pub open spec fn scaled_width_of(width: nat, height: nat, target: nat) -> nat
    recommends
        height > 0,
{
    (2 * width * target + height) / (2 * height)
}

/// Why the canvas cannot be brought to the requested height.
#[derive(Debug, Clone, Copy, PartialEq, Eq)]
pub enum ResizeError {
    /// The canvas has no rows, so no ratio can be formed.
    ZeroHeight,
    /// The scaled width does not fit in `u32`, or a dimension on either side
    /// of the filter reaches `FILTER_DIM_LIMIT`.
    TooLarge,
}

/// Exclusive bound on every dimension handed to the filter.
pub const FILTER_DIM_LIMIT: u32 = 0x10_0000;

/// The filter works on positions in `f32`. Below 2^20 every coordinate it
/// forms (`(out + 0.5) * ratio`, tap minus centre) is exact to within 1/8,
/// so the source pixel nearest each output centre lies within 3/4 of a
/// pixel of it, inside the kernel's positive lobe, and the taps' weights
/// sum to a positive number. The buffers then take well under `isize::MAX`
/// bytes.
pub open spec fn filter_fits(width: nat, height: nat, new_width: nat, new_height: nat) -> bool {
    &&& width < FILTER_DIM_LIMIT
    &&& height < FILTER_DIM_LIMIT
    &&& new_width < FILTER_DIM_LIMIT
    &&& new_height < FILTER_DIM_LIMIT
}

/// Relies on image::imageops::resize with FilterType::Lanczos3 on an
/// RgbaImage: it returns a buffer of exactly the requested size. It indexes the source
/// out of bounds when it has no rows, or no columns while the new width is
/// not zero, panics when a buffer's size overflows, and panics on a NaN
/// weight when every tap of an output pixel falls outside the kernel's
/// window (sample.rs, horizontal_sample and vertical_sample), which the
/// bound of `filter_fits` rules out.
#[verifier::external_body]
fn lanczos3_resize(src: &Picture, new_width: u32, new_height: u32) -> (r: Picture)
    requires
        src.wf(),
        src.height > 0,
        src.width > 0 || new_width == 0,
        filter_fits(src.width as nat, src.height as nat, new_width as nat, new_height as nat),
    ensures
        r.wf(),
        r.width == new_width,
        r.height == new_height,
{
    let buf: image::RgbaImage = image::ImageBuffer::from_raw(src.width, src.height, src.data.clone())
        .expect("buffer length matches the dimensions");
    let out = image::imageops::resize(&buf, new_width, new_height, image::imageops::FilterType::Lanczos3);
    Picture { width: out.width(), height: out.height(), data: out.into_raw() }
}

/// Width that keeps the aspect ratio of a `width` by `height` picture
/// brought to height `target`; `None` when it does not fit in `u32`.
pub fn scaled_width(width: u32, height: u32, target: u32) -> (r: Option<u32>)
    requires
        height > 0,
    ensures
        r is Some <==> scaled_width_of(width as nat, height as nat, target as nat) <= u32::MAX,
        r matches Some(v) ==> v as nat == scaled_width_of(width as nat, height as nat, target as nat),
{
    let w = width as u128;
    let h = height as u128;
    let t = target as u128;
    assert(2 * w * t + h <= 0x4_0000_0000_0000_0000) by (nonlinear_arith)
        requires w <= u32::MAX, t <= u32::MAX, h <= u32::MAX;
    let v = (2 * w * t + h) / (2 * h);
    if v > u32::MAX as u128 {
        None
    } else {
        Some(v as u32)
    }
}

/// Brings `canvas` to height `target`, scaling its width by the same ratio.
/// With no target, or a target equal to the current height, the canvas is
/// returned as it is.
pub fn fit_height(canvas: Picture, target: Option<u32>) -> (r: Result<Picture, ResizeError>)
    requires
        canvas.wf(),
    ensures
        (target is None || target == Some(canvas.height)) ==> r == Ok::<Picture, ResizeError>(canvas),
        target matches Some(t) ==> t != canvas.height ==> {
            let w = canvas.width as nat;
            let h = canvas.height as nat;
            let nw = scaled_width_of(w, h, t as nat);
            &&& (r == Err::<Picture, ResizeError>(ResizeError::ZeroHeight) <==> h == 0)
            &&& (r == Err::<Picture, ResizeError>(ResizeError::TooLarge) <==> h > 0 && (nw > u32::MAX
                || !filter_fits(w, h, nw, t as nat)))
            &&& (r matches Ok(p) ==> {
                &&& p.wf()
                &&& p.width as nat == nw
                &&& p.height == t
            })
        },
{
    let t = match target {
        None => return Ok(canvas),
        Some(t) => t,
    };
    if t == canvas.height {
        return Ok(canvas);
    }
    if canvas.height == 0 {
        return Err(ResizeError::ZeroHeight);
    }
    let nw = match scaled_width(canvas.width, canvas.height, t) {
        None => return Err(ResizeError::TooLarge),
        Some(v) => v,
    };
    if canvas.width >= FILTER_DIM_LIMIT || canvas.height >= FILTER_DIM_LIMIT || nw >= FILTER_DIM_LIMIT
        || t >= FILTER_DIM_LIMIT {
        return Err(ResizeError::TooLarge);
    }
    proof {
        if canvas.width == 0 {
            assert(scaled_width_of(0, canvas.height as nat, t as nat) == 0) by (nonlinear_arith)
                requires canvas.height > 0;
        }
    }
    Ok(lanczos3_resize(&canvas, nw, t))
}

} // verus!
