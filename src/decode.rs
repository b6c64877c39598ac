use vstd::prelude::*;
use crate::picture::{Picture, buffer_len};
use image::ImageFormat as Fmt;
use crate::decode::Format as Fm;

verus! {

/// The raster formats the codec knows.
#[derive(Debug, Clone, Copy, PartialEq, Eq)]
pub enum Format {
    Png,
    Jpeg,
    Gif,
    WebP,
    Pnm,
    Tiff,
    Tga,
    Dds,
    Bmp,
    Ico,
    Hdr,
    OpenExr,
    Farbfeld,
    Avif,
    Qoi,
}

/// The format that the extension of a file name stands for, if any.
pub uninterp spec fn format_of_name(name: Seq<char>) -> Option<Format>;

/// A source that could not be read as a picture.
#[derive(Debug, Clone)]
pub struct DecodeError {
    /// The source's name, as given.
    pub path: String,
    /// What the codec reported.
    pub reason: String,
}

/// Relies on image::ImageFormat::from_path: the format that the extension
/// of `name` stands for (compared without regard to case), or the codec's
/// description of why there is none.
#[verifier::external_body]
fn format_from_name(name: &str) -> (r: Result<Format, String>)
    ensures
        r is Ok <==> format_of_name(name@) is Some,
        r matches Ok(f) ==> format_of_name(name@) == Some(f),
{
    let f = Fmt::from_path(name).map_err(|e| e.to_string())?;
    Ok(match f {
        Fmt::Png => Fm::Png, Fmt::Jpeg => Fm::Jpeg, Fmt::Gif => Fm::Gif, Fmt::WebP => Fm::WebP,
        Fmt::Pnm => Fm::Pnm, Fmt::Tiff => Fm::Tiff, Fmt::Tga => Fm::Tga, Fmt::Dds => Fm::Dds,
        Fmt::Bmp => Fm::Bmp, Fmt::Ico => Fm::Ico, Fmt::Hdr => Fm::Hdr, Fmt::OpenExr => Fm::OpenExr,
        Fmt::Farbfeld => Fm::Farbfeld, Fmt::Avif => Fm::Avif, Fmt::Qoi => Fm::Qoi,
        other => return Err(format!("{:?} is not supported", other)),
    })
}

/// Relies on image::load_from_memory_with_format, followed by
/// DynamicImage::into_rgba8: the decoded raster as four bytes per pixel,
/// row by row, or the codec's description of the failure. An ImageBuffer
/// holds at least `width * height * 4` bytes (ImageBuffer::from_raw accepts
/// no fewer), possibly more. Which pixels come out is not stated: the JPEG
/// decoder picks its kernels by the CPU it runs on, and they may round
/// differently.
#[verifier::external_body]
fn decode_with_format(bytes: &[u8], f: Format) -> (r: Result<Picture, String>)
    ensures
        r matches Ok(p) ==> p.data@.len() >= p.width as nat * p.height as nat * 4,
{
    let format = match f {
        Fm::Png => Fmt::Png, Fm::Jpeg => Fmt::Jpeg, Fm::Gif => Fmt::Gif, Fm::WebP => Fmt::WebP,
        Fm::Pnm => Fmt::Pnm, Fm::Tiff => Fmt::Tiff, Fm::Tga => Fmt::Tga, Fm::Dds => Fmt::Dds,
        Fm::Bmp => Fmt::Bmp, Fm::Ico => Fmt::Ico, Fm::Hdr => Fmt::Hdr, Fm::OpenExr => Fmt::OpenExr,
        Fm::Farbfeld => Fmt::Farbfeld, Fm::Avif => Fmt::Avif, Fm::Qoi => Fmt::Qoi,
    };
    let rgba = image::load_from_memory_with_format(bytes, format).map_err(|e| e.to_string())?.into_rgba8();
    Ok(Picture { width: rgba.width(), height: rgba.height(), data: rgba.into_raw() })
}

/// Keeps the first `width * height * 4` bytes of a decoded buffer, those of
/// its pixels.
pub fn trimmed(p: Picture) -> (r: Picture)
    requires
        p.data@.len() >= p.width as nat * p.height as nat * 4,
    ensures
        r.wf(),
        r.width == p.width,
        r.height == p.height,
        r.data@ == p.data@.subrange(0, p.width as int * p.height as int * 4),
{
    let Picture { width, height, mut data } = p;
    let len = buffer_len(width, height);
    data.truncate(len as usize);
    Picture { width, height, data }
}

/// Decodes the contents `bytes` of the source `name`, in the format that
/// the extension of `name` names, into an RGBA picture, keeping the bytes
/// of its `width * height` pixels. A failure names the source.
pub fn decode(name: &str, bytes: &[u8]) -> (r: Result<Picture, DecodeError>)
    ensures
        format_of_name(name@) is None ==> r is Err,
        r matches Ok(p) ==> p.wf(),
        r matches Err(e) ==> e.path@ == name@,
{
    let f = match format_from_name(name) {
        Ok(f) => f,
        Err(reason) => return Err(DecodeError { path: name.to_owned(), reason }),
    };
    match decode_with_format(bytes, f) {
        Ok(p) => Ok(trimmed(p)),
        Err(reason) => Err(DecodeError { path: name.to_owned(), reason }),
    }
}

} // verus!
