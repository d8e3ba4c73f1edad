use vstd::prelude::*;

verus! {

/// An enumeration of supported image formats.
/// Not all formats support both encoding and decoding.
#[non_exhaustive]
#[derive(Copy, Clone, Debug, Hash, PartialEq, Eq, Structural)]
pub enum ImageFormat {
    /// An Image in PNG Format
    Png,
    /// An Image in JPEG Format
    Jpeg,
    /// An Image in GIF Format
    Gif,
    /// An Image in WEBP Format
    WebP,
    /// An Image in general PNM Format
    Pnm,
    /// An Image in TIFF Format
    Tiff,
    /// An Image in TGA Format
    Tga,
    /// An Image in DDS Format
    Dds,
    /// An Image in BMP Format
    Bmp,
    /// An Image in ICO Format
    Ico,
    /// An Image in Radiance HDR Format
    Hdr,
}

} // verus!
