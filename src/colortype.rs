use vstd::prelude::*;

verus! {

/// An enumeration over supported color types and bit depths.
#[non_exhaustive]
#[derive(Copy, Clone, Debug, Hash, PartialEq, Eq, Structural)]
pub enum ColorType {
    /// Pixel is 8-bit luminance
    L8,
    /// Pixel is 8-bit luminance with an alpha channel
    La8,
    /// Pixel contains 8-bit R, G and B channels
    Rgb8,
    /// Pixel is 8-bit RGB with an alpha channel
    Rgba8,
    /// Pixel is 16-bit luminance
    L16,
    /// Pixel is 16-bit luminance with an alpha channel
    La16,
    /// Pixel is 16-bit RGB
    Rgb16,
    /// Pixel is 16-bit RGBA
    Rgba16,
    /// Pixel contains 8-bit B, G and R channels
    Bgr8,
    /// Pixel is 8-bit BGR with an alpha channel
    Bgra8,
}

/// An enumeration of color types encountered in image formats.
///
/// Granular enough to describe sub-byte packed samples, so that a decoder can
/// report the encoding found in the file even when it hands out a
/// [`ColorType`] that is byte aligned.
#[non_exhaustive]
#[derive(Copy, Clone, Debug, Hash, PartialEq, Eq, Structural)]
pub enum ExtendedColorType {
    L1,
    La1,
    Rgb1,
    Rgba1,
    L2,
    La2,
    Rgb2,
    Rgba2,
    L4,
    La4,
    Rgb4,
    Rgba4,
    L8,
    La8,
    Rgb8,
    Rgba8,
    L16,
    La16,
    Rgb16,
    Rgba16,
    Bgr8,
    Bgra8,
    /// Pixel of unknown color type with the given number of bits per pixel,
    /// for instance an index into an external palette.
    Unknown(u8),
}

/// Bytes in one pixel of `c`.
pub open spec fn bytes_per_pixel_spec(c: ColorType) -> nat {
    match c {
        ColorType::L8 => 1,
        ColorType::L16 | ColorType::La8 => 2,
        ColorType::Rgb8 | ColorType::Bgr8 => 3,
        ColorType::Rgba8 | ColorType::Bgra8 | ColorType::La16 => 4,
        ColorType::Rgb16 => 6,
        ColorType::Rgba16 => 8,
    }
}

/// Channels in one pixel of `e`; an opaque datum counts as one channel.
pub open spec fn extended_channel_count_spec(e: ExtendedColorType) -> nat {
    match e {
        ExtendedColorType::L1
        | ExtendedColorType::L2
        | ExtendedColorType::L4
        | ExtendedColorType::L8
        | ExtendedColorType::L16
        | ExtendedColorType::Unknown(_) => 1,
        ExtendedColorType::La1
        | ExtendedColorType::La2
        | ExtendedColorType::La4
        | ExtendedColorType::La8
        | ExtendedColorType::La16 => 2,
        ExtendedColorType::Rgb1
        | ExtendedColorType::Rgb2
        | ExtendedColorType::Rgb4
        | ExtendedColorType::Rgb8
        | ExtendedColorType::Rgb16
        | ExtendedColorType::Bgr8 => 3,
        ExtendedColorType::Rgba1
        | ExtendedColorType::Rgba2
        | ExtendedColorType::Rgba4
        | ExtendedColorType::Rgba8
        | ExtendedColorType::Rgba16
        | ExtendedColorType::Bgra8 => 4,
    }
}

/// The extended variant that describes the same layout as `c`.
pub open spec fn extend(c: ColorType) -> ExtendedColorType {
    match c {
        ColorType::L8 => ExtendedColorType::L8,
        ColorType::La8 => ExtendedColorType::La8,
        ColorType::Rgb8 => ExtendedColorType::Rgb8,
        ColorType::Rgba8 => ExtendedColorType::Rgba8,
        ColorType::L16 => ExtendedColorType::L16,
        ColorType::La16 => ExtendedColorType::La16,
        ColorType::Rgb16 => ExtendedColorType::Rgb16,
        ColorType::Rgba16 => ExtendedColorType::Rgba16,
        ColorType::Bgr8 => ExtendedColorType::Bgr8,
        ColorType::Bgra8 => ExtendedColorType::Bgra8,
    }
}

/// Whether the color channels of `c` are stored blue first.
pub open spec fn is_bgr_order(c: ColorType) -> bool {
    c == ColorType::Bgr8 || c == ColorType::Bgra8
}

/// Whether the color channels of `e` are stored blue first.
pub open spec fn is_extended_bgr_order(e: ExtendedColorType) -> bool {
    e == ExtendedColorType::Bgr8 || e == ExtendedColorType::Bgra8
}

/// Bits per sample of `c`.
pub open spec fn sample_bits(c: ColorType) -> nat {
    match c {
        ColorType::L16 | ColorType::La16 | ColorType::Rgb16 | ColorType::Rgba16 => 16,
        _ => 8,
    }
}

/// Bits per sample of `e`, when the variant fixes them.
pub open spec fn extended_sample_bits(e: ExtendedColorType) -> nat {
    match e {
        ExtendedColorType::L1 | ExtendedColorType::La1 | ExtendedColorType::Rgb1
        | ExtendedColorType::Rgba1 => 1,
        ExtendedColorType::L2 | ExtendedColorType::La2 | ExtendedColorType::Rgb2
        | ExtendedColorType::Rgba2 => 2,
        ExtendedColorType::L4 | ExtendedColorType::La4 | ExtendedColorType::Rgb4
        | ExtendedColorType::Rgba4 => 4,
        ExtendedColorType::L16 | ExtendedColorType::La16 | ExtendedColorType::Rgb16
        | ExtendedColorType::Rgba16 => 16,
        ExtendedColorType::Unknown(bits) => bits as nat,
        _ => 8,
    }
}

impl ColorType {
    /// Returns the number of bytes contained in a pixel of this color type.
    pub fn bytes_per_pixel(self) -> (r: u8)
        ensures
            r == bytes_per_pixel_spec(self),
    {
        match self {
            ColorType::L8 => 1,
            ColorType::L16 | ColorType::La8 => 2,
            ColorType::Rgb8 | ColorType::Bgr8 => 3,
            ColorType::Rgba8 | ColorType::Bgra8 | ColorType::La16 => 4,
            ColorType::Rgb16 => 6,
            ColorType::Rgba16 => 8,
        }
    }

    /// Returns the number of bits contained in a pixel of this color type,
    /// always a multiple of 8.
    pub fn bits_per_pixel(self) -> (r: u16)
        ensures
            r == 8 * bytes_per_pixel_spec(self),
    {
        (self.bytes_per_pixel() as u16) * 8
    }

    /// Returns the number of color channels that make up this pixel.
    pub fn channel_count(self) -> (r: u8)
        ensures
            r == extended_channel_count_spec(extend(self)),
    {
        let e = ExtendedColorType::from(self);
        e.channel_count()
    }
}

impl ExtendedColorType {
    /// Get the number of channels for colors of this type.
    ///
    /// The `Unknown` variant counts as one channel, since such a pixel can
    /// only be treated as an opaque datum.
    pub fn channel_count(self) -> (r: u8)
        ensures
            r == extended_channel_count_spec(self),
            self is Unknown ==> r == 1,
    {
        match self {
            ExtendedColorType::L1
            | ExtendedColorType::L2
            | ExtendedColorType::L4
            | ExtendedColorType::L8
            | ExtendedColorType::L16
            | ExtendedColorType::Unknown(_) => 1,
            ExtendedColorType::La1
            | ExtendedColorType::La2
            | ExtendedColorType::La4
            | ExtendedColorType::La8
            | ExtendedColorType::La16 => 2,
            ExtendedColorType::Rgb1
            | ExtendedColorType::Rgb2
            | ExtendedColorType::Rgb4
            | ExtendedColorType::Rgb8
            | ExtendedColorType::Rgb16
            | ExtendedColorType::Bgr8 => 3,
            ExtendedColorType::Rgba1
            | ExtendedColorType::Rgba2
            | ExtendedColorType::Rgba4
            | ExtendedColorType::Rgba8
            | ExtendedColorType::Rgba16
            | ExtendedColorType::Bgra8 => 4,
        }
    }
}

impl ExtendedColorType {
    /// The extended variant that describes the same layout as `c`, channel
    /// order included.
    pub fn from(c: ColorType) -> (r: ExtendedColorType)
        ensures
            r == extend(c),
    {
        match c {
            ColorType::L8 => ExtendedColorType::L8,
            ColorType::La8 => ExtendedColorType::La8,
            ColorType::Rgb8 => ExtendedColorType::Rgb8,
            ColorType::Rgba8 => ExtendedColorType::Rgba8,
            ColorType::L16 => ExtendedColorType::L16,
            ColorType::La16 => ExtendedColorType::La16,
            ColorType::Rgb16 => ExtendedColorType::Rgb16,
            ColorType::Rgba16 => ExtendedColorType::Rgba16,
            ColorType::Bgr8 => ExtendedColorType::Bgr8,
            ColorType::Bgra8 => ExtendedColorType::Bgra8,
        }
    }
}

/// Turning a [`ColorType`] into an [`ExtendedColorType`] loses nothing: two
/// different color types never share an extended variant, and the extended
/// variant keeps the channel order, the channel count and the sample width.
pub proof fn lemma_extend_injective_and_faithful(a: ColorType, b: ColorType)
    ensures
        extend(a) == extend(b) ==> a == b,
        is_extended_bgr_order(extend(a)) == is_bgr_order(a),
        extended_sample_bits(extend(a)) == sample_bits(a),
        extended_channel_count_spec(extend(a)) * sample_bits(a) == 8 * bytes_per_pixel_spec(a),
{
}

} // verus!
