use vstd::prelude::*;

use crate::colortype::{bytes_per_pixel_spec, extend, ColorType, ExtendedColorType};
use crate::error::{ImageError, ImageResult};

verus! {

/// Size of the window into which small scanlines are batched for one read.
pub const READ_WINDOW: u64 = 4096;

/// Represents the progress of an image operation.
///
/// This is not necessarily accurate: a decoder may report `(0, 0)` when the
/// progress is unknown.
#[derive(Copy, Clone, Debug, PartialEq, Eq, Structural)]
pub struct Progress {
    /// A measure of completed decoding.
    pub current: u64,
    /// A measure of all necessary decoding work.
    pub total: u64,
}

impl Progress {
    /// A measure of completed decoding.
    pub fn current(self) -> (r: u64)
        ensures
            r == self.current,
    {
        self.current
    }

    /// A measure of all necessary decoding work, in general at least `current`.
    pub fn total(self) -> (r: u64)
        ensures
            r == self.total,
    {
        self.total
    }

    /// A measure of the remaining decoding work; zero when `current` has
    /// passed `total`.
    pub fn remaining(self) -> (r: u64)
        ensures
            self.current <= self.total ==> r == self.total - self.current,
            self.current > self.total ==> r == 0,
    {
        if self.total >= self.current {
            self.total - self.current
        } else {
            0
        }
    }
}

/// Bytes in a decoded image of `width` by `height` pixels of `color`.
pub open spec fn image_bytes(width: u32, height: u32, color: ColorType) -> int {
    width as int * height as int * bytes_per_pixel_spec(color) as int
}

/// How many bytes one read takes when the decoder's efficient granularity is
/// `scanline`: the largest whole number of scanlines that fits in the read
/// window, or a single scanline when one alone fills the window.
pub open spec fn chunk_size_spec(scanline: u64) -> int {
    if 0 < scanline < READ_WINDOW {
        (READ_WINDOW / scanline) as int * scanline as int
    } else {
        scanline as int
    }
}

/// Images of up to 2^20 by 2^20 pixels have a byte count that fits in a
/// `u64`, whatever their color type, so `total_bytes` can be asked of them.
pub proof fn lemma_image_bytes_fit(width: u32, height: u32, color: ColorType)
    requires
        width <= 0x10_0000,
        height <= 0x10_0000,
    ensures
        image_bytes(width, height, color) <= u64::MAX,
        image_bytes(width, height, color) == width as int * height as int * bytes_per_pixel_spec(color),
{
    assert(width as int * height as int * bytes_per_pixel_spec(color) as int <= 0x10_0000 * 0x10_0000 * 8)
        by (nonlinear_arith)
        requires
            width <= 0x10_0000,
            height <= 0x10_0000,
            bytes_per_pixel_spec(color) <= 8;
}

/// Chooses how many bytes one read of the streaming loop takes.
pub fn chunk_size(scanline: u64) -> (r: u64)
    ensures
        r == chunk_size_spec(scanline),
        scanline < READ_WINDOW ==> r <= READ_WINDOW,
        0 < scanline < READ_WINDOW ==> r % scanline == 0,
        scanline < READ_WINDOW && scanline > 0 ==> READ_WINDOW < r + scanline,
        scanline > 0 ==> r >= scanline,
        scanline >= READ_WINDOW ==> r == scanline,
{
    if scanline == 0 {
        0
    } else if scanline < READ_WINDOW {
        let n = READ_WINDOW / scanline;
        proof {
            assert(n * scanline <= READ_WINDOW) by (nonlinear_arith)
                requires n == READ_WINDOW / scanline, scanline > 0;
            assert(READ_WINDOW < n * scanline + scanline) by (nonlinear_arith)
                requires n == READ_WINDOW / scanline, scanline > 0;
            assert(n >= 1) by (nonlinear_arith)
                requires n == READ_WINDOW / scanline, 0 < scanline < READ_WINDOW;
            assert(((n * scanline) as int) % (scanline as int) == 0) by (nonlinear_arith)
                requires scanline > 0, n * scanline <= READ_WINDOW;
            assert(n * scanline >= scanline) by (nonlinear_arith)
                requires n >= 1;
        }
        n * scanline
    } else {
        scanline
    }
}

/// A channel that yields the bytes of a decoded image, in order.
///
/// Reads are exact: a read that cannot fill its whole destination fails
/// instead of returning fewer bytes.
pub trait ByteReader: Sized {
    /// The bytes that the channel is still able to yield.
    spec fn pending(&self) -> Seq<u8>;

    /// Whether reads keep succeeding as long as enough bytes are pending.
    spec fn reliable(&self) -> bool;

    /// Fills `buf` entirely with the next bytes of the channel.
    fn read_exact(&mut self, buf: &mut [u8]) -> (r: ImageResult<()>)
        ensures
            final(buf)@.len() == old(buf)@.len(),
            r is Ok ==> old(buf)@.len() <= old(self).pending().len(),
            r is Ok ==> final(buf)@ == old(self).pending().take(old(buf)@.len() as int),
            r is Ok ==> final(self).pending() == old(self).pending().skip(old(buf)@.len() as int),
            old(self).pending().len() < old(buf)@.len() ==> r is Err,
            old(self).reliable() && old(buf)@.len() <= old(self).pending().len() ==> r is Ok
                && final(self).reliable(),
    ;
}

/// Whether `p` is a report that the streaming read of an image of `total`
/// bytes can make: some bytes are done, and no more than the whole.
pub open spec fn is_read_progress(p: Progress, total: int) -> bool {
    p.total == total && 0 < p.current <= total
}

/// Position in the row-major bytes of a whole image, `image_width` pixels of
/// `bpp` bytes wide, of byte `i` of the row-major bytes of the sub-rectangle
/// whose top left pixel is `(x, y)` and which is `width` pixels wide.
pub open spec fn rect_source(image_width: int, bpp: int, x: int, y: int, width: int, i: int) -> int {
    (y + i / (width * bpp)) * (image_width * bpp) + x * bpp + i % (width * bpp)
}

/// The bytes of the sub-rectangle `[x, x + width) x [y, y + height)` of an
/// image whose row-major bytes are `image`, tightly packed in row-major order.
pub open spec fn rect_bytes(
    image: Seq<u8>,
    image_width: int,
    bpp: int,
    x: int,
    y: int,
    width: int,
    height: int,
) -> Seq<u8> {
    Seq::new(
        (width * height * bpp) as nat,
        |i: int| image[rect_source(image_width, bpp, x, y, width, i)],
    )
}

/// The trait that all decoders implement.
pub trait ImageDecoder<'a>: Sized {
    /// The type of reader produced by `into_reader`.
    type Reader: ByteReader + 'a;

    /// Width and height of the image.
    spec fn spec_dimensions(&self) -> (u32, u32);

    /// Color type of the bytes the decoder produces.
    spec fn spec_color_type(&self) -> ColorType;

    /// The bytes that the reader of this decoder yields.
    spec fn spec_stream(&self) -> Seq<u8>;

    /// Whether `into_reader` succeeds with a reliable reader.
    spec fn spec_opens(&self) -> bool;

    /// Returns a tuple containing the width and height of the image.
    fn dimensions(&self) -> (r: (u32, u32))
        ensures
            r == self.spec_dimensions(),
    ;

    /// Returns the color type of the image data produced by this decoder.
    fn color_type(&self) -> (r: ColorType)
        ensures
            r == self.spec_color_type(),
    ;

    /// Returns the color type of the image file before decoding.
    fn original_color_type(&self) -> (r: ExtendedColorType)
        default_ensures
            r == extend(self.spec_color_type()),
    {
        ExtendedColorType::from(self.color_type())
    }

    /// Returns a reader that yields the bytes of the image. For the best
    /// performance, read at least `scanline_bytes` from it at a time.
    fn into_reader(self) -> (r: ImageResult<Self::Reader>)
        ensures
            r is Ok ==> r->Ok_0.pending() == self.spec_stream(),
            self.spec_opens() ==> r is Ok && r->Ok_0.reliable(),
    ;

    /// Returns the total number of bytes in the decoded image. The value may
    /// exceed what a buffer in memory can hold.
    fn total_bytes(&self) -> (r: u64)
        requires
            image_bytes(self.spec_dimensions().0, self.spec_dimensions().1, self.spec_color_type())
                <= u64::MAX,
        ensures
            r == image_bytes(self.spec_dimensions().0, self.spec_dimensions().1, self.spec_color_type()),
    {
        let dimensions = self.dimensions();
        let bpp = self.color_type().bytes_per_pixel();
        proof {
            assert(dimensions.0 as int * dimensions.1 as int <= u64::MAX) by (nonlinear_arith)
                requires
                    dimensions.0 as int * dimensions.1 as int * bpp as int <= u64::MAX,
                    bpp >= 1;
        }
        (dimensions.0 as u64) * (dimensions.1 as u64) * (bpp as u64)
    }

    /// Returns the minimum number of bytes that can be efficiently read from
    /// this decoder: at least 1 for an image that is not empty, and as many
    /// as `total_bytes()` for a decoder that can only read the whole image.
    fn scanline_bytes(&self) -> (r: u64)
        requires
            image_bytes(self.spec_dimensions().0, self.spec_dimensions().1, self.spec_color_type())
                <= u64::MAX,
        ensures
            image_bytes(self.spec_dimensions().0, self.spec_dimensions().1, self.spec_color_type())
                > 0 ==> r > 0,
        default_ensures
            r == image_bytes(self.spec_dimensions().0, self.spec_dimensions().1, self.spec_color_type()),
    {
        self.total_bytes()
    }

    /// Reads all the bytes of the image into `buf`, whose length must be
    /// `total_bytes()`.
    fn read_image(self, buf: &mut [u8]) -> (r: ImageResult<()>)
        requires
            old(buf)@.len() == image_bytes(self.spec_dimensions().0, self.spec_dimensions().1, self.spec_color_type()),
        ensures
            final(buf)@.len() == old(buf)@.len(),
            r is Ok ==> final(buf)@ == self.spec_stream().take(old(buf)@.len() as int),
            self.spec_stream().len() < old(buf)@.len() ==> r is Err,
            self.spec_opens() && self.spec_stream().len() >= old(buf)@.len() ==> r is Ok,
            self.spec_opens() && self.spec_stream().len() == old(buf)@.len() ==> r is Ok
                && final(buf)@ == self.spec_stream(),
    {
        let r = self.read_image_with_progress(buf, |p: Progress| {});
        proof {
            if r is Ok && self.spec_stream().len() == buf@.len() {
                assert(self.spec_stream().take(buf@.len() as int) =~= self.spec_stream());
            }
        }
        r
    }

    /// Same as `read_image`, and reports to `progress_callback` after each
    /// chunk how many bytes have been read.
    fn read_image_with_progress<F: Fn(Progress)>(self, buf: &mut [u8], progress_callback: F) -> (r: ImageResult<()>)
        requires
            old(buf)@.len() == image_bytes(self.spec_dimensions().0, self.spec_dimensions().1, self.spec_color_type()),
            forall|p: Progress| is_read_progress(p, old(buf)@.len() as int)
                ==> #[trigger] progress_callback.requires((p,)),
        ensures
            final(buf)@.len() == old(buf)@.len(),
            r is Ok ==> final(buf)@ == self.spec_stream().take(old(buf)@.len() as int),
            self.spec_stream().len() < old(buf)@.len() ==> r is Err,
            self.spec_opens() && self.spec_stream().len() >= old(buf)@.len() ==> r is Ok,
            self.spec_opens() && self.spec_stream().len() == old(buf)@.len() ==> r is Ok
                && final(buf)@ == self.spec_stream(),
    {
        let total = buf.len();
        assert(total as int <= u64::MAX);
        let total_bytes = self.total_bytes();
        let scanline_bytes = self.scanline_bytes();
        let target_read_size = chunk_size(scanline_bytes);
        let ghost stream = self.spec_stream();
        let ghost opens = self.spec_opens();

        let mut reader = match self.into_reader() {
            Ok(reader) => reader,
            Err(e) => {
                return Err(e);
            },
        };

        let mut bytes_read: usize = 0;
        let mut outcome: ImageResult<()> = Ok(());
        while bytes_read < total && outcome.is_ok()
            invariant
                total == buf@.len(),
                total as int == total_bytes as int,
                total > 0 ==> target_read_size > 0,
                bytes_read <= total,
                bytes_read <= stream.len(),
                outcome is Ok ==> reader.pending() == stream.skip(bytes_read as int),
                buf@.take(bytes_read as int) == stream.take(bytes_read as int),
                outcome is Ok && opens ==> reader.reliable(),
                outcome is Err ==> !opens || stream.len() < total,
                forall|p: Progress| is_read_progress(p, total as int)
                    ==> #[trigger] progress_callback.requires((p,)),
            decreases total - bytes_read, (if outcome is Ok { 1int } else { 0int }),
        {
            let remaining = total - bytes_read;
            let read_size: usize = if (target_read_size as u128) < (remaining as u128) {
                target_read_size as usize
            } else {
                remaining
            };
            let mut chunk: Vec<u8> = vec![0u8; read_size];
            let ghost before = reader.pending();
            match reader.read_exact(chunk.as_mut_slice()) {
                Ok(()) => {
                    let ghost old_buf = buf@;
                    let mut i: usize = 0;
                    while i < read_size
                        invariant
                            i <= read_size,
                            bytes_read + read_size <= total,
                            total == buf@.len(),
                            chunk@.len() == read_size,
                            buf@.take(bytes_read as int) == old_buf.take(bytes_read as int),
                            forall|k: int| 0 <= k < i ==> buf@[bytes_read + k] == chunk@[k],
                        decreases read_size - i,
                    {
                        buf[bytes_read + i] = chunk[i];
                        i = i + 1;
                    }
                    proof {
                        let n = (bytes_read + read_size) as int;
                        assert forall|k: int| 0 <= k < n implies buf@.take(n)[k] == stream.take(n)[k] by {
                            if k < bytes_read {
                                assert(buf@.take(bytes_read as int)[k] == stream.take(bytes_read as int)[k]);
                            } else {
                                assert(chunk@[k - bytes_read] == before.take(read_size as int)[k - bytes_read]);
                                assert(before[k - bytes_read] == stream[k]);
                            }
                        }
                        assert(buf@.take(n) =~= stream.take(n));
                        assert(reader.pending() =~= stream.skip(n));
                    }
                    bytes_read = bytes_read + read_size;
                    progress_callback(Progress { current: bytes_read as u64, total: total as u64 });
                },
                Err(e) => {
                    outcome = Err(e);
                },
            }
        }
        proof {
            if outcome is Ok {
                assert(buf@ =~= buf@.take(total as int));
                assert(stream.len() == total ==> stream.take(total as int) =~= stream);
            }
        }
        outcome
    }
}

/// Decoders that can read a rectangular section of the image without
/// decoding the whole of it.
pub trait ImageDecoderExt<'a>: ImageDecoder<'a> + Sized {
    /// Reads the rectangle of `width` by `height` pixels whose top left pixel
    /// is `(x, y)` into `buf`, in row-major order.
    fn read_rect(&mut self, x: u32, y: u32, width: u32, height: u32, buf: &mut [u8]) -> (r: ImageResult<()>)
        requires
            x + width <= old(self).spec_dimensions().0,
            y + height <= old(self).spec_dimensions().1,
            old(buf)@.len() == image_bytes(width, height, old(self).spec_color_type()),
        ensures
            final(self).spec_dimensions() == old(self).spec_dimensions(),
            final(self).spec_color_type() == old(self).spec_color_type(),
            final(buf)@.len() == old(buf)@.len(),
            r is Ok ==> final(buf)@ == rect_bytes(
                old(self).spec_stream(),
                old(self).spec_dimensions().0 as int,
                bytes_per_pixel_spec(old(self).spec_color_type()) as int,
                x as int,
                y as int,
                width as int,
                height as int,
            ),
            old(self).spec_opens() && old(self).spec_stream().len() >= image_bytes(
                old(self).spec_dimensions().0,
                old(self).spec_dimensions().1,
                old(self).spec_color_type(),
            ) ==> r is Ok,
    {
        self.read_rect_with_progress(x, y, width, height, buf, |p: Progress| {})
    }

    /// Same as `read_rect`, and reports to `progress_callback` how many bytes
    /// of the rectangle have been read.
    fn read_rect_with_progress<F: Fn(Progress)>(
        &mut self,
        x: u32,
        y: u32,
        width: u32,
        height: u32,
        buf: &mut [u8],
        progress_callback: F,
    ) -> (r: ImageResult<()>)
        requires
            x + width <= old(self).spec_dimensions().0,
            y + height <= old(self).spec_dimensions().1,
            old(buf)@.len() == image_bytes(width, height, old(self).spec_color_type()),
            forall|p: Progress| is_read_progress(p, old(buf)@.len() as int)
                ==> #[trigger] progress_callback.requires((p,)),
        ensures
            final(self).spec_dimensions() == old(self).spec_dimensions(),
            final(self).spec_color_type() == old(self).spec_color_type(),
            final(buf)@.len() == old(buf)@.len(),
            r is Ok ==> final(buf)@ == rect_bytes(
                old(self).spec_stream(),
                old(self).spec_dimensions().0 as int,
                bytes_per_pixel_spec(old(self).spec_color_type()) as int,
                x as int,
                y as int,
                width as int,
                height as int,
            ),
            old(self).spec_opens() && old(self).spec_stream().len() >= image_bytes(
                old(self).spec_dimensions().0,
                old(self).spec_dimensions().1,
                old(self).spec_color_type(),
            ) ==> r is Ok,
    ;
}

} // verus!
