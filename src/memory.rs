use vstd::prelude::*;
use vstd::arithmetic::div_mod::{
    lemma_fundamental_div_mod_converse_div, lemma_fundamental_div_mod_converse_mod,
};

use crate::colortype::{bytes_per_pixel_spec, ColorType};
use crate::decoder::{
    image_bytes, is_read_progress, rect_bytes, rect_source, ByteReader, ImageDecoder,
    ImageDecoderExt, Progress,
};
use crate::error::{ImageError, ImageResult};

verus! {

/// A byte channel over bytes held in memory.
pub struct MemoryReader {
    data: Vec<u8>,
    pos: usize,
}

impl MemoryReader {
    /// A reader that yields `data`, in order.
    pub fn new(data: Vec<u8>) -> (r: MemoryReader)
        ensures
            r.pending() == data@,
            r.reliable(),
    {
        proof {
            assert(data@.skip(0) =~= data@);
        }
        MemoryReader { data, pos: 0 }
    }

    /// Number of bytes the reader has still to yield.
    pub fn remaining(&self) -> (r: usize)
        ensures
            r == self.pending().len(),
    {
        if self.pos <= self.data.len() {
            self.data.len() - self.pos
        } else {
            0
        }
    }
}

impl ByteReader for MemoryReader {
    closed spec fn pending(&self) -> Seq<u8> {
        if self.pos <= self.data@.len() {
            self.data@.skip(self.pos as int)
        } else {
            Seq::empty()
        }
    }

    closed spec fn reliable(&self) -> bool {
        true
    }

    fn read_exact(&mut self, buf: &mut [u8]) -> (r: ImageResult<()>) {
        let n = buf.len();
        let len = self.data.len();
        if self.pos > len {
            self.pos = len;
            proof {
                assert(self.data@.skip(len as int) =~= Seq::<u8>::empty());
            }
        }
        if n > len - self.pos {
            return Err(ImageError::Io);
        }
        let ghost start = self.pending();
        let mut i: usize = 0;
        while i < n
            invariant
                i <= n,
                n == buf@.len(),
                self.pos + n <= len,
                len == self.data@.len(),
                start == self.data@.skip(self.pos as int),
                forall|k: int| 0 <= k < i ==> buf@[k] == start[k],
            decreases n - i,
        {
            buf[i] = self.data[self.pos + i];
            i = i + 1;
        }
        proof {
            assert(buf@ =~= start.take(n as int));
            assert(self.data@.skip((self.pos + n) as int) =~= start.skip(n as int));
        }
        self.pos = self.pos + n;
        Ok(())
    }
}

/// A decoder for an image whose decoded bytes are already in memory, in
/// row-major order. It reads a row at a time and can read any rectangle.
pub struct MemoryDecoder {
    width: u32,
    height: u32,
    color: ColorType,
    data: Vec<u8>,
}

impl MemoryDecoder {
    /// A decoder for an image of `width` by `height` pixels of `color`
    /// whose decoded bytes are `data`.
    pub fn new(width: u32, height: u32, color: ColorType, data: Vec<u8>) -> (r: MemoryDecoder)
        ensures
            r.spec_dimensions() == (width, height),
            r.spec_color_type() == color,
            r.spec_stream() == data@,
            r.spec_opens() == (data@.len() >= image_bytes(width, height, color)),
    {
        MemoryDecoder { width, height, color, data }
    }

    /// Whether the data holds all the bytes of the image.
    fn holds_image(&self) -> (r: bool)
        ensures
            r == (self.data@.len() >= image_bytes(self.width, self.height, self.color)),
            self.data@.len() <= usize::MAX,
    {
        let bpp = self.color.bytes_per_pixel();
        proof {
            assert(self.width as int * self.height as int <= u128::MAX) by (nonlinear_arith)
                requires self.width <= u32::MAX, self.height <= u32::MAX;
        }
        let area = (self.width as u128) * (self.height as u128);
        proof {
            assert(area * (bpp as u128) <= u128::MAX) by (nonlinear_arith)
                requires
                    bpp <= 8,
                    area == self.width as int * self.height as int;
        }
        (self.data.len() as u128) >= area * (bpp as u128)
    }
}

impl<'a> ImageDecoder<'a> for MemoryDecoder {
    type Reader = MemoryReader;

    closed spec fn spec_dimensions(&self) -> (u32, u32) {
        (self.width, self.height)
    }

    closed spec fn spec_color_type(&self) -> ColorType {
        self.color
    }

    closed spec fn spec_stream(&self) -> Seq<u8> {
        self.data@
    }

    closed spec fn spec_opens(&self) -> bool {
        self.data@.len() >= image_bytes(self.width, self.height, self.color)
    }

    fn dimensions(&self) -> (r: (u32, u32)) {
        (self.width, self.height)
    }

    fn color_type(&self) -> (r: ColorType) {
        self.color
    }

    /// Fails with `Decoding` when the data is too short for the image.
    fn into_reader(self) -> (r: ImageResult<MemoryReader>)
        ensures
            r is Err <==> !self.spec_opens(),
            r is Err ==> r == Err::<MemoryReader, ImageError>(ImageError::Decoding),
    {
        if self.holds_image() {
            Ok(MemoryReader::new(self.data))
        } else {
            Err(ImageError::Decoding)
        }
    }

    /// One row of pixels.
    fn scanline_bytes(&self) -> (r: u64)
        ensures
            r == self.spec_dimensions().0 as int * bytes_per_pixel_spec(self.spec_color_type()),
    {
        let bpp = self.color.bytes_per_pixel();
        proof {
            assert(self.width as int * bpp as int <= u64::MAX) by (nonlinear_arith)
                requires bpp <= 8;
            assert(image_bytes(self.width, self.height, self.color) > 0 ==> self.width as int * bpp as int > 0)
                by (nonlinear_arith)
                requires
                    bpp == bytes_per_pixel_spec(self.color),
                    image_bytes(self.width, self.height, self.color) == self.width as int * self.height as int * bpp as int;
        }
        (self.width as u64) * (bpp as u64)
    }
}

/// Byte `r * (width * bpp) + c` of a sub-rectangle, that is byte `c` of its
/// row `r`, comes from byte `c` past the rectangle's left edge in row `y + r`
/// of the image.
proof fn lemma_rect_source_in_row(
    image_width: int,
    bpp: int,
    x: int,
    y: int,
    width: int,
    r: int,
    c: int,
)
    requires
        width * bpp > 0,
        0 <= c < width * bpp,
    ensures
        rect_source(image_width, bpp, x, y, width, r * (width * bpp) + c)
            == (y + r) * (image_width * bpp) + x * bpp + c,
{
    let d = width * bpp;
    lemma_fundamental_div_mod_converse_div(r * d + c, d, r, c);
    lemma_fundamental_div_mod_converse_mod(r * d + c, d, r, c);
}

/// Every byte of row `r` of a sub-rectangle that lies inside the image lies
/// inside the image's bytes.
proof fn lemma_rect_row_in_image(
    image_width: int,
    image_height: int,
    bpp: int,
    x: int,
    y: int,
    width: int,
    r: int,
    c: int,
)
    requires
        0 <= x,
        0 <= y,
        0 <= bpp,
        0 <= r,
        0 <= width,
        x + width <= image_width,
        y + r < image_height,
        0 <= c < width * bpp,
    ensures
        (y + r) * (image_width * bpp) + x * bpp + c < image_width * image_height * bpp,
        (y + r) * (image_width * bpp) + x * bpp + width * bpp <= image_width * image_height * bpp,
{
    assert((y + r) * (image_width * bpp) + x * bpp + width * bpp <= (y + r + 1) * (image_width * bpp))
        by (nonlinear_arith)
        requires
            x + width <= image_width,
            0 <= bpp;
    assert(0 <= image_width * bpp) by (nonlinear_arith)
        requires
            0 <= image_width,
            0 <= bpp;
    assert(image_width * image_height * bpp == image_height * (image_width * bpp)) by (nonlinear_arith);
    assert((y + r + 1) * (image_width * bpp) <= image_width * image_height * bpp) by (nonlinear_arith)
        requires
            y + r + 1 <= image_height,
            0 <= image_width * bpp,
            image_width * image_height * bpp == image_height * (image_width * bpp);
}

impl<'a> ImageDecoderExt<'a> for MemoryDecoder {
    fn read_rect_with_progress<F: Fn(Progress)>(
        &mut self,
        x: u32,
        y: u32,
        width: u32,
        height: u32,
        buf: &mut [u8],
        progress_callback: F,
    ) -> (r: ImageResult<()>) {
        let total = buf.len();
        let bpp = self.color.bytes_per_pixel() as usize;
        if !self.holds_image() {
            return Err(ImageError::Decoding);
        }
        if width == 0 || height == 0 {
            proof {
                assert(total == 0) by (nonlinear_arith)
                    requires
                        width == 0 || height == 0,
                        total == width as int * height as int * bpp as int;
                assert(buf@ =~= rect_bytes(self.data@, self.width as int, bpp as int, x as int, y as int, width as int, height as int));
            }
            return Ok(());
        }
        let ghost image_width = self.width as int;
        let ghost image_height = self.height as int;
        proof {
            assert(image_width * bpp <= image_width * image_height * bpp) by (nonlinear_arith)
                requires image_height >= 1, bpp >= 0, image_width >= 0;
            assert(width as int * bpp <= width as int * height as int * bpp) by (nonlinear_arith)
                requires height >= 1, bpp >= 0, width >= 0;
            assert(width as int * bpp > 0) by (nonlinear_arith)
                requires width >= 1, bpp >= 1;
            assert(total == height as int * (width as int * bpp)) by (nonlinear_arith)
                requires total == width as int * height as int * bpp as int;
        }
        let stride = (self.width as usize) * bpp;
        let row_len = (width as usize) * bpp;
        let ghost image = self.data@;
        let mut row: usize = 0;
        while row < height as usize
            invariant
                self.data@ == image,
                self.width as int == image_width,
                self.height as int == image_height,
                total == buf@.len(),
                total == width as int * height as int * bpp as int,
                bpp >= 1,
                stride == image_width * bpp,
                row_len == width as int * bpp,
                row_len > 0,
                x + width <= image_width,
                y + height <= image_height,
                image_width * image_height * bpp <= image.len(),
                image.len() <= usize::MAX,
                total == height as int * row_len,
                row <= height,
                forall|k: int| 0 <= k < row * row_len ==> #[trigger] buf@[k]
                    == image[rect_source(image_width, bpp as int, x as int, y as int, width as int, k)],
                forall|p: Progress| is_read_progress(p, total as int)
                    ==> #[trigger] progress_callback.requires((p,)),
            decreases height - row,
        {
            proof {
                lemma_rect_row_in_image(image_width, image_height, bpp as int, x as int, y as int, width as int, row as int, 0);
                assert(row * row_len + row_len <= total) by (nonlinear_arith)
                    requires
                        row + 1 <= height,
                        row_len >= 0,
                        total == height * row_len;
                assert(0 <= x as int * bpp) by (nonlinear_arith);
                assert(0 <= (y + row) * (image_width * bpp)) by (nonlinear_arith)
                    requires image_width >= 0, bpp >= 0;
                assert(0 <= row * row_len) by (nonlinear_arith);
            }
            let src = (y as usize + row) * stride + (x as usize) * bpp;
            let dst = row * row_len;
            let ghost before = buf@;
            let mut c: usize = 0;
            while c < row_len
                invariant
                    self.data@ == image,
                    total == buf@.len(),
                    c <= row_len,
                    dst == row * row_len,
                    dst + row_len <= total,
                    src == (y + row) * (image_width * bpp) + x * bpp,
                    src + row_len <= image.len(),
                    image.len() <= usize::MAX,
                    forall|k: int| 0 <= k < dst ==> buf@[k] == before[k],
                    forall|k: int| 0 <= k < c ==> #[trigger] buf@[dst + k] == image[src + k],
                decreases row_len - c,
            {
                buf[dst + c] = self.data[src + c];
                c = c + 1;
            }
            proof {
                assert((row + 1) * row_len == row * row_len + row_len) by (nonlinear_arith);
                assert forall|k: int| 0 <= k < (row + 1) * row_len implies #[trigger] buf@[k]
                    == image[rect_source(image_width, bpp as int, x as int, y as int, width as int, k)] by {
                    if k >= row * row_len {
                        let cc = k - row * row_len;
                        assert(cc < row_len) by (nonlinear_arith)
                            requires k < (row + 1) * row_len, cc == k - row * row_len;
                        lemma_rect_source_in_row(image_width, bpp as int, x as int, y as int, width as int, row as int, cc);
                        assert(buf@[dst + cc] == image[src + cc]);
                    } else {
                        assert(buf@[k] == before[k]);
                    }
                }
            }
            row = row + 1;
            progress_callback(Progress { current: (row * row_len) as u64, total: total as u64 });
        }
        proof {
            assert(buf@ =~= rect_bytes(image, image_width, bpp as int, x as int, y as int, width as int, height as int));
        }
        Ok(())
    }
}

} // verus!
