use vstd::prelude::*;

verus! {

/// Number of bytes per RGBA pixel.
pub const BYTES_PER_PIXEL: usize = 4;

/// Index of channel `c` of pixel `(x, y)` in a row-major RGBA buffer of the
/// given width.
pub open spec fn byte_index(width: int, x: int, y: int, c: int) -> int {
    (y * width + x) * 4 + c
}

/// Value of channel `c` of pixel `(x, y)` in a row-major RGBA buffer.
pub open spec fn channel(src: Seq<u8>, width: int, x: int, y: int, c: int) -> int {
    src[byte_index(width, x, y, c)] as int
}

/// Whether the buffer holds exactly `width * height` RGBA pixels.
pub open spec fn shaped(src: Seq<u8>, width: int, height: int) -> bool {
    src.len() == width * height * 4
}

/// Whether `(x, y)` has its whole 3x3 neighbourhood inside the image.
pub open spec fn is_interior(width: int, height: int, x: int, y: int) -> bool {
    1 <= x < width - 1 && 1 <= y < height - 1
}

/// A rectangular RGBA8 raster, stored row-major, four bytes per pixel.
pub struct RgbaImage {
    pub width: u32,
    pub height: u32,
    pub data: Vec<u8>,
}

impl RgbaImage {
    /// The buffer length matches the dimensions.
    pub open spec fn wf(&self) -> bool {
        shaped(self.data@, self.width as int, self.height as int)
    }

    /// Wraps a raw buffer; there is none when its length is not
    /// `width * height * 4`.
    pub fn from_raw(width: u32, height: u32, data: Vec<u8>) -> (r: Option<RgbaImage>)
        ensures
            shaped(data@, width as int, height as int) <==> r is Some,
            r matches Some(img) ==> img.width == width && img.height == height
                && img.data@ == data@,
    {
        assert(width as int * height as int <= u64::MAX) by (nonlinear_arith)
            requires
                width <= u32::MAX,
                height <= u32::MAX,
        ;
        let pixels: u64 = width as u64 * height as u64;
        let len: usize = data.len();
        if len % BYTES_PER_PIXEL == 0 && (len / BYTES_PER_PIXEL) as u64 == pixels {
            Some(RgbaImage { width, height, data })
        } else {
            None
        }
    }

    /// Channel `c` of pixel `(x, y)`.
    pub fn channel_at(&self, x: u32, y: u32, c: usize) -> (r: u8)
        requires
            self.wf(),
            x < self.width,
            y < self.height,
            c < 4,
        ensures
            r as int == channel(self.data@, self.width as int, x as int, y as int, c as int),
    {
        let i: usize = self.index_of(x, y, c);
        self.data[i]
    }

    /// Position of channel `c` of pixel `(x, y)` in the buffer.
    pub fn index_of(&self, x: u32, y: u32, c: usize) -> (r: usize)
        requires
            self.wf(),
            x < self.width,
            y < self.height,
            c < 4,
        ensures
            r as int == byte_index(self.width as int, x as int, y as int, c as int),
            r < self.data@.len(),
    {
        let len: usize = self.data.len();
        proof {
            lemma_index_in_bounds(self.width as int, self.height as int, x as int, y as int, c as int);
        }
        (y as usize * self.width as usize + x as usize) * BYTES_PER_PIXEL + c
    }
}

/// A channel index of an in-bounds pixel lies inside the buffer.
pub proof fn lemma_index_in_bounds(width: int, height: int, x: int, y: int, c: int)
    requires
        0 <= x < width,
        0 <= y < height,
        0 <= c < 4,
    ensures
        0 <= y * width + x < width * height,
        0 <= byte_index(width, x, y, c) < width * height * 4,
{
    assert(0 <= y * width + x < width * height) by (nonlinear_arith)
        requires
            0 <= x < width,
            0 <= y < height,
    ;
    assert(byte_index(width, x, y, c) < width * height * 4) by (nonlinear_arith)
        requires
            0 <= y * width + x < width * height,
            0 <= c < 4,
            byte_index(width, x, y, c) == (y * width + x) * 4 + c,
    ;
}

} // verus!
