use vstd::prelude::*;

verus! {

/// Position of channel `c` of pixel `(x, y)` in the row-major RGBA bytes of
/// a picture that is `w` pixels wide.
pub open spec fn pos(w: int, x: int, y: int, c: int) -> int {
    (y * w + x) * 4 + c
}

/// An RGBA raster: four bytes per pixel (red, green, blue, alpha), rows top
/// to bottom, pixels left to right within a row.
#[derive(Debug, Clone)]
pub struct Picture {
    pub width: u32,
    pub height: u32,
    pub data: Vec<u8>,
}

impl Picture {
    /// The byte buffer holds exactly four channels per pixel.
    pub open spec fn wf(&self) -> bool {
        self.data@.len() == self.width as nat * self.height as nat * 4
    }

    /// Channel `c` of pixel `(x, y)`.
    pub open spec fn byte(&self, x: int, y: int, c: int) -> u8 {
        self.data@[pos(self.width as int, x, y, c)]
    }

    /// Wraps a raw RGBA buffer; `None` when its length is not four bytes for
    /// each of the `width * height` pixels.
    pub fn new(width: u32, height: u32, data: Vec<u8>) -> (r: Option<Picture>)
        ensures
            r is Some <==> data@.len() == width as nat * height as nat * 4,
            r matches Some(p) ==> p.width == width && p.height == height && p.data@ == data@,
    {
        if buffer_len(width, height) == data.len() as u128 {
            Some(Picture { width, height, data })
        } else {
            None
        }
    }

    /// Whether the buffer length matches the dimensions.
    pub fn is_well_formed(&self) -> (r: bool)
        ensures
            r == self.wf(),
    {
        buffer_len(self.width, self.height) == self.data.len() as u128
    }

    /// The four channels of pixel `(x, y)`.
    pub fn pixel(&self, x: u32, y: u32) -> (r: [u8; 4])
        requires
            self.wf(),
            x < self.width,
            y < self.height,
        ensures
            r@ == seq![self.byte(x as int, y as int, 0), self.byte(x as int, y as int, 1),
                self.byte(x as int, y as int, 2), self.byte(x as int, y as int, 3)],
    {
        let _ = self.data.len();
        let i = pixel_index(self.width, self.height, x, y);
        let r = [self.data[i], self.data[i + 1], self.data[i + 2], self.data[i + 3]];
        assert(r@ =~= seq![self.data@[i as int], self.data@[i + 1], self.data@[i + 2], self.data@[i + 3]]);
        r
    }
}

/// Number of bytes in a `width` by `height` RGBA buffer.
pub fn buffer_len(width: u32, height: u32) -> (r: u128)
    ensures
        r as nat == width as nat * height as nat * 4,
{
    let w = width as u128;
    let h = height as u128;
    assert(w * h * 4 <= 0x4_0000_0000_0000_0000) by (nonlinear_arith)
        requires w <= u32::MAX, h <= u32::MAX;
    w * h * 4
}

/// Channel positions stay inside a `w` by `h` buffer.
pub proof fn lemma_pos_bound(w: int, h: int, x: int, y: int, c: int)
    requires
        0 <= x < w,
        0 <= y < h,
        0 <= c < 4,
    ensures
        0 <= pos(w, x, y, c) < w * h * 4,
        pos(w, x, y, c) + 4 - c <= w * h * 4,
{
    assert(0 <= y * w + x < w * h) by (nonlinear_arith)
        requires 0 <= x < w, 0 <= y < h;
}

/// Distinct in-bounds coordinates map to distinct positions.
pub proof fn lemma_pos_injective(w: int, x1: int, y1: int, c1: int, x2: int, y2: int, c2: int)
    requires
        0 <= x1 < w,
        0 <= x2 < w,
        0 <= y1,
        0 <= y2,
        0 <= c1 < 4,
        0 <= c2 < 4,
        pos(w, x1, y1, c1) == pos(w, x2, y2, c2),
    ensures
        x1 == x2 && y1 == y2 && c1 == c2,
{
    assert(y1 * w + x1 == y2 * w + x2 && c1 == c2);
    assert(y1 == y2) by (nonlinear_arith)
        requires 0 <= x1 < w, 0 <= x2 < w, 0 <= y1, 0 <= y2, y1 * w + x1 == y2 * w + x2;
}

/// Index of the first channel of pixel `(x, y)` in a `width` by `height` buffer.
pub fn pixel_index(width: u32, height: u32, x: u32, y: u32) -> (r: usize)
    requires
        x < width,
        y < height,
        width as nat * height as nat * 4 <= usize::MAX,
    ensures
        r as int == pos(width as int, x as int, y as int, 0),
        r + 4 <= width as nat * height as nat * 4,
{
    proof { lemma_pos_bound(width as int, height as int, x as int, y as int, 0); }
    let row = y as usize * width as usize;
    (row + x as usize) * 4
}

} // verus!
