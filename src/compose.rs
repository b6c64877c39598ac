use vstd::prelude::*;
use crate::picture::{Picture, pos, pixel_index, lemma_pos_bound, lemma_pos_injective};
use crate::image_set::{
    ImageSet, offset, span, total_width, max_height, lemma_span_grows, lemma_slot_bounds,
    lemma_tallest,
};

verus! {

/// Pixel `(x, y)` of the canvas lies in the slot of picture `k`.
pub open spec fn in_slot(imgs: Seq<Picture>, s: nat, k: int, x: int, y: int) -> bool {
    &&& offset(imgs, s, k) <= x < offset(imgs, s, k) + imgs[k].width
    &&& 0 <= y < imgs[k].height
}

/// Pixel `(x, y)` lies in the slot of one of the first `n` pictures.
pub open spec fn covered(imgs: Seq<Picture>, s: nat, n: int, x: int, y: int) -> bool {
    exists|k: int| 0 <= k < n && #[trigger] in_slot(imgs, s, k, x, y)
}

/// `out` is the strip of `imgs` with gap `s`: its size is the aggregate
/// geometry, each picture's pixels stand verbatim at its offset, and every
/// other pixel is transparent black.
pub open spec fn is_strip(imgs: Seq<Picture>, s: nat, out: Picture) -> bool {
    &&& out.wf()
    &&& out.width as nat == total_width(imgs, s)
    &&& out.height as nat == max_height(imgs)
    &&& forall|k: int, x: int, y: int, c: int|
        0 <= k < imgs.len() && 0 <= x < imgs[k].width && 0 <= y < imgs[k].height && 0 <= c < 4
            ==> #[trigger] out.byte(offset(imgs, s, k) + x, y, c) == #[trigger] imgs[k].byte(x, y, c)
    &&& forall|x: int, y: int, c: int|
        0 <= x < out.width && 0 <= y < out.height && 0 <= c < 4
            && !covered(imgs, s, imgs.len() as int, x, y)
            ==> #[trigger] out.byte(x, y, c) == 0
}

/// A buffer of `n` zero bytes.
fn zeroed(n: usize) -> (r: Vec<u8>)
    ensures
        r@.len() == n,
        forall|i: int| 0 <= i < n ==> r@[i] == 0,
{
    let mut v: Vec<u8> = Vec::with_capacity(n);
    let mut i: usize = 0;
    while i < n
        invariant
            i <= n,
            v@.len() == i,
            forall|j: int| 0 <= j < i ==> v@[j] == 0,
        decreases n - i,
    {
        v.push(0);
        i = i + 1;
    }
    v
}

/// Copies the four channels at `src[j..j + 4]` to `dst[i..i + 4]`.
fn copy_pixel(dst: &mut Vec<u8>, i: usize, src: &Vec<u8>, j: usize)
    requires
        i + 4 <= old(dst)@.len(),
        j + 4 <= src@.len(),
    ensures
        final(dst)@.len() == old(dst)@.len(),
        forall|t: int| 0 <= t < final(dst)@.len() ==> #[trigger] final(dst)@[t] == (
            if i <= t < i + 4 { src@[j + t - i] } else { old(dst)@[t] }),
{
    let _ = dst.len();
    let _ = src.len();
    dst.set(i, src[j]);
    dst.set(i + 1, src[j + 1]);
    dst.set(i + 2, src[j + 2]);
    dst.set(i + 3, src[j + 3]);
}

/// Canvas bytes after `img` has been placed at column `x_off`, complete for
/// rows above `y` and for the first `x` pixels of row `y`.
pub open spec fn placed_upto(
    now: Seq<u8>, before: Seq<u8>, cw: int, ch: int, img: Picture, x_off: int, x: int, y: int,
) -> bool {
    forall|cx: int, cy: int, c: int|
        0 <= cx < cw && 0 <= cy < ch && 0 <= c < 4 ==> #[trigger] now[pos(cw, cx, cy, c)] == (
            if x_off <= cx < x_off + img.width && (cy < y || (cy == y && cx < x_off + x)) {
                img.byte(cx - x_off, cy, c)
            } else {
                before[pos(cw, cx, cy, c)]
            })
}

/// Writes the pixels of `img` into a `cw` by `ch` canvas with its left edge
/// at column `x_off` and its top at row 0, overwriting what was there.
pub fn blit(canvas: &mut Vec<u8>, cw: u32, ch: u32, img: &Picture, x_off: u32)
    requires
        old(canvas)@.len() == cw as nat * ch as nat * 4,
        img.wf(),
        x_off + img.width <= cw,
        img.height <= ch,
    ensures
        final(canvas)@.len() == old(canvas)@.len(),
        forall|cx: int, cy: int, c: int|
            0 <= cx < cw && 0 <= cy < ch && 0 <= c < 4 ==> #[trigger] final(canvas)@[pos(cw as int, cx, cy, c)] == (
                if x_off <= cx < x_off + img.width && cy < img.height {
                    img.byte(cx - x_off, cy, c)
                } else {
                    old(canvas)@[pos(cw as int, cx, cy, c)]
                }),
{
    let ghost before = canvas@;
    let _ = canvas.len();
    let _ = img.data.len();
    let w = img.width;
    let h = img.height;
    let mut y: u32 = 0;
    while y < h
        invariant
            canvas@.len() == before.len() == cw as nat * ch as nat * 4,
            canvas@.len() <= usize::MAX,
            img.data@.len() <= usize::MAX,
            img.wf(),
            w == img.width,
            h == img.height,
            x_off + w <= cw,
            h <= ch,
            y <= h,
            placed_upto(canvas@, before, cw as int, ch as int, *img, x_off as int, 0, y as int),
        decreases h - y,
    {
        let mut x: u32 = 0;
        while x < w
            invariant
                canvas@.len() == before.len() == cw as nat * ch as nat * 4,
                canvas@.len() <= usize::MAX,
                img.data@.len() <= usize::MAX,
                img.wf(),
                w == img.width,
                h == img.height,
                x_off + w <= cw,
                h <= ch,
                y < h,
                x <= w,
                placed_upto(canvas@, before, cw as int, ch as int, *img, x_off as int, x as int, y as int),
            decreases w - x,
        {
            let i = pixel_index(cw, ch, x_off + x, y);
            let j = pixel_index(w, h, x, y);
            let ghost mid = canvas@;
            copy_pixel(canvas, i, &img.data, j);
            proof {
                assert forall|cx: int, cy: int, c: int|
                    0 <= cx < cw && 0 <= cy < ch && 0 <= c < 4 implies #[trigger] canvas@[pos(cw as int, cx, cy, c)] == (
                        if x_off <= cx < x_off + img.width && (cy < y || (cy == y && cx < x_off + x + 1)) {
                            img.byte(cx - x_off, cy, c)
                        } else {
                            before[pos(cw as int, cx, cy, c)]
                        }) by {
                    let p = pos(cw as int, cx, cy, c);
                    lemma_pos_bound(cw as int, ch as int, cx, cy, c);
                    assert(mid[p] == (
                        if x_off <= cx < x_off + img.width && (cy < y || (cy == y && cx < x_off + x)) {
                            img.byte(cx - x_off, cy, c)
                        } else {
                            before[p]
                        }));
                    if i <= p < i + 4 {
                        let d = p - i;
                        assert(p == pos(cw as int, (x_off + x) as int, y as int, d));
                        lemma_pos_injective(cw as int, cx, cy, c, (x_off + x) as int, y as int, d);
                        assert(img.data@[j + d] == img.byte(x as int, y as int, c));
                    } else {
                        if cx == x_off + x && cy == y {
                            assert(p == i + c);
                        }
                    }
                }
            }
            x = x + 1;
        }
        proof {
            assert forall|cx: int, cy: int, c: int|
                0 <= cx < cw && 0 <= cy < ch && 0 <= c < 4 implies #[trigger] canvas@[pos(cw as int, cx, cy, c)] == (
                    if x_off <= cx < x_off + img.width && (cy < y + 1 || (cy == y + 1 && cx < x_off + 0)) {
                        img.byte(cx - x_off, cy, c)
                    } else {
                        before[pos(cw as int, cx, cy, c)]
                    }) by {
                assert(canvas@[pos(cw as int, cx, cy, c)] == (
                    if x_off <= cx < x_off + img.width && (cy < y || (cy == y && cx < x_off + x)) {
                        img.byte(cx - x_off, cy, c)
                    } else {
                        before[pos(cw as int, cx, cy, c)]
                    }));
            }
        }
        y = y + 1;
    }
}

impl ImageSet {
    /// Lays the pictures out left to right on a transparent canvas of the
    /// set's size, `spacing` pixels apart, each copied verbatim with its top
    /// on row 0.
    pub fn compose(&self) -> (r: Picture)
        requires
            self.wf(),
        ensures
            is_strip(self.images@, self.spacing as nat, r),
            r.width == self.total_width,
            r.height == self.max_height,
            forall|k: int, x: int, y: int, c: int|
                0 <= k < self.images@.len() && 0 <= x < self.images@[k].width && 0 <= y < self.images@[k].height
                    && 0 <= c < 4 ==> #[trigger] r.byte(offset(self.images@, self.spacing as nat, k) + x, y, c)
                    == #[trigger] self.images@[k].byte(x, y, c),
            forall|x: int, y: int, c: int|
                0 <= x < r.width && 0 <= y < r.height && 0 <= c < 4
                    && !covered(self.images@, self.spacing as nat, self.images@.len() as int, x, y)
                    ==> #[trigger] r.byte(x, y, c) == 0,
    {
        let ghost imgs = self.images@;
        let ghost s = self.spacing as nat;
        let cw = self.total_width;
        let ch = self.max_height;
        let n = self.images.len();
        let len = cw as usize * ch as usize * 4;
        let mut canvas = zeroed(len);
        proof {
            lemma_tallest(imgs, n as int);
            assert forall|x: int, y: int, c: int|
                0 <= x < cw && 0 <= y < ch && 0 <= c < 4 implies #[trigger] canvas@[pos(cw as int, x, y, c)] == 0 by {
                lemma_pos_bound(cw as int, ch as int, x, y, c);
            }
        }
        let mut x_off: u32 = 0;
        let mut k: usize = 0;
        while k < n
            invariant
                self.wf(),
                imgs == self.images@,
                s == self.spacing as nat,
                n == imgs.len(),
                cw == self.total_width,
                ch == self.max_height,
                k <= n,
                canvas@.len() == cw as nat * ch as nat * 4,
                x_off as nat == span(imgs, s, k as int),
                forall|i: int| 0 <= i < n ==> (#[trigger] imgs[i]).height <= ch,
                forall|j: int, x: int, y: int, c: int|
                    0 <= j < k && 0 <= x < imgs[j].width && 0 <= y < imgs[j].height && 0 <= c < 4
                        ==> #[trigger] canvas@[pos(cw as int, offset(imgs, s, j) + x, y, c)]
                            == #[trigger] imgs[j].byte(x, y, c),
                forall|x: int, y: int, c: int|
                    0 <= x < cw && 0 <= y < ch && 0 <= c < 4 && !covered(imgs, s, k as int, x, y)
                        ==> #[trigger] canvas@[pos(cw as int, x, y, c)] == 0,
            decreases n - k,
        {
            let ghost before = canvas@;
            proof {
                lemma_slot_bounds(imgs, s, k as int);
                lemma_span_grows(imgs, s, k as int + 1, n as int);
                assert(imgs[k as int].wf());
            }
            if k > 0 {
                x_off = x_off + self.spacing;
            }
            let img = &self.images[k];
            blit(&mut canvas, cw, ch, img, x_off);
            proof {
                assert forall|j: int, x: int, y: int, c: int|
                    0 <= j < k + 1 && 0 <= x < imgs[j].width && 0 <= y < imgs[j].height && 0 <= c < 4
                        implies #[trigger] canvas@[pos(cw as int, offset(imgs, s, j) + x, y, c)]
                            == #[trigger] imgs[j].byte(x, y, c) by {
                    lemma_slot_bounds(imgs, s, j);
                    lemma_span_grows(imgs, s, j + 1, n as int);
                    if j < k {
                        lemma_span_grows(imgs, s, j + 1, k as int);
                    }
                }
                assert forall|x: int, y: int, c: int|
                    0 <= x < cw && 0 <= y < ch && 0 <= c < 4 && !covered(imgs, s, k + 1, x, y)
                        implies #[trigger] canvas@[pos(cw as int, x, y, c)] == 0 by {
                    assert(!in_slot(imgs, s, k as int, x, y));
                    if covered(imgs, s, k as int, x, y) {
                        let j = choose|j: int| 0 <= j < k && #[trigger] in_slot(imgs, s, j, x, y);
                        assert(in_slot(imgs, s, j, x, y));
                    }
                    assert(before[pos(cw as int, x, y, c)] == 0);
                }
            }
            x_off = x_off + img.width;
            k = k + 1;
        }
        let r = Picture { width: cw, height: ch, data: canvas };
        proof {
            assert forall|kk: int, x: int, y: int, c: int|
                0 <= kk < imgs.len() && 0 <= x < imgs[kk].width && 0 <= y < imgs[kk].height && 0 <= c < 4
                    implies #[trigger] r.byte(offset(imgs, s, kk) + x, y, c) == #[trigger] imgs[kk].byte(x, y, c) by {
                assert(r.data@[pos(cw as int, offset(imgs, s, kk) + x, y, c)] == imgs[kk].byte(x, y, c));
            }
            assert forall|x: int, y: int, c: int|
                0 <= x < r.width && 0 <= y < r.height && 0 <= c < 4
                    && !covered(imgs, s, imgs.len() as int, x, y)
                    implies #[trigger] r.byte(x, y, c) == 0 by {
                assert(r.data@[pos(cw as int, x, y, c)] == 0);
            }
        }
        r
    }
}

/// Composing is deterministic: any two strips of the same pictures with the
/// same gap have the same size and the same bytes.
pub proof fn lemma_strip_unique(imgs: Seq<Picture>, s: nat, a: Picture, b: Picture)
    requires
        is_strip(imgs, s, a),
        is_strip(imgs, s, b),
    ensures
        a.width == b.width,
        a.height == b.height,
        a.data@ == b.data@,
{
    let w = a.width as int;
    let h = a.height as int;
    assert forall|t: int| 0 <= t < a.data@.len() implies a.data@[t] == b.data@[t] by {
        let q = t / 4;
        let c = t % 4;
        let x = q % w;
        let y = q / w;
        assert(w > 0 && 0 <= x < w && 0 <= y < h && 0 <= c < 4 && pos(w, x, y, c) == t) by (nonlinear_arith)
            requires 0 <= t < w * h * 4, q == t / 4, c == t % 4, x == q % w, y == q / w, w >= 0, h >= 0,
                pos(w, x, y, c) == (y * w + x) * 4 + c;
        if covered(imgs, s, imgs.len() as int, x, y) {
            let k = choose|k: int| 0 <= k < imgs.len() && #[trigger] in_slot(imgs, s, k, x, y);
            let o = offset(imgs, s, k);
            assert(a.byte(o + (x - o), y, c) == imgs[k].byte(x - o, y, c));
            assert(b.byte(o + (x - o), y, c) == imgs[k].byte(x - o, y, c));
        } else {
            assert(a.byte(x, y, c) == 0);
            assert(b.byte(x, y, c) == 0);
        }
    }
    assert(a.data@ =~= b.data@);
}

} // verus!
