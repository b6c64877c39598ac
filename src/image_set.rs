use vstd::prelude::*;
use crate::picture::Picture;

verus! {

/// Sum of the widths of the first `k` pictures.
pub open spec fn widths_sum(imgs: Seq<Picture>, k: int) -> nat
    decreases k,
{
    if k <= 0 {
        0
    } else {
        widths_sum(imgs, k - 1) + imgs[k - 1].width as nat
    }
}

/// Width taken by the first `k` pictures with `s` pixels between neighbours.
pub open spec fn span(imgs: Seq<Picture>, s: nat, k: int) -> nat {
    if k <= 0 {
        0
    } else {
        widths_sum(imgs, k) + s * (k - 1) as nat
    }
}

/// Left edge of picture `k` on the canvas.
pub open spec fn offset(imgs: Seq<Picture>, s: nat, k: int) -> nat {
    widths_sum(imgs, k) + s * (if k <= 0 { 0nat } else { k as nat })
}

/// Width of the whole strip: all widths plus one gap between each pair of neighbours.
pub open spec fn total_width(imgs: Seq<Picture>, s: nat) -> nat {
    span(imgs, s, imgs.len() as int)
}

/// Tallest height among the first `k` pictures (0 for none).
pub open spec fn tallest(imgs: Seq<Picture>, k: int) -> nat
    decreases k,
{
    if k <= 0 {
        0
    } else {
        let m = tallest(imgs, k - 1);
        let h = imgs[k - 1].height as nat;
        if h > m { h } else { m }
    }
}

/// Height of the strip: that of its tallest picture.
pub open spec fn max_height(imgs: Seq<Picture>) -> nat {
    tallest(imgs, imgs.len() as int)
}

/// Why a set of pictures cannot be laid out.
#[derive(Debug, Clone, Copy, PartialEq, Eq)]
pub enum LayoutError {
    /// There is no picture to lay out.
    NoImages,
    /// The canvas would not fit in `u32` dimensions or in memory.
    TooLarge,
}

/// An ordered, non-empty list of pictures with the gap between them and the
/// canvas size they call for.
pub struct ImageSet {
    pub images: Vec<Picture>,
    pub spacing: u32,
    pub total_width: u32,
    pub max_height: u32,
}

impl ImageSet {
    pub open spec fn wf(&self) -> bool {
        &&& self.images@.len() > 0
        &&& forall|i: int| 0 <= i < self.images@.len() ==> (#[trigger] self.images@[i]).wf()
        &&& self.total_width as nat == total_width(self.images@, self.spacing as nat)
        &&& self.max_height as nat == max_height(self.images@)
        &&& self.total_width as nat * self.max_height as nat * 4 <= usize::MAX
    }

    /// Computes the canvas size of `images` laid out left to right with
    /// `spacing` pixels between neighbours.
    pub fn new(images: Vec<Picture>, spacing: u32) -> (r: Result<ImageSet, LayoutError>)
        requires
            forall|i: int| 0 <= i < images@.len() ==> (#[trigger] images@[i]).wf(),
        ensures
            r == Err::<ImageSet, LayoutError>(LayoutError::NoImages) <==> images@.len() == 0,
            r == Err::<ImageSet, LayoutError>(LayoutError::TooLarge) <==> images@.len() > 0 && (
                total_width(images@, spacing as nat) > u32::MAX
                || total_width(images@, spacing as nat) * max_height(images@) * 4 > usize::MAX),
            r matches Ok(set) ==> set.wf() && set.images@ == images@ && set.spacing == spacing,
            r matches Ok(set) ==> set.total_width as nat
                == widths_sum(images@, images@.len() as int) + spacing as nat * (images@.len() - 1) as nat,
            r matches Ok(set) ==> forall|i: int| 0 <= i < images@.len()
                ==> (#[trigger] images@[i]).height <= set.max_height,
            r matches Ok(set) ==> exists|i: int| 0 <= i < images@.len()
                && (#[trigger] images@[i]).height == set.max_height,
    {
        let n = images.len();
        if n == 0 {
            return Err(LayoutError::NoImages);
        }
        let mut width: u32 = 0;
        let mut height: u32 = 0;
        let mut i: usize = 0;
        while i < n
            invariant
                0 < n == images@.len(),
                i <= n,
                width as nat == span(images@, spacing as nat, i as int),
                height as nat == tallest(images@, i as int),
            decreases n - i,
        {
            proof {
                let si = spacing as nat * i as nat;
                assert(widths_sum(images@, i + 1) == widths_sum(images@, i as int) + images@[i as int].width as nat);
                assert(((i + 1) - 1) as nat == i as nat);
                if i == 0 {
                    assert(spacing as nat * 0nat == 0) by (nonlinear_arith);
                }
                if i > 0 {
                    assert(si == spacing as nat * (i - 1) as nat + spacing as nat) by (nonlinear_arith)
                        requires i > 0, si == spacing as nat * i as nat;
                }
                assert(span(images@, spacing as nat, i + 1) == width as nat
                    + (if i > 0 { spacing as nat } else { 0 }) + images@[i as int].width as nat);
            }
            let mut next = width;
            if i > 0 {
                match next.checked_add(spacing) {
                    Some(v) => next = v,
                    None => {
                        proof { lemma_span_grows(images@, spacing as nat, i as int + 1, n as int); }
                        return Err(LayoutError::TooLarge);
                    }
                }
            }
            match next.checked_add(images[i].width) {
                Some(v) => next = v,
                None => {
                    proof { lemma_span_grows(images@, spacing as nat, i as int + 1, n as int); }
                    return Err(LayoutError::TooLarge);
                }
            }
            width = next;
            if images[i].height > height {
                height = images[i].height;
            }
            i = i + 1;
        }
        let area = (width as usize).checked_mul(height as usize);
        match area {
            Some(a) => {
                match a.checked_mul(4) {
                    Some(_) => {
                        proof {
                            lemma_width_additive(images@, spacing as nat);
                            lemma_height_is_max(images@);
                        }
                        Ok(ImageSet { images, spacing, total_width: width, max_height: height })
                    }
                    None => Err(LayoutError::TooLarge),
                }
            }
            None => {
                assert(width as nat * height as nat * 4 > usize::MAX) by (nonlinear_arith)
                    requires width as nat * height as nat > usize::MAX;
                Err(LayoutError::TooLarge)
            }
        }
    }
}

/// The span of a prefix never exceeds the span of a longer prefix.
pub proof fn lemma_span_grows(imgs: Seq<Picture>, s: nat, j: int, k: int)
    requires
        0 <= j <= k <= imgs.len(),
    ensures
        span(imgs, s, j) <= span(imgs, s, k),
    decreases k - j,
{
    if j < k {
        lemma_span_grows(imgs, s, j, k - 1);
        if k - 1 > 0 {
            assert(s * (k - 1) as nat >= s * (k - 2) as nat) by (nonlinear_arith)
                requires k >= 2;
        }
    }
}

/// The slot of picture `k` ends where the span of the first `k + 1` pictures
/// ends, and starts no earlier than the span of the first `k` ends.
pub proof fn lemma_slot_bounds(imgs: Seq<Picture>, s: nat, k: int)
    requires
        0 <= k < imgs.len(),
    ensures
        offset(imgs, s, k) + imgs[k].width == span(imgs, s, k + 1),
        span(imgs, s, k) <= offset(imgs, s, k),
        k > 0 ==> offset(imgs, s, k) == span(imgs, s, k) + s,
{
    assert(widths_sum(imgs, k + 1) == widths_sum(imgs, k) + imgs[k].width as nat);
    assert(((k + 1) - 1) as nat == k as nat);
    if k > 0 {
        assert(s * k as nat == s * (k - 1) as nat + s) by (nonlinear_arith)
            requires k > 0;
    } else {
        assert(s * 0nat == 0) by (nonlinear_arith);
    }
}

/// Every one of the first `k` heights is at most `tallest(imgs, k)`, and
/// for `k > 0` one of them equals it.
pub proof fn lemma_tallest(imgs: Seq<Picture>, k: int)
    requires
        0 <= k <= imgs.len(),
    ensures
        forall|i: int| 0 <= i < k ==> (#[trigger] imgs[i]).height <= tallest(imgs, k),
        k > 0 ==> exists|i: int| 0 <= i < k && (#[trigger] imgs[i]).height == tallest(imgs, k),
    decreases k,
{
    if k > 0 {
        lemma_tallest(imgs, k - 1);
        let m = tallest(imgs, k - 1);
        let h = imgs[k - 1].height as nat;
        assert(tallest(imgs, k) == if h > m { h } else { m });
        if k > 1 && h <= m {
            let i = choose|i: int| 0 <= i < k - 1 && (#[trigger] imgs[i]).height == tallest(imgs, k - 1);
            assert(0 <= i < k && imgs[i].height == tallest(imgs, k));
        } else {
            assert(imgs[k - 1].height == tallest(imgs, k));
        }
    }
}

/// The strip is as wide as all its pictures together plus one gap between
/// each pair of neighbours, and no gap before the first or after the last.
pub proof fn lemma_width_additive(imgs: Seq<Picture>, s: nat)
    requires
        imgs.len() > 0,
    ensures
        total_width(imgs, s) == widths_sum(imgs, imgs.len() as int) + s * (imgs.len() - 1) as nat,
{
}

/// The strip is exactly as tall as its tallest picture: none is taller, and
/// one reaches it.
pub proof fn lemma_height_is_max(imgs: Seq<Picture>)
    requires
        imgs.len() > 0,
    ensures
        forall|i: int| 0 <= i < imgs.len() ==> (#[trigger] imgs[i]).height <= max_height(imgs),
        exists|i: int| 0 <= i < imgs.len() && (#[trigger] imgs[i]).height == max_height(imgs),
{
    lemma_tallest(imgs, imgs.len() as int);
}

} // verus!
