use vstd::prelude::*;

use crate::buffer::{lemma_index_in_bounds, CalibError, PixelBuffer};
use crate::debayer::pix;

verus! {

/// `mask` flags, for a `w * h` grid, exactly the in-bounds coordinates listed
/// in `coords`.
pub open spec fn is_mask_of(mask: Seq<bool>, w: int, h: int, coords: Seq<(usize, usize)>) -> bool {
    &&& mask.len() == w * h
    &&& forall|x: int, y: int| 0 <= x < w && 0 <= y < h ==>
        (#[trigger] mask[pix(w, x, y)] <==> exists|k: int| 0 <= k < coords.len() && coords[k] == (x as usize, y as usize))
}

/// Builds the defect mask of a `width * height` grid from a list of
/// coordinates; coordinates outside the grid are ignored.
pub fn defect_mask(width: usize, height: usize, coords: &Vec<(usize, usize)>) -> (r: Vec<bool>)
    requires
        width * height <= usize::MAX,
    ensures
        is_mask_of(r@, width as int, height as int, coords@),
{
    let n = width * height;
    let mut mask: Vec<bool> = Vec::new();
    let mut i: usize = 0;
    while i < n
        invariant
            n == width * height,
            i <= n,
            mask@.len() == i,
            forall|j: int| 0 <= j < i ==> !#[trigger] mask@[j],
        decreases n - i,
    {
        mask.push(false);
        i += 1;
    }
    assert forall|x: int, y: int| 0 <= x < width && 0 <= y < height implies
        !#[trigger] mask@[pix(width as int, x, y)] by {
        lemma_index_in_bounds(x, y, width as int, height as int);
    }
    let mut k: usize = 0;
    while k < coords.len()
        invariant
            n == width * height,
            k <= coords@.len(),
            mask@.len() == n,
            forall|x: int, y: int| 0 <= x < width && 0 <= y < height ==>
                (#[trigger] mask@[pix(width as int, x, y)] <==> exists|j: int| 0 <= j < k && coords@[j] == (x as usize, y as usize)),
        decreases coords@.len() - k,
    {
        let (cx, cy) = coords[k];
        let ghost prev = mask@;
        if cx < width && cy < height {
            proof { lemma_index_in_bounds(cx as int, cy as int, width as int, height as int); }
            mask.set(cy * width + cx, true);
        }
        proof {
            assert forall|x: int, y: int| 0 <= x < width && 0 <= y < height implies
                (#[trigger] mask@[pix(width as int, x, y)] <==> exists|j: int| 0 <= j < k + 1 && coords@[j] == (x as usize, y as usize)) by {
                assert(prev[pix(width as int, x, y)] <==> exists|j: int| 0 <= j < k && coords@[j] == (x as usize, y as usize));
                lemma_index_in_bounds(x, y, width as int, height as int);
                if cx < width && cy < height {
                    lemma_pix_injective(width as int, height as int, x, y, cx as int, cy as int);
                    assert(mask@ == prev.update(cy * width + cx, true));
                } else {
                    assert(mask@ == prev);
                }
                if x == cx && y == cy {
                    assert(coords@[k as int] == (x as usize, y as usize));
                }
                if exists|j: int| 0 <= j < k + 1 && coords@[j] == (x as usize, y as usize) {
                    let j = choose|j: int| 0 <= j < k + 1 && coords@[j] == (x as usize, y as usize);
                    if j < k {
                        assert(exists|j: int| 0 <= j < k && coords@[j] == (x as usize, y as usize));
                    }
                }
            }
        }
        k += 1;
    }
    mask
}

/// Distinct in-grid coordinates have distinct indices.
proof fn lemma_pix_injective(w: int, h: int, x1: int, y1: int, x2: int, y2: int)
    requires
        0 <= x1 < w,
        0 <= y1 < h,
        0 <= x2 < w,
        0 <= y2 < h,
    ensures
        pix(w, x1, y1) == pix(w, x2, y2) <==> (x1 == x2 && y1 == y2),
{
    if y1 < y2 {
        assert(y1 * w + x1 < y2 * w + x2) by (nonlinear_arith)
            requires y1 < y2, 0 <= x1 < w, 0 <= x2;
    } else if y2 < y1 {
        assert(y2 * w + x2 < y1 * w + x1) by (nonlinear_arith)
            requires y2 < y1, 0 <= x2 < w, 0 <= x1;
    }
}

/// `(x, y)` lies in the grid and is not flagged defective.
pub open spec fn usable(mask: Seq<bool>, w: int, h: int, x: int, y: int) -> bool {
    0 <= x < w && 0 <= y < h && !mask[pix(w, x, y)]
}

/// Position `t` (for `t` in `0..r`) of side `q` (in `0..4`) of the ring of
/// pixels at Manhattan distance `r` from `(x, y)`. The four sides start at the
/// pixel above, to the right, below and to the left, and run clockwise.
pub open spec fn ring_at(q: int, t: int, x: int, y: int, r: int) -> (int, int) {
    if q == 0 {
        (x + t, y - r + t)
    } else if q == 1 {
        (x + r - t, y + t)
    } else if q == 2 {
        (x - t, y + r - t)
    } else {
        (x - r + t, y - t)
    }
}

/// Sum and count of the usable values among the first `t` positions of side
/// `q` of the ring at distance `r`.
pub open spec fn side_sum(pl: Seq<u32>, mask: Seq<bool>, w: int, h: int, x: int, y: int, r: int, q: int, t: nat) -> (int, int)
    decreases t,
{
    if t == 0 {
        (0, 0)
    } else {
        let prev = side_sum(pl, mask, w, h, x, y, r, q, (t - 1) as nat);
        let c = ring_at(q, t - 1, x, y, r);
        if usable(mask, w, h, c.0, c.1) {
            (prev.0 + pl[pix(w, c.0, c.1)], prev.1 + 1)
        } else {
            prev
        }
    }
}

/// Sum and count of the usable values on the first `q` sides of the ring at
/// distance `r`.
pub open spec fn ring_sum(pl: Seq<u32>, mask: Seq<bool>, w: int, h: int, x: int, y: int, r: int, q: nat) -> (int, int)
    decreases q,
{
    if q == 0 {
        (0, 0)
    } else {
        let prev = ring_sum(pl, mask, w, h, x, y, r, (q - 1) as nat);
        let s = side_sum(pl, mask, w, h, x, y, r, q - 1, r as nat);
        (prev.0 + s.0, prev.1 + s.1)
    }
}

/// Mean, rounded down, of the usable pixels on the nearest ring, searching
/// distances `r..=rmax`; `None` where no ring up to `rmax` has one.
pub open spec fn ring_fill(pl: Seq<u32>, mask: Seq<bool>, w: int, h: int, x: int, y: int, r: int, rmax: int) -> Option<int>
    decreases rmax + 1 - r,
{
    if r > rmax || r <= 0 {
        None
    } else {
        let s = ring_sum(pl, mask, w, h, x, y, r, 4);
        if s.1 > 0 {
            Some(s.0 / s.1)
        } else {
            ring_fill(pl, mask, w, h, x, y, r + 1, rmax)
        }
    }
}

/// The repaired value at `(x, y)`: unchanged if the pixel is not defective;
/// else the mean of the usable pixels at the smallest Manhattan distance that
/// has any. Every pixel of the grid lies within distance `w + h - 2`, so the
/// value is kept only where no pixel of the grid is usable.
pub open spec fn inpaint_spec(pl: Seq<u32>, mask: Seq<bool>, w: int, h: int, x: int, y: int) -> int {
    if !mask[pix(w, x, y)] {
        pl[pix(w, x, y)] as int
    } else {
        match ring_fill(pl, mask, w, h, x, y, 1, w + h - 2) {
            Some(v) => v,
            None => pl[pix(w, x, y)] as int,
        }
    }
}

proof fn lemma_side_sum_bounds(pl: Seq<u32>, mask: Seq<bool>, w: int, h: int, x: int, y: int, r: int, q: int, t: nat)
    ensures
        0 <= side_sum(pl, mask, w, h, x, y, r, q, t).1 <= t,
        0 <= side_sum(pl, mask, w, h, x, y, r, q, t).0 <= side_sum(pl, mask, w, h, x, y, r, q, t).1 * 0xffff_ffff,
    decreases t,
{
    if t > 0 {
        lemma_side_sum_bounds(pl, mask, w, h, x, y, r, q, (t - 1) as nat);
    }
}

proof fn lemma_ring_sum_bounds(pl: Seq<u32>, mask: Seq<bool>, w: int, h: int, x: int, y: int, r: int, q: nat)
    requires
        r >= 0,
    ensures
        0 <= ring_sum(pl, mask, w, h, x, y, r, q).1 <= q * r,
        0 <= ring_sum(pl, mask, w, h, x, y, r, q).0 <= ring_sum(pl, mask, w, h, x, y, r, q).1 * 0xffff_ffff,
    decreases q,
{
    if q > 0 {
        lemma_ring_sum_bounds(pl, mask, w, h, x, y, r, (q - 1) as nat);
        lemma_side_sum_bounds(pl, mask, w, h, x, y, r, q - 1, r as nat);
        assert((q - 1) * r + r == q * r) by (nonlinear_arith);
    }
}

/// The in-grid coordinates of position `t` of side `q`, if any.
fn ring_pos(q: u128, t: u128, x: usize, y: usize, r: u128, w: usize, h: usize) -> (c: Option<(usize, usize)>)
    requires
        q < 4,
        t < r,
        r < 0x1_0000_0000_0000_0000_0000,
        x < w,
        y < h,
    ensures
        c is Some <==> ({
            let p = ring_at(q as int, t as int, x as int, y as int, r as int);
            0 <= p.0 < w && 0 <= p.1 < h
        }),
        c is Some ==> (c->Some_0.0 as int, c->Some_0.1 as int) == ring_at(q as int, t as int, x as int, y as int, r as int),
{
    let xi = x as i128;
    let yi = y as i128;
    let ri = r as i128;
    let ti = t as i128;
    let (nx, ny) = if q == 0 {
        (xi + ti, yi - ri + ti)
    } else if q == 1 {
        (xi + ri - ti, yi + ti)
    } else if q == 2 {
        (xi - ti, yi + ri - ti)
    } else {
        (xi - ri + ti, yi - ti)
    };
    if 0 <= nx && nx < w as i128 && 0 <= ny && ny < h as i128 {
        Some((nx as usize, ny as usize))
    } else {
        None
    }
}

/// The repaired value of plane `pl` at `(x, y)`.
fn inpaint_pixel(pl: &Vec<u32>, mask: &Vec<bool>, w: usize, h: usize, x: usize, y: usize) -> (v: u32)
    requires
        w * h <= usize::MAX,
        pl@.len() == w * h,
        mask@.len() == w * h,
        x < w,
        y < h,
    ensures
        v as int == inpaint_spec(pl@, mask@, w as int, h as int, x as int, y as int),
{
    proof { lemma_index_in_bounds(x as int, y as int, w as int, h as int); }
    let i = y * w + x;
    if !mask[i] {
        return pl[i];
    }
    let rmax: u128 = w as u128 + h as u128 - 2;
    let mut r: u128 = 1;
    while r <= rmax
        invariant
            1 <= r <= rmax + 1,
            rmax == w + h - 2,
            w * h <= usize::MAX,
            pl@.len() == w * h,
            mask@.len() == w * h,
            x < w,
            y < h,
            mask@[pix(w as int, x as int, y as int)],
            ring_fill(pl@, mask@, w as int, h as int, x as int, y as int, 1, rmax as int)
                == ring_fill(pl@, mask@, w as int, h as int, x as int, y as int, r as int, rmax as int),
        decreases rmax + 1 - r,
    {
        let mut sum: u128 = 0;
        let mut count: u128 = 0;
        let mut q: u128 = 0;
        while q < 4
            invariant
                q <= 4,
                1 <= r <= rmax,
                rmax == w + h - 2,
                w * h <= usize::MAX,
                pl@.len() == w * h,
                mask@.len() == w * h,
                x < w,
                y < h,
                (sum as int, count as int) == ring_sum(pl@, mask@, w as int, h as int, x as int, y as int, r as int, q as nat),
            decreases 4 - q,
        {
            proof { lemma_ring_sum_bounds(pl@, mask@, w as int, h as int, x as int, y as int, r as int, q as nat); }
            let ghost base = (sum as int, count as int);
            let mut t: u128 = 0;
            while t < r
                invariant
                    q < 4,
                    t <= r,
                    1 <= r <= rmax,
                    rmax == w + h - 2,
                    w * h <= usize::MAX,
                    pl@.len() == w * h,
                    mask@.len() == w * h,
                    x < w,
                    y < h,
                    base == ring_sum(pl@, mask@, w as int, h as int, x as int, y as int, r as int, q as nat),
                    0 <= base.1 <= q * r,
                    0 <= base.0 <= base.1 * 0xffff_ffff,
                    ({
                        let s = side_sum(pl@, mask@, w as int, h as int, x as int, y as int, r as int, q as int, t as nat);
                        sum as int == base.0 + s.0 && count as int == base.1 + s.1
                    }),
                decreases r - t,
            {
                proof {
                    lemma_side_sum_bounds(pl@, mask@, w as int, h as int, x as int, y as int, r as int, q as int, t as nat);
                    assert(count <= 4 * r) by (nonlinear_arith)
                        requires count as int == base.1 + side_sum(pl@, mask@, w as int, h as int, x as int, y as int, r as int, q as int, t as nat).1,
                            base.1 <= q * r, side_sum(pl@, mask@, w as int, h as int, x as int, y as int, r as int, q as int, t as nat).1 <= t,
                            t < r, q < 4;
                    assert(sum <= count * 0xffff_ffff) by (nonlinear_arith)
                        requires sum as int == base.0 + side_sum(pl@, mask@, w as int, h as int, x as int, y as int, r as int, q as int, t as nat).0,
                            count as int == base.1 + side_sum(pl@, mask@, w as int, h as int, x as int, y as int, r as int, q as int, t as nat).1,
                            base.0 <= base.1 * 0xffff_ffff,
                            side_sum(pl@, mask@, w as int, h as int, x as int, y as int, r as int, q as int, t as nat).0
                                <= side_sum(pl@, mask@, w as int, h as int, x as int, y as int, r as int, q as int, t as nat).1 * 0xffff_ffff;
                    assert(count * 0xffff_ffff < 0x1_0000_0000_0000_0000_0000_0000_0000 - 0x1_0000_0000) by (nonlinear_arith)
                        requires count <= 4 * r, r <= rmax, rmax == w + h - 2, w <= usize::MAX, h <= usize::MAX;
                }
                match ring_pos(q, t, x, y, r, w, h) {
                    Some((nx, ny)) => {
                        proof { lemma_index_in_bounds(nx as int, ny as int, w as int, h as int); }
                        let j = ny * w + nx;
                        if !mask[j] {
                            sum = sum + pl[j] as u128;
                            count = count + 1;
                        }
                    },
                    None => {},
                }
                t += 1;
            }
            q += 1;
        }
        proof { lemma_ring_sum_bounds(pl@, mask@, w as int, h as int, x as int, y as int, r as int, 4); }
        if count > 0 {
            assert(sum / count <= 0xffff_ffff) by (nonlinear_arith)
                requires sum <= count * 0xffff_ffff, count > 0;
            return (sum / count) as u32;
        }
        r += 1;
    }
    pl[i]
}

/// Repairs one plane.
fn inpaint_plane(pl: &Vec<u32>, mask: &Vec<bool>, w: usize, h: usize) -> (out: Vec<u32>)
    requires
        w * h <= usize::MAX,
        pl@.len() == w * h,
        mask@.len() == w * h,
    ensures
        out@.len() == w * h,
        forall|x: int, y: int| 0 <= x < w && 0 <= y < h ==>
            #[trigger] out@[pix(w as int, x, y)] as int == inpaint_spec(pl@, mask@, w as int, h as int, x, y),
{
    let mut out: Vec<u32> = Vec::new();
    let mut y: usize = 0;
    while y < h
        invariant
            y <= h,
            w * h <= usize::MAX,
            pl@.len() == w * h,
            mask@.len() == w * h,
            out@.len() == y * w,
            forall|xx: int, yy: int| 0 <= xx < w && 0 <= yy < y ==>
                #[trigger] out@[pix(w as int, xx, yy)] as int == inpaint_spec(pl@, mask@, w as int, h as int, xx, yy),
        decreases h - y,
    {
        let mut x: usize = 0;
        while x < w
            invariant
                x <= w,
                y < h,
                w * h <= usize::MAX,
                pl@.len() == w * h,
                mask@.len() == w * h,
                out@.len() == y * w + x,
                forall|xx: int, yy: int| 0 <= xx < w && 0 <= yy < y || 0 <= xx < x && yy == y ==>
                    #[trigger] out@[pix(w as int, xx, yy)] as int == inpaint_spec(pl@, mask@, w as int, h as int, xx, yy),
            decreases w - x,
        {
            let v = inpaint_pixel(pl, mask, w, h, x, y);
            proof {
                assert forall|xx: int, yy: int| 0 <= xx < w && 0 <= yy < y || 0 <= xx < x && yy == y implies
                    pix(w as int, xx, yy) < y * w + x by {
                    if yy < y {
                        assert(yy * w + xx < y * w) by (nonlinear_arith)
                            requires 0 <= xx < w, 0 <= yy < y;
                    }
                }
            }
            out.push(v);
            x += 1;
        }
        proof {
            assert((y + 1) * w == y * w + w) by (nonlinear_arith);
            assert forall|xx: int, yy: int| 0 <= xx < w && 0 <= yy < y + 1 implies
                #[trigger] out@[pix(w as int, xx, yy)] as int == inpaint_spec(pl@, mask@, w as int, h as int, xx, yy) by {
                assert(0 <= xx < w && 0 <= yy < y || 0 <= xx < x && yy == y);
            }
        }
        y += 1;
    }
    assert(h * w == w * h) by (nonlinear_arith);
    out
}

/// Replaces every pixel flagged in `mask` by the mean of the valid pixels on
/// the nearest ring around it (first its four direct neighbours, then ever
/// wider Manhattan rings), in each plane; all other pixels pass
/// through unchanged. Reads only the input, so the result does not depend on
/// the order in which defects are visited.
pub fn inpaint(buf: PixelBuffer, mask: &Vec<bool>) -> (r: Result<PixelBuffer, CalibError>)
    requires
        buf.wf(),
    ensures
        r is Ok <==> mask@.len() == buf.width * buf.height,
        r is Err ==> r->Err_0 == CalibError::DimensionMismatch,
        r is Ok ==> {
            let o = r->Ok_0;
            &&& o.wf()
            &&& o.width == buf.width
            &&& o.height == buf.height
            &&& o.mode == buf.mode
            &&& o.instrument == buf.instrument
            &&& o.max_value == buf.max_value
            &&& forall|x: int, y: int| 0 <= x < buf.width && 0 <= y < buf.height ==> {
                &&& #[trigger] o.red@[pix(buf.width as int, x, y)] as int == inpaint_spec(buf.red@, mask@, buf.width as int, buf.height as int, x, y)
                &&& o.green@[pix(buf.width as int, x, y)] as int == inpaint_spec(buf.green@, mask@, buf.width as int, buf.height as int, x, y)
                &&& o.blue@[pix(buf.width as int, x, y)] as int == inpaint_spec(buf.blue@, mask@, buf.width as int, buf.height as int, x, y)
            }
            &&& forall|x: int, y: int| 0 <= x < buf.width && 0 <= y < buf.height && !mask@[pix(buf.width as int, x, y)] ==> {
                &&& #[trigger] o.red@[pix(buf.width as int, x, y)] == buf.red@[pix(buf.width as int, x, y)]
                &&& o.green@[pix(buf.width as int, x, y)] == buf.green@[pix(buf.width as int, x, y)]
                &&& o.blue@[pix(buf.width as int, x, y)] == buf.blue@[pix(buf.width as int, x, y)]
            }
        },
{
    if mask.len() != buf.width * buf.height {
        return Err(CalibError::DimensionMismatch);
    }
    let w = buf.width;
    let h = buf.height;
    let red = inpaint_plane(&buf.red, mask, w, h);
    let green = inpaint_plane(&buf.green, mask, w, h);
    let blue = inpaint_plane(&buf.blue, mask, w, h);
    Ok(PixelBuffer { width: w, height: h, mode: buf.mode, instrument: buf.instrument, max_value: buf.max_value, red, green, blue })
}

} // verus!
