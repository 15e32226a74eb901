use vstd::prelude::*;

use crate::buffer::{lemma_index_in_bounds, CalibError, PixelBuffer};
use crate::profile::{color_at_spec, BayerPattern, Channel, Registry};

verus! {

/// Row-major index of `(x, y)` in a plane of width `w`.
pub open spec fn pix(w: int, x: int, y: int) -> int {
    y * w + x
}

/// Mirrors a coordinate one step outside `[0, n)` back inside, keeping its
/// parity where the axis has at least two pixels.
pub open spec fn reflect(i: int, n: int) -> int {
    if i < 0 {
        if n > 1 { 1 } else { 0 }
    } else if i >= n {
        if n > 1 { n - 2 } else { n - 1 }
    } else {
        i
    }
}

/// Sum and count of the mosaic samples of colour `c` among the first `k` of
/// the nine positions of the 3x3 neighbourhood of `(x, y)`, read row by row,
/// with mirrored access at the borders.
pub open spec fn nb_sum(m: Seq<u32>, w: int, h: int, p: BayerPattern, c: Channel, x: int, y: int, k: nat) -> (int, int)
    decreases k,
{
    if k == 0 {
        (0, 0)
    } else {
        let prev = nb_sum(m, w, h, p, c, x, y, (k - 1) as nat);
        let nx = reflect(x + (k - 1) % 3 - 1, w);
        let ny = reflect(y + (k - 1) / 3 - 1, h);
        if color_at_spec(p, nx, ny) == c {
            (prev.0 + m[pix(w, nx, ny)], prev.1 + 1)
        } else {
            prev
        }
    }
}

/// Bilinear estimate of colour `c` at `(x, y)`: the sample itself where the
/// filter there is `c`, else the mean, rounded down, of the samples of colour
/// `c` in the 3x3 neighbourhood.
pub open spec fn demosaic_spec(m: Seq<u32>, w: int, h: int, p: BayerPattern, c: Channel, x: int, y: int) -> int {
    if color_at_spec(p, x, y) == c {
        m[pix(w, x, y)] as int
    } else {
        let s = nb_sum(m, w, h, p, c, x, y, 9);
        if s.1 == 0 { 0 } else { s.0 / s.1 }
    }
}

/// Each plane of `out` holds the estimate of its colour at every pixel.
pub open spec fn is_demosaic_of(out: &PixelBuffer, m: Seq<u32>, p: BayerPattern) -> bool {
    forall|x: int, y: int| 0 <= x < out.width && 0 <= y < out.height ==> {
        &&& #[trigger] out.red@[pix(out.width as int, x, y)] as int == demosaic_spec(m, out.width as int, out.height as int, p, Channel::Red, x, y)
        &&& out.green@[pix(out.width as int, x, y)] as int == demosaic_spec(m, out.width as int, out.height as int, p, Channel::Green, x, y)
        &&& out.blue@[pix(out.width as int, x, y)] as int == demosaic_spec(m, out.width as int, out.height as int, p, Channel::Blue, x, y)
    }
}

proof fn lemma_nb_sum_bounds(m: Seq<u32>, w: int, h: int, p: BayerPattern, c: Channel, x: int, y: int, k: nat)
    ensures
        0 <= nb_sum(m, w, h, p, c, x, y, k).1 <= k,
        0 <= nb_sum(m, w, h, p, c, x, y, k).0 <= nb_sum(m, w, h, p, c, x, y, k).1 * 0xffff_ffff,
    decreases k,
{
    if k > 0 {
        lemma_nb_sum_bounds(m, w, h, p, c, x, y, (k - 1) as nat);
    }
}

/// Mirrored coordinate of `i + d - 1` for `d` in `0..3`.
fn reflect_exec(i: usize, d: usize, n: usize) -> (r: usize)
    requires
        i < n,
        d < 3,
    ensures
        r as int == reflect(i + d - 1, n as int),
        r < n,
{
    if d == 0 {
        if i == 0 {
            if n > 1 { 1 } else { 0 }
        } else {
            i - 1
        }
    } else if d == 1 {
        i
    } else if i + 1 >= n {
        if n > 1 { n - 2 } else { n - 1 }
    } else {
        i + 1
    }
}

/// Estimate of colour `c` at `(x, y)` of the mosaic `m`.
fn interpolate(m: &Vec<u32>, w: usize, h: usize, p: BayerPattern, c: Channel, x: usize, y: usize) -> (r: u32)
    requires
        w * h <= usize::MAX,
        m@.len() == w * h,
        x < w,
        y < h,
    ensures
        r as int == demosaic_spec(m@, w as int, h as int, p, c, x as int, y as int),
{
    proof { lemma_index_in_bounds(x as int, y as int, w as int, h as int); }
    if p.color_at(x, y) == c {
        return m[y * w + x];
    }
    let mut sum: u64 = 0;
    let mut count: u64 = 0;
    let mut k: usize = 0;
    while k < 9
        invariant
            k <= 9,
            w * h <= usize::MAX,
            m@.len() == w * h,
            x < w,
            y < h,
            (sum as int, count as int) == nb_sum(m@, w as int, h as int, p, c, x as int, y as int, k as nat),
        decreases 9 - k,
    {
        proof { lemma_nb_sum_bounds(m@, w as int, h as int, p, c, x as int, y as int, k as nat); }
        let nx = reflect_exec(x, k % 3, w);
        let ny = reflect_exec(y, k / 3, h);
        proof { lemma_index_in_bounds(nx as int, ny as int, w as int, h as int); }
        if p.color_at(nx, ny) == c {
            sum = sum + m[ny * w + nx] as u64;
            count = count + 1;
        }
        k += 1;
    }
    proof { lemma_nb_sum_bounds(m@, w as int, h as int, p, c, x as int, y as int, 9); }
    if count == 0 {
        0
    } else {
        assert(sum / count <= 0xffff_ffff) by (nonlinear_arith)
            requires sum <= count * 0xffff_ffff, count > 0;
        (sum / count) as u32
    }
}

/// Demosaics the single-channel mosaic held in the buffer's planes into three
/// full-resolution colour planes, using the Bayer layout of the buffer's
/// instrument in `registry`. The mosaic is read from the red plane.
pub fn debayer(buf: PixelBuffer, registry: &Registry) -> (r: Result<PixelBuffer, CalibError>)
    requires
        buf.wf(),
        registry.wf(),
    ensures
        r is Ok <==> registry.has(buf.instrument) && registry.lookup(buf.instrument).pattern is Some,
        !registry.has(buf.instrument) ==> r == Err::<PixelBuffer, CalibError>(CalibError::UnknownInstrument),
        registry.has(buf.instrument) && registry.lookup(buf.instrument).pattern is None
            ==> r == Err::<PixelBuffer, CalibError>(CalibError::InvalidPattern),
        r is Ok ==> {
            let o = r->Ok_0;
            &&& o.wf()
            &&& o.width == buf.width
            &&& o.height == buf.height
            &&& o.mode == buf.mode
            &&& o.instrument == buf.instrument
            &&& o.max_value == buf.max_value
            &&& is_demosaic_of(&o, buf.red@, registry.lookup(buf.instrument).pattern->Some_0)
        },
{
    let profile = registry.profile_for(buf.instrument)?;
    match profile.pattern {
        None => Err(CalibError::InvalidPattern),
        Some(p) => Ok(debayer_with(buf, p)),
    }
}

/// Demosaics the mosaic held in the red plane with the layout `p`.
pub fn debayer_with(buf: PixelBuffer, p: BayerPattern) -> (o: PixelBuffer)
    requires
        buf.wf(),
    ensures
        o.wf(),
        o.width == buf.width,
        o.height == buf.height,
        o.mode == buf.mode,
        o.instrument == buf.instrument,
        o.max_value == buf.max_value,
        is_demosaic_of(&o, buf.red@, p),
{
    let w = buf.width;
    let h = buf.height;
    let m = &buf.red;
    let mut red: Vec<u32> = Vec::new();
    let mut green: Vec<u32> = Vec::new();
    let mut blue: Vec<u32> = Vec::new();
    let mut y: usize = 0;
    while y < h
        invariant
            y <= h,
            w * h <= usize::MAX,
            m@.len() == w * h,
            red@.len() == y * w,
            green@.len() == y * w,
            blue@.len() == y * w,
            forall|xx: int, yy: int| 0 <= xx < w && 0 <= yy < y ==> {
                &&& #[trigger] red@[pix(w as int, xx, yy)] as int == demosaic_spec(m@, w as int, h as int, p, Channel::Red, xx, yy)
                &&& green@[pix(w as int, xx, yy)] as int == demosaic_spec(m@, w as int, h as int, p, Channel::Green, xx, yy)
                &&& blue@[pix(w as int, xx, yy)] as int == demosaic_spec(m@, w as int, h as int, p, Channel::Blue, xx, yy)
            },
        decreases h - y,
    {
        let mut x: usize = 0;
        while x < w
            invariant
                x <= w,
                y < h,
                w * h <= usize::MAX,
                m@.len() == w * h,
                red@.len() == y * w + x,
                green@.len() == y * w + x,
                blue@.len() == y * w + x,
                forall|xx: int, yy: int| 0 <= xx < w && 0 <= yy < y || 0 <= xx < x && yy == y ==> {
                    &&& #[trigger] red@[pix(w as int, xx, yy)] as int == demosaic_spec(m@, w as int, h as int, p, Channel::Red, xx, yy)
                    &&& green@[pix(w as int, xx, yy)] as int == demosaic_spec(m@, w as int, h as int, p, Channel::Green, xx, yy)
                    &&& blue@[pix(w as int, xx, yy)] as int == demosaic_spec(m@, w as int, h as int, p, Channel::Blue, xx, yy)
                },
            decreases w - x,
        {
            let rv = interpolate(m, w, h, p, Channel::Red, x, y);
            let gv = interpolate(m, w, h, p, Channel::Green, x, y);
            let bv = interpolate(m, w, h, p, Channel::Blue, x, y);
            proof {
                assert forall|xx: int, yy: int| 0 <= xx < w && 0 <= yy < y || 0 <= xx < x && yy == y implies
                    pix(w as int, xx, yy) < y * w + x by {
                    if yy < y {
                        assert(yy * w + xx < y * w) by (nonlinear_arith)
                            requires 0 <= xx < w, 0 <= yy < y;
                    }
                }
            }
            red.push(rv);
            green.push(gv);
            blue.push(bv);
            proof {
                assert(pix(w as int, x as int, y as int) == y * w + x);
            }
            x += 1;
        }
        proof {
            assert((y + 1) * w == y * w + w) by (nonlinear_arith);
            assert forall|xx: int, yy: int| 0 <= xx < w && 0 <= yy < y + 1 implies {
                &&& #[trigger] red@[pix(w as int, xx, yy)] as int == demosaic_spec(m@, w as int, h as int, p, Channel::Red, xx, yy)
                &&& green@[pix(w as int, xx, yy)] as int == demosaic_spec(m@, w as int, h as int, p, Channel::Green, xx, yy)
                &&& blue@[pix(w as int, xx, yy)] as int == demosaic_spec(m@, w as int, h as int, p, Channel::Blue, xx, yy)
            } by {
                assert(0 <= xx < w && 0 <= yy < y || 0 <= xx < x && yy == y);
            }
        }
        y += 1;
    }
    assert(h * w == w * h) by (nonlinear_arith);
    PixelBuffer {
        width: w,
        height: h,
        mode: buf.mode,
        instrument: buf.instrument,
        max_value: buf.max_value,
        red,
        green,
        blue,
    }
}

} // verus!
