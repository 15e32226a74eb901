use vstd::prelude::*;

use crate::buffer::{mode_max_spec, BitDepthMode, CalibError, PixelBuffer};

verus! {

/// A non-negative scale factor `num / den`.
#[derive(Clone, Copy, Debug, PartialEq, Eq, Structural)]
pub struct Weight {
    pub num: u32,
    pub den: u32,
}

/// `v` scaled by `num / den`, rounded down.
pub open spec fn weighted(v: int, num: int, den: int) -> int {
    v * num / den
}

/// Every value of `pl`, scaled by `w`, still fits in a plane.
pub open spec fn weight_fits(pl: Seq<u32>, w: Weight) -> bool {
    forall|i: int| 0 <= i < pl.len() ==> #[trigger] weighted(pl[i] as int, w.num as int, w.den as int) <= u32::MAX
}

/// `out` is `pl` scaled value by value by `w`.
pub open spec fn is_weighted_of(out: Seq<u32>, pl: Seq<u32>, w: Weight) -> bool {
    &&& out.len() == pl.len()
    &&& forall|i: int| 0 <= i < pl.len() ==> #[trigger] out[i] as int == weighted(pl[i] as int, w.num as int, w.den as int)
}

/// Scales one plane; `None` if a result does not fit in 32 bits.
fn weight_plane(pl: &Vec<u32>, w: Weight) -> (r: Option<Vec<u32>>)
    requires
        w.den > 0,
    ensures
        r is Some <==> weight_fits(pl@, w),
        r is Some ==> is_weighted_of(r->Some_0@, pl@, w),
{
    let mut out: Vec<u32> = Vec::new();
    let mut i: usize = 0;
    while i < pl.len()
        invariant
            w.den > 0,
            i <= pl@.len(),
            out@.len() == i,
            forall|j: int| 0 <= j < i ==> #[trigger] weighted(pl@[j] as int, w.num as int, w.den as int) <= u32::MAX,
            forall|j: int| 0 <= j < i ==> #[trigger] out@[j] as int == weighted(pl@[j] as int, w.num as int, w.den as int),
        decreases pl@.len() - i,
    {
        let v = pl[i] as u64;
        assert(v * (w.num as u64) <= 0xffff_ffff * 0xffff_ffff) by (nonlinear_arith)
            requires v <= 0xffff_ffff, w.num <= 0xffff_ffff;
        let s = v * (w.num as u64) / (w.den as u64);
        assert(s as int == weighted(pl@[i as int] as int, w.num as int, w.den as int));
        if s > 0xffff_ffff {
            assert(!weight_fits(pl@, w));
            return None;
        }
        out.push(s as u32);
        i += 1;
    }
    Some(out)
}

/// Multiplies each plane by its own factor, rounding down. Values are not
/// clamped to the buffer's mode here; normalization does that. Fails with
/// `InvalidParameter` if a factor has a zero denominator or would carry a
/// value beyond 32 bits.
pub fn apply_weight(buf: PixelBuffer, r: Weight, g: Weight, b: Weight) -> (res: Result<PixelBuffer, CalibError>)
    requires
        buf.wf(),
    ensures
        res is Ok <==> r.den > 0 && g.den > 0 && b.den > 0 && weight_fits(buf.red@, r) && weight_fits(buf.green@, g)
            && weight_fits(buf.blue@, b),
        res is Err ==> res->Err_0 == CalibError::InvalidParameter,
        res is Ok ==> {
            let o = res->Ok_0;
            &&& o.wf()
            &&& o.width == buf.width
            &&& o.height == buf.height
            &&& o.mode == buf.mode
            &&& o.instrument == buf.instrument
            &&& o.max_value == buf.max_value
            &&& is_weighted_of(o.red@, buf.red@, r)
            &&& is_weighted_of(o.green@, buf.green@, g)
            &&& is_weighted_of(o.blue@, buf.blue@, b)
        },
{
    if r.den == 0 || g.den == 0 || b.den == 0 {
        return Err(CalibError::InvalidParameter);
    }
    let red = match weight_plane(&buf.red, r) {
        Some(v) => v,
        None => return Err(CalibError::InvalidParameter),
    };
    let green = match weight_plane(&buf.green, g) {
        Some(v) => v,
        None => return Err(CalibError::InvalidParameter),
    };
    let blue = match weight_plane(&buf.blue, b) {
        Some(v) => v,
        None => return Err(CalibError::InvalidParameter),
    };
    Ok(PixelBuffer {
        width: buf.width,
        height: buf.height,
        mode: buf.mode,
        instrument: buf.instrument,
        max_value: buf.max_value,
        red,
        green,
        blue,
    })
}

/// `v` rescaled from `[0, source_max]` to `[0, target_max]`, clamped at
/// `source_max` first and rounded down.
pub open spec fn rescaled(v: int, source_max: int, target_max: int) -> int {
    (if v > source_max { source_max } else { v }) * target_max / source_max
}

/// `out` is `pl` rescaled value by value.
pub open spec fn is_rescaled_of(out: Seq<u32>, pl: Seq<u32>, source_max: int, target_max: int) -> bool {
    &&& out.len() == pl.len()
    &&& forall|i: int| 0 <= i < pl.len() ==> #[trigger] out[i] as int == rescaled(pl[i] as int, source_max, target_max)
}

proof fn lemma_rescaled_bounds(v: int, s: int, t: int)
    requires
        0 <= v,
        0 < s,
        0 <= t,
    ensures
        0 <= rescaled(v, s, t) <= t,
{
    let c = if v > s { s } else { v };
    assert(0 <= c * t / s <= t) by (nonlinear_arith)
        requires 0 <= c <= s, 0 < s, 0 <= t;
}

fn rescale_plane(pl: &Vec<u32>, source_max: u32, target_max: u32) -> (out: Vec<u32>)
    requires
        source_max > 0,
        target_max <= 65535,
    ensures
        is_rescaled_of(out@, pl@, source_max as int, target_max as int),
        forall|i: int| 0 <= i < out@.len() ==> #[trigger] out@[i] <= target_max,
{
    let mut out: Vec<u32> = Vec::new();
    let mut i: usize = 0;
    while i < pl.len()
        invariant
            source_max > 0,
            target_max <= 65535,
            i <= pl@.len(),
            out@.len() == i,
            forall|j: int| 0 <= j < i ==> #[trigger] out@[j] as int == rescaled(pl@[j] as int, source_max as int, target_max as int),
            forall|j: int| 0 <= j < i ==> #[trigger] out@[j] <= target_max,
        decreases pl@.len() - i,
    {
        let v = pl[i];
        let c: u64 = if v > source_max { source_max as u64 } else { v as u64 };
        assert(c * (target_max as u64) <= 0xffff_ffff * 65535) by (nonlinear_arith)
            requires c <= 0xffff_ffff, target_max <= 65535;
        let s = c * (target_max as u64) / (source_max as u64);
        proof { lemma_rescaled_bounds(v as int, source_max as int, target_max as int); }
        out.push(s as u32);
        i += 1;
    }
    out
}

/// Rescales every value linearly from `[0, source_max]` to the full range of
/// `target`, rounding down; values above `source_max` are clamped to it. The
/// result is in mode `target` and has that mode's maximum. Fails with
/// `InvalidParameter` if `source_max` is zero.
pub fn normalize(buf: PixelBuffer, source_max: u32, target: BitDepthMode) -> (r: Result<PixelBuffer, CalibError>)
    requires
        buf.wf(),
    ensures
        r is Ok <==> source_max > 0,
        r is Err ==> r->Err_0 == CalibError::InvalidParameter,
        r is Ok ==> {
            let o = r->Ok_0;
            let t = mode_max_spec(target) as int;
            &&& o.wf()
            &&& o.width == buf.width
            &&& o.height == buf.height
            &&& o.mode == target
            &&& o.instrument == buf.instrument
            &&& o.max_value as int == t
            &&& o.within_mode()
            &&& is_rescaled_of(o.red@, buf.red@, source_max as int, t)
            &&& is_rescaled_of(o.green@, buf.green@, source_max as int, t)
            &&& is_rescaled_of(o.blue@, buf.blue@, source_max as int, t)
        },
{
    if source_max == 0 {
        return Err(CalibError::InvalidParameter);
    }
    let t = target.max_value();
    let red = rescale_plane(&buf.red, source_max, t);
    let green = rescale_plane(&buf.green, source_max, t);
    let blue = rescale_plane(&buf.blue, source_max, t);
    Ok(PixelBuffer {
        width: buf.width,
        height: buf.height,
        mode: target,
        instrument: buf.instrument,
        max_value: t,
        red,
        green,
        blue,
    })
}

} // verus!
