use vstd::prelude::*;

use crate::buffer::{BitDepthMode, CalibError, PixelBuffer};
use crate::debayer::{debayer, is_demosaic_of, pix};
use crate::decompand::{all_companded, decompand, is_lookup_of, linear_mode};
use crate::inpaint::{defect_mask, inpaint, inpaint_spec, is_mask_of};
use crate::profile::{Profile, Registry};
use crate::scale::{apply_weight, is_weighted_of, weight_fits, Weight};

verus! {

/// `o` has the dimensions and instrument of `i`.
pub open spec fn same_geometry(o: PixelBuffer, i: PixelBuffer) -> bool {
    o.width == i.width && o.height == i.height && o.instrument == i.instrument
}

/// `o` is `i` decompanded with the table of `p`.
pub open spec fn decompand_step(o: PixelBuffer, i: PixelBuffer, p: Profile) -> bool {
    &&& same_geometry(o, i)
    &&& is_lookup_of(o.red@, i.red@, p.table@)
    &&& is_lookup_of(o.green@, i.green@, p.table@)
    &&& is_lookup_of(o.blue@, i.blue@, p.table@)
}

/// `o` is `i` with the pixels flagged in `mask` repaired.
pub open spec fn inpaint_step(o: PixelBuffer, i: PixelBuffer, mask: Seq<bool>) -> bool {
    &&& same_geometry(o, i)
    &&& forall|x: int, y: int| 0 <= x < i.width && 0 <= y < i.height ==> {
        &&& #[trigger] o.red@[pix(i.width as int, x, y)] as int == inpaint_spec(i.red@, mask, i.width as int, i.height as int, x, y)
        &&& o.green@[pix(i.width as int, x, y)] as int == inpaint_spec(i.green@, mask, i.width as int, i.height as int, x, y)
        &&& o.blue@[pix(i.width as int, x, y)] as int == inpaint_spec(i.blue@, mask, i.width as int, i.height as int, x, y)
    }
}

/// `o` is `i` weighted plane by plane.
pub open spec fn weight_step(o: PixelBuffer, i: PixelBuffer, r: Weight, g: Weight, b: Weight) -> bool {
    &&& same_geometry(o, i)
    &&& is_weighted_of(o.red@, i.red@, r)
    &&& is_weighted_of(o.green@, i.green@, g)
    &&& is_weighted_of(o.blue@, i.blue@, b)
}

/// `f` is what the stages before weighting make of `raw` through the
/// intermediate buffers `d` (decompanded) and `e` (debayered), `mask` being
/// the defect mask of `p`.
pub open spec fn pre_weight_stages(
    raw: PixelBuffer,
    p: Profile,
    skip_decompand: bool,
    d: PixelBuffer,
    e: PixelBuffer,
    mask: Seq<bool>,
    f: PixelBuffer,
) -> bool {
    &&& d.wf() && e.wf() && f.wf()
    &&& if skip_decompand { d == raw } else { decompand_step(d, raw, p) }
    &&& same_geometry(e, d)
    &&& p.pattern is Some
    &&& is_demosaic_of(&e, d.red@, p.pattern->Some_0)
    &&& is_mask_of(mask, raw.width as int, raw.height as int, p.defects@)
    &&& inpaint_step(f, e, mask)
}

/// `o` is what the linear stages make of `raw`: `f` weighted.
pub open spec fn linear_stages(
    o: PixelBuffer,
    raw: PixelBuffer,
    p: Profile,
    r: Weight,
    g: Weight,
    b: Weight,
    skip_decompand: bool,
    d: PixelBuffer,
    e: PixelBuffer,
    mask: Seq<bool>,
    f: PixelBuffer,
) -> bool {
    &&& pre_weight_stages(raw, p, skip_decompand, d, e, mask, f)
    &&& weight_step(o, f, r, g, b)
}

/// The buffer can be decompanded, or decompanding is skipped.
pub open spec fn decompand_ok(raw: PixelBuffer, skip_decompand: bool) -> bool {
    skip_decompand || (raw.mode == BitDepthMode::U8 && all_companded(raw.red@) && all_companded(raw.green@)
        && all_companded(raw.blue@))
}

/// The weights apply to `f` without overflow.
pub open spec fn weights_fit(f: PixelBuffer, r: Weight, g: Weight, b: Weight) -> bool {
    r.den > 0 && g.den > 0 && b.den > 0 && weight_fits(f.red@, r) && weight_fits(f.green@, g) && weight_fits(f.blue@, b)
}

/// A buffer after the linear stages, with the maximum its values are
/// measured against for the final normalization.
#[derive(Debug)]
pub struct Linear {
    pub buffer: PixelBuffer,
    pub data_max: u32,
}

/// Runs the linear calibration stages in order: decompanding (unless
/// `skip_decompand`), debayering, inpainting of the instrument's known
/// defects, and colour weighting. The first failing stage's error is
/// returned. `data_max` is the instrument's linear maximum after
/// decompanding, 255 for raw colour.
pub fn calibrate_linear(raw: PixelBuffer, registry: &Registry, r: Weight, g: Weight, b: Weight, skip_decompand: bool) -> (res: Result<Linear, CalibError>)
    requires
        raw.wf(),
        registry.wf(),
    ensures
        !registry.has(raw.instrument) ==> res == Err::<Linear, CalibError>(CalibError::UnknownInstrument),
        registry.has(raw.instrument) && !skip_decompand && raw.mode != BitDepthMode::U8 ==> res == Err::<Linear, CalibError>(CalibError::UnsupportedMode),
        registry.has(raw.instrument) && (skip_decompand || raw.mode == BitDepthMode::U8) && registry.lookup(raw.instrument).pattern is None
            ==> res is Err,
        r.den == 0 || g.den == 0 || b.den == 0 ==> res is Err,
        res is Err ==> {
            let p = registry.lookup(raw.instrument);
            let err = res->Err_0;
            ||| !registry.has(raw.instrument) && err == CalibError::UnknownInstrument
            ||| registry.has(raw.instrument) && !decompand_ok(raw, skip_decompand) && err == CalibError::UnsupportedMode
            ||| registry.has(raw.instrument) && decompand_ok(raw, skip_decompand) && p.pattern is None
                && err == CalibError::InvalidPattern
            ||| registry.has(raw.instrument) && decompand_ok(raw, skip_decompand) && p.pattern is Some
                && err == CalibError::InvalidParameter && exists|d: PixelBuffer, e: PixelBuffer, mask: Seq<bool>, f: PixelBuffer|
                #[trigger] pre_weight_stages(raw, p, skip_decompand, d, e, mask, f) && !weights_fit(f, r, g, b)
        },
        res is Ok ==> {
            let o = res->Ok_0;
            &&& o.buffer.wf()
            &&& o.buffer.width == raw.width
            &&& o.buffer.height == raw.height
            &&& o.buffer.instrument == raw.instrument
            &&& o.buffer.mode == if skip_decompand { raw.mode } else { linear_mode(registry.lookup(raw.instrument).linear_max as int) }
            &&& o.buffer.max_value == if skip_decompand { raw.max_value } else { registry.lookup(raw.instrument).linear_max }
            &&& o.data_max == if skip_decompand { 255 } else { registry.lookup(raw.instrument).linear_max }
            &&& exists|d: PixelBuffer, e: PixelBuffer, mask: Seq<bool>, f: PixelBuffer|
                #[trigger] linear_stages(o.buffer, raw, registry.lookup(raw.instrument), r, g, b, skip_decompand, d, e, mask, f)
        },
{
    let profile = registry.profile_for(raw.instrument)?;
    let mut data_max: u32 = 255;
    let ghost raw0 = raw;
    let mut buf = raw;
    if !skip_decompand {
        buf = match decompand(buf, registry) {
            Ok(o) => o,
            Err(err) => return Err(err),
        };
        data_max = profile.linear_max;
    }
    let ghost d = buf;
    buf = match debayer(buf, registry) {
        Ok(o) => o,
        Err(err) => return Err(err),
    };
    let ghost e = buf;
    let mask = defect_mask(buf.width, buf.height, &profile.defects);
    buf = match inpaint(buf, &mask) {
        Ok(o) => o,
        Err(err) => return Err(err),
    };
    let ghost f = buf;
    assert(pre_weight_stages(raw0, registry.lookup(raw0.instrument), skip_decompand, d, e, mask@, f));
    buf = match apply_weight(buf, r, g, b) {
        Ok(o) => o,
        Err(err) => {
            assert(!weights_fit(f, r, g, b));
            return Err(err);
        },
    };
    assert(linear_stages(buf, raw0, registry.lookup(raw0.instrument), r, g, b, skip_decompand, d, e, mask@, f));
    Ok(Linear { buffer: buf, data_max })
}

} // verus!
