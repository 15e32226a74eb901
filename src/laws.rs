use vstd::prelude::*;

use crate::buffer::{BitDepthMode, PixelBuffer};
use crate::debayer::{demosaic_spec, is_demosaic_of, nb_sum, pix, reflect};
use crate::decompand::all_companded;
use crate::inpaint::{inpaint_spec, ring_at, ring_sum, side_sum, usable};
use crate::pipeline::{inpaint_step, linear_stages, pre_weight_stages};
use crate::decompand::linear_mode;
use crate::profile::{color_at_spec, BayerPattern, Channel, Profile, TABLE_LEN};
use crate::scale::{is_rescaled_of, is_weighted_of, rescaled, weight_fits, weighted, Weight};

verus! {

/// Decompanding never yields an 8-bit buffer, so a decompanded buffer is
/// refused by a second decompanding with `UnsupportedMode`.
pub proof fn law_decompand_once(linear_max: int)
    ensures
        linear_mode(linear_max) != BitDepthMode::U8,
{
}

/// Weighting with the factor one on a plane fits and leaves it unchanged.
pub proof fn law_unit_weight(pl: Seq<u32>, out: Seq<u32>, n: u32)
    requires
        n > 0,
    ensures
        weight_fits(pl, Weight { num: n, den: n }),
        is_weighted_of(out, pl, Weight { num: n, den: n }) ==> out == pl,
{
    assert forall|v: int| 0 <= v implies #[trigger] weighted(v, n as int, n as int) == v by {
        assert(v * (n as int) / (n as int) == v) by (nonlinear_arith)
            requires n > 0;
    }
    assert forall|i: int| 0 <= i < pl.len() implies #[trigger] weighted(pl[i] as int, n as int, n as int) <= u32::MAX by {
        assert(weighted(pl[i] as int, n as int, n as int) == pl[i] as int);
    }
    if is_weighted_of(out, pl, Weight { num: n, den: n }) {
        assert forall|i: int| 0 <= i < pl.len() implies out[i] == pl[i] by {
            assert(weighted(pl[i] as int, n as int, n as int) == pl[i] as int);
        }
        assert(out =~= pl);
    }
}

/// Rescaling a value already within `[0, t]` from `[0, t]` to `[0, t]` keeps it.
pub proof fn law_rescale_within_range(v: int, t: int)
    requires
        0 <= v <= t,
        0 < t,
    ensures
        rescaled(v, t, t) == v,
{
    assert(v * t / t == v) by (nonlinear_arith)
        requires t > 0;
}

/// Normalizing to a mode of maximum `t` and then again from `t` to the same
/// mode changes nothing: the second pass is the identity on the first's result.
pub proof fn law_normalize_idempotent(pl: Seq<u32>, once: Seq<u32>, twice: Seq<u32>, s: int, t: int)
    requires
        0 < s,
        0 < t,
        is_rescaled_of(once, pl, s, t),
        is_rescaled_of(twice, once, t, t),
    ensures
        twice == once,
{
    assert forall|i: int| 0 <= i < once.len() implies twice[i] == once[i] by {
        let v = pl[i] as int;
        let c = if v > s { s } else { v };
        assert(0 <= c * t / s <= t) by (nonlinear_arith)
            requires 0 <= c <= s, 0 < s, 0 < t;
        law_rescale_within_range(once[i] as int, t);
    }
    assert(twice =~= once);
}

/// On a mosaic of at least 2x2 pixels, every colour missing at a pixel has at
/// least one sample of that colour in the pixel's mirrored 3x3 neighbourhood,
/// so the debayered estimate is a mean of real samples.
#[verifier::rlimit(60)]
pub proof fn law_demosaic_neighbours(m: Seq<u32>, w: int, h: int, p: BayerPattern, c: Channel, x: int, y: int)
    requires
        2 <= w,
        2 <= h,
        0 <= x < w,
        0 <= y < h,
    ensures
        nb_sum(m, w, h, p, c, x, y, 9).1 > 0,
{
    reveal_with_fuel(nb_sum, 10);
    lemma_nb_monotone(m, w, h, p, c, x, y, 9);
    let lx = reflect(x - 1, w);
    let rx = reflect(x + 1, w);
    let uy = reflect(y - 1, h);
    let dy = reflect(y + 1, h);
    assert(lx % 2 != x % 2 && rx % 2 != x % 2);
    assert(uy % 2 != y % 2 && dy % 2 != y % 2);
}

proof fn lemma_nb_monotone(m: Seq<u32>, w: int, h: int, p: BayerPattern, c: Channel, x: int, y: int, k: nat)
    ensures
        forall|j: nat| j <= k ==> nb_sum(m, w, h, p, c, x, y, j).1 <= #[trigger] nb_sum(m, w, h, p, c, x, y, k).1,
    decreases k,
{
    if k > 0 {
        lemma_nb_monotone(m, w, h, p, c, x, y, (k - 1) as nat);
    }
}

/// A defective pixel whose four direct neighbours are all usable is repaired
/// to their mean, rounded down.
pub proof fn law_inpaint_four_neighbours(pl: Seq<u32>, mask: Seq<bool>, w: int, h: int, x: int, y: int)
    requires
        0 < x < w - 1,
        0 < y < h - 1,
        mask[pix(w, x, y)],
        usable(mask, w, h, x, y - 1),
        usable(mask, w, h, x + 1, y),
        usable(mask, w, h, x, y + 1),
        usable(mask, w, h, x - 1, y),
    ensures
        inpaint_spec(pl, mask, w, h, x, y) == (pl[pix(w, x, y - 1)] + pl[pix(w, x + 1, y)] + pl[pix(w, x, y + 1)]
            + pl[pix(w, x - 1, y)]) / 4,
{
    reveal_with_fuel(ring_sum, 5);
    reveal_with_fuel(side_sum, 2);
    assert(ring_at(0, 0, x, y, 1) == (x, y - 1));
    assert(ring_at(1, 0, x, y, 1) == (x + 1, y));
    assert(ring_at(2, 0, x, y, 1) == (x, y + 1));
    assert(ring_at(3, 0, x, y, 1) == (x - 1, y));
    assert(ring_sum(pl, mask, w, h, x, y, 1, 4).1 == 4);
}

/// With an identity decompanding table, no known defects and unit weights,
/// the linear stages give exactly the demosaic of the raw mosaic.
pub proof fn law_identity_pipeline(
    o: PixelBuffer,
    raw: PixelBuffer,
    p: Profile,
    n: u32,
    d: PixelBuffer,
    e: PixelBuffer,
    mask: Seq<bool>,
    f: PixelBuffer,
)
    requires
        n > 0,
        linear_stages(o, raw, p, Weight { num: n, den: n }, Weight { num: n, den: n }, Weight { num: n, den: n }, false, d, e, mask, f),
        all_companded(raw.red@),
        forall|i: int| 0 <= i < TABLE_LEN ==> #[trigger] p.table@[i] == i,
        p.defects@.len() == 0,
    ensures
        is_demosaic_of(&o, raw.red@, p.pattern->Some_0),
{
    assert(d.red@ =~= raw.red@) by {
        assert forall|i: int| 0 <= i < raw.red@.len() implies d.red@[i] == raw.red@[i] by {
            assert(p.table@[raw.red@[i] as int] == raw.red@[i]);
        }
    }
    law_unit_weight(f.red@, o.red@, n);
    law_unit_weight(f.green@, o.green@, n);
    law_unit_weight(f.blue@, o.blue@, n);
    let w = o.width as int;
    let h = o.height as int;
    assert forall|x: int, y: int| 0 <= x < w && 0 <= y < h implies !#[trigger] mask[pix(w, x, y)] by {
        if mask[pix(w, x, y)] {
            let k = choose|k: int| 0 <= k < p.defects@.len() && p.defects@[k] == (x as usize, y as usize);
        }
    }
    assert forall|x: int, y: int| 0 <= x < w && 0 <= y < h implies {
        &&& #[trigger] o.red@[pix(w, x, y)] as int == demosaic_spec(raw.red@, w, h, p.pattern->Some_0, Channel::Red, x, y)
        &&& o.green@[pix(w, x, y)] as int == demosaic_spec(raw.red@, w, h, p.pattern->Some_0, Channel::Green, x, y)
        &&& o.blue@[pix(w, x, y)] as int == demosaic_spec(raw.red@, w, h, p.pattern->Some_0, Channel::Blue, x, y)
    } by {
        assert(e.width == raw.width && e.height == raw.height && f.width == e.width && f.height == e.height);
        assert(!mask[pix(w, x, y)]);
        assert(pre_weight_stages(raw, p, false, d, e, mask, f));
        assert(inpaint_step(f, e, mask));
        assert(0 <= x < e.width as int && 0 <= y < e.height as int);
        assert(f.red@[pix(e.width as int, x, y)] as int == inpaint_spec(e.red@, mask, e.width as int, e.height as int, x, y));
        assert(f.green@[pix(e.width as int, x, y)] as int == inpaint_spec(e.green@, mask, e.width as int, e.height as int, x, y));
        assert(f.red@[pix(w, x, y)] == e.red@[pix(w, x, y)]);
        assert(f.green@[pix(w, x, y)] == e.green@[pix(w, x, y)]);
        assert(f.blue@[pix(w, x, y)] == e.blue@[pix(w, x, y)]);
    }
}

} // verus!
