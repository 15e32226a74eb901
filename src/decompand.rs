use vstd::prelude::*;

use crate::buffer::{mode_max_spec, BitDepthMode, CalibError, PixelBuffer};
use crate::profile::{Registry, TABLE_LEN};

verus! {

/// The mode of a decompanded buffer whose values reach `linear_max`.
pub open spec fn linear_mode(linear_max: int) -> BitDepthMode {
    if linear_max <= 4095 { BitDepthMode::U12 } else { BitDepthMode::U16 }
}

/// Every value of `pl` indexes a decompanding table.
pub open spec fn all_companded(pl: Seq<u32>) -> bool {
    forall|i: int| 0 <= i < pl.len() ==> #[trigger] pl[i] < TABLE_LEN
}

/// `out` is `pl` with each value replaced by its table entry.
pub open spec fn is_lookup_of(out: Seq<u32>, pl: Seq<u32>, table: Seq<u32>) -> bool {
    &&& out.len() == pl.len()
    &&& forall|i: int| 0 <= i < pl.len() ==> #[trigger] out[i] == table[pl[i] as int]
}

/// Passes one plane through `table`; `None` if a value has no entry.
fn lookup_plane(pl: &Vec<u32>, table: &Vec<u32>) -> (r: Option<Vec<u32>>)
    requires
        table@.len() == TABLE_LEN,
    ensures
        r is Some <==> all_companded(pl@),
        r is Some ==> is_lookup_of(r->Some_0@, pl@, table@),
{
    let mut out: Vec<u32> = Vec::new();
    let mut i: usize = 0;
    while i < pl.len()
        invariant
            table@.len() == TABLE_LEN,
            i <= pl@.len(),
            out@.len() == i,
            forall|j: int| 0 <= j < i ==> #[trigger] pl@[j] < TABLE_LEN,
            forall|j: int| 0 <= j < i ==> #[trigger] out@[j] == table@[pl@[j] as int],
        decreases pl@.len() - i,
    {
        let v = pl[i];
        if v as usize >= table.len() {
            return None;
        }
        out.push(table[v as usize]);
        i += 1;
    }
    Some(out)
}

/// Restores linear values from companded 8-bit ones with the table of the
/// buffer's instrument. The result is in 12- or 16-bit mode, as the
/// instrument's linear maximum requires, and carries that maximum.
///
/// A buffer that is not in 8-bit mode, or holds a value above 255, is not
/// companded and is refused with `UnsupportedMode`; so is a buffer that was
/// already decompanded.
pub fn decompand(buf: PixelBuffer, registry: &Registry) -> (r: Result<PixelBuffer, CalibError>)
    requires
        buf.wf(),
        registry.wf(),
    ensures
        r is Ok <==> buf.mode == BitDepthMode::U8 && registry.has(buf.instrument) && all_companded(buf.red@)
            && all_companded(buf.green@) && all_companded(buf.blue@),
        buf.mode != BitDepthMode::U8 ==> r == Err::<PixelBuffer, CalibError>(CalibError::UnsupportedMode),
        buf.mode == BitDepthMode::U8 && !registry.has(buf.instrument)
            ==> r == Err::<PixelBuffer, CalibError>(CalibError::UnknownInstrument),
        r is Err && registry.has(buf.instrument) ==> r->Err_0 == CalibError::UnsupportedMode,
        r is Ok ==> {
            let o = r->Ok_0;
            let p = registry.lookup(buf.instrument);
            &&& o.wf()
            &&& o.width == buf.width
            &&& o.height == buf.height
            &&& o.instrument == buf.instrument
            &&& o.mode == linear_mode(p.linear_max as int)
            &&& o.max_value == p.linear_max
            &&& o.within_mode()
            &&& is_lookup_of(o.red@, buf.red@, p.table@)
            &&& is_lookup_of(o.green@, buf.green@, p.table@)
            &&& is_lookup_of(o.blue@, buf.blue@, p.table@)
        },
{
    if buf.mode != BitDepthMode::U8 {
        return Err(CalibError::UnsupportedMode);
    }
    let p = registry.profile_for(buf.instrument)?;
    let red = match lookup_plane(&buf.red, &p.table) {
        Some(v) => v,
        None => return Err(CalibError::UnsupportedMode),
    };
    let green = match lookup_plane(&buf.green, &p.table) {
        Some(v) => v,
        None => return Err(CalibError::UnsupportedMode),
    };
    let blue = match lookup_plane(&buf.blue, &p.table) {
        Some(v) => v,
        None => return Err(CalibError::UnsupportedMode),
    };
    let mode = if p.linear_max <= 4095 { BitDepthMode::U12 } else { BitDepthMode::U16 };
    assert forall|i: int| 0 <= i < red@.len() implies #[trigger] red@[i] <= mode_max_spec(mode) by {
        assert(p.table@[buf.red@[i] as int] <= p.linear_max);
    }
    assert forall|i: int| 0 <= i < green@.len() implies #[trigger] green@[i] <= mode_max_spec(mode) by {
        assert(p.table@[buf.green@[i] as int] <= p.linear_max);
    }
    assert forall|i: int| 0 <= i < blue@.len() implies #[trigger] blue@[i] <= mode_max_spec(mode) by {
        assert(p.table@[buf.blue@[i] as int] <= p.linear_max);
    }
    Ok(PixelBuffer {
        width: buf.width,
        height: buf.height,
        mode,
        instrument: buf.instrument,
        max_value: p.linear_max,
        red,
        green,
        blue,
    })
}

} // verus!
