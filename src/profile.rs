use vstd::prelude::*;

use crate::buffer::{mode_max_spec, BitDepthMode, CalibError, Instrument};

verus! {

/// The colour of the filter over the top-left pixel of each 2x2 tile, read
/// row by row.
#[derive(Clone, Copy, Debug, PartialEq, Eq, Structural)]
pub enum BayerPattern {
    Rggb,
    Bggr,
    Grbg,
    Gbrg,
}

/// One of the three colour planes.
#[derive(Clone, Copy, Debug, PartialEq, Eq, Structural)]
pub enum Channel {
    Red,
    Green,
    Blue,
}

/// The colour sampled at `(x, y)` of a mosaic with the given layout.
pub open spec fn color_at_spec(p: BayerPattern, x: int, y: int) -> Channel {
    let ex = x % 2 == 0;
    let ey = y % 2 == 0;
    match p {
        BayerPattern::Rggb => if ex && ey { Channel::Red } else if !ex && !ey { Channel::Blue } else { Channel::Green },
        BayerPattern::Bggr => if ex && ey { Channel::Blue } else if !ex && !ey { Channel::Red } else { Channel::Green },
        BayerPattern::Grbg => if !ex && ey { Channel::Red } else if ex && !ey { Channel::Blue } else { Channel::Green },
        BayerPattern::Gbrg => if !ex && ey { Channel::Blue } else if ex && !ey { Channel::Red } else { Channel::Green },
    }
}

impl BayerPattern {
    /// The colour sampled at `(x, y)`.
    pub fn color_at(&self, x: usize, y: usize) -> (r: Channel)
        ensures
            r == color_at_spec(*self, x as int, y as int),
    {
        let ex = x % 2 == 0;
        let ey = y % 2 == 0;
        match self {
            BayerPattern::Rggb => if ex && ey { Channel::Red } else if !ex && !ey { Channel::Blue } else { Channel::Green },
            BayerPattern::Bggr => if ex && ey { Channel::Blue } else if !ex && !ey { Channel::Red } else { Channel::Green },
            BayerPattern::Grbg => if !ex && ey { Channel::Red } else if ex && !ey { Channel::Blue } else { Channel::Green },
            BayerPattern::Gbrg => if !ex && ey { Channel::Blue } else if ex && !ey { Channel::Red } else { Channel::Green },
        }
    }
}

/// Number of entries of a decompanding table: one per 8-bit input.
pub const TABLE_LEN: usize = 256;

/// Calibration metadata of one instrument.
#[derive(Debug)]
pub struct Profile {
    pub instrument: Instrument,
    /// Maps each companded 8-bit value to its linear value.
    pub table: Vec<u32>,
    /// The largest linear value the table produces.
    pub linear_max: u32,
    /// `None` for a monochrome sensor.
    pub pattern: Option<BayerPattern>,
    pub native_mode: BitDepthMode,
    /// Coordinates `(x, y)` of known defective sensor pixels.
    pub defects: Vec<(usize, usize)>,
}

impl Profile {
    /// The table has one entry per 8-bit value, none above the linear maximum,
    /// and that maximum fits in 16 bits.
    pub open spec fn wf(&self) -> bool {
        &&& self.table@.len() == TABLE_LEN
        &&& 0 < self.linear_max <= 65535
        &&& forall|i: int| 0 <= i < self.table@.len() ==> #[trigger] self.table@[i] <= self.linear_max
    }

    /// Builds a profile, checking its table against its linear maximum.
    pub fn new(
        instrument: Instrument,
        table: Vec<u32>,
        linear_max: u32,
        pattern: Option<BayerPattern>,
        native_mode: BitDepthMode,
        defects: Vec<(usize, usize)>,
    ) -> (r: Result<Profile, CalibError>)
        ensures
            r is Ok <==> (table@.len() == TABLE_LEN && 0 < linear_max <= 65535 && forall|i: int|
                0 <= i < table@.len() ==> #[trigger] table@[i] <= linear_max),
            r is Err ==> r->Err_0 == CalibError::InvalidParameter,
            r is Ok ==> {
                let p = r->Ok_0;
                &&& p.wf()
                &&& p.instrument == instrument
                &&& p.table@ == table@
                &&& p.linear_max == linear_max
                &&& p.pattern == pattern
                &&& p.native_mode == native_mode
                &&& p.defects@ == defects@
            },
    {
        if table.len() != TABLE_LEN || linear_max == 0 || linear_max > 65535 {
            return Err(CalibError::InvalidParameter);
        }
        let mut i: usize = 0;
        while i < table.len()
            invariant
                i <= table@.len(),
                forall|j: int| 0 <= j < i ==> #[trigger] table@[j] <= linear_max,
            decreases table@.len() - i,
        {
            if table[i] > linear_max {
                return Err(CalibError::InvalidParameter);
            }
            i += 1;
        }
        Ok(Profile { instrument, table, linear_max, pattern, native_mode, defects })
    }
}

/// Entry `i` of the square-law table that expands to `linear_max`.
pub open spec fn square_law_spec(i: int, linear_max: int) -> int {
    i * i * linear_max / 65025int
}

/// The decompanding table of square-root companding: entry `i` is
/// `i * i * linear_max / 255^2`, rounded down.
pub fn square_law_table(linear_max: u32) -> (r: Vec<u32>)
    requires
        linear_max <= 65535,
    ensures
        r@.len() == TABLE_LEN,
        forall|i: int| 0 <= i < TABLE_LEN ==> #[trigger] r@[i] as int == square_law_spec(i, linear_max as int),
        forall|i: int| 0 <= i < TABLE_LEN ==> #[trigger] r@[i] <= linear_max,
{
    let mut t: Vec<u32> = Vec::new();
    let mut i: u64 = 0;
    while i < 256
        invariant
            i <= 256,
            t@.len() == i,
            linear_max <= 65535,
            forall|j: int| 0 <= j < i ==> #[trigger] t@[j] as int == square_law_spec(j, linear_max as int),
            forall|j: int| 0 <= j < i ==> #[trigger] t@[j] <= linear_max,
        decreases 256 - i,
    {
        assert(i * i <= 65025) by (nonlinear_arith)
            requires i < 256;
        assert(i * i * (linear_max as u64) <= 65025 * 65535) by (nonlinear_arith)
            requires i < 256, linear_max <= 65535;
        let v = i * i * (linear_max as u64) / 65025;
        assert(v <= linear_max) by (nonlinear_arith)
            requires v == i * i * (linear_max as u64) / 65025, i < 256;
        t.push(v as u32);
        i += 1;
    }
    t
}

/// Read-only mapping from instrument to its calibration profile.
#[derive(Debug)]
pub struct Registry {
    pub profiles: Vec<Profile>,
}

impl Registry {
    /// Every registered profile is well formed, and no instrument has two.
    pub open spec fn wf(&self) -> bool {
        &&& forall|i: int| 0 <= i < self.profiles@.len() ==> (#[trigger] self.profiles@[i]).wf()
        &&& forall|i: int, j: int|
            0 <= i < self.profiles@.len() && 0 <= j < self.profiles@.len() && i != j
                ==> (#[trigger] self.profiles@[i]).instrument != (#[trigger] self.profiles@[j]).instrument
    }

    /// The profile registered for `inst`.
    pub open spec fn lookup(&self, inst: Instrument) -> Profile
        recommends
            self.has(inst),
    {
        self.profiles@[choose|i: int| 0 <= i < self.profiles@.len() && (#[trigger] self.profiles@[i]).instrument == inst]
    }

    /// Whether some profile is registered for `inst`.
    pub open spec fn has(&self, inst: Instrument) -> bool {
        exists|i: int| 0 <= i < self.profiles@.len() && (#[trigger] self.profiles@[i]).instrument == inst
    }

    /// A registry with no profiles.
    pub fn new() -> (r: Registry)
        ensures
            r.wf(),
            r.profiles@.len() == 0,
    {
        Registry { profiles: Vec::new() }
    }

    /// Adds a profile; fails if its instrument already has one.
    pub fn register(&mut self, p: Profile) -> (r: Result<(), CalibError>)
        requires
            old(self).wf(),
            p.wf(),
        ensures
            final(self).wf(),
            r is Ok <==> !old(self).has(p.instrument),
            r is Err ==> r->Err_0 == CalibError::InvalidParameter && final(self).profiles@ == old(self).profiles@,
            r is Ok ==> final(self).profiles@ == old(self).profiles@.push(p),
    {
        let mut i: usize = 0;
        while i < self.profiles.len()
            invariant
                self.wf(),
                self.profiles@ == old(self).profiles@,
                i <= self.profiles@.len(),
                forall|j: int| 0 <= j < i ==> (#[trigger] self.profiles@[j]).instrument != p.instrument,
            decreases self.profiles@.len() - i,
        {
            if self.profiles[i].instrument == p.instrument {
                return Err(CalibError::InvalidParameter);
            }
            i += 1;
        }
        self.profiles.push(p);
        assert forall|k: int| 0 <= k < self.profiles@.len() implies (#[trigger] self.profiles@[k]).wf() by {
            if k < old(self).profiles@.len() {
                assert(self.profiles@[k] == old(self).profiles@[k]);
            }
        }
        Ok(())
    }

    /// The profile registered for `inst`.
    pub fn profile_for(&self, inst: Instrument) -> (r: Result<&Profile, CalibError>)
        requires
            self.wf(),
        ensures
            r is Ok <==> self.has(inst),
            r is Err ==> r->Err_0 == CalibError::UnknownInstrument,
            r is Ok ==> *r->Ok_0 == self.lookup(inst),
            r is Ok ==> r->Ok_0.instrument == inst && r->Ok_0.wf(),
    {
        let mut i: usize = 0;
        while i < self.profiles.len()
            invariant
                self.wf(),
                i <= self.profiles@.len(),
                forall|j: int| 0 <= j < i ==> (#[trigger] self.profiles@[j]).instrument != inst,
            decreases self.profiles@.len() - i,
        {
            if self.profiles[i].instrument == inst {
                assert(self.profiles@[i as int].wf());
                let ghost c = choose|c: int| 0 <= c < self.profiles@.len() && (#[trigger] self.profiles@[c]).instrument == inst;
                assert(c == i);
                return Ok(&self.profiles[i]);
            }
            i += 1;
        }
        Err(CalibError::UnknownInstrument)
    }
}

/// The linear maximum of the standard profiles: the sensors' 12-bit range.
pub const STANDARD_LINEAR_MAX: u32 = 4095;

/// The colour filter layout of each instrument: the colour cameras carry an
/// RGGB filter, the engineering cameras are monochrome.
pub open spec fn standard_pattern(inst: Instrument) -> Option<BayerPattern> {
    match inst {
        Instrument::MslMastcamLeft | Instrument::MslMastcamRight | Instrument::MslMahli | Instrument::MslMardi => Some(
            BayerPattern::Rggb,
        ),
        _ => None,
    }
}

/// Profile `p` is the standard one of its instrument.
pub open spec fn is_standard(p: Profile) -> bool {
    &&& p.pattern == standard_pattern(p.instrument)
    &&& p.linear_max == STANDARD_LINEAR_MAX
    &&& forall|i: int| 0 <= i < TABLE_LEN ==> #[trigger] p.table@[i] as int == square_law_spec(i, STANDARD_LINEAR_MAX as int)
}

fn standard_profile(inst: Instrument) -> (p: Profile)
    ensures
        p.wf(),
        p.instrument == inst,
        is_standard(p),
{
    let pattern = match inst {
        Instrument::MslMastcamLeft | Instrument::MslMastcamRight | Instrument::MslMahli | Instrument::MslMardi => Some(
            BayerPattern::Rggb,
        ),
        _ => None,
    };
    Profile {
        instrument: inst,
        table: square_law_table(STANDARD_LINEAR_MAX),
        linear_max: STANDARD_LINEAR_MAX,
        pattern,
        native_mode: BitDepthMode::U12,
        defects: Vec::new(),
    }
}

impl Registry {
    /// Every registered profile is the standard one of its instrument.
    pub open spec fn all_standard(&self) -> bool {
        forall|i: int| 0 <= i < self.profiles@.len() ==> is_standard(#[trigger] self.profiles@[i])
    }

    fn add_standard(&mut self, inst: Instrument)
        requires
            old(self).wf(),
            old(self).all_standard(),
        ensures
            final(self).wf(),
            final(self).all_standard(),
            final(self).has(inst),
            forall|j: Instrument| old(self).has(j) ==> #[trigger] final(self).has(j),
    {
        let p = standard_profile(inst);
        let ghost before = self.profiles@;
        let r = self.register(p);
        proof {
            if r is Ok {
                assert(self.profiles@[before.len() as int].instrument == inst);
                assert forall|j: Instrument| #[trigger] old(self).has(j) implies self.has(j) by {
                    let i = choose|i: int| 0 <= i < before.len() && (#[trigger] before[i]).instrument == j;
                    assert(self.profiles@[i] == before[i]);
                }
            }
        }
    }

    /// The registry of the standard profiles of every instrument: square-law
    /// tables to `STANDARD_LINEAR_MAX`, the filter layouts of
    /// `standard_pattern`, 12-bit native depth and no known defects.
    pub fn standard() -> (r: Registry)
        ensures
            r.wf(),
            forall|inst: Instrument| #[trigger] r.has(inst),
            forall|inst: Instrument| is_standard(#[trigger] r.lookup(inst)),
    {
        let mut r = Registry::new();
        r.add_standard(Instrument::MslMastcamLeft);
        r.add_standard(Instrument::MslMastcamRight);
        r.add_standard(Instrument::MslMahli);
        r.add_standard(Instrument::MslNavcamLeft);
        r.add_standard(Instrument::MslNavcamRight);
        r.add_standard(Instrument::MslHazcamFront);
        r.add_standard(Instrument::MslHazcamRear);
        r.add_standard(Instrument::MslChemcamRmi);
        r.add_standard(Instrument::MslMardi);
        assert forall|inst: Instrument| #[trigger] r.has(inst) by {
            match inst {
                Instrument::MslMastcamLeft => {},
                Instrument::MslMastcamRight => {},
                Instrument::MslMahli => {},
                Instrument::MslNavcamLeft => {},
                Instrument::MslNavcamRight => {},
                Instrument::MslHazcamFront => {},
                Instrument::MslHazcamRear => {},
                Instrument::MslChemcamRmi => {},
                Instrument::MslMardi => {},
            }
        }
        assert forall|inst: Instrument| is_standard(#[trigger] r.lookup(inst)) by {
            assert(r.has(inst));
            let i = choose|i: int| 0 <= i < r.profiles@.len() && (#[trigger] r.profiles@[i]).instrument == inst;
            assert(is_standard(r.profiles@[i]));
        }
        r
    }
}

} // verus!
