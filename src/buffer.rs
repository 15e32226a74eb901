use vstd::prelude::*;

verus! {

/// The integer range that the values of a buffer are meant to occupy.
#[derive(Clone, Copy, Debug, PartialEq, Eq, Structural)]
pub enum BitDepthMode {
    /// 8-bit values; straight off the sensor these are companded.
    U8,
    /// 12-bit values stored in 16-bit words.
    U12,
    /// Full 16-bit values.
    U16,
}

pub open spec fn mode_max_spec(m: BitDepthMode) -> nat {
    match m {
        BitDepthMode::U8 => 255,
        BitDepthMode::U12 => 4095,
        BitDepthMode::U16 => 65535,
    }
}

impl BitDepthMode {
    /// The largest value of the mode's range.
    pub fn max_value(&self) -> (r: u32)
        ensures
            r as nat == mode_max_spec(*self),
    {
        match self {
            BitDepthMode::U8 => 255,
            BitDepthMode::U12 => 4095,
            BitDepthMode::U16 => 65535,
        }
    }
}

} // verus!

verus! {

/// The ways a calibration stage can fail.
#[derive(Clone, Copy, Debug, PartialEq, Eq, Structural)]
pub enum CalibError {
    /// No profile is registered for the instrument.
    UnknownInstrument,
    /// The stage was invoked on a buffer in the wrong mode.
    UnsupportedMode,
    /// The profile has no recognised Bayer layout.
    InvalidPattern,
    /// A parameter (kernel size, weight, range) is out of its allowed range.
    InvalidParameter,
    /// Planes or masks do not match the buffer's dimensions.
    DimensionMismatch,
    /// The colour-space or blur backend reported an error.
    ExternalLibraryFailure,
}

/// Camera instruments known to the calibration pipeline.
#[derive(Clone, Copy, Debug, PartialEq, Eq, Structural)]
pub enum Instrument {
    MslMastcamLeft,
    MslMastcamRight,
    MslMahli,
    MslNavcamLeft,
    MslNavcamRight,
    MslHazcamFront,
    MslHazcamRear,
    MslChemcamRmi,
    MslMardi,
}

/// An image of `width * height` pixels held as three row-major planes.
#[derive(Debug)]
pub struct PixelBuffer {
    pub width: usize,
    pub height: usize,
    pub mode: BitDepthMode,
    pub instrument: Instrument,
    /// The largest value the data can reach in its current radiometric range.
    pub max_value: u32,
    pub red: Vec<u32>,
    pub green: Vec<u32>,
    pub blue: Vec<u32>,
}

impl PixelBuffer {
    /// Number of pixels.
    pub open spec fn area(&self) -> nat {
        (self.width * self.height) as nat
    }

    /// All three planes have exactly `width * height` values, and the
    /// maximum the values are measured against is positive.
    pub open spec fn wf(&self) -> bool {
        &&& self.max_value > 0
        &&& self.width * self.height <= usize::MAX
        &&& self.red@.len() == self.area()
        &&& self.green@.len() == self.area()
        &&& self.blue@.len() == self.area()
    }

    /// Builds a buffer holding a single-channel mosaic, replicated across the
    /// three planes.
    pub fn from_mosaic(
        width: usize,
        height: usize,
        mode: BitDepthMode,
        instrument: Instrument,
        data: Vec<u32>,
    ) -> (r: Result<PixelBuffer, CalibError>)
        ensures
            (width * height <= usize::MAX && data@.len() == width * height) <==> r is Ok,
            r is Err ==> r->Err_0 == CalibError::DimensionMismatch,
            r is Ok ==> {
                let b = r->Ok_0;
                &&& b.wf()
                &&& b.width == width
                &&& b.height == height
                &&& b.mode == mode
                &&& b.instrument == instrument
                &&& b.max_value as nat == mode_max_spec(mode)
                &&& b.red@ == data@
                &&& b.green@ == data@
                &&& b.blue@ == data@
            },
    {
        match width.checked_mul(height) {
            None => Err(CalibError::DimensionMismatch),
            Some(n) => {
                if data.len() != n {
                    Err(CalibError::DimensionMismatch)
                } else {
                    let red = data.clone();
                    let green = data.clone();
                    Ok(PixelBuffer {
                        width,
                        height,
                        mode,
                        instrument,
                        max_value: mode.max_value(),
                        red,
                        green,
                        blue: data,
                    })
                }
            },
        }
    }

    /// Builds a buffer from three already separated planes.
    pub fn from_planes(
        width: usize,
        height: usize,
        mode: BitDepthMode,
        instrument: Instrument,
        red: Vec<u32>,
        green: Vec<u32>,
        blue: Vec<u32>,
    ) -> (r: Result<PixelBuffer, CalibError>)
        ensures
            (width * height <= usize::MAX && red@.len() == width * height && green@.len()
                == width * height && blue@.len() == width * height) <==> r is Ok,
            r is Err ==> r->Err_0 == CalibError::DimensionMismatch,
            r is Ok ==> {
                let b = r->Ok_0;
                &&& b.wf()
                &&& b.width == width
                &&& b.height == height
                &&& b.mode == mode
                &&& b.instrument == instrument
                &&& b.max_value as nat == mode_max_spec(mode)
                &&& b.red@ == red@
                &&& b.green@ == green@
                &&& b.blue@ == blue@
            },
    {
        match width.checked_mul(height) {
            None => Err(CalibError::DimensionMismatch),
            Some(n) => {
                if red.len() != n || green.len() != n || blue.len() != n {
                    Err(CalibError::DimensionMismatch)
                } else {
                    Ok(PixelBuffer { width, height, mode, instrument, max_value: mode.max_value(), red, green, blue })
                }
            },
        }
    }

    /// Every value lies within the range of the buffer's mode.
    pub open spec fn within_mode(&self) -> bool {
        &&& forall|i: int| 0 <= i < self.red@.len() ==> #[trigger] self.red@[i] <= mode_max_spec(self.mode)
        &&& forall|i: int| 0 <= i < self.green@.len() ==> #[trigger] self.green@[i] <= mode_max_spec(self.mode)
        &&& forall|i: int| 0 <= i < self.blue@.len() ==> #[trigger] self.blue@[i] <= mode_max_spec(self.mode)
    }

    /// Index of pixel `(x, y)` in a plane.
    pub open spec fn idx(&self, x: int, y: int) -> int {
        y * self.width + x
    }

    /// Reads pixel `(x, y)` of the three planes.
    pub fn get(&self, x: usize, y: usize) -> (r: (u32, u32, u32))
        requires
            self.wf(),
            x < self.width,
            y < self.height,
        ensures
            r == (self.red@[self.idx(x as int, y as int)], self.green@[self.idx(x as int, y as int)],
                self.blue@[self.idx(x as int, y as int)]),
    {
        proof { lemma_index_in_bounds(x as int, y as int, self.width as int, self.height as int); }
        let i = y * self.width + x;
        (self.red[i], self.green[i], self.blue[i])
    }
}

/// A pixel inside a `w * h` grid has a row-major index inside the grid.
pub proof fn lemma_index_in_bounds(x: int, y: int, w: int, h: int)
    requires
        0 <= x < w,
        0 <= y < h,
    ensures
        0 <= y * w + x < w * h,
        y * w <= (h - 1) * w,
{
    assert(y * w <= (h - 1) * w) by (nonlinear_arith)
        requires 0 <= y <= h - 1, 0 < w;
    assert((h - 1) * w + w == w * h) by (nonlinear_arith);
    assert(0 <= y * w) by (nonlinear_arith)
        requires 0 <= y, 0 < w;
}

} // verus!
