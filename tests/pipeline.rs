use mars_raw_calib::buffer::{BitDepthMode, CalibError, Instrument, PixelBuffer};
use mars_raw_calib::debayer::debayer;
use mars_raw_calib::decompand::decompand;
use mars_raw_calib::inpaint::{defect_mask, inpaint};
use mars_raw_calib::noise::{finish_color_noise_reduction, prepare_color_noise_reduction};
use mars_raw_calib::pipeline::calibrate_linear;
use mars_raw_calib::profile::{square_law_table, BayerPattern, Profile, Registry};
use mars_raw_calib::scale::{apply_weight, normalize, Weight};

fn identity_table() -> Vec<u32> {
    (0..256u32).collect()
}

fn registry_with(table: Vec<u32>, linear_max: u32, pattern: Option<BayerPattern>) -> Registry {
    let mut reg = Registry::new();
    let p = Profile::new(Instrument::MslMastcamLeft, table, linear_max, pattern, BitDepthMode::U8, vec![]).unwrap();
    reg.register(p).unwrap();
    reg
}

fn mosaic_4x4() -> Vec<u32> {
    vec![10, 200, 30, 220, 240, 50, 255, 70, 90, 180, 110, 160, 140, 130, 120, 150]
}

const UNIT: Weight = Weight { num: 1, den: 1 };

#[test]
fn end_to_end_identity_pipeline_matches_reference_demosaic() {
    let reg = registry_with(identity_table(), 255, Some(BayerPattern::Rggb));
    let buf = PixelBuffer::from_mosaic(4, 4, BitDepthMode::U8, Instrument::MslMastcamLeft, mosaic_4x4()).unwrap();
    let buf = decompand(buf, &reg).unwrap();
    assert_eq!(buf.max_value, 255);
    let buf = debayer(buf, &reg).unwrap();
    let buf = apply_weight(buf, UNIT, UNIT, UNIT).unwrap();
    let max = buf.max_value;
    let buf = normalize(buf, max, BitDepthMode::U8).unwrap();
    assert_eq!(buf.mode, BitDepthMode::U8);
    assert_eq!((buf.width, buf.height), (4, 4));
    assert_eq!(buf.red, vec![10, 20, 30, 30, 50, 60, 70, 70, 90, 100, 110, 110, 90, 100, 110, 110]);
    assert_eq!(buf.green, vec![220, 200, 232, 220, 240, 218, 255, 222, 185, 180, 178, 160, 140, 155, 120, 140]);
    assert_eq!(buf.blue, vec![50, 50, 60, 70, 50, 50, 60, 70, 90, 90, 100, 110, 130, 130, 140, 150]);
}

#[test]
fn inpaint_single_defect_takes_mean_of_four_neighbours() {
    let data = vec![99, 30, 99, 10, 7, 20, 99, 40, 99];
    let buf = PixelBuffer::from_mosaic(3, 3, BitDepthMode::U16, Instrument::MslMahli, data.clone()).unwrap();
    let mask = defect_mask(3, 3, &vec![(1, 1)]);
    let out = inpaint(buf, &mask).unwrap();
    let mut expected = data.clone();
    expected[4] = 25;
    assert_eq!(out.red, expected);
    assert_eq!(out.green, expected);
    assert_eq!(out.blue, expected);
}

#[test]
fn inpaint_expands_radius_past_defective_neighbours() {
    let data = vec![1, 2, 3, 4, 5, 6, 7, 8, 9, 10, 11, 12, 13, 14, 15, 16, 17, 18, 19, 20, 21, 22, 23, 24, 25];
    let buf = PixelBuffer::from_mosaic(5, 5, BitDepthMode::U16, Instrument::MslMahli, data.clone()).unwrap();
    let mask = defect_mask(5, 5, &vec![(2, 2), (1, 2), (3, 2), (2, 1), (2, 3)]);
    let out = inpaint(buf, &mask).unwrap();
    // The centre's ring at distance 2 holds 3, 9, 15, 19, 23, 17, 11 and 7.
    assert_eq!(out.red[12], (3 + 9 + 15 + 19 + 23 + 17 + 11 + 7) / 8);
    // A defective neighbour takes the mean of its usable neighbours 7, 17 and 11.
    assert_eq!(out.red[11], (7 + 17 + 11) / 3);
    // Pixels outside the defect set pass through.
    assert_eq!(out.red[0], 1);
    assert_eq!(out.red[24], 25);
}

#[test]
fn inpaint_keeps_non_defective_pixels() {
    let data: Vec<u32> = (0..12).map(|v| v * 7).collect();
    let buf = PixelBuffer::from_mosaic(4, 3, BitDepthMode::U16, Instrument::MslMahli, data.clone()).unwrap();
    let mask = defect_mask(4, 3, &vec![(0, 0), (9, 9)]);
    assert!(mask[0]);
    assert_eq!(mask.iter().filter(|b| **b).count(), 1);
    let out = inpaint(buf, &mask).unwrap();
    for i in 1..12 {
        assert_eq!(out.red[i], data[i]);
    }
    assert_eq!(out.red[0], (7 + 28) / 2);
}

#[test]
fn inpaint_keeps_value_when_no_pixel_is_usable() {
    let buf = PixelBuffer::from_mosaic(2, 1, BitDepthMode::U16, Instrument::MslMahli, vec![5, 6]).unwrap();
    let mask = defect_mask(2, 1, &vec![(0, 0), (1, 0)]);
    let out = inpaint(buf, &mask).unwrap();
    assert_eq!(out.red, vec![5, 6]);
}

#[test]
fn inpaint_reaches_far_corner() {
    let data = vec![1, 2, 3, 4, 5, 6, 7, 8, 90];
    let buf = PixelBuffer::from_mosaic(3, 3, BitDepthMode::U16, Instrument::MslMahli, data).unwrap();
    let mask = defect_mask(3, 3, &vec![(0, 0), (1, 0), (2, 0), (0, 1), (1, 1), (2, 1), (0, 2), (1, 2)]);
    let out = inpaint(buf, &mask).unwrap();
    assert_eq!(out.red[0], 90);
    assert_eq!(out.red[8], 90);
}

#[test]
fn noise_reduction_accepts_odd_kernel_on_wide_buffer() {
    let buf = PixelBuffer::from_mosaic(1, 1, BitDepthMode::U16, Instrument::MslMahli, vec![65535]).unwrap();
    let out = prepare_color_noise_reduction(buf, 3).unwrap();
    assert_eq!((out.width, out.height, out.max_value), (1, 1, 255));
    assert_eq!(out.red, vec![255]);
}

#[test]
fn inpaint_rejects_mask_of_wrong_size() {
    let buf = PixelBuffer::from_mosaic(2, 2, BitDepthMode::U8, Instrument::MslMahli, vec![1, 2, 3, 4]).unwrap();
    assert_eq!(inpaint(buf, &vec![false; 3]).unwrap_err(), CalibError::DimensionMismatch);
}

#[test]
fn decompand_twice_is_refused() {
    let reg = registry_with(square_law_table(4095), 4095, Some(BayerPattern::Rggb));
    let buf = PixelBuffer::from_mosaic(2, 2, BitDepthMode::U8, Instrument::MslMastcamLeft, vec![0, 16, 100, 255]).unwrap();
    let once = decompand(buf, &reg).unwrap();
    assert_eq!(once.mode, BitDepthMode::U12);
    assert_eq!(once.max_value, 4095);
    assert_eq!(once.red, vec![0, 16, 629, 4095]);
    assert_eq!(decompand(once, &reg).unwrap_err(), CalibError::UnsupportedMode);
}

#[test]
fn decompand_unknown_instrument() {
    let reg = registry_with(identity_table(), 255, None);
    let buf = PixelBuffer::from_mosaic(1, 1, BitDepthMode::U8, Instrument::MslMardi, vec![3]).unwrap();
    assert_eq!(decompand(buf, &reg).unwrap_err(), CalibError::UnknownInstrument);
}

#[test]
fn decompand_rejects_value_out_of_companded_range() {
    let reg = registry_with(identity_table(), 255, None);
    let buf = PixelBuffer::from_mosaic(1, 2, BitDepthMode::U8, Instrument::MslMastcamLeft, vec![3, 256]).unwrap();
    assert_eq!(decompand(buf, &reg).unwrap_err(), CalibError::UnsupportedMode);
}

#[test]
fn decompand_wide_table_gives_16_bit_mode() {
    let reg = registry_with(square_law_table(65535), 65535, None);
    let buf = PixelBuffer::from_mosaic(1, 1, BitDepthMode::U8, Instrument::MslMastcamLeft, vec![255]).unwrap();
    let out = decompand(buf, &reg).unwrap();
    assert_eq!(out.mode, BitDepthMode::U16);
    assert_eq!(out.red, vec![65535]);
}

#[test]
fn debayer_without_pattern_is_invalid() {
    let reg = registry_with(identity_table(), 255, None);
    let buf = PixelBuffer::from_mosaic(2, 2, BitDepthMode::U8, Instrument::MslMastcamLeft, vec![1, 2, 3, 4]).unwrap();
    assert_eq!(debayer(buf, &reg).unwrap_err(), CalibError::InvalidPattern);
}

#[test]
fn debayer_keeps_dimensions_and_fills_every_pixel() {
    let reg = registry_with(identity_table(), 255, Some(BayerPattern::Gbrg));
    let data: Vec<u32> = (1..=15).collect();
    let buf = PixelBuffer::from_mosaic(5, 3, BitDepthMode::U8, Instrument::MslMastcamLeft, data).unwrap();
    let out = debayer(buf, &reg).unwrap();
    assert_eq!((out.width, out.height), (5, 3));
    assert_eq!(out.red.len(), 15);
    assert_eq!(out.green.len(), 15);
    assert_eq!(out.blue.len(), 15);
    assert!(out.red.iter().chain(out.green.iter()).chain(out.blue.iter()).all(|v| *v > 0));
}

#[test]
fn weight_one_is_identity() {
    let buf = PixelBuffer::from_planes(2, 1, BitDepthMode::U12, Instrument::MslMahli, vec![5, 4095], vec![7, 0], vec![1, 2]).unwrap();
    let w = Weight { num: 1000, den: 1000 };
    let out = apply_weight(buf, w, w, w).unwrap();
    assert_eq!(out.red, vec![5, 4095]);
    assert_eq!(out.green, vec![7, 0]);
    assert_eq!(out.blue, vec![1, 2]);
}

#[test]
fn weight_scales_each_plane_independently() {
    let buf = PixelBuffer::from_planes(1, 1, BitDepthMode::U12, Instrument::MslMahli, vec![100], vec![100], vec![100]).unwrap();
    let out = apply_weight(buf, Weight { num: 3, den: 2 }, Weight { num: 1, den: 3 }, Weight { num: 0, den: 1 }).unwrap();
    assert_eq!((out.red[0], out.green[0], out.blue[0]), (150, 33, 0));
}

#[test]
fn weight_rejects_zero_denominator_and_overflow() {
    let buf = PixelBuffer::from_mosaic(1, 1, BitDepthMode::U16, Instrument::MslMahli, vec![1]).unwrap();
    assert_eq!(apply_weight(buf, UNIT, Weight { num: 1, den: 0 }, UNIT).unwrap_err(), CalibError::InvalidParameter);
    let buf = PixelBuffer::from_mosaic(1, 1, BitDepthMode::U16, Instrument::MslMahli, vec![u32::MAX]).unwrap();
    assert_eq!(apply_weight(buf, Weight { num: 2, den: 1 }, UNIT, UNIT).unwrap_err(), CalibError::InvalidParameter);
}

#[test]
fn normalize_rescales_and_clamps() {
    let buf = PixelBuffer::from_mosaic(3, 1, BitDepthMode::U12, Instrument::MslMahli, vec![1000, 2033, 5000]).unwrap();
    let out = normalize(buf, 2033, BitDepthMode::U16).unwrap();
    assert_eq!(out.red, vec![32235, 65535, 65535]);
    assert_eq!(out.mode, BitDepthMode::U16);
    assert_eq!(out.max_value, 65535);
}

#[test]
fn normalize_twice_is_idempotent() {
    let buf = PixelBuffer::from_mosaic(4, 1, BitDepthMode::U12, Instrument::MslMahli, vec![0, 17, 300, 4095]).unwrap();
    let once = normalize(buf, 4095, BitDepthMode::U8).unwrap();
    let copy = once.red.clone();
    let twice = normalize(once, 255, BitDepthMode::U8).unwrap();
    assert_eq!(twice.red, copy);
    assert_eq!(copy, vec![0, 1, 18, 255]);
}

#[test]
fn normalize_zero_source_is_invalid() {
    let buf = PixelBuffer::from_mosaic(1, 1, BitDepthMode::U12, Instrument::MslMahli, vec![1]).unwrap();
    assert_eq!(normalize(buf, 0, BitDepthMode::U8).unwrap_err(), CalibError::InvalidParameter);
}

#[test]
fn noise_reduction_rejects_even_or_negative_kernel() {
    for k in [4, 0, -3] {
        let buf = PixelBuffer::from_mosaic(1, 1, BitDepthMode::U8, Instrument::MslMahli, vec![1]).unwrap();
        assert_eq!(prepare_color_noise_reduction(buf, k).unwrap_err(), CalibError::InvalidParameter);
    }
}

#[test]
fn noise_reduction_round_trips_through_8_bit() {
    let buf = PixelBuffer::from_mosaic(2, 1, BitDepthMode::U12, Instrument::MslMahli, vec![4095, 2048]).unwrap();
    let prepared = prepare_color_noise_reduction(buf, 1).unwrap();
    assert_eq!(prepared.mode, BitDepthMode::U8);
    assert_eq!(prepared.red, vec![255, 127]);
    let back = finish_color_noise_reduction(prepared, 2, 1, BitDepthMode::U12).unwrap();
    assert_eq!(back.mode, BitDepthMode::U12);
    assert_eq!(back.red, vec![4095, 2039]);
    let eight = PixelBuffer::from_mosaic(1, 1, BitDepthMode::U8, Instrument::MslMahli, vec![9]).unwrap();
    assert_eq!(finish_color_noise_reduction(eight, 2, 1, BitDepthMode::U8).unwrap_err(), CalibError::DimensionMismatch);
}

#[test]
fn buffer_construction_checks_dimensions() {
    assert_eq!(
        PixelBuffer::from_mosaic(2, 2, BitDepthMode::U8, Instrument::MslMahli, vec![1, 2, 3]).unwrap_err(),
        CalibError::DimensionMismatch
    );
    assert_eq!(
        PixelBuffer::from_planes(1, 2, BitDepthMode::U8, Instrument::MslMahli, vec![1, 2], vec![1], vec![1, 2]).unwrap_err(),
        CalibError::DimensionMismatch
    );
    let b = PixelBuffer::from_planes(2, 1, BitDepthMode::U8, Instrument::MslMahli, vec![1, 2], vec![3, 4], vec![5, 6]).unwrap();
    assert_eq!(b.get(1, 0), (2, 4, 6));
}

#[test]
fn calibrate_linear_runs_stages_in_order() {
    let mut reg = Registry::new();
    let p = Profile::new(Instrument::MslMastcamLeft, identity_table(), 255, Some(BayerPattern::Rggb), BitDepthMode::U8, vec![(0, 0)]).unwrap();
    reg.register(p).unwrap();
    let buf = PixelBuffer::from_mosaic(4, 4, BitDepthMode::U8, Instrument::MslMastcamLeft, mosaic_4x4()).unwrap();
    let out = calibrate_linear(buf, &reg, Weight { num: 2, den: 1 }, UNIT, UNIT, false).unwrap();
    assert_eq!(out.data_max, 255);
    // Pixel (0, 0) is repaired from its right and lower neighbours, then doubled in red.
    assert_eq!(out.buffer.red[0], 2 * ((20 + 50) / 2));
    assert_eq!(out.buffer.red[1], 40);
    assert_eq!(out.buffer.green[5], 218);
}

#[test]
fn calibrate_linear_reports_first_failure() {
    let reg = registry_with(identity_table(), 255, None);
    let buf = PixelBuffer::from_mosaic(2, 2, BitDepthMode::U12, Instrument::MslMastcamLeft, vec![1, 2, 3, 4]).unwrap();
    assert_eq!(calibrate_linear(buf, &reg, UNIT, UNIT, UNIT, false).unwrap_err(), CalibError::UnsupportedMode);
    let buf = PixelBuffer::from_mosaic(2, 2, BitDepthMode::U12, Instrument::MslMastcamLeft, vec![1, 2, 3, 4]).unwrap();
    assert_eq!(calibrate_linear(buf, &reg, UNIT, UNIT, UNIT, true).unwrap_err(), CalibError::InvalidPattern);
    let buf = PixelBuffer::from_mosaic(2, 2, BitDepthMode::U8, Instrument::MslMahli, vec![1, 2, 3, 4]).unwrap();
    assert_eq!(calibrate_linear(buf, &reg, UNIT, UNIT, UNIT, false).unwrap_err(), CalibError::UnknownInstrument);
}
