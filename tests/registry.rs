use mars_raw_calib::buffer::{BitDepthMode, CalibError, Instrument};
use mars_raw_calib::catalog::{contains, include_image};
use mars_raw_calib::profile::{square_law_table, BayerPattern, Channel, Profile, Registry};

#[test]
fn square_law_table_values() {
    let t = square_law_table(4095);
    assert_eq!(t.len(), 256);
    assert_eq!(t[0], 0);
    assert_eq!(t[16], 16);
    assert_eq!(t[100], 629);
    assert_eq!(t[255], 4095);
}

#[test]
fn profile_rejects_bad_tables() {
    let bad_len = Profile::new(Instrument::MslMahli, vec![0; 10], 10, None, BitDepthMode::U8, vec![]);
    assert_eq!(bad_len.err(), Some(CalibError::InvalidParameter));
    let too_big = Profile::new(Instrument::MslMahli, square_law_table(4095), 4000, None, BitDepthMode::U8, vec![]);
    assert_eq!(too_big.err(), Some(CalibError::InvalidParameter));
}

#[test]
fn registry_lookup_and_duplicates() {
    let mut reg = Registry::new();
    let p = Profile::new(Instrument::MslMahli, square_law_table(2000), 2000, Some(BayerPattern::Rggb), BitDepthMode::U12, vec![(1, 1)]).unwrap();
    assert!(reg.register(p).is_ok());
    let found = reg.profile_for(Instrument::MslMahli).unwrap();
    assert_eq!(found.linear_max, 2000);
    assert_eq!(found.defects, vec![(1, 1)]);
    assert_eq!(reg.profile_for(Instrument::MslNavcamLeft).err(), Some(CalibError::UnknownInstrument));
    let again = Profile::new(Instrument::MslMahli, square_law_table(100), 100, None, BitDepthMode::U8, vec![]).unwrap();
    assert_eq!(reg.register(again).err(), Some(CalibError::InvalidParameter));
    assert_eq!(reg.profile_for(Instrument::MslMahli).unwrap().linear_max, 2000);
}

#[test]
fn bayer_colors() {
    assert_eq!(BayerPattern::Rggb.color_at(0, 0), Channel::Red);
    assert_eq!(BayerPattern::Rggb.color_at(1, 1), Channel::Blue);
    assert_eq!(BayerPattern::Bggr.color_at(2, 0), Channel::Blue);
    assert_eq!(BayerPattern::Grbg.color_at(1, 0), Channel::Red);
    assert_eq!(BayerPattern::Gbrg.color_at(0, 1), Channel::Red);
    assert_eq!(BayerPattern::Gbrg.color_at(3, 1), Channel::Green);
}

#[test]
fn substring_search() {
    assert!(contains("NLB_123_ABC", "123"));
    assert!(contains("abc", ""));
    assert!(!contains("abc", "abcd"));
    assert!(!contains("abc", "bd"));
    assert!(contains("abc", "abc"));
}

#[test]
fn catalogue_filter() {
    assert!(include_image(false, false, "", "ML0001"));
    assert!(!include_image(true, false, "", "ML0001"));
    assert!(include_image(true, true, "0001", "ML0001"));
    assert!(!include_image(false, true, "XYZ", "ML0001"));
}

#[test]
fn standard_registry_covers_every_instrument() {
    let reg = Registry::standard();
    let mastcam = reg.profile_for(Instrument::MslMastcamLeft).unwrap();
    assert_eq!(mastcam.pattern, Some(BayerPattern::Rggb));
    assert_eq!(mastcam.linear_max, 4095);
    assert_eq!(mastcam.table[255], 4095);
    let nav = reg.profile_for(Instrument::MslNavcamRight).unwrap();
    assert_eq!(nav.pattern, None);
    assert!(reg.profile_for(Instrument::MslMardi).is_ok());
}
