use sol::advice::{advise, select_mode, Mode};
use sol::latitude::Lat;
use sol::report::{decimal, inclination_line, orientation_line, render};
use sol::tilt::{naive_calculate, season_calculate, OrientationHint, TiltAdvisory};

const UNKNOWN: &str = "Direction not given. In the Northern Hemisphere, point your solar panel true south. In the Southern Hemisphere, point your solar panel true north.";

fn tilt_at(deg: u8) -> u16 {
    naive_calculate(Lat::new(deg, None)).tilt_hundredths
}

#[test]
fn low_band_is_87_hundredths_per_degree() {
    assert_eq!(tilt_at(0), 0);
    assert_eq!(tilt_at(1), 87);
    assert_eq!(tilt_at(10), 870);
    assert_eq!(tilt_at(24), 2088);
}

#[test]
fn mid_band_is_76_hundredths_per_degree_and_310() {
    assert_eq!(tilt_at(25), 2210);
    assert_eq!(tilt_at(42), 3502);
    assert_eq!(tilt_at(50), 4110);
}

#[test]
fn high_band_is_the_latitude() {
    assert_eq!(tilt_at(51), 5100);
    assert_eq!(tilt_at(75), 7500);
    assert_eq!(tilt_at(90), 9000);
}

#[test]
fn tilt_on_both_sides_of_25_degrees() {
    assert_eq!(tilt_at(25), 2210);
    assert_eq!(tilt_at(24), 2088);
    assert_eq!(decimal(tilt_at(25)), "22.1");
    assert_eq!(decimal(tilt_at(24)), "20.88");
}

#[test]
fn tilt_stays_between_horizontal_and_vertical() {
    for deg in 0..=255u8 {
        assert!(tilt_at(deg) <= 9000);
    }
}

#[test]
fn the_panel_faces_the_equator() {
    assert_eq!(
        naive_calculate(Lat::new(42, Some(true))).orientation_hint,
        OrientationHint::FaceSouth
    );
    assert_eq!(
        naive_calculate(Lat::new(42, Some(false))).orientation_hint,
        OrientationHint::FaceNorth
    );
    assert_eq!(
        naive_calculate(Lat::new(42, None)).orientation_hint,
        OrientationHint::HemisphereUnknown
    );
}

#[test]
fn the_orientation_does_not_depend_on_the_degrees() {
    for deg in 0..=90u8 {
        assert_eq!(
            naive_calculate(Lat::new(deg, Some(true))).orientation_hint,
            OrientationHint::FaceSouth
        );
        assert_eq!(
            naive_calculate(Lat::new(deg, Some(false))).orientation_hint,
            OrientationHint::FaceNorth
        );
        assert_eq!(
            naive_calculate(Lat::new(deg, None)).orientation_hint,
            OrientationHint::HemisphereUnknown
        );
    }
}

#[test]
fn orientation_lines() {
    assert_eq!(orientation_line(OrientationHint::FaceSouth), "Orientation: south");
    assert_eq!(orientation_line(OrientationHint::FaceNorth), "Orientation: north");
    assert_eq!(orientation_line(OrientationHint::HemisphereUnknown), UNKNOWN);
}

#[test]
fn decimal_writes_the_shortest_fraction() {
    assert_eq!(decimal(0), "0");
    assert_eq!(decimal(1), "0.01");
    assert_eq!(decimal(5), "0.05");
    assert_eq!(decimal(10), "0.1");
    assert_eq!(decimal(99), "0.99");
    assert_eq!(decimal(100), "1");
    assert_eq!(decimal(105), "1.05");
    assert_eq!(decimal(870), "8.7");
    assert_eq!(decimal(2088), "20.88");
    assert_eq!(decimal(3502), "35.02");
    assert_eq!(decimal(9000), "90");
    assert_eq!(decimal(10000), "100");
    assert_eq!(decimal(65535), "655.35");
}

#[test]
fn inclination_lines() {
    assert_eq!(inclination_line(0), "Inclination: 0\u{b0}");
    assert_eq!(inclination_line(870), "Inclination: 8.7\u{b0}");
    assert_eq!(inclination_line(4110), "Inclination: 41.1\u{b0}");
}

#[test]
fn render_writes_two_lines_and_an_empty_one() {
    let advisory = TiltAdvisory { tilt_hundredths: 2088, orientation_hint: OrientationHint::FaceSouth };
    assert_eq!(render(advisory), "Orientation: south\nInclination: 20.88\u{b0}\n\n");
    let advisory =
        TiltAdvisory { tilt_hundredths: 0, orientation_hint: OrientationHint::HemisphereUnknown };
    assert_eq!(render(advisory), format!("{}\nInclination: 0\u{b0}\n\n", UNKNOWN));
}

#[test]
fn fixed_advice_in_the_north() {
    assert_eq!(advise(Mode::Fixed, "42 N"), "Orientation: south\nInclination: 35.02\u{b0}\n\n");
}

#[test]
fn fixed_advice_in_the_south() {
    assert_eq!(advise(Mode::Fixed, "42 S"), "Orientation: north\nInclination: 35.02\u{b0}\n\n");
}

#[test]
fn fixed_advice_without_a_direction() {
    assert_eq!(advise(Mode::Fixed, "10"), format!("{}\nInclination: 8.7\u{b0}\n\n", UNKNOWN));
}

#[test]
fn fixed_advice_in_the_low_band() {
    assert_eq!(advise(Mode::Fixed, "24 N"), "Orientation: south\nInclination: 20.88\u{b0}\n\n");
}

#[test]
fn fixed_advice_for_text_that_writes_no_latitude() {
    assert_eq!(advise(Mode::Fixed, "garbage"), format!("{}\nInclination: 0\u{b0}\n\n", UNKNOWN));
}

#[test]
fn fixed_advice_at_the_band_limits() {
    assert_eq!(advise(Mode::Fixed, "25 s"), "Orientation: north\nInclination: 22.1\u{b0}\n\n");
    assert_eq!(advise(Mode::Fixed, "50 n"), "Orientation: south\nInclination: 41.1\u{b0}\n\n");
    assert_eq!(advise(Mode::Fixed, "51 n"), "Orientation: south\nInclination: 51\u{b0}\n\n");
    assert_eq!(advise(Mode::Fixed, "90 S"), "Orientation: north\nInclination: 90\u{b0}\n\n");
}

#[test]
fn every_text_gets_fixed_advice() {
    for text in ["x", " ", "91 N", "12 34 56", "-1", "N", "\u{b0}"] {
        let advice = advise(Mode::Fixed, text);
        assert!(advice.ends_with("\u{b0}\n\n"));
        assert_eq!(advice.lines().count(), 3);
    }
}

#[test]
fn the_seasonal_mode_gives_a_notice() {
    let notice = season_calculate(Lat::new(42, Some(true)));
    assert_eq!(notice, "Seasonally adjusted placement is not implemented yet.");
    assert_eq!(season_calculate(Lat::new(0, None)), notice);
}

#[test]
fn adjustable_advice_is_the_notice_and_never_the_fixed_report() {
    let advice = advise(Mode::Adjustable, "42 N");
    assert_eq!(advice, "Seasonally adjusted placement is not implemented yet.\n");
    assert_ne!(advice, advise(Mode::Fixed, "42 N"));
    assert_eq!(advise(Mode::Adjustable, "garbage"), advice);
}

#[test]
fn exactly_one_latitude_selects_a_mode() {
    assert_eq!(select_mode(Some("42 N"), None), Some((Mode::Fixed, "42 N")));
    assert_eq!(select_mode(None, Some("10 s")), Some((Mode::Adjustable, "10 s")));
    assert_eq!(select_mode(Some(""), None), Some((Mode::Fixed, "")));
}

#[test]
fn both_latitudes_or_neither_select_no_mode() {
    assert_eq!(select_mode(None, None), None);
    assert_eq!(select_mode(Some("42 N"), Some("42 N")), None);
    assert_eq!(select_mode(Some("42 N"), Some("10 s")), None);
}
