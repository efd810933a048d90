use try_ui::dump::{bright_count, mean_rgb, pattern_parity, pattern_row, DARK, LIGHT};

#[test]
fn brightness_counts_the_first_byte_of_every_pixel() {
    assert_eq!(bright_count(&[41, 0, 0, 0, 40, 99, 99, 99, 200]), 2);
    assert_eq!(bright_count(&[]), 0);
}

#[test]
fn the_mean_colour_is_over_whole_pixels() {
    assert_eq!(mean_rgb(&[10, 20, 30, 0, 30, 40, 50, 0, 99]), (20, 30, 40));
    assert_eq!(mean_rgb(&[]), (0, 0, 0));
}

#[test]
fn the_stand_in_pattern_has_its_marker_and_squares() {
    let row = pattern_row(100, 0);
    assert_eq!(row.len(), 400);
    assert_eq!(&row[0..4], &[0x30, 0x30, 0xff, 0xff]);
    assert_eq!(&row[50 * 4..51 * 4], &[LIGHT, LIGHT, LIGHT, 0xff]);
    assert_eq!(&row[64 * 4..65 * 4], &[DARK, DARK, DARK, 0xff]);
    let odd = pattern_row(100, 1);
    assert_eq!(&odd[50 * 4..51 * 4], &[DARK, DARK, DARK, 0xff]);
    assert_eq!(pattern_parity(8), 0);
    assert_eq!(pattern_parity(40), 1);
}
