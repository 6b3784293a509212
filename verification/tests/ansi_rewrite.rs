use runcc::ansi_escape::{ansi_columns_fit, process_ansi_escape_line};

#[test]
fn plain_line_is_unchanged() {
    assert_eq!(process_ansi_escape_line(8, "hello world"), "hello world");
}

#[test]
fn color_codes_are_kept() {
    let line = "\x1B[31mred\x1B[0m";
    assert_eq!(process_ansi_escape_line(8, line), line);
}

#[test]
fn erase_line_sequences_are_stripped() {
    assert_eq!(process_ansi_escape_line(8, "a\x1B[1Kb"), "ab");
    assert_eq!(process_ansi_escape_line(8, "a\x1B[2Kb"), "ab");
    // erase-to-end keeps its meaning and stays
    assert_eq!(process_ansi_escape_line(8, "a\x1B[0Kb"), "a\x1B[0Kb");
}

#[test]
fn cursor_movement_sequences_are_stripped() {
    assert_eq!(process_ansi_escape_line(8, "a\x1B[2Ab"), "ab");
    assert_eq!(process_ansi_escape_line(8, "a\x1B[Bb"), "ab");
    assert_eq!(process_ansi_escape_line(8, "x\x1B[10Ey"), "xy");
    assert_eq!(process_ansi_escape_line(8, "x\x1B[Fy"), "xy");
    assert_eq!(process_ansi_escape_line(8, "x\x1B[2Jy"), "xy");
    assert_eq!(process_ansi_escape_line(8, "x\x1B[3;9Hy"), "xy");
    assert_eq!(process_ansi_escape_line(8, "x\x1B[;Hy"), "xy");
}

#[test]
fn horizontal_absolute_is_shifted_by_prefix() {
    assert_eq!(process_ansi_escape_line(8, "a\x1B[5Gb"), "a\x1B[13Gb");
    // a missing count stands for column one
    assert_eq!(process_ansi_escape_line(8, "a\x1B[Gb"), "a\x1B[9Gb");
    assert_eq!(process_ansi_escape_line(0, "a\x1B[5Gb"), "a\x1B[5Gb");
}

#[test]
fn column_fit_check_screens_the_rewriter() {
    assert!(ansi_columns_fit(8, "a\x1B[5Gb"));
    assert!(ansi_columns_fit(8, "plain text"));
    // a column count past the machine word cannot be shifted
    assert!(!ansi_columns_fit(8, "a\x1B[99999999999999999999Gb"));
}

#[test]
fn passes_compose_on_one_line() {
    let line = "\x1B[1K\x1B[2A\x1B[3Gdone";
    assert_eq!(process_ansi_escape_line(10, line), "\x1B[13Gdone");
}
