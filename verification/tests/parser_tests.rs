use price_engine::gcode::{parse_gcode_metadata, parse_number_after_equals, parse_print_time_seconds};
use price_engine::model::ModelKind;
use price_engine::pricing::{discount_steps, review_required};

#[test]
fn print_time_with_hours_minutes_seconds() {
    assert_eq!(
        parse_print_time_seconds("; estimated printing time (normal mode) = 1h 2m 3s"),
        Some(3723)
    );
    assert_eq!(parse_print_time_seconds("; Estimated Printing Time = 2H 5M"), Some(7500));
}

#[test]
fn print_time_trailing_number_counts_as_seconds() {
    assert_eq!(parse_print_time_seconds("; estimated printing time = 1m 7"), Some(67));
    // Trailing whitespace is trimmed before reading.
    assert_eq!(parse_print_time_seconds("; estimated printing time = 1m 7   "), Some(67));
}

#[test]
fn print_time_ignores_unknown_units() {
    assert_eq!(parse_print_time_seconds("; estimated printing time = 3d 10s"), Some(10));
    assert_eq!(parse_print_time_seconds("; estimated printing time = 1d"), None);
}

#[test]
fn print_time_needs_marker_and_equals() {
    assert_eq!(parse_print_time_seconds("; printing time = 10s"), None);
    assert_eq!(parse_print_time_seconds("; estimated printing time 10s"), None);
    assert_eq!(parse_print_time_seconds("; estimated printing time = 0s"), None);
}

#[test]
fn print_time_run_too_large_for_u32() {
    assert_eq!(parse_print_time_seconds("; estimated printing time = 99999999999s"), None);
    // A trailing run too large is ignored, the rest counts.
    assert_eq!(parse_print_time_seconds("; estimated printing time = 5s 99999999999"), Some(5));
}

#[test]
fn number_after_equals_cases() {
    assert_eq!(parse_number_after_equals("; filament used [g] = 4,94 g").as_deref(), Some("4.94"));
    assert_eq!(parse_number_after_equals("x=  12.5e3 rest").as_deref(), Some("12.5e3"));
    assert_eq!(parse_number_after_equals("x = .5").as_deref(), Some(".5"));
    assert_eq!(parse_number_after_equals("x = 7.").as_deref(), Some("7."));
    assert_eq!(parse_number_after_equals("x = -INF").as_deref(), Some("-INF"));
    assert_eq!(parse_number_after_equals("x = NaN").as_deref(), Some("NaN"));
    assert_eq!(parse_number_after_equals("x = infinity").as_deref(), Some("infinity"));
    assert_eq!(parse_number_after_equals("x = e5"), None);
    assert_eq!(parse_number_after_equals("x = 1e"), None);
    assert_eq!(parse_number_after_equals("x = ."), None);
    assert_eq!(parse_number_after_equals("x = 1.2.3"), None);
    assert_eq!(parse_number_after_equals("x = 4g"), None);
    assert_eq!(parse_number_after_equals("x =   "), None);
    assert_eq!(parse_number_after_equals("no equals 5"), None);
}

#[test]
fn accepted_numbers_parse_as_f64() {
    for line in ["a = 1,5", "a = +2E-3", "a = -0.0", "a = 00012", "a = inf"] {
        let text = parse_number_after_equals(line).expect("accepted");
        assert!(text.parse::<f64>().is_ok(), "{}", text);
    }
}

#[test]
fn gcode_metadata_handles_crlf_and_case() {
    let text = "; FILAMENT USED [G] = 3.5\r\n;filament_type=PETG \r\n; estimated printing time = 1h\r\n";
    let meta = parse_gcode_metadata(text);
    assert_eq!(meta.kind, ModelKind::Gcode);
    assert_eq!(meta.filament.filament_used_g.as_deref(), Some("3.5"));
    assert_eq!(meta.filament.filament_type.as_deref(), Some("PETG"));
    assert_eq!(meta.filament.print_time_human.as_deref(), Some("1h"));
    assert_eq!(meta.filament.print_time_seconds, Some(3600));
}

#[test]
fn gcode_later_lines_override_and_non_comments_ignored() {
    let text = "; filament used [g] = 1\nfilament used [g] = 9\n; filament used [g] = 2\n; filament used [g] = oops";
    let meta = parse_gcode_metadata(text);
    assert_eq!(meta.filament.filament_used_g.as_deref(), Some("2"));
}

#[test]
fn gcode_filament_type_without_equals_clears_it() {
    let meta = parse_gcode_metadata("; filament_type = PLA\n; filament_type PETG\n");
    assert_eq!(meta.filament.filament_type, None);
    let meta = parse_gcode_metadata("; filament_type = PLA = x\n");
    assert_eq!(meta.filament.filament_type.as_deref(), Some("PLA"));
}

#[test]
fn gcode_without_metadata() {
    let meta = parse_gcode_metadata("G28\nG1 X10\n");
    assert_eq!(meta.filament.filament_used_g, None);
    assert_eq!(meta.filament.print_time_seconds, None);
    assert!(meta.geometry.volume_cm3.is_none());
}

#[test]
fn discount_steps_values() {
    assert_eq!(discount_steps(0), 0);
    assert_eq!(discount_steps(40), 0);
    assert_eq!(discount_steps(41), 1);
    assert_eq!(discount_steps(50), 1);
    assert_eq!(discount_steps(51), 2);
    assert_eq!(discount_steps(200), 16);
    for q in 0..300u32 {
        assert!(discount_steps(q) <= discount_steps(q + 1));
    }
}

#[test]
fn review_above_thirty() {
    assert!(!review_required(30));
    assert!(review_required(31));
}
