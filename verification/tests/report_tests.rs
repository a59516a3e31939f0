use frame_report::ReportError;
use frame_report::frames::{FrameClean, FrameRaw, MAX_EPOCH_SECS, MIN_EPOCH_SECS};
use frame_report::input::Cli;
use frame_report::render::{format_duration, int_to_string};
use frame_report::report::{Report, build_report, clean_file, report_input_ok};

fn raw(start: i64, end: i64) -> FrameRaw {
    FrameRaw {
        start,
        end,
        project: String::from("p"),
        id: String::from("f1"),
        tags: Vec::new(),
        last_updated: 0,
    }
}

fn percentage(part: i64, total: i64) -> f64 {
    part as f64 / total as f64 * 100.0
}

#[test]
fn split_recovers_identifier_and_path() {
    let cli = Cli { inputs: vec![String::from("alice:/tmp/a.json")] };
    let map = cli.get_file_map().unwrap();
    assert_eq!(map.entries.len(), 1);
    assert_eq!(map.entries[0].0, "alice");
    assert_eq!(map.entries[0].1, "/tmp/a.json");
}

#[test]
fn split_uses_first_colon_only() {
    let cli = Cli { inputs: vec![String::from("a:b:c")] };
    let map = cli.get_file_map().unwrap();
    assert_eq!(map.entries[0].0, "a");
    assert_eq!(map.entries[0].1, "b:c");
}

#[test]
fn missing_colon_is_input_format_error() {
    let cli = Cli { inputs: vec![String::from("nocolonhere")] };
    assert_eq!(cli.get_file_map().unwrap_err(), ReportError::InputFormatError);
    let cli = Cli { inputs: vec![String::from("ok:path"), String::from("bad")] };
    assert_eq!(cli.get_file_map().unwrap_err(), ReportError::InputFormatError);
}

#[test]
fn empty_identifier_and_empty_path_are_accepted() {
    let cli = Cli { inputs: vec![String::from(":")] };
    let map = cli.get_file_map().unwrap();
    assert_eq!(map.entries[0].0, "");
    assert_eq!(map.entries[0].1, "");
}

#[test]
fn repeated_identifier_keeps_last_path() {
    let cli = Cli {
        inputs: vec![String::from("a:x"), String::from("a:y"), String::from("b:z")],
    };
    let map = cli.get_file_map().unwrap();
    assert_eq!(map.entries.len(), 2);
    assert_eq!(map.entries[0].0, "a");
    assert_eq!(map.entries[0].1, "y");
    assert_eq!(map.entries[1].0, "b");
    assert_eq!(map.entries[1].1, "z");
}

#[test]
fn forward_frame_duration_is_nonnegative_and_exact() {
    let clean = FrameClean::from_raw(&raw(10, 70)).unwrap();
    assert_eq!(clean.duration_seconds(), 60);
    let clean = FrameClean::from_raw(&raw(5, 5)).unwrap();
    assert_eq!(clean.duration_seconds(), 0);
}

#[test]
fn reversed_frame_contributes_negative_duration() {
    let clean = FrameClean::from_raw(&raw(100, 40)).unwrap();
    assert_eq!(clean.duration_seconds(), -60);
}

#[test]
fn from_raw_copies_fields_through() {
    let mut r = raw(1, 2);
    r.project = String::from("proj");
    r.id = String::from("frame-7");
    r.tags = vec![String::from("t1"), String::from("t2")];
    let clean = FrameClean::from_raw(&r).unwrap();
    assert_eq!(clean.start, 1);
    assert_eq!(clean.end, 2);
    assert_eq!(clean.project, "proj");
    assert_eq!(clean.id, "frame-7");
    assert_eq!(clean.tags, vec![String::from("t1"), String::from("t2")]);
}

#[test]
fn timestamp_range_boundaries() {
    assert!(FrameClean::from_raw(&raw(MIN_EPOCH_SECS, MAX_EPOCH_SECS)).is_some());
    assert!(FrameClean::from_raw(&raw(MIN_EPOCH_SECS - 1, 0)).is_none());
    assert!(FrameClean::from_raw(&raw(0, MAX_EPOCH_SECS + 1)).is_none());
    assert!(FrameClean::from_raw(&raw(i64::MIN, 0)).is_none());
    assert!(FrameClean::from_raw(&raw(0, i64::MAX)).is_none());
}

#[test]
fn out_of_range_frame_fails_with_date_conversion_error() {
    let files = vec![
        (String::from("good"), vec![raw(0, 60)]),
        (String::from("bad"), vec![raw(0, i64::MAX)]),
    ];
    assert!(report_input_ok(&files));
    assert_eq!(build_report(&files).unwrap_err(), ReportError::DateConversionError);
}

#[test]
fn clean_file_rejects_first_invalid_frame() {
    let frames = vec![raw(0, 1), raw(i64::MAX, 0)];
    assert_eq!(clean_file(&frames).unwrap_err(), ReportError::DateConversionError);
    let frames = vec![raw(0, 1), raw(1, 2)];
    assert_eq!(clean_file(&frames).unwrap().len(), 2);
}

#[test]
fn single_frame_breakdown_and_full_percentage() {
    let frame = raw(0, 3661);
    let files = vec![(String::from("a"), vec![frame])];
    assert!(report_input_ok(&files));
    let report = build_report(&files).unwrap();
    assert_eq!(report.entries.len(), 1);
    assert_eq!(report.entries[0].0, "a");
    assert_eq!(report.entries[0].1, 3661);
    assert_eq!(format_duration(report.entries[0].1), "1h 1m 1s");
    let total = report.grand_total().unwrap();
    assert_eq!(total, 3661);
    assert_eq!(format!("{:.2}%", percentage(report.entries[0].1, total)), "100.00%");
}

#[test]
fn two_files_percentages_sum_to_hundred() {
    let files = vec![
        (String::from("x"), vec![raw(0, 60)]),
        (String::from("y"), vec![raw(100, 140)]),
    ];
    assert!(report_input_ok(&files));
    let report = build_report(&files).unwrap();
    let total = report.grand_total().unwrap();
    assert_eq!(total, 100);
    let p0 = percentage(report.entries[0].1, total);
    let p1 = percentage(report.entries[1].1, total);
    assert_eq!(format!("{:.2}%", p0), "60.00%");
    assert_eq!(format!("{:.2}%", p1), "40.00%");
    assert_eq!(format!("{:.2}%", p0 + p1), "100.00%");
}

#[test]
fn grand_total_sums_per_identifier_durations() {
    let files = vec![
        (String::from("a"), vec![raw(0, 10), raw(20, 25)]),
        (String::from("b"), vec![raw(0, 7)]),
        (String::from("c"), vec![]),
    ];
    assert!(report_input_ok(&files));
    let report = build_report(&files).unwrap();
    assert_eq!(report.entries[0].1, 15);
    assert_eq!(report.entries[1].1, 7);
    assert_eq!(report.entries[2].1, 0);
    assert_eq!(report.grand_total().unwrap(), 22);
}

#[test]
fn grand_total_ignores_entry_order() {
    let forward = Report {
        entries: vec![(String::from("a"), 15), (String::from("b"), 7), (String::from("c"), -3)],
    };
    let backward = Report {
        entries: vec![(String::from("c"), -3), (String::from("b"), 7), (String::from("a"), 15)],
    };
    assert_eq!(forward.grand_total().unwrap(), 19);
    assert_eq!(backward.grand_total().unwrap(), 19);
}

#[test]
fn zero_total_percentage_is_not_finite() {
    let files = vec![(String::from("a"), vec![raw(50, 50)])];
    assert!(report_input_ok(&files));
    let report = build_report(&files).unwrap();
    let total = report.grand_total().unwrap();
    assert_eq!(total, 0);
    let p = percentage(report.entries[0].1, total);
    assert!(!p.is_finite());
    assert_eq!(format!("{:.2}%", p), "NaN%");
}

#[test]
fn duplicate_identifiers_are_outside_limits() {
    let files = vec![
        (String::from("a"), vec![raw(0, 1)]),
        (String::from("a"), vec![raw(0, 2)]),
    ];
    assert!(!report_input_ok(&files));
}

#[test]
fn format_duration_examples() {
    assert_eq!(format_duration(0), "0h 0m 0s");
    assert_eq!(format_duration(59), "0h 0m 59s");
    assert_eq!(format_duration(60), "0h 1m 0s");
    assert_eq!(format_duration(3600), "1h 0m 0s");
    assert_eq!(format_duration(3661), "1h 1m 1s");
    assert_eq!(format_duration(86400 + 2 * 3600 + 3 * 60 + 4), "26h 3m 4s");
    assert_eq!(format_duration(-61), "0h -1m -1s");
    assert_eq!(format_duration(-3661), "-1h -1m -1s");
}

#[test]
fn int_to_string_examples() {
    assert_eq!(int_to_string(0), "0");
    assert_eq!(int_to_string(7), "7");
    assert_eq!(int_to_string(1234567890), "1234567890");
    assert_eq!(int_to_string(-5), "-5");
    assert_eq!(int_to_string(i64::MAX), "9223372036854775807");
    assert_eq!(int_to_string(i64::MIN), "-9223372036854775808");
}

#[test]
fn error_messages_are_nonempty() {
    assert!(!ReportError::InputFormatError.message().is_empty());
    assert!(!ReportError::FileReadError.message().is_empty());
    assert!(!ReportError::ParseError.message().is_empty());
    assert!(!ReportError::DateConversionError.message().is_empty());
}
