use nexus::output::format_duration;
use nexus::output::format_size;
use nexus::output::StreamingOutput;
use nexus::output::Table;

#[test]
fn test_format_duration() {
    assert_eq!(format_duration(30), "30s");
    assert_eq!(format_duration(90), "1m 30s");
    assert_eq!(format_duration(3661), "1h 1m");
}

#[test]
fn test_format_size() {
    assert_eq!(format_size(500), "500 B");
    assert_eq!(format_size(1500), "1.5 KB");
    assert_eq!(format_size(1_500_000), "1.4 MB");
}

#[test]
fn test_table() {
    let mut table = Table::new(vec!["ID", "Name", "Status"]);
    table.add_row(vec!["001", "Test", "OK"]);
    table.add_row(vec!["002", "Another Test", "Failed"]);

    let output = table.render();
    assert!(output.contains("ID"));
    assert!(output.contains("Name"));
    assert!(output.contains("Another Test"));
}

#[test]
fn format_duration_edges() {
    assert_eq!(format_duration(0), "0s");
    assert_eq!(format_duration(59), "59s");
    assert_eq!(format_duration(60), "1m 0s");
    assert_eq!(format_duration(3599), "59m 59s");
    assert_eq!(format_duration(3600), "1h 0m");
    assert_eq!(format_duration(7325), "2h 2m");
}

#[test]
fn format_size_edges() {
    assert_eq!(format_size(0), "0 B");
    assert_eq!(format_size(1023), "1023 B");
    assert_eq!(format_size(1024), "1.0 KB");
    // 1280 / 1024 is exactly 1.25: the tie rounds to the even tenth.
    assert_eq!(format_size(1280), "1.2 KB");
    // 1331.2 bytes would be 1.3 KB; 1332 rounds up past the tie.
    assert_eq!(format_size(1332), "1.3 KB");
    assert_eq!(format_size(1048575), "1024.0 KB");
    assert_eq!(format_size(1048576), "1.0 MB");
    assert_eq!(format_size(1073741824), "1.0 GB");
    assert_eq!(format_size(1610612736), "1.5 GB");
}

#[test]
fn table_exact_layout() {
    let mut table = Table::new(vec!["A", "Long"]);
    table.add_row(vec!["xx", "y"]);
    let out = table.render();
    assert_eq!(out, "A  | Long\n---+-----\nxx | y   \n");
}

#[test]
fn table_row_wider_than_headers() {
    let mut table = Table::new(vec!["A"]);
    table.add_row(vec!["x", "extra"]);
    let out = table.render();
    assert_eq!(out, "A\n-\nx | extra\n");
}

#[test]
fn streaming_output_counts_lines() {
    let mut s = StreamingOutput::new();
    assert_eq!(s.line_count(), 0);
    let t = s.write_line("hello");
    assert_eq!(t, "hello");
    assert_eq!(s.line_count(), 1);
    let t2 = s.write_inline("busy");
    assert_eq!(t2, "\rbusy");
    let cleared = s.clear_inline();
    assert_eq!(cleared, Some("\r    \r".to_string()));
    assert_eq!(s.clear_inline(), None);
}

#[test]
fn streaming_progress_bar() {
    let mut s = StreamingOutput::new();
    let t = s.write_progress(20, 40, "working");
    assert_eq!(t, format!("\r[{}{}] 20/40 working", "=".repeat(20), " ".repeat(20)));
    assert!(s.finish_inline());
    assert!(!s.finish_inline());
}
