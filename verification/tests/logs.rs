use server_keeper::crash::detect_crash_in_logs;
use server_keeper::log_buffer::LogBuffer;
use server_keeper::supervisor::merge_log_snapshot;

fn lines(v: &[&str]) -> Vec<String> {
    v.iter().map(|s| s.to_string()).collect()
}

#[test]
fn buffer_keeps_lines_in_order() {
    let mut b = LogBuffer::new(10);
    b.append("one".to_string());
    b.append("two".to_string());
    b.append("three".to_string());
    assert_eq!(b.snapshot(), lines(&["one", "two", "three"]));
    assert_eq!(b.len(), 3);
}

#[test]
fn buffer_evicts_oldest_on_overflow() {
    let mut b = LogBuffer::new(3);
    for i in 0..5 {
        b.append(format!("line{}", i));
    }
    assert_eq!(b.snapshot(), lines(&["line2", "line3", "line4"]));
}

#[test]
fn append_all_keeps_capacity_most_recent() {
    let mut b = LogBuffer::new(4);
    b.append("old".to_string());
    let incoming = lines(&["a", "b", "c", "d", "e", "f"]);
    b.append_all(&incoming);
    assert_eq!(b.snapshot(), lines(&["c", "d", "e", "f"]));
    assert_eq!(b.len(), 4);
}

#[test]
fn clean_window_reports_no_crash() {
    let logs = lines(&["starting", "loading world", "done in 3s"]);
    assert!(!detect_crash_in_logs(&logs));
}

#[test]
fn marker_in_window_reports_crash() {
    let mut v = Vec::new();
    for i in 0..19 {
        v.push(format!("ok {}", i));
    }
    v.push("Server crashed".to_string());
    assert!(detect_crash_in_logs(&v));
}

#[test]
fn marker_just_outside_window_is_ignored() {
    let mut v = Vec::new();
    v.push("Server crashed".to_string());
    for i in 0..20 {
        v.push(format!("ok {}", i));
    }
    // the marker is 21 lines from the end, one outside the window
    assert!(!detect_crash_in_logs(&v));
}

#[test]
fn marker_exactly_at_window_edge_flags() {
    // the marker as the oldest of exactly twenty recent lines is still seen
    let mut v = Vec::new();
    v.push("Server crashed".to_string());
    for i in 0..19 {
        v.push(format!("ok {}", i));
    }
    assert!(detect_crash_in_logs(&v));
}

#[test]
fn each_keyword_triggers() {
    for kw in [
        "Exception",
        "Error",
        "Crash",
        "Fatal",
        "java.lang.OutOfMemoryError",
        "java.lang.StackOverflowError",
        "Server crashed",
    ] {
        let v = lines(&["all fine", kw]);
        assert!(detect_crash_in_logs(&v), "keyword {} should flag", kw);
    }
}

#[test]
fn keyword_inside_benign_line_still_flags() {
    // a coarse heuristic by design: false positives are accepted
    let v = lines(&["User Error report uploaded"]);
    assert!(detect_crash_in_logs(&v));
}

#[test]
fn merge_appends_file_lines_beyond_memory_count() {
    let mem = lines(&["m1", "m2"]);
    let file = lines(&["f1", "f2", "f3", "f4"]);
    assert_eq!(merge_log_snapshot(&mem, &file), lines(&["m1", "m2", "f3", "f4"]));
}

#[test]
fn merge_with_short_file_keeps_memory_only() {
    let mem = lines(&["m1", "m2", "m3"]);
    let file = lines(&["f1", "f2"]);
    assert_eq!(merge_log_snapshot(&mem, &file), lines(&["m1", "m2", "m3"]));
}

#[test]
fn merge_without_memory_takes_file_tail() {
    let mem: Vec<String> = Vec::new();
    let mut file = Vec::new();
    for i in 0..250 {
        file.push(format!("f{}", i));
    }
    let merged = merge_log_snapshot(&mem, &file);
    assert_eq!(merged.len(), 200);
    assert_eq!(merged[0], "f50");
    assert_eq!(merged[199], "f249");
}
