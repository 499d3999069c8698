use daq_core::storage::naming::{
    check_within_directory, fill_filename_pattern, generate_filename, sanitize_filename_component,
};

#[test]
fn test_sanitize_filename_basic() {
    assert_eq!(sanitize_filename_component("test"), "test");
    assert_eq!(sanitize_filename_component("my_file"), "my_file");
    assert_eq!(sanitize_filename_component("data-2024"), "data-2024");
    assert_eq!(sanitize_filename_component("scan.h5"), "scan.h5");
}

#[test]
fn test_sanitize_filename_path_traversal() {
    assert_eq!(
        sanitize_filename_component("../../../etc/passwd"),
        "etc_passwd"
    );
    assert_eq!(sanitize_filename_component(".."), "unnamed");
    assert_eq!(sanitize_filename_component("foo/../bar"), "foo_bar");
    assert_eq!(sanitize_filename_component("a..b"), "a_b");
}

#[test]
fn test_sanitize_filename_directory_separators() {
    assert_eq!(sanitize_filename_component("path/to/file"), "path_to_file");
    assert_eq!(
        sanitize_filename_component("path\\to\\file"),
        "path_to_file"
    );
    assert_eq!(
        sanitize_filename_component("/absolute/path"),
        "absolute_path"
    );
}

#[test]
fn test_sanitize_filename_special_chars() {
    assert_eq!(sanitize_filename_component("file:name"), "file_name");
    assert_eq!(sanitize_filename_component("file\0name"), "file_name");
    assert_eq!(sanitize_filename_component("file<>name"), "file_name");
}

#[test]
fn test_sanitize_filename_empty_and_edge_cases() {
    assert_eq!(sanitize_filename_component(""), "unnamed");
    assert_eq!(sanitize_filename_component("..."), "unnamed");
    assert_eq!(sanitize_filename_component("___"), "unnamed");
    assert_eq!(sanitize_filename_component("._._"), "unnamed");
}

#[test]
fn test_sanitize_filename_unicode() {
    assert_eq!(sanitize_filename_component("日本語"), "日本語");
    assert_eq!(sanitize_filename_component("tëst"), "tëst");
    assert_eq!(sanitize_filename_component("файл"), "файл");
}

fn is_safe(s: &str) -> bool {
    !s.is_empty()
        && !s.contains('/')
        && !s.contains('\\')
        && !s.contains(':')
        && !s.contains('\0')
        && !s.contains("..")
        && !s.contains("._")
        && !s.contains("_.")
        && !s.contains("__")
        && !s.starts_with('_')
        && !s.starts_with('.')
        && !s.ends_with('_')
        && !s.ends_with('.')
}

#[test]
fn sanitized_names_are_always_safe() {
    let inputs = [
        "", ".", "..", "...", "._", "_.", "a/./b", "..\\..\\x", "/", "a__b", "a..._b", "_x_",
        ".hidden", "trailing.", "c:\\windows\\system32", "x\0y", "spaces and tabs\t", "a._.b", "__..__",
        "émoji😀name", "./../.", "a_.b_.c",
    ];
    for input in inputs {
        let out = sanitize_filename_component(input);
        assert!(is_safe(&out), "unsafe result {:?} for {:?}", out, input);
    }
}

#[test]
fn sanitize_replaces_other_characters_and_collapses_runs() {
    assert_eq!(sanitize_filename_component("a  b"), "a_b");
    assert_eq!(sanitize_filename_component("a_.b"), "a_b");
    assert_eq!(sanitize_filename_component("a._b"), "a_b");
    assert_eq!(sanitize_filename_component("run#1 (final)"), "run_1_final");
    assert_eq!(sanitize_filename_component(".hidden"), "hidden");
}

#[test]
fn fill_pattern_replaces_each_placeholder() {
    let name = fill_filename_pattern("{name}_{timestamp}.h5", "scan", 1700000000, "2024-01-02", "20240102_030405");
    assert_eq!(name, "scan_1700000000.h5");
    let dated = fill_filename_pattern("{date}/{name}-{datetime}", "x", 5, "2024-01-02", "20240102_030405");
    assert_eq!(dated, "2024-01-02/x-20240102_030405");
    let twice = fill_filename_pattern("{name}{name}", "ab", 0, "", "");
    assert_eq!(twice, "abab");
    let none = fill_filename_pattern("plain.h5", "ab", 0, "", "");
    assert_eq!(none, "plain.h5");
}

#[test]
fn generated_filename_uses_sanitized_name() {
    let f = generate_filename("../evil/name", "{name}.h5");
    assert_eq!(f, "evil_name.h5");
    let g = generate_filename("run", "{name}_{timestamp}.h5");
    assert!(g.starts_with("run_"));
    assert!(g.ends_with(".h5"));
    let digits = &g[4..g.len() - 3];
    assert!(!digits.is_empty() && digits.chars().all(|c| c.is_ascii_digit()));
}

#[test]
fn test_validate_path_within_directory() {
    // A file directly in the base directory.
    let ok = check_within_directory("/data/runs", "/data/runs", "test.h5", "/data/runs/test.h5", "/data/runs");
    assert_eq!(ok, Ok("/data/runs/test.h5".to_string()));
    // "../../../etc/passwd" below the base canonicalizes to /etc.
    let bad = check_within_directory(
        "/data/runs",
        "/etc",
        "passwd",
        "/data/runs/../../../etc/passwd",
        "/data/runs",
    );
    assert_eq!(
        bad,
        Err("Path '/data/runs/../../../etc/passwd' escapes base directory '/data/runs'".to_string())
    );
}

#[test]
fn directory_check_compares_whole_components() {
    assert!(check_within_directory("/data/run", "/data/runs", "x.h5", "t", "b").is_err());
    assert!(check_within_directory("/data", "/data/runs/deep", "x.h5", "t", "b").is_ok());
    assert_eq!(check_within_directory("/", "/", "x.h5", "t", "b"), Ok("/x.h5".to_string()));
}

#[test]
fn generated_name_uses_one_clock_reading() {
    let f = generate_filename("run", "{timestamp}|{date}|{datetime}");
    let parts: Vec<&str> = f.split('|').collect();
    assert_eq!(parts.len(), 3);
    let ts: u64 = parts[0].parse().expect("timestamp");
    assert_eq!(Some(parts[1]), daq_core::clock::utc_date_text(ts).as_deref());
    assert_eq!(Some(parts[2]), daq_core::clock::utc_datetime_text(ts).as_deref());
}

#[test]
fn sanitizing_twice_changes_nothing() {
    for name in ["../evil/name", "", "__a..b__", "ok-name.h5", "ü/ß:x", "...."] {
        let once = sanitize_filename_component(name);
        assert_eq!(sanitize_filename_component(&once), once);
    }
}
