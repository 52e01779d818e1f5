use rcoreutils::ls::{format_mode, format_output, is_listed, LongEntry};

#[test]
fn test_format_mode() {
    assert_eq!(format_mode(0o775), "rwxrwxr-x");
    assert_eq!(format_mode(0o421), "r---w---x");
    assert_eq!(format_mode(0o777), "rwxrwxrwx");
    assert_eq!(format_mode(0o000), "---------");
}

#[test]
fn format_mode_ignores_higher_bits() {
    assert_eq!(format_mode(0o100644), "rw-r--r--");
    assert_eq!(format_mode(0o4755), "rwxr-xr-x");
}

#[test]
fn hidden_entries() {
    assert!(is_listed(Some("a.txt"), false));
    assert!(!is_listed(Some(".hidden"), false));
    assert!(is_listed(Some(".hidden"), true));
    assert!(is_listed(None, false));
}

fn entry(is_dir: bool, mode: u32, size: u64, path: &str) -> LongEntry {
    LongEntry {
        is_dir,
        mode,
        nlink: 1,
        user: "me".to_string(),
        group: "staff".to_string(),
        size,
        modified: "Jan 01 24 10:00".to_string(),
        path: path.to_string(),
    }
}

#[test]
fn long_listing() {
    let out = format_output(&vec![entry(false, 0o644, 193, "bustle.txt"), entry(true, 0o755, 4096, "dir")]);
    let lines: Vec<&str> = out.split('\n').filter(|s| !s.is_empty()).collect();
    assert_eq!(lines.len(), 2);
    let first: Vec<&str> = lines[0].split_whitespace().collect();
    assert_eq!(first[0], "-rw-r--r--");
    assert_eq!(first[4], "193");
    assert_eq!(*first.last().unwrap(), "bustle.txt");
    let second: Vec<&str> = lines[1].split_whitespace().collect();
    assert_eq!(second[0], "drwxr-xr-x");
    assert_eq!(second[4], "4096");
    assert_eq!(*second.last().unwrap(), "dir");
    assert_eq!(format_output(&vec![]), "");
}
