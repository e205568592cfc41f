use sce::scan::{ProjectOverview, Scan, ScanError};

fn lines(v: &[&str]) -> Vec<String> {
    v.iter().map(|s| s.to_string()).collect()
}

#[test]
fn missing_path_is_path_not_found() {
    let r = Scan::start(String::from("/no/such/dir"), false);
    assert!(matches!(r, Err(ScanError::PathNotFound)));
    assert_eq!(ScanError::PathNotFound.message(), "Could not find the path specified");
}

#[test]
fn empty_directory_counts_nothing() {
    let mut s = Scan::start(String::from("root"), true).unwrap();
    assert_eq!(s.next_directory(), Some(String::from("root")));
    assert!(s.is_done());
    assert_eq!(s.next_directory(), None);
    assert_eq!(s.overview(), ProjectOverview::empty());
    assert_eq!(
        s.overview(),
        ProjectOverview { files: 0, folders: 0, lines: 0, code_lines: 0, comments: 0, blanks: 0 }
    );
}

#[test]
fn one_file_three_lines() {
    let mut s = Scan::start(String::from("root"), true).unwrap();
    assert_eq!(s.next_directory(), Some(String::from("root")));
    s.record_file(&lines(&["", "// comment", "int x = 1;"])).unwrap();
    assert_eq!(s.next_directory(), None);
    let o = s.overview();
    assert_eq!(o.files, 1);
    assert_eq!(o.folders, 0);
    assert_eq!(o.lines, 3);
    assert_eq!(o.blanks, 1);
    assert_eq!(o.comments, 1);
    assert_eq!(o.code_lines, 1);
}

#[test]
fn empty_subfolder_and_blank_file() {
    let mut s = Scan::start(String::from("root"), true).unwrap();
    assert_eq!(s.next_directory(), Some(String::from("root")));
    s.record_folder(String::from("root/sub")).unwrap();
    s.record_file(&lines(&[""])).unwrap();
    assert_eq!(s.next_directory(), Some(String::from("root/sub")));
    assert_eq!(s.next_directory(), None);
    assert_eq!(
        s.overview(),
        ProjectOverview { files: 1, folders: 1, lines: 1, code_lines: 0, comments: 0, blanks: 1 }
    );
}

#[test]
fn pending_directories_come_out_last_in_first() {
    let mut s = Scan::start(String::from("r"), true).unwrap();
    assert_eq!(s.next_directory(), Some(String::from("r")));
    s.record_folder(String::from("r/a")).unwrap();
    s.record_folder(String::from("r/b")).unwrap();
    assert!(!s.is_done());
    assert_eq!(s.next_directory(), Some(String::from("r/b")));
    s.record_folder(String::from("r/b/c")).unwrap();
    assert_eq!(s.next_directory(), Some(String::from("r/b/c")));
    assert_eq!(s.next_directory(), Some(String::from("r/a")));
    assert_eq!(s.next_directory(), None);
    assert_eq!(s.overview().folders, 3);
}

#[test]
fn counters_balance_and_never_decrease() {
    let mut s = Scan::start(String::from("r"), true).unwrap();
    let mut prev = s.overview();
    assert_eq!(s.next_directory(), Some(String::from("r")));
    let files = [
        lines(&["fn main() {", "    // hi", "", "    *p = 1;", "}"]),
        lines(&[]),
        lines(&["  \t", "/*", " * doc", " */", "let a = 2 / 3;"]),
    ];
    for f in files.iter() {
        s.record_file(f).unwrap();
        s.record_folder(String::from("r/x")).unwrap();
        let o = s.overview();
        assert_eq!(o.lines, o.code_lines + o.comments + o.blanks);
        assert!(o.files >= prev.files && o.folders >= prev.folders && o.lines >= prev.lines);
        assert!(o.code_lines >= prev.code_lines && o.comments >= prev.comments);
        assert!(o.blanks >= prev.blanks);
        prev = o;
    }
    assert_eq!(
        prev,
        ProjectOverview { files: 3, folders: 3, lines: 10, code_lines: 3, comments: 5, blanks: 2 }
    );
}

#[test]
fn error_messages() {
    assert_eq!(ScanError::IoFailure.message(), "Could not read the directory tree");
    assert_eq!(ScanError::CounterOverflow.message(), "Too much to count");
}
