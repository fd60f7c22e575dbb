use file_upload::destination_path;
use file_upload::sanitize_filename;

#[test]
fn plain_names_are_safe() {
    assert!(sanitize_filename("passwd"));
    assert!(sanitize_filename("report.pdf"));
    assert!(sanitize_filename("a..b"));
    assert!(sanitize_filename("...")); // three dots name a file, not a directory
}

#[test]
fn parent_directory_segments_are_rejected() {
    assert!(!sanitize_filename("../../etc/passwd"));
    assert!(!sanitize_filename(".."));
    assert!(!sanitize_filename("..\\windows\\system32"));
}

#[test]
fn separators_and_nul_are_rejected() {
    assert!(!sanitize_filename("dir/file"));
    assert!(!sanitize_filename("/absolute"));
    assert!(!sanitize_filename("back\\slash"));
    assert!(!sanitize_filename("nul\0byte"));
}

#[test]
fn empty_and_current_directory_are_rejected() {
    assert!(!sanitize_filename(""));
    assert!(!sanitize_filename("."));
}

#[test]
fn destination_is_directly_inside_the_directory() {
    assert_eq!(destination_path("uploads", "file.txt"), "uploads/file.txt");
    assert_eq!(destination_path("uploads", "a..b"), "uploads/a..b");
}
