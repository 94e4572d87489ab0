use image_viewer::browse::{compatible_files, get_next_file, is_compatible_file, StepDirection};

fn names(list: &[&str]) -> Vec<String> {
    list.iter().map(|s| s.to_string()).collect()
}

#[test]
fn compatible_extensions_in_any_case() {
    assert!(is_compatible_file("a.png"));
    assert!(is_compatible_file("dir/photo.JPG"));
    assert!(is_compatible_file("C:\\pics\\scan.TiFf"));
    assert!(is_compatible_file("x.ff"));
    assert!(!is_compatible_file("notes.txt"));
    assert!(!is_compatible_file("png"));
    assert!(!is_compatible_file(".png"));
    assert!(!is_compatible_file("archive.png.zip"));
    assert!(!is_compatible_file("dir.png/file"));
    assert!(is_compatible_file("a.png/"));
    assert!(is_compatible_file("dir/a.png/."));
    assert!(is_compatible_file("dir\\b.GIF\\"));
    assert!(!is_compatible_file("dir/.."));
    assert!(!is_compatible_file("/"));
    assert!(!is_compatible_file("."));
    assert!(!is_compatible_file(""));
}

#[test]
fn filtering_keeps_directory_order() {
    let entries = names(&["a.png", "b.jpg", "c.txt", "d.gif"]);
    assert_eq!(compatible_files(&entries), names(&["a.png", "b.jpg", "d.gif"]));
}

#[test]
fn navigation_stops_at_both_ends() {
    let entries = names(&["a.png", "b.jpg", "c.txt", "d.gif"]);
    assert_eq!(get_next_file("dir/d.gif", &entries, StepDirection::Forward), None);
    assert_eq!(get_next_file("dir/a.png", &entries, StepDirection::Backward), None);
    assert_eq!(
        get_next_file("dir/a.png", &entries, StepDirection::Forward),
        Some("b.jpg".to_string())
    );
    assert_eq!(
        get_next_file("dir/d.gif", &entries, StepDirection::Backward),
        Some("b.jpg".to_string())
    );
}

#[test]
fn navigation_skips_incompatible_and_unknown() {
    let entries = names(&["b.jpg", "c.txt", "d.gif"]);
    assert_eq!(
        get_next_file("b.jpg", &entries, StepDirection::Forward),
        Some("d.gif".to_string())
    );
    assert_eq!(get_next_file("dir/zzz.png", &entries, StepDirection::Forward), None);
    assert_eq!(get_next_file("dir/c.txt", &entries, StepDirection::Forward), None);
    assert_eq!(
        get_next_file("dir/b.jpg/", &entries, StepDirection::Forward),
        Some("d.gif".to_string())
    );
    assert_eq!(get_next_file("/", &entries, StepDirection::Forward), None);
    assert_eq!(get_next_file("dir/..", &entries, StepDirection::Forward), None);
    let empty: Vec<String> = Vec::new();
    assert_eq!(get_next_file("a.png", &empty, StepDirection::Backward), None);
}
