use dicom_thumbs::discovery::{is_source_file, Entry, Walk};

fn file(p: &str) -> Entry {
    Entry { path: p.to_string(), is_dir: false }
}

fn dir(p: &str) -> Entry {
    Entry { path: p.to_string(), is_dir: true }
}

#[test]
fn source_files_are_recognised_by_extension() {
    assert!(is_source_file("/a/b/scan.dcm"));
    assert!(is_source_file("scan.dcm"));
    assert!(!is_source_file("/a/b/scan.DCM"));
    assert!(!is_source_file("/a/b/scan.png"));
    assert!(!is_source_file("/a/b/.dcm"));
    assert!(!is_source_file("/a/b/noext"));
    assert!(is_source_file("/a/b.dcm/"));
    assert!(is_source_file("/a/..dcm"));
}

#[test]
fn walk_finds_every_source_file_once_at_any_depth() {
    let mut w = Walk::new("root".to_string());
    assert!(!w.is_done());
    let mut found_dirs = Vec::new();
    while let Some(d) = w.next_dir() {
        found_dirs.push(d.clone());
        let listing = match d.as_str() {
            "root" => vec![file("root/a.dcm"), dir("root/sub"), file("root/notes.txt")],
            "root/sub" => vec![dir("root/sub/deep"), file("root/sub/b.dcm"), file("root/sub/c.png")],
            "root/sub/deep" => vec![file("root/sub/deep/c.dcm"), file("root/sub/deep/d")],
            _ => vec![],
        };
        w.absorb(&listing);
    }
    assert!(w.is_done());
    assert_eq!(found_dirs, vec!["root", "root/sub", "root/sub/deep"]);
    let mut found = w.into_found();
    assert_eq!(found.len(), 3);
    found.sort();
    assert_eq!(found, vec!["root/a.dcm", "root/sub/b.dcm", "root/sub/deep/c.dcm"]);
}

#[test]
fn absorb_keeps_listing_order_and_pushes_directories() {
    let mut w = Walk::new("r".to_string());
    assert_eq!(w.next_dir(), Some("r".to_string()));
    w.absorb(&vec![file("r/2.dcm"), dir("r/x"), file("r/1.dcm"), dir("r/y")]);
    assert_eq!(w.next_dir(), Some("r/y".to_string()));
    assert_eq!(w.next_dir(), Some("r/x".to_string()));
    assert_eq!(w.next_dir(), None);
    assert_eq!(w.into_found(), vec!["r/2.dcm", "r/1.dcm"]);
}

#[test]
fn empty_tree_finds_nothing() {
    let mut w = Walk::new("empty".to_string());
    assert_eq!(w.next_dir(), Some("empty".to_string()));
    w.absorb(&vec![]);
    assert!(w.is_done());
    assert!(w.into_found().is_empty());
}
