use avify::listing::{bytes_less, select_images};

#[test]
fn images_filtered_and_sorted() {
    let files = vec![
        "d/b.JPG".to_string(),
        "d/notes.txt".to_string(),
        "d/a.cr3".to_string(),
        "d/B.png".to_string(),
        "d/a.cr3.xmp".to_string(),
        "d/c".to_string(),
    ];
    assert_eq!(select_images(files), vec!["d/B.png", "d/a.cr3", "d/b.JPG"]);
}

#[test]
fn byte_order() {
    assert!(bytes_less(b"a", b"b"));
    assert!(bytes_less(b"a", b"ab"));
    assert!(!bytes_less(b"ab", b"ab"));
    assert!(!bytes_less(b"b", b"ab"));
    assert!(bytes_less(b"", b"a"));
}

#[test]
fn no_images() {
    assert!(select_images(vec![]).is_empty());
    assert!(select_images(vec!["x.doc".to_string()]).is_empty());
}
