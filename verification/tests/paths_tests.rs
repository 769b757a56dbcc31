use avify::paths::{display_name, moved_path, output_path, path_join};

#[test]
fn output_beside_original() {
    assert_eq!(output_path("shots/a.jpg", None), "shots/a.avif");
    assert_eq!(output_path("shots/a.tar.gz", None), "shots/a.tar.avif");
    assert_eq!(output_path("noext", None), "noext.avif");
}

#[test]
fn output_in_directory() {
    assert_eq!(output_path("shots/a.jpg", Some("out")), "out/a.avif");
    // The stem keeps one dot, and its last part is then replaced as an extension.
    assert_eq!(output_path("a.b.png", Some("/tmp/o")), "/tmp/o/a.avif");
}

#[test]
fn moved_original() {
    assert_eq!(moved_path("shots/a.jpg", "done"), "done/a.jpg");
}

#[test]
fn names_shown() {
    assert_eq!(display_name("shots/a.jpg"), "a.jpg");
    assert_eq!(display_name("/"), "");
}

#[test]
fn joined_paths() {
    assert_eq!(moved_path("a.jpg", "done/"), "done/a.jpg");
    assert_eq!(moved_path("a.jpg", ""), "a.jpg");
    assert_eq!(output_path("x/a.jpg", Some("/abs/out")), "/abs/out/a.avif");
}

#[test]
fn join_matches_std() {
    for (base, path) in [("out", "a"), ("out/", "a"), ("", "a"), ("x", "/abs"), ("x", ""), ("/", "b")] {
        let expected = std::path::Path::new(base).join(path).to_string_lossy().into_owned();
        assert_eq!(path_join(base, path), expected, "{base:?} {path:?}");
    }
}
