use avify::format::ImageFormat;
use avify::job::{heic_unsupported_message, JobAction, JobConfig, JobEvent, JobState};

fn cfg(path: &str, outdir: Option<&str>, moved: Option<&str>, trash: bool) -> JobConfig {
    JobConfig {
        path: path.to_string(),
        outdir: outdir.map(|s| s.to_string()),
        move_originals: moved.map(|s| s.to_string()),
        trash,
    }
}

#[test]
fn jpeg_converted_in_place() {
    let c = cfg("d/a.jpg", None, None, false);
    let (s, a) = c.step(JobState::Start, JobEvent::Begin);
    assert!(matches!(a, JobAction::Announce));
    let (s, a) = c.step(s, JobEvent::Announced);
    assert!(matches!(a, JobAction::Sniff));
    let (s, a) = c.step(s, JobEvent::Sniffed(Some(ImageFormat::Standard)));
    assert!(matches!(a, JobAction::Decode(ImageFormat::Standard)));
    let (s, a) = c.step(s, JobEvent::Decoded);
    assert!(matches!(a, JobAction::Encode));
    let (s, a) = c.step(s, JobEvent::Encoded(1234));
    assert!(matches!(a, JobAction::Measure));
    let (s, a) = c.step(s, JobEvent::Measured(9999));
    assert!(matches!(&a, JobAction::Write(p) if p == "d/a.avif"));
    let (s, a) = c.step(s, JobEvent::Written);
    assert!(matches!(a, JobAction::Finish { orig_bytes: 9999, avif_bytes: 1234 }));
    assert_eq!(s, JobState::Finished);
    let (s2, a) = c.step(s, JobEvent::Written);
    assert!(matches!(a, JobAction::Ignore));
    assert_eq!(s2, JobState::Finished);
}

#[test]
fn raw_file_is_not_sniffed() {
    let c = cfg("d/a.NEF", None, None, false);
    let (s, a) = c.step(JobState::Announced, JobEvent::Announced);
    assert!(matches!(a, JobAction::Decode(ImageFormat::Raw)));
    assert_eq!(s, JobState::Decoding);
}

#[test]
fn decode_failure_marks_file_failed() {
    let c = cfg("d/a.png", None, None, false);
    let (s, a) = c.step(JobState::Decoding, JobEvent::DecodeFailed("broken".to_string()));
    assert!(matches!(&a, JobAction::Fail(m) if m == "broken"));
    assert_eq!(s, JobState::Aborted);
}

#[test]
fn heic_is_unsupported() {
    let c = cfg("d/IMG.HEIC", None, None, false);
    let (s, a) = c.step(JobState::Sniffing, JobEvent::Sniffed(Some(ImageFormat::HeicUnsupported)));
    assert_eq!(s, JobState::Aborted);
    match a {
        JobAction::Unsupported(m) => {
            assert!(m.starts_with("HEIC support not compiled in\n\nConvert first with sips:"));
            assert!(m.contains("sips -s format png \"d/IMG.HEIC\" --out \"IMG.png\""));
        },
        _ => panic!("expected Unsupported"),
    }
    assert_eq!(
        heic_unsupported_message("x/y.heif"),
        "HEIC support not compiled in\n\nConvert first with sips:\n\n\x1b[36m  sips -s format png \"x/y.heif\" --out \"y.png\"\x1b[0m\n\nOr install libheif for native support:\n\n\x1b[36m  brew install libheif && cargo install avify\x1b[0m"
    );
}

#[test]
fn original_moved_after_write() {
    let c = cfg("d/a.jpg", Some("out"), Some("orig"), true);
    let (s, a) = c.step(JobState::Measuring { avif_bytes: 10 }, JobEvent::Measured(20));
    assert!(matches!(&a, JobAction::Write(p) if p == "out/a.avif"));
    let (s, a) = c.step(s, JobEvent::Written);
    assert!(matches!(&a, JobAction::Move(p) if p == "orig/a.jpg"));
    let (s, a) = c.step(s, JobEvent::Disposed);
    assert!(matches!(a, JobAction::Finish { orig_bytes: 20, avif_bytes: 10 }));
    assert_eq!(s, JobState::Finished);
}

#[test]
fn original_trashed_when_not_moved() {
    let c = cfg("d/a.jpg", None, None, true);
    let (s, a) = c.step(JobState::Writing { avif_bytes: 1, orig_bytes: 2 }, JobEvent::Written);
    assert!(matches!(a, JobAction::Trash));
    let (s, a) = c.step(s, JobEvent::StepFailed);
    assert!(matches!(a, JobAction::Abort));
    assert_eq!(s, JobState::Aborted);
}

#[test]
fn write_failure_never_touches_original() {
    let c = cfg("d/a.jpg", None, Some("orig"), false);
    let (s, a) = c.step(JobState::Writing { avif_bytes: 1, orig_bytes: 2 }, JobEvent::StepFailed);
    assert!(matches!(a, JobAction::Abort));
    let (_, a) = c.step(s, JobEvent::Written);
    assert!(matches!(a, JobAction::Ignore));
}

#[test]
fn mismatched_event_ignored() {
    let c = cfg("d/a.jpg", None, None, false);
    let (s, a) = c.step(JobState::Start, JobEvent::Decoded);
    assert!(matches!(a, JobAction::Ignore));
    assert_eq!(s, JobState::Start);
}
