use avify::progress::{digit_count, LineKind, Progress, Status, SummaryError};

fn files(n: usize) -> Vec<String> {
    (0..n).map(|i| format!("dir/f{i}.jpg")).collect()
}

fn numbers(lines: &[avify::progress::ProgressLine]) -> Vec<usize> {
    lines.iter().map(|l| l.number).collect()
}

#[test]
fn new_progress_shows_file_names() {
    let mut p = Progress::new(&files(3));
    assert_eq!(p.len(), 3);
    let plan = p.render();
    assert_eq!(plan.erase, 0);
    assert_eq!(plan.total, 3);
    assert_eq!(plan.width, 1);
    assert!(plan.finished.is_empty());
    assert!(plan.active.is_empty());
}

#[test]
fn finished_files_printed_once_in_order() {
    let mut p = Progress::new(&files(4));
    p.set(1, Status::Processing);
    p.set(0, Status::Processing);
    let plan = p.render();
    assert!(plan.finished.is_empty());
    assert_eq!(numbers(&plan.active), vec![1, 2]);
    assert_eq!(plan.active[0].name, "f0.jpg");

    p.set(1, Status::Done { orig_bytes: 5000, avif_bytes: 3000 });
    let plan = p.render();
    assert_eq!(plan.erase, 2);
    assert!(plan.finished.is_empty());
    assert_eq!(numbers(&plan.active), vec![1, 2]);
    assert!(matches!(plan.active[1].kind, LineKind::Done { kb: 2 }));

    p.set(0, Status::Failed("bad".to_string()));
    let plan = p.render();
    assert_eq!(numbers(&plan.finished), vec![1, 2]);
    assert!(matches!(&plan.finished[0].kind, LineKind::Failed(m) if m == "bad"));
    assert!(plan.active.is_empty());

    p.set(3, Status::Processing);
    let plan = p.render();
    assert_eq!(plan.erase, 0);
    assert!(plan.finished.is_empty());
    assert!(plan.active.is_empty());

    p.set(2, Status::Done { orig_bytes: 1, avif_bytes: 1 });
    let plan = p.render();
    assert_eq!(numbers(&plan.finished), vec![3]);
    assert_eq!(numbers(&plan.active), vec![4]);
    assert!(matches!(plan.active[0].kind, LineKind::Processing));
}

#[test]
fn width_is_digit_count_of_total() {
    let mut p = Progress::new(&files(12));
    assert_eq!(p.render().width, 2);
    assert_eq!(digit_count(0), 1);
    assert_eq!(digit_count(9), 1);
    assert_eq!(digit_count(10), 2);
    assert_eq!(digit_count(usize::MAX), usize::MAX.to_string().len());
}

#[test]
fn summary_in_kilobytes() {
    let mut p = Progress::new(&files(3));
    p.set(0, Status::Done { orig_bytes: 100_000, avif_bytes: 30_000 });
    p.set(1, Status::Failed("x".to_string()));
    p.set(2, Status::Done { orig_bytes: 50_000, avif_bytes: 20_000 });
    let s = p.summary().unwrap().unwrap();
    assert_eq!(s.count, 2);
    assert_eq!(s.orig_total, 150_000);
    assert_eq!(s.avif_total, 50_000);
    assert_eq!(s.saved, 100_000);
    assert_eq!(s.percent, 66);
    assert!(!s.in_megabytes);
    assert_eq!((s.orig_kb, s.avif_kb, s.saved_kb), (146, 48, 97));
}

#[test]
fn summary_in_megabytes_and_growth() {
    let mut p = Progress::new(&files(1));
    p.set(0, Status::Done { orig_bytes: 2_000_000, avif_bytes: 3_000_000 });
    let s = p.summary().unwrap().unwrap();
    assert!(s.in_megabytes);
    assert_eq!(s.saved, 0);
    assert_eq!(s.percent, 0);
}

#[test]
fn no_summary_without_converted_bytes() {
    let mut p = Progress::new(&files(2));
    assert!(p.summary().unwrap().is_none());
    p.set(0, Status::Done { orig_bytes: 0, avif_bytes: 10 });
    assert!(p.summary().unwrap().is_none());
}

#[test]
fn summary_overflow() {
    let mut p = Progress::new(&files(2));
    p.set(0, Status::Done { orig_bytes: u64::MAX, avif_bytes: 0 });
    p.set(1, Status::Done { orig_bytes: 1, avif_bytes: 0 });
    assert!(matches!(p.summary(), Err(SummaryError::Overflow)));
    let mut p = Progress::new(&files(1));
    p.set(0, Status::Done { orig_bytes: u64::MAX, avif_bytes: 0 });
    assert!(matches!(p.summary(), Err(SummaryError::Overflow)));
}
