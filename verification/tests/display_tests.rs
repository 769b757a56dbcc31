use avify::display::{push_decimal, push_padded};
use avify::progress::{LineKind, Progress, ProgressLine, RenderPlan, Status};

fn line(number: usize, name: &str, kind: LineKind) -> ProgressLine {
    ProgressLine { number, name: name.to_string(), kind }
}

#[test]
fn decimal_and_padding_match_format() {
    for n in [0usize, 7, 10, 99, 100, 12345, usize::MAX] {
        let mut s = String::new();
        push_decimal(&mut s, n);
        assert_eq!(s, n.to_string());
        for width in [0usize, 1, 3, 8] {
            let mut p = String::from("x");
            push_padded(&mut p, n, width);
            assert_eq!(p, format!("x{n:>width$}"));
        }
    }
}

#[test]
fn line_texts() {
    let plan = RenderPlan {
        erase: 0,
        total: 12,
        width: 2,
        finished: vec![
            line(3, "a.jpg", LineKind::Done { kb: 41 }),
            line(4, "b.png", LineKind::Failed("bad header".to_string())),
        ],
        active: vec![line(5, "c.arw", LineKind::Processing)],
    };
    assert_eq!(
        plan.text(),
        "\x1b[2K\x1b[32m 3/12 a.jpg → 41KB\x1b[0m\n\
         \x1b[2K\x1b[31m 4/12 b.png FAIL: bad header\x1b[0m\n\
         \x1b[2K\x1b[33m 5/12 c.arw →\x1b[0m\n"
    );
}

#[test]
fn erase_text() {
    let plan = RenderPlan { erase: 2, total: 1, width: 1, finished: vec![], active: vec![] };
    assert_eq!(plan.text(), "\x1b[2A\x1b[2K\n\x1b[2K\n\x1b[2A");
    let plan = RenderPlan { erase: 0, total: 1, width: 1, finished: vec![], active: vec![] };
    assert_eq!(plan.text(), "");
}

#[test]
fn render_then_text() {
    let files = vec!["d/x.jpg".to_string(), "d/y.jpg".to_string()];
    let mut p = Progress::new(&files);
    p.set(0, Status::Processing);
    assert_eq!(p.render().text(), "\x1b[2K\x1b[33m1/2 x.jpg →\x1b[0m\n");
    p.set(0, Status::Done { orig_bytes: 10, avif_bytes: 2048 });
    assert_eq!(
        p.render().text(),
        "\x1b[1A\x1b[2K\n\x1b[1A\x1b[2K\x1b[32m1/2 x.jpg → 2KB\x1b[0m\n"
    );
}
