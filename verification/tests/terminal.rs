use zerolinux_cleaner::terminal::{Frame, Term};

fn lines(term: &Term) -> Vec<(String, String)> {
    term.snapshot().into_iter().map(|e| (e.level, e.text)).collect()
}

#[test]
fn a_new_log_is_empty() {
    assert!(Term::new().snapshot().is_empty());
    assert!(Term::default().snapshot().is_empty());
    assert!(Term::new().frames_after(0).is_empty());
}

#[test]
fn every_method_has_its_level() {
    let mut t = Term::new();
    t.info("a");
    t.ok("b");
    t.err("c");
    t.cmd("d");
    t.out("e");
    let expected = [("info", "a"), ("success", "b"), ("error", "c"), ("cmd", "d"), ("output", "e")];
    let got = lines(&t);
    assert_eq!(got.len(), expected.len());
    for (g, e) in got.iter().zip(expected) {
        assert_eq!((g.0.as_str(), g.1.as_str()), e);
    }
}

#[test]
fn frames_keep_what_was_shown_when() {
    let mut t = Term::new();
    t.push_to_ui(5);
    t.info("a");
    t.push_to_ui(10);
    t.nudge(50);
    t.info("b");
    t.push_to_ui(100);
    let all = vec![
        Frame::Lines { shown: 0, percent: 5 },
        Frame::Lines { shown: 1, percent: 10 },
        Frame::Progress { percent: 50 },
        Frame::Lines { shown: 2, percent: 100 },
    ];
    assert_eq!(t.frames_after(0), all);
    assert_eq!(t.frames_after(2), all[2..].to_vec());
    assert!(t.frames_after(4).is_empty());
    assert!(t.frames_after(5).is_empty());
}

#[test]
fn the_log_only_grows() {
    let mut t = Term::new();
    t.info("first");
    let before = lines(&t);
    t.err("second");
    t.push_to_ui(30);
    assert_eq!(lines(&t)[..1].to_vec(), before);
}
