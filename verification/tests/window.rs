use zerolinux_cleaner::terminal::Frame;
use zerolinux_cleaner::window::Window;

const IDLE: Window = Window { busy: false, refreshing: false, percent: 40, shown: 9 };

#[test]
fn an_operation_clears_the_window() {
    let started = IDLE.start().unwrap();
    assert_eq!(started, Window { busy: true, refreshing: false, percent: 0, shown: 0 });
}

#[test]
fn only_one_operation_runs_at_a_time() {
    let mut w = IDLE.start().unwrap();
    assert_eq!(w.start(), None);
    w = w.show(Frame::Lines { shown: 3, percent: 30 });
    assert_eq!((w.shown, w.percent, w.busy), (3, 30, true));
    w = w.show(Frame::Progress { percent: 50 });
    assert_eq!((w.shown, w.percent, w.busy), (3, 50, true));
    assert_eq!(w.start(), None);
    let end = w.finish(12);
    assert_eq!(end, Window { busy: false, refreshing: false, percent: 100, shown: 12 });
    assert_eq!(end.start(), IDLE.start());
}

#[test]
fn statistics_wait_while_an_operation_runs() {
    assert!(IDLE.takes_stats());
    assert!(!IDLE.start().unwrap().takes_stats());
}

#[test]
fn refreshing_is_shown_and_taken_back() {
    let w = IDLE.refresh(true);
    assert_eq!(w, Window { refreshing: true, ..IDLE });
    assert_eq!(w.start().unwrap().refreshing, true);
    assert_eq!(w.refresh(false), IDLE);
}
