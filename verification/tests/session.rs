use zerolinux_cleaner::command::Captured;
use zerolinux_cleaner::operation::{Reply, Request};
use zerolinux_cleaner::session::{finish, Operation, Session};
use zerolinux_cleaner::terminal::{Frame, Term};

fn lines(term: &Term) -> Vec<String> {
    term.snapshot().into_iter().map(|e| e.text).collect()
}

fn percent(f: &Frame) -> u8 {
    match f {
        Frame::Lines { percent, .. } => *percent,
        Frame::Progress { percent } => *percent,
    }
}

fn run(operation: Operation, updates: &str) -> (Vec<String>, Term) {
    run_failing(operation, updates, "")
}

/// Runs an operation in which the binary `failing` fails.
fn run_failing(operation: Operation, updates: &str, failing: &str) -> (Vec<String>, Term) {
    let mut term = Term::new();
    let mut session = Some(Session::begin(operation, &mut term));
    let mut log = Vec::new();
    while let Some(s) = session {
        let reply = match s.request() {
            Request::Capture(c) => {
                log.push(c.announcement());
                let stdout = if c.bin == "checkupdates" { updates } else { "" };
                Reply::Output(Some(Captured { success: true, stdout: stdout.as_bytes().to_vec() }))
            }
            Request::Stream { command, .. } => {
                log.push(command.announcement());
                Reply::Ended(if command.bin == failing {
                    Err(format!("bad {}", failing))
                } else {
                    Ok(())
                })
            }
            Request::Which(bin) => {
                log.push(format!("which {}", bin));
                Reply::Found(false)
            }
            Request::LaunchingUser => Reply::User(None),
            Request::ClearTmp => {
                log.push("tmp".to_string());
                Reply::Done
            }
            _ => Reply::Done,
        };
        session = s.resume(reply, &mut term);
    }
    (log, term)
}

const LAST: [&str; 2] = ["─────────────────────────────────────", "Done! Refreshing stats..."];

#[test]
fn every_operation_ends_with_the_same_lines() {
    for op in [Operation::QuickClean, Operation::FullClean, Operation::Update, Operation::Maintenance] {
        let (_, term) = run(op, "a 1 -> 2");
        let log = lines(&term);
        assert_eq!(log[log.len() - 2..].to_vec(), LAST.to_vec());
        assert_eq!(log.iter().filter(|l| l.as_str() == LAST[1]).count(), 1);
        assert!(term.frames_after(0).iter().all(|f| percent(f) <= 100));
    }
}

#[test]
fn an_operation_begins_with_its_title() {
    let titles = [
        (Operation::QuickClean, "══ Quick Clean ══════════════════════"),
        (Operation::FullClean, "══ Quick Clean ══════════════════════"),
        (Operation::Update, "══ System Update ════════════════════"),
        (Operation::Maintenance, "══ One-Click Maintenance ════════════"),
    ];
    for (op, title) in titles {
        assert_eq!(lines(&run(op, "").1)[0], title);
    }
}

#[test]
fn a_maintenance_is_an_update_and_then_a_full_clean() {
    for updates in ["", "a 1 -> 2"] {
        let (whole, term) = run(Operation::Maintenance, updates);
        let (mut parts, _) = run(Operation::Update, updates);
        let first = parts.len();
        parts.extend(run(Operation::FullClean, updates).0);
        assert_eq!(whole, parts);
        assert_eq!(whole[first], "$ pacman -Qtdq");
        assert!(term.frames_after(0).contains(&Frame::Progress { percent: 50 }));
        let log = lines(&term);
        assert_eq!(log[1], "══ System Update ════════════════════");
        assert!(log.contains(&"══ Full Clean (extended) ════════════".to_string()));
    }
}

#[test]
fn a_quick_clean_is_the_beginning_of_a_full_one() {
    let (quick, _) = run(Operation::QuickClean, "");
    let (full, _) = run(Operation::FullClean, "");
    assert_eq!(full[..quick.len()].to_vec(), quick);
    assert!(full.len() > quick.len());
}

#[test]
fn the_last_lines_have_their_levels() {
    let mut t = Term::new();
    finish(&mut t);
    let log = t.snapshot();
    assert_eq!((log[0].level.as_str(), log[0].text.as_str()), ("info", LAST[0]));
    assert_eq!((log[1].level.as_str(), log[1].text.as_str()), ("success", LAST[1]));
}

#[test]
fn the_failure_of_a_clean_is_told_at_its_end() {
    for (op, line) in [
        (Operation::QuickClean, "Fatal error: bad paccache"),
        (Operation::FullClean, "Fatal error: bad paccache"),
        (Operation::Maintenance, "Clean error: bad paccache"),
    ] {
        let (_, term) = run_failing(op, "", "paccache");
        let log = term.snapshot();
        let told = &log[log.len() - 3];
        assert_eq!((told.level.as_str(), told.text.as_str()), ("error", line));
    }
    let (_, term) = run_failing(Operation::QuickClean, "", "");
    assert!(lines(&term).iter().all(|l| !l.starts_with("Fatal error")));
}

#[test]
fn an_update_goes_on_after_failures() {
    let (log, term) = run_failing(Operation::Update, "a 1 -> 2", "pacman");
    assert_eq!(log.last().unwrap(), "which flatpak");
    assert!(lines(&term).contains(&"Upgrade error: bad pacman".to_string()));
    assert!(lines(&term).iter().all(|l| !l.starts_with("Fatal error")));
}

#[test]
fn a_failing_reset_is_no_fatal_error() {
    let (log, term) = run_failing(Operation::FullClean, "", "systemctl");
    assert_eq!(log.last().unwrap(), "which trizen");
    assert!(lines(&term).contains(&"bad systemctl".to_string()));
    assert!(lines(&term).iter().all(|l| !l.starts_with("Fatal error")));
}
