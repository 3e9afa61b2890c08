use zerolinux_cleaner::cleaner::{
    full_clean, is_package_name, list_orphans, orphan_names, quick_clean, CleanStep, Cleaner,
};
use zerolinux_cleaner::command::Captured;
use zerolinux_cleaner::operation::{Reply, Request};
use zerolinux_cleaner::terminal::{Frame, Term};

fn printed(success: bool, stdout: &[u8]) -> Option<Captured> {
    Some(Captured { success, stdout: stdout.to_vec() })
}

fn lines(term: &Term) -> Vec<String> {
    term.snapshot().into_iter().map(|e| format!("{}|{}", e.level, e.text)).collect()
}

fn asked(r: &Request) -> String {
    match r {
        Request::Capture(c) => format!("capture {}", c.announcement()),
        Request::Stream { command, percent } => {
            format!("stream {} {}", percent, command.announcement())
        }
        Request::Which(bin) => format!("which {}", bin),
        Request::LaunchingUser => "user".to_string(),
        Request::ClearTmp => "tmp".to_string(),
        Request::BrowserCaches => "browsers".to_string(),
        Request::Pycache => "pycache".to_string(),
        Request::Thumbnails => "thumbnails".to_string(),
    }
}

/// Runs to the end; `failing` names the commands that fail, `installed` the helpers that exist.
fn run(
    start: Cleaner,
    orphans: &str,
    failing: &[&str],
    installed: &[&str],
    term: &mut Term,
) -> (Vec<String>, Result<(), String>) {
    let mut c = start;
    let mut log = Vec::new();
    loop {
        let request = c.request();
        log.push(asked(&request));
        let reply = match request {
            Request::Capture(_) => Reply::Output(printed(true, orphans.as_bytes())),
            Request::Stream { command, .. } => Reply::Ended(
                if failing.contains(&command.announcement().as_str()) {
                    Err(format!("bad {}", command.bin))
                } else {
                    Ok(())
                },
            ),
            Request::Which(bin) => Reply::Found(installed.contains(&bin.as_str())),
            _ => Reply::Done,
        };
        match c.resume(reply, term) {
            CleanStep::Continue(next) => c = next,
            CleanStep::Done(r) => return (log, r),
        }
    }
}

#[test]
fn package_names_are_checked_character_by_character() {
    assert!(is_package_name("lib32-gcc_libs.x+y@1"));
    assert!(is_package_name("é"));
    assert!(!is_package_name("a b"));
    assert!(!is_package_name("a;rm"));
    assert!(!is_package_name("$(x)"));
    assert!(!is_package_name("a/b"));
    assert!(!is_package_name(""));
}

#[test]
fn package_names_take_all_alphanumeric_characters() {
    for code in 0..=0x10ffffu32 {
        if let Some(c) = char::from_u32(code) {
            let expected = c.is_alphanumeric() || "-_.+@".contains(c);
            assert_eq!(is_package_name(&c.to_string()), expected, "{:?}", c);
        }
    }
}

#[test]
fn ascii_alphanumeric_is_what_is_stated() {
    for code in 0..0x80u32 {
        let c = char::from_u32(code).unwrap();
        let stated = c.is_ascii_digit() || c.is_ascii_lowercase() || c.is_ascii_uppercase();
        assert_eq!(is_package_name(&c.to_string()) && !"-_.+@".contains(c), stated);
    }
}

#[test]
fn orphans_are_the_named_lines() {
    assert_eq!(orphan_names(" foo \n\nbar baz\nqux\r\n;x"), vec!["foo", "qux"]);
    assert_eq!(list_orphans(&printed(true, b"foo\nbar-1.0\n")), vec!["foo", "bar-1.0"]);
    assert!(list_orphans(&printed(false, b"foo\n")).is_empty());
    assert!(list_orphans(&printed(true, b"")).is_empty());
    assert!(list_orphans(&None).is_empty());
}

#[test]
fn bytes_that_are_no_text_are_replaced() {
    assert_eq!(list_orphans(&printed(true, b"ok\nb\xffd\n\xc3\xa9t\xc3\xa9")), vec!["ok", "été"]);
}

#[test]
fn a_quick_clean_without_orphans() {
    let mut t = Term::new();
    let c = quick_clean(&mut t);
    let (log, r) = run(c, "", &[], &[], &mut t);
    assert_eq!(r, Ok(()));
    assert_eq!(
        log,
        vec![
            "capture $ pacman -Qtdq",
            "stream 45 $ paccache -rk1",
            "stream 55 $ paccache -ruk0",
            "tmp",
        ]
    );
    assert_eq!(
        lines(&t),
        vec![
            "info|══ Quick Clean ══════════════════════",
            "info|Checking for orphan packages...",
            "success|No orphan packages found.",
            "info|Cleaning package cache (keeping 1 version)...",
            "success|Package cache cleaned.",
            "info|Clearing /tmp...",
            "success|Temporary files cleared.",
        ]
    );
    assert_eq!(
        t.frames_after(0),
        vec![
            Frame::Lines { shown: 1, percent: 5 },
            Frame::Lines { shown: 2, percent: 10 },
            Frame::Lines { shown: 3, percent: 30 },
            Frame::Lines { shown: 5, percent: 60 },
            Frame::Lines { shown: 7, percent: 100 },
        ]
    );
}

#[test]
fn a_quick_clean_with_orphans_and_failures() {
    let mut t = Term::new();
    let c = quick_clean(&mut t);
    let failing = ["$ pacman -Rns --noconfirm -- a b", "$ paccache -rk1", "$ paccache -ruk0"];
    let (log, r) = run(c, "a\nb\n", &failing, &[], &mut t);
    assert_eq!(r, Err("bad pacman".to_string()));
    assert_eq!(log[1], "stream 20 $ pacman -Rns --noconfirm -- a b");
    assert_eq!(log.len(), 5);
    assert_eq!(
        lines(&t)[2..].to_vec(),
        vec![
            "info|Found 2 orphan(s) — removing...",
            "error|bad pacman",
            "info|Cleaning package cache (keeping 1 version)...",
            "error|bad paccache",
            "error|bad paccache",
            "success|Package cache cleaned.",
            "info|Clearing /tmp...",
            "success|Temporary files cleared.",
        ]
    );
}

#[test]
fn removed_orphans_are_counted() {
    let mut t = Term::new();
    let c = quick_clean(&mut t);
    let (_, r) = run(c, "a\nb\nc", &[], &[], &mut t);
    assert_eq!(r, Ok(()));
    assert!(lines(&t).contains(&"success|Removed 3 orphan(s).".to_string()));
}

#[test]
fn a_full_clean_with_a_helper() {
    let mut t = Term::new();
    let c = full_clean(&mut t);
    let (log, r) = run(c, "", &[], &["yay", "trizen"], &mut t);
    assert_eq!(r, Ok(()));
    assert_eq!(
        log,
        vec![
            "capture $ pacman -Qtdq",
            "stream 45 $ paccache -rk1",
            "stream 55 $ paccache -ruk0",
            "tmp",
            "stream 20 $ journalctl --vacuum-time=7d",
            "browsers",
            "pycache",
            "thumbnails",
            "stream 80 $ systemctl reset-failed",
            "which paru",
            "which yay",
            "stream 92 $ yay -Sc --noconfirm",
        ]
    );
    assert_eq!(
        lines(&t)[7..].to_vec(),
        vec![
            "info|══ Full Clean (extended) ════════════",
            "info|Vacuuming systemd journal (keep 7 days)...",
            "success|Journal cleaned.",
            "info|Cleaning browser caches...",
            "success|Browser caches cleared.",
            "info|Cleaning Python bytecode caches...",
            "success|Python caches cleared.",
            "info|Clearing thumbnail caches...",
            "success|Thumbnails cleared.",
            "success|systemd reset-failed done.",
            "info|Cleaning yay cache...",
            "success|yay cache cleaned.",
        ]
    );
    let frames = t.frames_after(5);
    let percents: Vec<u8> = frames
        .iter()
        .map(|f| match f {
            Frame::Lines { percent, .. } => *percent,
            Frame::Progress { percent } => *percent,
        })
        .collect();
    assert_eq!(percents, vec![5, 45, 60, 72, 100]);
}

#[test]
fn a_full_clean_without_a_helper_tries_all_of_them() {
    let mut t = Term::new();
    let c = full_clean(&mut t);
    let (log, r) = run(c, "", &["$ journalctl --vacuum-time=7d"], &[], &mut t);
    assert_eq!(r, Err("bad journalctl".to_string()));
    assert_eq!(log[9..].to_vec(), vec!["which paru", "which yay", "which pikaur", "which trizen"]);
    assert_eq!(lines(&t)[9], "error|bad journalctl");
    assert_eq!(lines(&t).last().unwrap(), "success|systemd reset-failed done.");
}

#[test]
fn a_failing_helper_is_told() {
    let mut t = Term::new();
    let c = full_clean(&mut t);
    let (_, r) = run(c, "", &["$ paru -Sc --noconfirm"], &["paru"], &mut t);
    assert_eq!(r, Err("bad paru".to_string()));
    assert_eq!(lines(&t).last().unwrap(), "error|bad paru");
}

#[test]
fn a_reply_out_of_turn_changes_nothing_in_a_clean() {
    let mut t = Term::new();
    let c = quick_clean(&mut t);
    let before = lines(&t);
    match c.resume(Reply::Found(true), &mut t) {
        CleanStep::Continue(next) => assert_eq!(asked(&next.request()), "capture $ pacman -Qtdq"),
        CleanStep::Done(_) => panic!("ended early"),
    }
    assert_eq!(lines(&t), before);
}

#[test]
fn a_failing_reset_is_told_and_does_not_stop_the_clean() {
    let mut t = Term::new();
    let c = full_clean(&mut t);
    let (log, r) = run(c, "", &["$ systemctl reset-failed"], &["yay"], &mut t);
    assert_eq!(r, Ok(()));
    assert_eq!(log.last().unwrap(), "stream 92 $ yay -Sc --noconfirm");
    assert!(lines(&t).contains(&"error|bad systemctl".to_string()));
    assert!(!lines(&t).contains(&"success|systemd reset-failed done.".to_string()));
}

#[test]
fn every_fatal_failure_makes_the_clean_fail() {
    for failing in [
        "$ pacman -Rns --noconfirm -- a",
        "$ paccache -rk1",
        "$ paccache -ruk0",
        "$ journalctl --vacuum-time=7d",
        "$ trizen -Sc --noconfirm",
    ] {
        let mut t = Term::new();
        let c = full_clean(&mut t);
        let (_, r) = run(c, "a", &[failing], &["trizen"], &mut t);
        let bin = failing.split(' ').nth(1).unwrap();
        assert_eq!(r, Err(format!("bad {}", bin)));
        assert!(lines(&t).contains(&format!("error|bad {}", bin)));
    }
}

#[test]
fn the_first_failure_is_the_result() {
    let mut t = Term::new();
    let c = full_clean(&mut t);
    let failing = ["$ journalctl --vacuum-time=7d", "$ paru -Sc --noconfirm"];
    assert_eq!(run(c, "", &failing, &["paru"], &mut t).1, Err("bad journalctl".to_string()));
}

#[test]
fn a_full_clean_goes_on_after_a_failing_quick_step() {
    for failing in ["$ pacman -Rns --noconfirm -- a", "$ paccache -rk1", "$ paccache -ruk0"] {
        let mut t = Term::new();
        let c = full_clean(&mut t);
        let (with_failure, r) = run(c, "a", &[failing, "$ yay -Sc --noconfirm"], &["yay"], &mut t);
        assert_eq!(r, Err(format!("bad {}", failing.split(' ').nth(1).unwrap())));
        let mut t = Term::new();
        let c = full_clean(&mut t);
        let (without, r) = run(c, "a", &[], &["yay"], &mut t);
        assert_eq!(r, Ok(()));
        assert_eq!(with_failure, without);
        assert_eq!(with_failure.last().unwrap(), "stream 92 $ yay -Sc --noconfirm");
    }
}
