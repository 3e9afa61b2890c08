use zerolinux_cleaner::command::Captured;
use zerolinux_cleaner::operation::{Reply, Request};
use zerolinux_cleaner::terminal::{Frame, Term};
use zerolinux_cleaner::updater::{
    check_updates, is_plain_user, original_user, system_update, UpdateStep,
};

fn lines(term: &Term) -> Vec<String> {
    term.snapshot().into_iter().map(|e| format!("{}|{}", e.level, e.text)).collect()
}

fn user(name: &str) -> Option<String> {
    original_user(Some(name.to_string()))
}

struct World<'a> {
    updates: Option<&'a str>,
    failing: &'a [&'a str],
    installed: &'a [&'a str],
    sudo_user: Option<&'a str>,
}

fn run(w: &World, term: &mut Term) -> Vec<String> {
    let mut u = system_update(term);
    let mut log = Vec::new();
    loop {
        let reply = match u.request() {
            Request::Capture(c) => {
                log.push(format!("capture {}", c.announcement()));
                Reply::Output(
                    w.updates.map(|s| Captured { success: false, stdout: s.as_bytes().to_vec() }),
                )
            }
            Request::Stream { command, percent } => {
                let line = command.announcement();
                log.push(format!("stream {} {}", percent, line));
                Reply::Ended(if w.failing.contains(&line.as_str()) {
                    Err(format!("bad {}", command.bin))
                } else {
                    Ok(())
                })
            }
            Request::Which(bin) => {
                log.push(format!("which {}", bin));
                Reply::Found(w.installed.contains(&bin.as_str()))
            }
            Request::LaunchingUser => {
                log.push("user".to_string());
                Reply::User(w.sudo_user.map(String::from))
            }
            _ => panic!("not part of an update"),
        };
        match u.resume(reply, term) {
            UpdateStep::Continue(next) => u = next,
            UpdateStep::Done(r) => {
                assert_eq!(r, Ok(()));
                return log;
            }
        }
    }
}

#[test]
fn user_names_are_checked() {
    assert!(is_plain_user("zero_linux-1"));
    assert!(!is_plain_user(""));
    assert!(!is_plain_user("a b"));
    assert_eq!(user("zero"), Some("zero".to_string()));
    assert_eq!(user("zoë"), Some("zoë".to_string()));
    assert_eq!(user(""), None);
    assert_eq!(user("a;b"), None);
    assert_eq!(user("a.b"), None);
    assert_eq!(original_user(None), None);
}

#[test]
fn root_is_not_the_launching_user() {
    assert_eq!(user("root"), None);
    assert_eq!(user("roots"), Some("roots".to_string()));
}

#[test]
fn pending_updates_are_the_filled_lines() {
    let out = Captured { success: false, stdout: b" a 1 -> 2 \n\nb 3 -> 4\n".to_vec() };
    assert_eq!(check_updates(&Some(out)), vec!["a 1 -> 2", "b 3 -> 4"]);
    assert!(check_updates(&None).is_empty());
}

#[test]
fn nothing_to_update() {
    let mut t = Term::new();
    let w = World { updates: Some("\n"), failing: &["$ pacman -Sy"], installed: &[], sudo_user: None };
    assert_eq!(
        run(&w, &mut t),
        vec![
            "stream 10 $ pacman -Sy",
            "capture $ checkupdates ",
            "which paru",
            "which yay",
            "which pikaur",
            "which trizen",
            "which flatpak",
        ]
    );
    assert_eq!(
        lines(&t),
        vec![
            "info|══ System Update ════════════════════",
            "info|Syncing package databases...",
            "error|Database sync failed: bad pacman",
            "success|System is already up to date!",
        ]
    );
    assert_eq!(
        t.frames_after(0),
        vec![Frame::Lines { shown: 1, percent: 5 }, Frame::Lines { shown: 4, percent: 100 }]
    );
}

#[test]
fn helper_and_flatpak_are_updated_without_official_updates() {
    for updates in [Some(""), None] {
        let mut t = Term::new();
        let w = World {
            updates,
            failing: &[],
            installed: &["paru", "flatpak"],
            sudo_user: Some("zero"),
        };
        assert_eq!(
            run(&w, &mut t),
            vec![
                "stream 10 $ pacman -Sy",
                "capture $ checkupdates ",
                "which paru",
                "user",
                "stream 85 $ sudo -u zero paru -Su --noconfirm",
                "which flatpak",
                "stream 95 $ flatpak update --noninteractive",
            ]
        );
        assert_eq!(lines(&t)[3], "success|System is already up to date!");
        assert_eq!(lines(&t).last().unwrap(), "success|Flatpak applications updated.");
    }
}

#[test]
fn a_whole_update() {
    let mut t = Term::new();
    let w = World {
        updates: Some("a 1 -> 2\nb 3 -> 4"),
        failing: &[],
        installed: &["paru", "flatpak"],
        sudo_user: Some("zero"),
    };
    assert_eq!(
        run(&w, &mut t),
        vec![
            "stream 10 $ pacman -Sy",
            "capture $ checkupdates ",
            "stream 65 $ pacman -Su --noconfirm",
            "which paru",
            "user",
            "stream 85 $ sudo -u zero paru -Su --noconfirm",
            "which flatpak",
            "stream 95 $ flatpak update --noninteractive",
        ]
    );
    assert_eq!(
        lines(&t)[2..].to_vec(),
        vec![
            "success|Databases synced.",
            "info|2 package(s) to upgrade:",
            "output|  a 1 -> 2",
            "output|  b 3 -> 4",
            "info|Upgrading system packages...",
            "success|System packages upgraded.",
            "info|Updating AUR packages with paru...",
            "success|AUR updated via paru.",
            "info|Updating Flatpak applications...",
            "success|Flatpak applications updated.",
        ]
    );
}

#[test]
fn failures_do_not_stop_an_update() {
    let mut t = Term::new();
    let w = World {
        updates: Some("a 1 -> 2"),
        failing: &[
            "$ pacman -Su --noconfirm",
            "$ sudo -u zero trizen -Su --noconfirm",
            "$ flatpak update --noninteractive",
        ],
        installed: &["trizen", "flatpak"],
        sudo_user: Some("zero"),
    };
    let log = run(&w, &mut t);
    assert_eq!(log.len(), 11);
    assert_eq!(
        lines(&t)[5..].to_vec(),
        vec![
            "info|Upgrading system packages...",
            "error|Upgrade error: bad pacman",
            "info|Updating AUR packages with trizen...",
            "error|bad sudo",
            "info|Updating Flatpak applications...",
            "error|bad flatpak",
        ]
    );
}

#[test]
fn a_helper_is_skipped_without_a_user() {
    for sudo_user in [None, Some("root"), Some("a b"), Some("")] {
        let mut t = Term::new();
        let w = World { updates: Some("a 1 -> 2"), failing: &[], installed: &["yay"], sudo_user };
        let log = run(&w, &mut t);
        assert!(log.iter().all(|l| !l.contains("sudo") && !l.contains("yay -Su")));
        assert_eq!(
            lines(&t).last().unwrap(),
            "error|Cannot determine non-root user for AUR update; skipping."
        );
    }
}

#[test]
fn no_more_than_thirty_updates_are_listed() {
    for (n, rest) in [(30, None), (31, Some("output|  … and 1 more")), (45, Some("output|  … and 15 more"))] {
        let updates: Vec<String> = (0..n).map(|i| format!("p{}", i)).collect();
        let mut t = Term::new();
        let w = World {
            updates: Some(&updates.join("\n")),
            failing: &[],
            installed: &[],
            sudo_user: None,
        };
        run(&w, &mut t);
        let got = lines(&t);
        assert_eq!(got[3], format!("info|{} package(s) to upgrade:", n));
        assert_eq!(got[33], "output|  p29");
        match rest {
            Some(more) => assert_eq!(got[34], more),
            None => assert_eq!(got[34], "info|Upgrading system packages..."),
        }
    }
}

#[test]
fn a_reply_out_of_turn_changes_nothing_in_an_update() {
    let mut t = Term::new();
    let u = system_update(&mut t);
    match u.resume(Reply::Done, &mut t) {
        UpdateStep::Continue(next) => {
            assert!(matches!(next.request(), Request::Stream { percent: 10, .. }))
        }
        UpdateStep::Done(_) => panic!("ended early"),
    }
    assert_eq!(lines(&t).len(), 2);
}
