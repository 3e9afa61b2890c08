use zerolinux_cleaner::sweep::{
    clean_browser_caches, clear_tmp, join_path, profiles_rel, safe_remove_dir, tmp_path,
    BrowserEvent, BrowserSweep, CacheDir, TmpEvent, TmpSweep,
};
use zerolinux_cleaner::terminal::Term;

#[test]
fn only_paths_below_known_directories_are_removed() {
    let mut t = Term::new();
    for path in ["/tmp/x", "/var/tmp/x", "/home/u/.cache", "/root/x", "/var/cache/x", "/tmp/"] {
        assert!(safe_remove_dir(path, &mut t));
    }
    assert!(t.snapshot().is_empty());
    for path in ["/tmp", "/etc/x", "/homes/x", "home/x", "/var/lib/x", "", "/"] {
        assert!(!safe_remove_dir(path, &mut t));
        let last = t.snapshot().pop().unwrap();
        assert_eq!(last.level, "error");
        assert_eq!(last.text, format!("Skipped unsafe path: {}", path));
    }
}

#[test]
fn temporary_files_are_removed_entry_by_entry() {
    assert_eq!(tmp_path(), "/tmp");
    let read = |name: &[u8], is_dir: bool| TmpEvent::Entry { name: name.to_vec(), is_dir };
    let mut s = clear_tmp();
    let steps = vec![
        (TmpSweep::Open, TmpEvent::Opened),
        (TmpSweep::Read, read(b"dir", true)),
        (TmpSweep::RemoveTree { path: b"/tmp/dir".to_vec() }, TmpEvent::Removed),
        (TmpSweep::Read, read(b"odd\xff", false)),
        (TmpSweep::RemoveFile { path: b"/tmp/odd\xff".to_vec() }, TmpEvent::Removed),
        (TmpSweep::Read, TmpEvent::EndOfDir),
    ];
    for (expected, event) in steps {
        assert_eq!(s, expected);
        s = s.step(event);
    }
    assert_eq!(s, TmpSweep::Finished);
}

#[test]
fn an_unreadable_directory_for_temporary_files_ends_the_sweep() {
    assert_eq!(clear_tmp().step(TmpEvent::Unreadable), TmpSweep::Finished);
    assert_eq!(clear_tmp().step(TmpEvent::EndOfDir), TmpSweep::Open);
}

#[test]
fn every_removed_path_was_read_in_the_directory_for_temporary_files() {
    let names: [&[u8]; 3] = [b"a", b".b", b"c d"];
    let mut removed = Vec::new();
    let mut s = clear_tmp().step(TmpEvent::Opened);
    for name in names {
        s = s.step(TmpEvent::Removed);
        s = s.step(TmpEvent::Entry { name: name.to_vec(), is_dir: name.len() == 1 });
        s = s.step(TmpEvent::Entry { name: b"out of turn".to_vec(), is_dir: true });
        match &s {
            TmpSweep::RemoveTree { path } => removed.push((path.clone(), true)),
            TmpSweep::RemoveFile { path } => removed.push((path.clone(), false)),
            _ => panic!("nothing to remove"),
        }
        s = s.step(TmpEvent::Removed);
    }
    assert_eq!(
        removed,
        vec![
            (b"/tmp/a".to_vec(), true),
            (b"/tmp/.b".to_vec(), false),
            (b"/tmp/c d".to_vec(), false),
        ]
    );
}

#[test]
fn paths_are_joined_by_one_slash() {
    assert_eq!(join_path("/home/u", ".cache/chromium"), "/home/u/.cache/chromium");
    assert_eq!(join_path("/home/u/", "x"), "/home/u/x");
    assert_eq!(join_path("", "x"), "x");
}

/// Homes with their profiles; `None` for profiles that cannot be read.
type Homes<'a> = [(&'a str, Option<Vec<&'a str>>)];

fn browsers(homes: &Homes, present: &[&str], term: &mut Term) -> Vec<String> {
    let mut removed = Vec::new();
    let mut left = homes.iter();
    let mut profiles: Vec<String> = Vec::new();
    let mut s = clean_browser_caches();
    loop {
        let path = s.path();
        let event = match &s {
            BrowserSweep::OpenHomes => BrowserEvent::Opened,
            BrowserSweep::Read => match left.next() {
                Some((h, _)) => BrowserEvent::Home(h.to_string()),
                None => BrowserEvent::EndOfDir,
            },
            BrowserSweep::OpenProfiles { home } => {
                assert_eq!(path, Some(format!("{}/.mozilla/firefox", home)));
                match &homes.iter().find(|(h, _)| h == home).unwrap().1 {
                    Some(names) => {
                        profiles = names.iter().rev().map(|n| n.to_string()).collect();
                        BrowserEvent::Opened
                    }
                    None => BrowserEvent::Unreadable,
                }
            }
            BrowserSweep::ReadProfile { .. } => match profiles.pop() {
                Some(name) => BrowserEvent::Profile(name),
                None => BrowserEvent::EndOfDir,
            },
            BrowserSweep::Check { .. } => {
                BrowserEvent::Exists(present.contains(&path.unwrap().as_str()))
            }
            BrowserSweep::Remove { .. } => {
                removed.push(path.unwrap());
                BrowserEvent::Removed
            }
            BrowserSweep::Finished => return removed,
        };
        s = s.step(event, term);
    }
}

#[test]
fn browser_caches_are_removed_home_by_home() {
    let mut t = Term::new();
    let present = [
        "/home/a/.cache/mozilla/firefox",
        "/home/a/.mozilla/firefox/p.default/Cache2",
        "/home/a/.mozilla/firefox/q.work/Cache2",
        "/home/a/.cache/google-chrome",
        "/home/b/.cache/chromium",
        "/home/c/.cache/other",
    ];
    let homes = [
        ("/home/a", Some(vec!["p.default", "profiles.ini", "q.work"])),
        ("/home/b", None),
        ("/home/c", Some(vec![])),
    ];
    let removed = browsers(&homes, &present, &mut t);
    assert_eq!(removed, present[..5].to_vec());
    assert!(t.snapshot().is_empty());
}

#[test]
fn profiles_stay() {
    let mut t = Term::new();
    let present = [
        "/home/u/.mozilla/firefox",
        "/home/u/.mozilla/firefox/p.default",
        "/home/u/.mozilla/firefox/p.default/logins.json",
    ];
    let removed = browsers(&[("/home/u", Some(vec!["p.default"]))], &present, &mut t);
    assert!(removed.is_empty());
}

#[test]
fn browser_caches_elsewhere_are_refused() {
    let mut t = Term::new();
    let removed = browsers(&[("/mnt/a", None)], &["/mnt/a/.cache/chromium"], &mut t);
    assert!(removed.is_empty());
    let log = t.snapshot();
    assert_eq!(log.len(), 1);
    assert_eq!(log[0].text, "Skipped unsafe path: /mnt/a/.cache/chromium");
}

#[test]
fn unreadable_homes_end_the_sweep() {
    let mut t = Term::new();
    let s = clean_browser_caches().step(BrowserEvent::Unreadable, &mut t);
    assert!(matches!(s, BrowserSweep::Finished));
    assert_eq!(s.path(), None);
}

#[test]
fn cache_directories_have_their_paths() {
    assert_eq!(CacheDir::FirefoxCache.rel(), ".cache/mozilla/firefox");
    assert_eq!(CacheDir::Profile("p".to_string()).rel(), ".mozilla/firefox/p/Cache2");
    assert_eq!(CacheDir::Chromium.rel(), ".cache/chromium");
    assert_eq!(CacheDir::Chrome.rel(), ".cache/google-chrome");
    assert_eq!(profiles_rel(), ".mozilla/firefox");
}
