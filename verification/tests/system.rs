use zerolinux_cleaner::aur::AurHelper;
use zerolinux_cleaner::command::Captured;
use zerolinux_cleaner::system::{
    collect_stats, count_lines, date_of, detect_firewall, read_last_update, root_disk, run_cmd,
    DiskReading, Firewall, FirewallProbe, PackageQuery, Readings, Share,
    SystemStats,
};

fn printed(success: bool, stdout: &str) -> Option<Captured> {
    Some(Captured { success, stdout: stdout.as_bytes().to_vec() })
}

fn log(lines: &[&str]) -> Option<Vec<String>> {
    Some(lines.iter().map(|l| l.to_string()).collect())
}

fn readings() -> Readings {
    Readings {
        cpu_usage: "12.5%".to_string(),
        mem_total: 8 * 1_073_741_824,
        mem_used: 2 * 1_073_741_824,
        disks: vec![
            DiskReading { is_root: false, total: 7, available: 7 },
            DiskReading { is_root: true, total: 4096, available: 1024 },
            DiskReading { is_root: true, total: 9, available: 9 },
        ],
        uptime: 90_061,
        kernel: Some("6.1.0".to_string()),
        packages: printed(true, "a 1\nb 2\nc 3\n"),
        orphans: printed(true, "x\n"),
        cache_size: 1536,
        updates: printed(true, "a 1 -> 2\nb 2 -> 3\n"),
        aur_helper: Some(AurHelper::Yay),
        firewall: Firewall::Ufw,
        pacman_log: log(&["[2024-05-01T10:23:45+0000] [ALPM] upgraded foo (1.0 -> 2.0)"]),
    }
}

#[test]
fn statistics_of_a_full_reading() {
    let s = collect_stats(readings());
    assert_eq!(s.disk_used, "3.0 KB");
    assert_eq!(s.disk_free, "1.0 KB");
    assert_eq!(s.disk_total, "4.0 KB");
    assert_eq!(s.disk_percent, Share { used: 3072, total: 4096 });
    assert_eq!(s.mem_used, "2.0 GB");
    assert_eq!(s.mem_total, "8.0 GB");
    assert_eq!(s.mem_percent, Share { used: 2 * 1_073_741_824, total: 8 * 1_073_741_824 });
    assert_eq!(s.cpu_usage, "12.5%");
    assert_eq!(s.uptime, "1d 1h 1m");
    assert_eq!(s.kernel, "6.1.0");
    assert_eq!(s.packages, "3");
    assert_eq!(s.orphans, "1");
    assert_eq!(s.cache_size, "1.5 KB");
    assert_eq!(s.updates_available, "2");
    assert_eq!(s.aur_helper, "yay");
    assert_eq!(s.firewall_status, "UFW Active");
    assert_eq!(s.last_update, "2024-05-01");
}

#[test]
fn statistics_of_an_empty_reading() {
    let s = collect_stats(Readings {
        cpu_usage: "0.0%".to_string(),
        mem_total: 0,
        mem_used: 5,
        disks: vec![],
        uptime: 0,
        kernel: None,
        packages: None,
        orphans: printed(false, "x\n"),
        cache_size: 0,
        updates: printed(true, " \n"),
        aur_helper: None,
        firewall: Firewall::NotConfigured,
        pacman_log: None,
    });
    assert_eq!((s.disk_used.as_str(), s.disk_free.as_str(), s.disk_total.as_str()), ("0 B", "0 B", "0 B"));
    assert_eq!(s.disk_percent, Share { used: 0, total: 1 });
    assert_eq!(s.mem_percent, Share { used: 0, total: 1 });
    assert_eq!(s.mem_used, "5 B");
    assert_eq!(s.uptime, "0h 0m");
    assert_eq!(s.kernel, "unknown");
    assert_eq!(s.packages, "?");
    assert_eq!(s.orphans, "0");
    assert_eq!(s.updates_available, "0");
    assert_eq!(s.aur_helper, "none");
    assert_eq!(s.firewall_status, "Not configured");
    assert_eq!(s.last_update, "unknown");
}

#[test]
fn a_disk_with_more_free_than_total_is_empty() {
    let mut r = readings();
    r.disks = vec![DiskReading { is_root: true, total: 10, available: 20 }];
    let s = collect_stats(r);
    assert_eq!(s.disk_used, "0 B");
    assert_eq!(s.disk_percent, Share { used: 0, total: 10 });
}

#[test]
fn the_first_disk_at_the_root_counts() {
    assert_eq!(root_disk(&readings().disks), (4096, 1024));
    assert_eq!(root_disk(&vec![DiskReading { is_root: false, total: 1, available: 1 }]), (0, 0));
}

#[test]
fn shares_never_have_an_empty_whole() {
    assert_eq!(Share::of(3, 4), Share { used: 3, total: 4 });
    assert_eq!(Share::of(3, 0), Share { used: 0, total: 1 });
}

#[test]
fn output_counts_only_after_success() {
    assert_eq!(run_cmd(&printed(true, " a \n")), "a");
    assert_eq!(run_cmd(&printed(false, "a")), "");
    assert_eq!(run_cmd(&None), "");
    let raw = Some(Captured { success: true, stdout: vec![b'a', 0xff, b'\n'] });
    assert_eq!(run_cmd(&raw), "a\u{fffd}");
}

#[test]
fn lines_are_counted() {
    assert_eq!(count_lines("", "?"), "?");
    assert_eq!(count_lines("a", "?"), "1");
    assert_eq!(count_lines("a\nb\n", "?"), "2");
    assert_eq!(count_lines("a\n\nb", "?"), "3");
}

#[test]
fn package_queries_name_their_commands() {
    assert_eq!(PackageQuery::Installed.command().announcement(), "$ pacman -Q");
    assert_eq!(PackageQuery::Orphaned.command().announcement(), "$ pacman -Qtdq");
    let outdated = PackageQuery::Outdated.command();
    assert_eq!(outdated.bin, "checkupdates");
    assert!(outdated.args.is_empty());
}

#[test]
fn firewalls_are_asked_in_order() {
    let ask = FirewallProbe::AskUfw;
    assert_eq!(ask.command().unwrap().announcement(), "$ ufw status");
    assert_eq!(
        detect_firewall(ask, &printed(false, "Status: active\nTo")),
        FirewallProbe::Known(Firewall::Ufw)
    );
    for out in [None, printed(true, "Status: inactive"), printed(true, "status: active")] {
        assert_eq!(detect_firewall(ask, &out), FirewallProbe::AskFirewalld);
    }
    let ask = FirewallProbe::AskFirewalld;
    assert_eq!(ask.command().unwrap().announcement(), "$ firewall-cmd --state");
    assert_eq!(
        detect_firewall(ask, &printed(true, " running\n")),
        FirewallProbe::Known(Firewall::Firewalld)
    );
    for out in [None, printed(false, "running"), printed(true, "not running")] {
        assert_eq!(detect_firewall(ask, &out), FirewallProbe::Known(Firewall::NotConfigured));
    }
    let known = FirewallProbe::Known(Firewall::Ufw);
    assert!(known.command().is_none());
    assert_eq!(detect_firewall(known, &None), known);
}

#[test]
fn firewalls_have_their_words() {
    assert_eq!(Firewall::Ufw.text(), "UFW Active");
    assert_eq!(Firewall::Firewalld.text(), "firewalld Active");
    assert_eq!(Firewall::NotConfigured.text(), "Not configured");
}

#[test]
fn the_date_is_cut_out_between_whole_characters() {
    for line in [
        "[2024-05-01T10:23",
        "[2024-05-01",
        "[2024-05-0",
        "",
        "é2024-05-01T",
        "[2024-05-é1T",
        "[2024-05-0é1",
        "[2024-0é-01T",
        "0123456789a",
    ] {
        assert_eq!(date_of(line), line.get(1..11).map(String::from), "{:?}", line);
    }
}

#[test]
fn the_last_update_counts() {
    let upgraded = "[2024-05-01T10:23:45+0000] [ALPM] upgraded foo (1.0 -> 2.0)";
    let installed = "[2024-06-02T10:23:45+0000] [ALPM] installed bar (1.0)";
    let removed = "[2024-07-03T10:23:45+0000] [ALPM] removed bar (1.0)";
    let other = "[2024-08-04T10:23:45+0000] [PACMAN] upgraded nothing";
    let garbled = "é[ALPM] upgraded";
    let later = "[2024-09-05T10:23:45+0000] [ALPM] upgraded baz (2.0 -> 3.0)";
    assert_eq!(read_last_update(&log(&[upgraded, installed, removed, other])), "2024-05-01");
    assert_eq!(read_last_update(&log(&[upgraded, later, installed])), "2024-09-05");
    assert_eq!(read_last_update(&log(&[installed])), "unknown");
    assert_eq!(read_last_update(&log(&[upgraded, garbled])), "2024-05-01");
    assert_eq!(read_last_update(&log(&[removed, other])), "unknown");
    assert_eq!(read_last_update(&log(&[])), "unknown");
    assert_eq!(read_last_update(&None), "unknown");
}

#[test]
fn default_statistics_are_empty() {
    let s = SystemStats::default();
    assert!(s.disk_used.is_empty() && s.kernel.is_empty() && s.last_update.is_empty());
    assert_eq!(s.disk_percent, Share { used: 0, total: 1 });
    assert_eq!(s.mem_percent, Share { used: 0, total: 1 });
    assert_eq!(s.clone().packages, "");
}
