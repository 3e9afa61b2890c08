use zerolinux_cleaner::units::{fmt_bytes, fmt_uptime};

const GB: u64 = 1_073_741_824;
const MB: u64 = 1_048_576;
const KB: u64 = 1_024;

fn with_floats(b: u64) -> String {
    if b >= GB {
        format!("{:.1} GB", b as f64 / GB as f64)
    } else if b >= MB {
        format!("{:.1} MB", b as f64 / MB as f64)
    } else if b >= KB {
        format!("{:.1} KB", b as f64 / KB as f64)
    } else {
        format!("{} B", b)
    }
}

#[test]
fn sizes_have_exact_texts() {
    assert_eq!(fmt_bytes(0), "0 B");
    assert_eq!(fmt_bytes(1023), "1023 B");
    assert_eq!(fmt_bytes(1024), "1.0 KB");
    assert_eq!(fmt_bytes(1536), "1.5 KB");
    assert_eq!(fmt_bytes(MB - 1), "1024.0 KB");
    assert_eq!(fmt_bytes(MB), "1.0 MB");
    assert_eq!(fmt_bytes(5 * MB + MB / 2), "5.5 MB");
    assert_eq!(fmt_bytes(GB - 1), "1024.0 MB");
    assert_eq!(fmt_bytes(GB), "1.0 GB");
    assert_eq!(fmt_bytes(u64::MAX), "17179869184.0 GB");
}

#[test]
fn ties_go_to_the_even_tenth() {
    assert_eq!(fmt_bytes(GB + GB / 4), "1.2 GB");
    assert_eq!(fmt_bytes(GB + 3 * (GB / 4)), "1.8 GB");
    assert_eq!(fmt_bytes(KB + 256), "1.2 KB");
    assert_eq!(fmt_bytes(KB + 768), "1.8 KB");
}

#[test]
fn sizes_agree_with_floating_point() {
    for b in 0..200_000u64 {
        assert_eq!(fmt_bytes(b), with_floats(b), "{}", b);
    }
    let mut x: u64 = 0x9e37_79b9_7f4a_7c15;
    for i in 0..400_000u32 {
        x ^= x << 13;
        x ^= x >> 7;
        x ^= x << 17;
        let b = x >> (i % 64);
        assert_eq!(fmt_bytes(b), with_floats(b), "{}", b);
    }
}

#[test]
fn sizes_agree_with_floating_point_near_ties_and_beyond_exact_doubles() {
    for unit in [KB, MB, GB] {
        for quarter in 4..2_000u64 {
            let tie = unit / 4 * quarter;
            for b in [tie - 1, tie, tie + 1] {
                assert_eq!(fmt_bytes(b), with_floats(b), "{}", b);
            }
        }
    }
    for shift in 50..64u32 {
        let base = 1u64 << shift;
        for off in 0..5_000u64 {
            for b in [base - 1 - off, base + off, base + off * (GB / 4) + 1] {
                assert_eq!(fmt_bytes(b), with_floats(b), "{}", b);
            }
        }
    }
    assert_eq!(fmt_bytes(u64::MAX - 1023), with_floats(u64::MAX - 1023));
    assert_eq!(fmt_bytes(u64::MAX - 1024), with_floats(u64::MAX - 1024));
}

#[test]
fn larger_sizes_are_shown_as_larger() {
    let shown: Vec<String> = vec![KB, 2 * KB, 300 * KB].into_iter().map(fmt_bytes).collect();
    assert_eq!(shown, vec!["1.0 KB", "2.0 KB", "300.0 KB"]);
}

#[test]
fn uptimes_have_exact_texts() {
    assert_eq!(fmt_uptime(0), "0h 0m");
    assert_eq!(fmt_uptime(59), "0h 0m");
    assert_eq!(fmt_uptime(60), "0h 1m");
    assert_eq!(fmt_uptime(3_600), "1h 0m");
    assert_eq!(fmt_uptime(86_399), "23h 59m");
    assert_eq!(fmt_uptime(86_400), "1d 0h 0m");
    assert_eq!(fmt_uptime(90_061), "1d 1h 1m");
    assert_eq!(fmt_uptime(u64::MAX), "213503982334601d 7h 0m");
}

#[test]
fn uptime_accounts_for_the_minutes() {
    for secs in [0u64, 61, 86_399, 86_400, 1_000_000] {
        let words = fmt_uptime(secs);
        let mut minutes: u64 = 0;
        for w in words.split(' ') {
            let (n, unit) = w.split_at(w.len() - 1);
            let n: u64 = n.parse().unwrap();
            minutes += match unit {
                "d" => n * 1440,
                "h" => n * 60,
                _ => n,
            };
        }
        assert_eq!(minutes, secs / 60);
    }
}
