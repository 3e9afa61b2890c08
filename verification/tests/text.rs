use zerolinux_cleaner::text;

fn owned(words: &[&str]) -> Vec<String> {
    words.iter().map(|w| w.to_string()).collect()
}

const SAMPLES: [&str; 14] = [
    "",
    "\n",
    "a",
    "a\n",
    "a\nb",
    "a\r\nb\r\n",
    "a\r",
    "\n\n a \n\t\n b\t \n",
    "one\rtwo\nthree",
    "\u{a0}x\u{3000}\nπ\u{2003}\n",
    "  leading",
    "trailing  \n  ",
    "\r\n\r\n",
    "ends with return\r\n\r",
];

#[test]
fn trim_agrees_with_std() {
    for s in SAMPLES {
        assert_eq!(text::trim(s), s.trim());
    }
}

#[test]
fn trim_knows_all_white_space() {
    for code in 0..=0x10ffffu32 {
        if let Some(c) = char::from_u32(code) {
            let padded: String = vec![c, 'x', c].into_iter().collect();
            if c.is_whitespace() {
                assert_eq!(text::trim(&padded), "x");
            } else {
                assert_eq!(text::trim(&padded), padded);
            }
        }
    }
}

#[test]
fn trimming_twice_changes_nothing_more() {
    for s in SAMPLES {
        let once = text::trim(s);
        assert_eq!(text::trim(&once), once);
    }
}

#[test]
fn white_space_is_what_is_stated() {
    let beyond_ascii = [0x85, 0xa0, 0x1680, 0x2028, 0x2029, 0x202f, 0x205f, 0x3000];
    for code in 0..=0x10ffffu32 {
        if let Some(c) = char::from_u32(code) {
            let stated = c == ' '
                || ('\t'..='\r').contains(&c)
                || (0x2000..=0x200a).contains(&code)
                || beyond_ascii.contains(&code);
            let padded: String = vec!['x', c].into_iter().collect();
            assert_eq!(text::trim(&padded) == "x", stated, "{:?}", c);
        }
    }
}

#[test]
fn lines_agree_with_std() {
    for s in SAMPLES {
        let expected: Vec<String> = s.lines().map(String::from).collect();
        assert_eq!(text::lines(s), expected, "{:?}", s);
    }
}

#[test]
fn nonblank_lines_are_trimmed_and_filtered() {
    for s in SAMPLES {
        let expected: Vec<String> =
            s.lines().map(str::trim).filter(|l| !l.is_empty()).map(String::from).collect();
        assert_eq!(text::nonblank_lines(s), expected, "{:?}", s);
    }
    assert_eq!(text::nonblank_lines(" a \n\n b"), owned(&["a", "b"]));
}

#[test]
fn contains_and_starts_with_agree_with_std() {
    let needles = ["", "a", "\n", "two", "π", "x\u{3000}", "leading", "nowhere"];
    for s in SAMPLES {
        for n in needles {
            assert_eq!(text::contains(s, n), s.contains(n), "{:?} {:?}", s, n);
            assert_eq!(text::starts_with(s, n), s.starts_with(n), "{:?} {:?}", s, n);
        }
    }
}

#[test]
fn same_text_compares_every_character() {
    assert!(text::same_text("", ""));
    assert!(text::same_text("πa", "πa"));
    assert!(!text::same_text("a", "ab"));
    assert!(!text::same_text("ab", "a"));
    assert!(!text::same_text("ab", "ac"));
}

#[test]
fn decimal_text_agrees_with_std_and_reads_back() {
    for n in [0u64, 1, 9, 10, 11, 99, 100, 12_345, 4_294_967_295, 4_294_967_296, u64::MAX] {
        let s = text::decimal_text(n);
        assert_eq!(s, n.to_string());
        assert_eq!(s.parse::<u64>(), Ok(n));
    }
}

#[test]
fn join_agrees_with_std() {
    for words in [vec![], vec!["a"], vec!["a", "b"], vec!["-Rns", "--", "x", "y"], vec!["", ""]] {
        assert_eq!(text::join(&owned(&words), " "), words.join(" "));
    }
}

#[test]
fn concatenation_keeps_the_order() {
    assert_eq!(text::concat2("a", "b"), "ab");
    assert_eq!(text::concat3("a", "", "c"), "ac");
    assert_eq!(text::chars_of("aπ"), vec!['a', 'π']);
}
