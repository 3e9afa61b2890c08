use zerolinux_cleaner::disk_analyzer::{
    analyze_disk, analyzed_roots, cache_dir_size, dir_size, largest, largest_dirs, rank, DirEntry,
    FileTree, Listed,
};

fn entry(path: &str, size: u64) -> DirEntry {
    DirEntry { path: path.to_string(), size, human: String::new() }
}

fn paths(entries: &[DirEntry]) -> Vec<&str> {
    entries.iter().map(|e| e.path.as_str()).collect()
}

fn dir(path: &str, size: u64) -> Listed {
    Listed { path: path.to_string(), is_dir: true, entries: vec![FileTree::File(size)] }
}

#[test]
fn sizes_add_up_over_all_levels() {
    let tree = vec![
        FileTree::File(10),
        FileTree::Other,
        FileTree::Dir(vec![FileTree::File(5), FileTree::Dir(vec![FileTree::File(7)])]),
        FileTree::Dir(vec![]),
    ];
    assert_eq!(dir_size(&tree), Some(22));
    assert_eq!(cache_dir_size(&tree), Some(10));
    assert_eq!(dir_size(&vec![]), Some(0));
    assert_eq!(cache_dir_size(&vec![]), Some(0));
}

#[test]
fn sizes_beyond_the_limit_are_not_given() {
    let full = vec![FileTree::File(u64::MAX), FileTree::File(0)];
    assert_eq!(dir_size(&full), Some(u64::MAX));
    assert_eq!(cache_dir_size(&full), Some(u64::MAX));
    let over = vec![FileTree::File(u64::MAX), FileTree::File(1)];
    assert_eq!(dir_size(&over), None);
    assert_eq!(cache_dir_size(&over), None);
    let nested = vec![FileTree::File(u64::MAX), FileTree::Dir(vec![FileTree::File(1)])];
    assert_eq!(dir_size(&nested), None);
    assert_eq!(cache_dir_size(&nested), Some(u64::MAX));
}

#[test]
fn the_largest_comes_first_and_equals_keep_their_order() {
    let all = vec![entry("a", 1), entry("b", 9), entry("c", 1), entry("d", 9), entry("e", 4)];
    assert_eq!(paths(&rank(all.clone())), vec!["b", "d", "e", "a", "c"]);
    assert_eq!(paths(&largest(all.clone(), 3)), vec!["b", "d", "e"]);
    assert!(largest(all.clone(), 0).is_empty());
    assert_eq!(largest(all, 99).len(), 5);
    assert!(rank(vec![]).is_empty());
}

#[test]
fn ranking_agrees_with_a_stable_sort() {
    let mut x: u64 = 12345;
    let mut all = Vec::new();
    for i in 0..300u32 {
        x = x.wrapping_mul(6364136223846793005).wrapping_add(1442695040888963407);
        all.push(entry(&i.to_string(), (x >> 33) % 40));
    }
    let mut sorted = all.clone();
    sorted.sort_by(|a, b| b.size.cmp(&a.size));
    assert_eq!(paths(&rank(all)), paths(&sorted));
}

#[test]
fn only_directories_are_listed() {
    let listing = Some(vec![
        dir("/r/a", 2048),
        Listed { path: "/r/f".to_string(), is_dir: false, entries: vec![] },
        dir("/r/b", 5000),
        dir("/r/c", 1),
    ]);
    let found = largest_dirs(&listing, 2).unwrap();
    assert_eq!(paths(&found), vec!["/r/b", "/r/a"]);
    assert_eq!(found[0].size, 5000);
    assert_eq!(found[0].human, "4.9 KB");
    assert_eq!(found[1].human, "2.0 KB");
    assert!(largest_dirs(&None, 5).unwrap().is_empty());
}

#[test]
fn a_listing_that_cannot_be_measured() {
    let over = Listed {
        path: "/r/x".to_string(),
        is_dir: true,
        entries: vec![FileTree::File(u64::MAX), FileTree::File(1)],
    };
    let listing = Some(vec![dir("/r/a", 1), over]);
    assert!(largest_dirs(&listing, 5).is_none());
    assert!(analyze_disk(&vec![None, listing]).is_none());
}

#[test]
fn four_places_are_analyzed() {
    assert_eq!(analyzed_roots(), vec!["/var", "/home", "/usr", "/opt"]);
}

#[test]
fn the_analysis_takes_five_of_each_place_and_shows_ten() {
    let many = |root: &str, base: u64| -> Option<Vec<Listed>> {
        Some((0..7).map(|i| dir(&format!("{}/{}", root, i), base + i)).collect())
    };
    let roots = vec![many("/var", 100), None, many("/usr", 200), many("/opt", 103)];
    let found = analyze_disk(&roots).unwrap();
    assert_eq!(
        paths(&found),
        vec![
            "/usr/6", "/usr/5", "/usr/4", "/usr/3", "/usr/2", "/opt/6", "/opt/5", "/opt/4",
            "/var/6", "/opt/3",
        ]
    );
    assert!(analyze_disk(&vec![]).unwrap().is_empty());
}
