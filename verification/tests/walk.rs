use zerolinux_cleaner::terminal::Term;
use zerolinux_cleaner::walk::{
    clean_pycache, clean_thumbnails, walk_and_remove_named, Walk, WalkEvent, WalkPhase, WalkStep,
};

/// A directory with its entries, or `None` in their place for one that cannot be read.
enum Node {
    File(&'static str),
    Dir(&'static str, Option<Vec<Node>>),
}

fn find<'a>(nodes: &'a [Node], base: &str, path: &str) -> Option<&'a Option<Vec<Node>>> {
    for n in nodes {
        if let Node::Dir(name, inside) = n {
            let here = format!("{}/{}", base, name);
            if here == path {
                return Some(inside);
            }
            if let Some(list) = inside {
                if let Some(found) = find(list, &here, path) {
                    return Some(found);
                }
            }
        }
    }
    None
}

fn run(start: Walk, root: &str, tree: &[Node], term: &mut Term) -> (Vec<String>, Vec<String>) {
    let mut opened = Vec::new();
    let mut removed = Vec::new();
    let mut stack: Vec<(String, Vec<&Node>)> = Vec::new();
    let mut w = start;
    loop {
        let event = match w.phase() {
            WalkPhase::Open(path) => {
                opened.push(path.clone());
                let list: Option<Vec<&Node>> = if path == root {
                    Some(tree.iter().collect())
                } else {
                    find(tree, root, path).unwrap().as_ref().map(|l| l.iter().collect())
                };
                match list {
                    Some(mut l) => {
                        l.reverse();
                        stack.push((path.clone(), l));
                        WalkEvent::Opened
                    }
                    None => WalkEvent::Unreadable,
                }
            }
            WalkPhase::Read => {
                let (base, left) = stack.last_mut().unwrap();
                match left.pop() {
                    Some(Node::File(name)) => WalkEvent::Entry {
                        path: format!("{}/{}", base, name),
                        name: Some(name.to_string()),
                        is_dir: false,
                    },
                    Some(Node::Dir(name, _)) => WalkEvent::Entry {
                        path: format!("{}/{}", base, name),
                        name: Some(name.to_string()),
                        is_dir: true,
                    },
                    None => {
                        stack.pop();
                        WalkEvent::EndOfDir
                    }
                }
            }
            WalkPhase::Remove(path) => {
                removed.push(path.clone());
                WalkEvent::Removed
            }
        };
        match w.step(event, term) {
            WalkStep::Continue(next) => w = next,
            WalkStep::Done => return (opened, removed),
        }
    }
}

fn sample() -> Vec<Node> {
    vec![
        Node::Dir("t", Some(vec![])),
        Node::Dir(
            "a",
            Some(vec![
                Node::File("t"),
                Node::Dir("t", Some(vec![Node::Dir("t", Some(vec![]))])),
                Node::Dir("b", Some(vec![Node::Dir("t", Some(vec![])), Node::Dir("c", Some(vec![]))])),
            ]),
        ),
        Node::Dir("locked", None),
        Node::Dir("z", Some(vec![Node::Dir("t", None)])),
    ]
}

#[test]
fn every_directory_of_the_name_goes() {
    let mut t = Term::new();
    let w = walk_and_remove_named("/home", "t", 8);
    let (opened, removed) = run(w, "/home", &sample(), &mut t);
    assert_eq!(removed, vec!["/home/t", "/home/a/t", "/home/a/b/t", "/home/z/t"]);
    assert_eq!(
        opened,
        vec!["/home", "/home/a", "/home/a/b", "/home/a/b/c", "/home/locked", "/home/z"]
    );
    assert!(t.snapshot().is_empty());
}

#[test]
fn the_depth_is_limited() {
    let mut t = Term::new();
    let (opened, removed) = run(walk_and_remove_named("/home", "t", 0), "/home", &sample(), &mut t);
    assert_eq!(opened, vec!["/home"]);
    assert_eq!(removed, vec!["/home/t"]);
    let (_, removed) = run(walk_and_remove_named("/home", "t", 1), "/home", &sample(), &mut t);
    assert_eq!(removed, vec!["/home/t", "/home/a/t", "/home/z/t"]);
}

#[test]
fn nothing_goes_elsewhere() {
    let mut t = Term::new();
    let (_, removed) = run(walk_and_remove_named("/srv", "t", 0), "/srv", &sample(), &mut t);
    assert!(removed.is_empty());
    let log = t.snapshot();
    assert_eq!(log.len(), 1);
    assert_eq!(log[0].text, "Skipped unsafe path: /srv/t");
    assert_eq!(log[0].level, "error");
}

#[test]
fn a_root_that_cannot_be_read_ends_the_walk() {
    let mut t = Term::new();
    assert!(matches!(clean_pycache().step(WalkEvent::Unreadable, &mut t), WalkStep::Done));
}

#[test]
fn bytecode_caches_are_looked_for_nine_levels_deep() {
    let mut inner: Vec<Node> = vec![Node::Dir("__pycache__", Some(vec![]))];
    for level in 0..10u32 {
        let name = if level % 2 == 0 { "x" } else { "y" };
        inner = vec![Node::Dir("__pycache__", Some(vec![])), Node::Dir(name, Some(inner))];
    }
    let mut t = Term::new();
    let (_, removed) = run(clean_pycache(), "/home", &inner, &mut t);
    assert_eq!(removed.len(), 9);
    assert_eq!(removed[0], "/home/__pycache__");
}

#[test]
fn only_thumbnails_inside_a_cache_go() {
    let dir = |name: &'static str, inside: Vec<Node>| Node::Dir(name, Some(inside));
    let tree = vec![dir(
        "u",
        vec![
            dir(".cache", vec![dir("thumbnails", vec![]), dir("x", vec![dir("thumbnails", vec![])])]),
            dir(".thumbnails", vec![dir("thumbnails", vec![])]),
            dir("site", vec![dir("thumbnails", vec![])]),
            dir("thumbnails", vec![dir(".cache", vec![dir("thumbnails", vec![])])]),
        ],
    )];
    let mut t = Term::new();
    let (opened, removed) = run(clean_thumbnails(), "/home", &tree, &mut t);
    assert_eq!(
        removed,
        vec![
            "/home/u/.cache/thumbnails",
            "/home/u/.cache/x/thumbnails",
            "/home/u/.thumbnails/thumbnails",
            "/home/u/thumbnails/.cache/thumbnails",
        ]
    );
    assert!(opened.contains(&"/home/u/site/thumbnails".to_string()));
}

#[test]
fn thumbnails_are_looked_for_seven_levels_deep() {
    let mut deep: Vec<Node> = vec![];
    for _ in 0..9u32 {
        deep = vec![Node::Dir("thumbnails", Some(vec![])), Node::Dir("d", Some(deep))];
    }
    let tree = vec![Node::Dir(".cache", Some(deep))];
    let mut t = Term::new();
    let (_, removed) = run(clean_thumbnails(), "/home", &tree, &mut t);
    assert_eq!(removed.len(), 6);
    assert_eq!(removed[0], "/home/.cache/thumbnails");
}

#[test]
fn an_entry_without_a_name_is_walked_into() {
    let mut t = Term::new();
    let w = walk_and_remove_named("/home", "t", 3);
    let w = match w.step(WalkEvent::Opened, &mut t) {
        WalkStep::Continue(w) => w,
        WalkStep::Done => panic!("ended early"),
    };
    let entry = WalkEvent::Entry { path: "/home/\u{fffd}".to_string(), name: None, is_dir: true };
    match w.step(entry, &mut t) {
        WalkStep::Continue(w) => {
            assert!(matches!(w.phase(), WalkPhase::Open(p) if p == "/home/\u{fffd}"))
        }
        WalkStep::Done => panic!("ended early"),
    }
}
