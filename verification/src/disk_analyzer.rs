//! Disk usage: how large directories are, and which are the largest.
use crate::units;
use vstd::prelude::*;

verus! {

/// What a directory holds, as far as its size depends on it.
pub enum FileTree {
    /// A file of so many bytes.
    File(u64),
    /// A directory with these entries; none if it cannot be read.
    Dir(Vec<FileTree>),
    /// Anything else, such as a symbolic link.
    Other,
}

/// The bytes of all files at and below an entry.
pub open spec fn tree_size(t: FileTree) -> nat
    decreases t,
{
    match t {
        FileTree::File(len) => len as nat,
        FileTree::Dir(entries) => listing_size(entries@),
        FileTree::Other => 0,
    }
}

/// The bytes of all files at and below the entries of a directory.
pub open spec fn listing_size(entries: Seq<FileTree>) -> nat
    decreases entries,
{
    if entries.len() == 0 {
        0
    } else {
        listing_size(entries.drop_last()) + tree_size(entries.last())
    }
}

/// The bytes of the files among the entries of a directory, without what is further below.
pub open spec fn files_size(entries: Seq<FileTree>) -> nat
    decreases entries.len(),
{
    if entries.len() == 0 {
        0
    } else {
        files_size(entries.drop_last()) + match entries.last() {
            FileTree::File(len) => len as nat,
            _ => 0,
        }
    }
}

/// A number of bytes, if it fits into 64 bits.
pub open spec fn fitting(n: nat) -> Option<u64> {
    if n <= u64::MAX {
        Some(n as u64)
    } else {
        None
    }
}

proof fn lemma_part_fits(entries: Seq<FileTree>, i: int)
    requires
        0 <= i <= entries.len(),
    ensures
        listing_size(entries.take(i)) <= listing_size(entries),
        files_size(entries.take(i)) <= files_size(entries),
    decreases entries.len(),
{
    if i == entries.len() {
        assert(entries.take(i) == entries);
    } else {
        lemma_part_fits(entries.drop_last(), i);
        assert(entries.drop_last().take(i) == entries.take(i));
    }
}

/// The size of a directory with the given entries: the bytes of all files at and below them, or
/// `None` if the sum does not fit into 64 bits.
pub fn dir_size(entries: &Vec<FileTree>) -> (r: Option<u64>)
    ensures
        r == fitting(listing_size(entries@)),
    decreases entries,
{
    let mut total: u64 = 0;
    let mut i: usize = 0;
    assert(entries@.take(0) == Seq::<FileTree>::empty());
    while i < entries.len()
        invariant
            i <= entries.len(),
            total == listing_size(entries@.take(i as int)),
        decreases entries.len() - i,
    {
        proof {
            assert(entries@.take(i + 1).drop_last() == entries@.take(i as int));
            assert(entries@.take(i + 1).last() == entries@[i as int]);
            lemma_part_fits(entries@, i + 1);
        }
        let size: Option<u64> = match &entries[i] {
            FileTree::File(len) => Some(*len),
            FileTree::Dir(inner) => dir_size(inner),
            FileTree::Other => Some(0),
        };
        proof {
            reveal_with_fuel(tree_size, 2);
            assert(size == fitting(tree_size(entries@[i as int])));
            assert(listing_size(entries@.take(i + 1)) == total + tree_size(entries@[i as int]));
        }
        match size {
            Some(n) => match total.checked_add(n) {
                Some(sum) => {
                    total = sum;
                },
                None => {
                    return None;
                },
            },
            None => {
                return None;
            },
        }
        i += 1;
    }
    assert(entries@.take(i as int) == entries@);
    Some(total)
}

/// The size of the files that lie directly in a directory with the given entries, or `None` if
/// the sum does not fit into 64 bits.
pub fn cache_dir_size(entries: &Vec<FileTree>) -> (r: Option<u64>)
    ensures
        r == fitting(files_size(entries@)),
{
    let mut total: u64 = 0;
    let mut i: usize = 0;
    assert(entries@.take(0) == Seq::<FileTree>::empty());
    while i < entries.len()
        invariant
            i <= entries.len(),
            total == files_size(entries@.take(i as int)),
        decreases entries.len() - i,
    {
        proof {
            assert(entries@.take(i + 1).drop_last() == entries@.take(i as int));
            assert(entries@.take(i + 1).last() == entries@[i as int]);
            lemma_part_fits(entries@, i + 1);
        }
        if let FileTree::File(len) = &entries[i] {
            match total.checked_add(*len) {
                Some(sum) => {
                    total = sum;
                },
                None => {
                    return None;
                },
            }
        }
        i += 1;
    }
    assert(entries@.take(i as int) == entries@);
    Some(total)
}

/// A directory and its size.
#[derive(Clone, Debug)]
pub struct DirEntry {
    pub path: String,
    pub size: u64,
    /// The size as it is shown.
    pub human: String,
}

/// A directory and its size, as a mathematical value.
pub struct DirEntryView {
    pub path: Seq<char>,
    pub size: nat,
    pub human: Seq<char>,
}

impl View for DirEntry {
    type V = DirEntryView;

    open spec fn view(&self) -> DirEntryView {
        DirEntryView { path: self.path@, size: self.size as nat, human: self.human@ }
    }
}

/// `entries` as mathematical values.
pub open spec fn entries_view(entries: Seq<DirEntry>) -> Seq<DirEntryView> {
    entries.map_values(|e: DirEntry| e@)
}

/// Of two entries, given by their places, the larger one comes first; of two that are equally
/// large, the one that came first already.
pub open spec fn comes_before(s: Seq<DirEntryView>, i: int, j: int) -> bool {
    s[i].size > s[j].size || (s[i].size == s[j].size && i < j)
}

/// `order` lists the places from `from` on of all entries of `s`, the largest entry first.
pub open spec fn is_ranking(order: Seq<int>, s: Seq<DirEntryView>, from: int) -> bool {
    &&& order.len() == s.len() - from
    &&& forall|a: int| 0 <= a < order.len() ==> from <= #[trigger] order[a] < s.len()
    &&& forall|i: int| from <= i < s.len() ==> order.contains(i)
    &&& forall|a: int, b: int|
        0 <= a < b < order.len() ==> comes_before(s, #[trigger] order[a], #[trigger] order[b])
}

/// The entries of `s` at the places that `order` lists.
pub open spec fn arranged(order: Seq<int>, s: Seq<DirEntryView>) -> Seq<DirEntryView> {
    order.map_values(|i: int| s[i])
}

/// `s` in descending order of size, where equally large entries keep their order.
pub open spec fn ranked(s: Seq<DirEntryView>) -> Seq<DirEntryView> {
    arranged(choose|order: Seq<int>| is_ranking(order, s, 0), s)
}

/// There is only one way to rank entries.
pub proof fn ranking_is_unique(p: Seq<int>, q: Seq<int>, s: Seq<DirEntryView>)
    requires
        is_ranking(p, s, 0),
        is_ranking(q, s, 0),
    ensures
        p == q,
{
    lemma_rankings_agree(p, q, s, p.len() as int);
    assert(p == q);
}

proof fn lemma_rankings_agree(p: Seq<int>, q: Seq<int>, s: Seq<DirEntryView>, n: int)
    requires
        is_ranking(p, s, 0),
        is_ranking(q, s, 0),
        0 <= n <= p.len(),
    ensures
        forall|a: int| 0 <= a < n ==> p[a] == q[a],
    decreases n,
{
    if n > 0 {
        lemma_rankings_agree(p, q, s, n - 1);
        let k = n - 1;
        if p[k] != q[k] {
            assert(q.contains(p[k]));
            assert(p.contains(q[k]));
            let i = choose|i: int| 0 <= i < q.len() && q[i] == p[k];
            let j = choose|j: int| 0 <= j < p.len() && p[j] == q[k];
            if i < k {
                assert(comes_before(s, p[i], p[k]));
            } else {
                assert(comes_before(s, q[k], q[i]));
                if j < k {
                    assert(comes_before(s, q[j], q[k]));
                } else {
                    assert(comes_before(s, p[k], p[j]));
                }
            }
            assert(false);
        }
    }
}

/// A ranking of the entries behind place `k` becomes one that holds the entry at `k` too, if that
/// is put behind all larger ones.
proof fn lemma_ranking_grows(order: Seq<int>, s: Seq<DirEntryView>, k: int, at: int)
    requires
        0 <= k < s.len(),
        is_ranking(order, s, k + 1),
        0 <= at <= order.len(),
        forall|a: int| 0 <= a < at ==> s[#[trigger] order[a]].size > s[k].size,
        at < order.len() ==> s[order[at]].size <= s[k].size,
    ensures
        is_ranking(order.insert(at, k), s, k),
{
    let longer = order.insert(at, k);
    assert forall|a: int, b: int| 0 <= a < b < longer.len() implies comes_before(
        s,
        #[trigger] longer[a],
        #[trigger] longer[b],
    ) by {
        if a == at {
            assert(longer[b] == order[b - 1]);
            if b - 1 > at {
                assert(comes_before(s, order[at], order[b - 1]));
            }
        } else if b == at {
            assert(longer[a] == order[a]);
        } else if a > at {
            assert(comes_before(s, order[a - 1], order[b - 1]));
        } else if b > at {
            assert(comes_before(s, order[a], order[b - 1]));
        } else {
            assert(comes_before(s, order[a], order[b]));
        }
    }
    assert forall|i: int| k <= i < s.len() implies longer.contains(i) by {
        if i == k {
            assert(longer[at] == k);
        } else {
            assert(order.contains(i));
            let a = choose|a: int| 0 <= a < order.len() && order[a] == i;
            if a < at {
                assert(longer[a] == i);
            } else {
                assert(longer[a + 1] == i);
            }
        }
    }
    assert forall|a: int| 0 <= a < longer.len() implies k <= #[trigger] longer[a] < s.len() by {
        if a < at {
            assert(longer[a] == order[a]);
        } else if a > at {
            assert(longer[a] == order[a - 1]);
        }
    }
}

/// Where the entry at `k` belongs in a ranking of the entries behind it, as far as the first `n`
/// places are concerned.
proof fn lemma_place_exists(order: Seq<int>, s: Seq<DirEntryView>, k: int, n: int) -> (at: int)
    requires
        0 <= k < s.len(),
        is_ranking(order, s, k + 1),
        0 <= n <= order.len(),
        forall|a: int| 0 <= a < n ==> s[#[trigger] order[a]].size > s[k].size,
    ensures
        0 <= at <= order.len(),
        forall|a: int| 0 <= a < at ==> s[#[trigger] order[a]].size > s[k].size,
        at < order.len() ==> s[order[at]].size <= s[k].size,
    decreases order.len() - n,
{
    if n < order.len() && s[order[n]].size > s[k].size {
        lemma_place_exists(order, s, k, n + 1)
    } else {
        n
    }
}

proof fn lemma_ranking_exists(s: Seq<DirEntryView>, from: int) -> (order: Seq<int>)
    requires
        0 <= from <= s.len(),
    ensures
        is_ranking(order, s, from),
    decreases s.len() - from,
{
    if from == s.len() {
        Seq::empty()
    } else {
        let order = lemma_ranking_exists(s, from + 1);
        let at = lemma_place_exists(order, s, from, 0);
        lemma_ranking_grows(order, s, from, at);
        order.insert(at, from)
    }
}

/// Ranking any entries puts the larger ones first, keeps the order of equally large ones, and
/// neither loses nor doubles one: it reads the entries off in an order of their places that names
/// each place once.
pub proof fn ranking_sorts(s: Seq<DirEntryView>) -> (order: Seq<int>)
    ensures
        is_ranking(order, s, 0),
        ranked(s) == arranged(order, s),
        ranked(s).len() == s.len(),
        forall|a: int, b: int| 0 <= a < b < s.len() ==> ranked(s)[a].size >= ranked(s)[b].size,
{
    let order = lemma_ranking_exists(s, 0);
    ranking_is_unique(order, choose|order: Seq<int>| is_ranking(order, s, 0), s);
    assert forall|a: int, b: int| 0 <= a < b < s.len() implies ranked(s)[a].size
        >= ranked(s)[b].size by {
        assert(comes_before(s, order[a], order[b]));
    }
    order
}

/// What is cut off a ranking is never larger than what is kept.
pub proof fn the_largest_are_kept(s: Seq<DirEntryView>, limit: nat, kept: int, dropped: int)
    requires
        0 <= kept < limit <= dropped < s.len(),
    ensures
        cut(ranked(s), limit).len() == limit,
        cut(ranked(s), limit)[kept].size >= ranked(s)[dropped].size,
{
    let _ = ranking_sorts(s);
}

/// The entries in descending order of size. Equally large entries keep their order.
pub fn rank(entries: Vec<DirEntry>) -> (r: Vec<DirEntry>)
    ensures
        entries_view(r@) == ranked(entries_view(entries@)),
{
    let ghost all = entries_view(entries@);
    let mut left = entries;
    let mut r: Vec<DirEntry> = Vec::new();
    let ghost mut order: Seq<int> = Seq::empty();
    assert(entries_view(r@) == arranged(order, all));
    assert(entries_view(left@) == all.take(left.len() as int));
    loop
        invariant
            left.len() <= all.len(),
            entries_view(left@) == all.take(left.len() as int),
            is_ranking(order, all, left.len() as int),
            entries_view(r@) == arranged(order, all),
            r.len() == order.len(),
        ensures
            is_ranking(order, all, 0),
            entries_view(r@) == arranged(order, all),
        decreases left.len(),
    {
        let ghost k = left.len() - 1;
        let ghost before = left@;
        match left.pop() {
            None => {
                break;
            },
            Some(e) => {
                proof {
                    assert(entries_view(before)[k] == all[k]);
                    assert(entries_view(left@) == all.take(k));
                }
                let mut at: usize = 0;
                while at < r.len() && r[at].size > e.size
                    invariant
                        at <= r.len(),
                        forall|a: int| 0 <= a < at ==> #[trigger] r@[a].size > e.size,
                    decreases r.len() - at,
                {
                    at += 1;
                }
                proof {
                    assert forall|a: int| 0 <= a < order.len() implies all[#[trigger] order[a]].size
                        == r@[a].size by {
                        assert(entries_view(r@)[a] == arranged(order, all)[a]);
                    }
                    lemma_ranking_grows(order, all, k, at as int);
                    assert(entries_view(r@.insert(at as int, e)) == entries_view(r@).insert(
                        at as int,
                        e@,
                    ));
                    assert(arranged(order.insert(at as int, k), all) == arranged(
                        order,
                        all,
                    ).insert(at as int, all[k]));
                    order = order.insert(at as int, k);
                }
                r.insert(at, e);
            },
        }
    }
    proof {
        ranking_is_unique(order, choose|o: Seq<int>| is_ranking(o, all, 0), all);
    }
    r
}

/// The first `limit` elements, or all if there are fewer.
pub open spec fn cut<A>(s: Seq<A>, limit: nat) -> Seq<A> {
    if limit < s.len() {
        s.take(limit as int)
    } else {
        s
    }
}

/// The `limit` largest entries, the largest first.
pub fn largest(entries: Vec<DirEntry>, limit: usize) -> (r: Vec<DirEntry>)
    ensures
        entries_view(r@) == cut(ranked(entries_view(entries@)), limit as nat),
{
    let mut r = rank(entries);
    let ghost all = entries_view(r@);
    r.truncate(limit);
    assert(entries_view(r@) == cut(all, limit as nat));
    r
}

/// An entry of a directory that is being analyzed.
pub struct Listed {
    pub path: String,
    pub is_dir: bool,
    /// What it holds, if it is a directory that can be read.
    pub entries: Vec<FileTree>,
}

/// A directory with its size, as it is shown.
pub open spec fn measured(l: Listed) -> DirEntryView {
    let size = listing_size(l.entries@);
    DirEntryView { path: l.path@, size, human: units::human_size(size) }
}

/// The directories among the entries, with their sizes.
pub open spec fn all_measured(listing: Seq<Listed>) -> Seq<DirEntryView>
    decreases listing.len(),
{
    if listing.len() == 0 {
        Seq::empty()
    } else if listing.last().is_dir {
        all_measured(listing.drop_last()).push(measured(listing.last()))
    } else {
        all_measured(listing.drop_last())
    }
}

/// The sizes of all directories among the entries fit into 64 bits.
pub open spec fn measurable(listing: Seq<Listed>) -> bool {
    forall|i: int|
        0 <= i < listing.len() && (#[trigger] listing[i]).is_dir ==> listing_size(
            listing[i].entries@,
        ) <= u64::MAX
}

/// The largest directories directly inside a directory with the given entries.
pub open spec fn largest_of(listing: Option<Seq<Listed>>, limit: nat) -> Seq<DirEntryView> {
    match listing {
        Some(entries) => cut(ranked(all_measured(entries)), limit),
        None => Seq::empty(),
    }
}

/// The entries of a directory, if it can be read.
pub open spec fn listing_of(listing: Option<Vec<Listed>>) -> Option<Seq<Listed>> {
    match listing {
        Some(entries) => Some(entries@),
        None => None,
    }
}

/// The `limit` largest directories directly inside a directory with the given entries, the
/// largest first; none if it cannot be read. The result is `None` if a size does not fit into
/// 64 bits.
pub fn largest_dirs(listing: &Option<Vec<Listed>>, limit: usize) -> (r: Option<Vec<DirEntry>>)
    ensures
        r is None <==> (listing_of(*listing) matches Some(entries) && !measurable(entries)),
        r matches Some(dirs) ==> entries_view(dirs@) == largest_of(
            listing_of(*listing),
            limit as nat,
        ),
{
    let mut found: Vec<DirEntry> = Vec::new();
    let entries = match listing {
        Some(entries) => entries,
        None => {
            assert(entries_view(found@) == Seq::<DirEntryView>::empty());
            return Some(found);
        },
    };
    assert(entries_view(found@) == all_measured(entries@.take(0)));
    for i in 0..entries.len()
        invariant
            listing_of(*listing) == Some(entries@),
            entries_view(found@) == all_measured(entries@.take(i as int)),
            measurable(entries@.take(i as int)),
    {
        proof {
            assert(entries@.take(i + 1).drop_last() == entries@.take(i as int));
            assert(entries@.take(i + 1).last() == entries@[i as int]);
        }
        let l = &entries[i];
        if l.is_dir {
            match dir_size(&l.entries) {
                Some(size) => {
                    let ghost before = found@;
                    let e = DirEntry {
                        path: l.path.clone(),
                        size,
                        human: units::fmt_bytes(size),
                    };
                    assert(e@ == measured(entries@[i as int]));
                    found.push(e);
                    assert(entries_view(found@) == entries_view(before).push(e@));
                },
                None => {
                    assert(!measurable(entries@));
                    return None;
                },
            }
        }
        assert forall|k: int|
            0 <= k < i + 1 && (#[trigger] entries@.take(i + 1)[k]).is_dir implies listing_size(
            entries@.take(i + 1)[k].entries@,
        ) <= u64::MAX by {
            if k < i {
                assert(entries@.take(i as int)[k] == entries@[k]);
            }
        }
    }
    assert(entries@.take(entries.len() as int) == entries@);
    Some(largest(found, limit))
}

/// How many directories are taken from each place that is analyzed.
pub const PER_ROOT: usize = 5;

/// How many directories the analysis shows.
pub const SHOWN: usize = 10;

/// The places that are analyzed.
pub fn analyzed_roots() -> (r: Vec<&'static str>)
    ensures
        r@.map_values(|s: &'static str| s@) == seq!["/var"@, "/home"@, "/usr"@, "/opt"@],
{
    let r: Vec<&'static str> = vec!["/var", "/home", "/usr", "/opt"];
    assert(r@.map_values(|s: &'static str| s@) == seq!["/var"@, "/home"@, "/usr"@, "/opt"@]);
    r
}

/// The largest directories of each place, one place after another.
pub open spec fn collected(roots: Seq<Option<Seq<Listed>>>) -> Seq<DirEntryView>
    decreases roots.len(),
{
    if roots.len() == 0 {
        Seq::empty()
    } else {
        collected(roots.drop_last()) + largest_of(roots.last(), PER_ROOT as nat)
    }
}

/// The entries of each place.
pub open spec fn listings_of(roots: Seq<Option<Vec<Listed>>>) -> Seq<Option<Seq<Listed>>> {
    roots.map_values(|l: Option<Vec<Listed>>| listing_of(l))
}

/// The sizes of all directories directly inside a place fit into 64 bits.
pub open spec fn root_measurable(root: Option<Seq<Listed>>) -> bool {
    root matches Some(entries) ==> measurable(entries)
}

/// The largest directories over all places, given the entries of each place in turn: the largest
/// few of each are taken, and the largest of those are shown, the largest first. The result is
/// `None` if a size does not fit into 64 bits.
pub fn analyze_disk(roots: &Vec<Option<Vec<Listed>>>) -> (r: Option<Vec<DirEntry>>)
    ensures
        r is Some <==> forall|i: int|
            0 <= i < roots.len() ==> root_measurable(#[trigger] listings_of(roots@)[i]),
        r matches Some(dirs) ==> entries_view(dirs@) == cut(
            ranked(collected(listings_of(roots@))),
            SHOWN as nat,
        ),
{
    let ghost all = listings_of(roots@);
    let mut found: Vec<DirEntry> = Vec::new();
    assert(entries_view(found@) == collected(all.take(0)));
    for i in 0..roots.len()
        invariant
            all == listings_of(roots@),
            entries_view(found@) == collected(all.take(i as int)),
            forall|k: int| 0 <= k < i ==> root_measurable(#[trigger] all[k]),
    {
        proof {
            assert(all.take(i + 1).drop_last() == all.take(i as int));
            assert(all.take(i + 1).last() == all[i as int]);
            assert(all[i as int] == listing_of(roots@[i as int]));
        }
        match largest_dirs(&roots[i], PER_ROOT) {
            Some(dirs) => {
                let mut more = dirs;
                let ghost before = found@;
                found.append(&mut more);
                assert(entries_view(found@) == entries_view(before) + entries_view(dirs@));
            },
            None => {
                assert(!root_measurable(all[i as int]));
                return None;
            },
        }
    }
    assert(all.take(roots.len() as int) == all);
    Some(largest(found, SHOWN))
}

proof fn lemma_listing_size_adds(a: Seq<FileTree>, b: Seq<FileTree>)
    ensures
        listing_size(a + b) == listing_size(a) + listing_size(b),
        files_size(a + b) == files_size(a) + files_size(b),
    decreases b.len(),
{
    if b.len() == 0 {
        assert(a + b == a);
    } else {
        assert((a + b).drop_last() == a + b.drop_last());
        lemma_listing_size_adds(a, b.drop_last());
    }
}

/// The size of a directory is the sum over its entries, in any division: a file counts with its
/// bytes, a directory with all that is in it, anything else not at all. Where only the files of a
/// directory itself count, the directories in it do not.
pub proof fn sizes_are_sums(
    a: Seq<FileTree>,
    b: Seq<FileTree>,
    len: u64,
    inside: Vec<FileTree>,
)
    ensures
        listing_size(a + b) == listing_size(a) + listing_size(b),
        files_size(a + b) == files_size(a) + files_size(b),
        listing_size(Seq::empty()) == 0,
        files_size(Seq::empty()) == 0,
        listing_size(seq![FileTree::File(len)]) == len,
        files_size(seq![FileTree::File(len)]) == len,
        listing_size(seq![FileTree::Dir(inside)]) == listing_size(inside@),
        files_size(seq![FileTree::Dir(inside)]) == 0,
        listing_size(seq![FileTree::Other]) == 0,
        files_size(seq![FileTree::Other]) == 0,
{
    lemma_listing_size_adds(a, b);
    let none = Seq::<FileTree>::empty();
    lemma_one_entry(FileTree::File(len));
    lemma_one_entry(FileTree::Dir(inside));
    lemma_one_entry(FileTree::Other);
    assert(listing_size(none) == 0);
    assert(files_size(none) == 0);
    assert(tree_size(FileTree::File(len)) == len as nat);
    assert(tree_size(FileTree::Dir(inside)) == listing_size(inside@));
    assert(tree_size(FileTree::Other) == 0);
}

proof fn lemma_one_entry(e: FileTree)
    ensures
        listing_size(seq![e]) == tree_size(e),
        files_size(seq![e]) == match e {
            FileTree::File(len) => len as nat,
            _ => 0,
        },
{
    let none = Seq::<FileTree>::empty();
    assert(seq![e].drop_last() == none);
    assert(seq![e].last() == e);
    reveal_with_fuel(listing_size, 2);
    reveal_with_fuel(files_size, 2);
}

/// A number of bytes is given as it is as long as 64 bits hold it, and else not at all.
pub proof fn sizes_are_given_if_they_fit(n: nat)
    ensures
        n <= 0xffff_ffff_ffff_ffff ==> (fitting(n) matches Some(size) && size == n),
        n > 0xffff_ffff_ffff_ffff ==> fitting(n) is None,
{
}

/// Of two directories in a listing, the first is larger, or equally large and listed earlier.
pub open spec fn larger_or_earlier(listing: Seq<Listed>, i: int, j: int) -> bool {
    let a = listing_size(listing[i].entries@);
    let b = listing_size(listing[j].entries@);
    a > b || (a == b && i < j)
}

proof fn lemma_dir_places(listing: Seq<Listed>) -> (places: Seq<int>)
    ensures
        all_measured(listing) == places.map_values(|j: int| measured(listing[j])),
        forall|a: int|
            0 <= a < places.len() ==> 0 <= #[trigger] places[a] < listing.len()
                && listing[places[a]].is_dir,
        forall|a: int, b: int| 0 <= a < b < places.len() ==> places[a] < places[b],
        forall|j: int|
            0 <= j < listing.len() && (#[trigger] listing[j]).is_dir ==> places.contains(j),
    decreases listing.len(),
{
    if listing.len() == 0 {
        Seq::empty()
    } else {
        let before = lemma_dir_places(listing.drop_last());
        let last = listing.len() - 1;
        let places = if listing.last().is_dir {
            before.push(last)
        } else {
            before
        };
        assert forall|a: int| 0 <= a < places.len() implies 0 <= #[trigger] places[a]
            < listing.len() && listing[places[a]].is_dir by {
            if a < before.len() {
                assert(listing.drop_last()[before[a]] == listing[before[a]]);
            }
        }
        assert forall|j: int|
            0 <= j < listing.len() && (#[trigger] listing[j]).is_dir implies places.contains(j) by {
            if j < last {
                assert(listing.drop_last()[j] == listing[j]);
                let k = choose|k: int| 0 <= k < before.len() && before[k] == j;
                assert(places[k] == j);
            } else {
                assert(places[before.len() as int] == j);
            }
        }
        assert forall|a: int| 0 <= a < before.len() implies #[trigger] measured(
            listing.drop_last()[before[a]],
        ) == measured(listing[before[a]]) by {
            assert(listing.drop_last()[before[a]] == listing[before[a]]);
        }
        assert(all_measured(listing) =~= places.map_values(|j: int| measured(listing[j])));
        places
    }
}

/// The largest directories of a listing: those that are taken are directories of the listing with
/// their own paths and sizes, each once, the larger ones first and equally large ones as they were
/// listed; and a directory is left out only if as many as were asked for come before it.
pub proof fn the_largest_directories_are_taken(listing: Seq<Listed>, limit: nat) -> (taken: Seq<
    int,
>)
    ensures
        largest_of(Some(listing), limit).len() == taken.len(),
        taken.len() <= limit,
        forall|a: int|
            0 <= a < taken.len() ==> {
                let at = #[trigger] taken[a];
                &&& 0 <= at < listing.len()
                &&& listing[at].is_dir
                &&& largest_of(Some(listing), limit)[a].path == listing[at].path@
                &&& largest_of(Some(listing), limit)[a].size == listing_size(listing[at].entries@)
                &&& largest_of(Some(listing), limit)[a].human == units::human_size(
                    listing_size(listing[at].entries@),
                )
            },
        forall|a: int, b: int|
            0 <= a < b < taken.len() ==> larger_or_earlier(
                listing,
                #[trigger] taken[a],
                #[trigger] taken[b],
            ),
        forall|j: int|
            0 <= j < listing.len() && (#[trigger] listing[j]).is_dir && !taken.contains(j)
                ==> taken.len() == limit && forall|a: int|
                0 <= a < taken.len() ==> larger_or_earlier(listing, #[trigger] taken[a], j),
        largest_of(None, limit) == Seq::<DirEntryView>::empty(),
{
    let places = lemma_dir_places(listing);
    let m = all_measured(listing);
    let order = ranking_sorts(m);
    let kept = cut(order, limit);
    let taken = kept.map_values(|k: int| places[k]);
    let r = largest_of(Some(listing), limit);
    assert forall|k: int| 0 <= k < m.len() implies #[trigger] m[k] == measured(
        listing[places[k]],
    ) by {
        assert(m[k] == places.map_values(|j: int| measured(listing[j]))[k]);
    }
    assert forall|a: int| 0 <= a < taken.len() implies ({
        let at = #[trigger] taken[a];
        &&& 0 <= at < listing.len()
        &&& listing[at].is_dir
        &&& r[a] == measured(listing[at])
    }) by {
        assert(kept[a] == order[a]);
        assert(ranked(m)[a] == m[order[a]]);
        assert(taken[a] == places[order[a]]);
    }
    assert forall|a: int, c: int| 0 <= a < c < order.len() implies larger_or_earlier(
        listing,
        places[#[trigger] order[a]],
        places[#[trigger] order[c]],
    ) by {
        assert(comes_before(m, order[a], order[c]));
        assert(m[order[a]] == measured(listing[places[order[a]]]));
        assert(m[order[c]] == measured(listing[places[order[c]]]));
    }
    assert forall|a: int, b: int| 0 <= a < b < taken.len() implies larger_or_earlier(
        listing,
        #[trigger] taken[a],
        #[trigger] taken[b],
    ) by {
        assert(taken[a] == places[order[a]] && taken[b] == places[order[b]]);
    }
    assert forall|j: int|
        0 <= j < listing.len() && (#[trigger] listing[j]).is_dir && !taken.contains(
            j,
        ) implies taken.len() == limit && forall|a: int|
        0 <= a < taken.len() ==> larger_or_earlier(listing, #[trigger] taken[a], j) by {
        let k = choose|k: int| 0 <= k < places.len() && places[k] == j;
        assert(order.contains(k));
        let c = choose|c: int| 0 <= c < order.len() && order[c] == k;
        if c < kept.len() {
            assert(taken[c] == j);
        }
        assert forall|a: int| 0 <= a < taken.len() implies larger_or_earlier(
            listing,
            #[trigger] taken[a],
            j,
        ) by {
            assert(taken[a] == places[order[a]]);
        }
    }
    taken
}

/// There is a directory at a place, given by the number of the place and that of its entry.
pub open spec fn dir_at(roots: Seq<Option<Seq<Listed>>>, at: (int, int)) -> bool {
    0 <= at.0 < roots.len() && (roots[at.0] matches Some(listing) && 0 <= at.1 < listing.len()
        && listing[at.1].is_dir)
}

/// The entry at a place.
pub open spec fn entry_at(roots: Seq<Option<Seq<Listed>>>, at: (int, int)) -> Listed {
    roots[at.0]->0[at.1]
}

/// Of two directories, the first is larger, or equally large and come upon earlier.
pub open spec fn is_ahead(roots: Seq<Option<Seq<Listed>>>, x: (int, int), y: (int, int)) -> bool {
    let a = listing_size(entry_at(roots, x).entries@);
    let b = listing_size(entry_at(roots, y).entries@);
    a > b || (a == b && (x.0 < y.0 || (x.0 == y.0 && x.1 < y.1)))
}

/// Five directories of a listing that are all larger than another one, or equally large and listed
/// earlier.
pub open spec fn five_ahead(listing: Seq<Listed>, five: Seq<int>, j: int) -> bool {
    &&& five.len() == 5
    &&& forall|a: int|
        0 <= a < 5 ==> 0 <= #[trigger] five[a] < listing.len() && listing[five[a]].is_dir
            && larger_or_earlier(listing, five[a], j)
    &&& forall|a: int, b: int| 0 <= a < b < 5 ==> #[trigger] five[a] != #[trigger] five[b]
}

proof fn lemma_origins(roots: Seq<Option<Seq<Listed>>>) -> (o: Seq<(int, int)>)
    ensures
        collected(roots).len() == o.len(),
        forall|a: int|
            0 <= a < o.len() ==> dir_at(roots, #[trigger] o[a]) && collected(roots)[a] == measured(
                entry_at(roots, o[a]),
            ),
        forall|a: int, b: int|
            0 <= a < b < o.len() ==> {
                let x = #[trigger] o[a];
                let y = #[trigger] o[b];
                x.0 < y.0 || (x.0 == y.0 && larger_or_earlier(roots[x.0]->0, x.1, y.1))
            },
        forall|at: (int, int)| #[trigger]
            dir_at(roots, at) && !o.contains(at) ==> exists|five: Seq<int>|
                five_ahead(roots[at.0]->0, five, at.1),
    decreases roots.len(),
{
    if roots.len() == 0 {
        Seq::empty()
    } else {
        let init = roots.drop_last();
        let n = init.len() as int;
        let before = lemma_origins(init);
        let r = largest_of(roots.last(), PER_ROOT as nat);
        let taken = match roots.last() {
            Some(listing) => the_largest_directories_are_taken(listing, PER_ROOT as nat),
            None => Seq::empty(),
        };
        let here = taken.map_values(|d: int| (n, d));
        let o = before + here;
        assert(r.len() == taken.len());
        assert forall|a: int| 0 <= a < o.len() implies dir_at(roots, #[trigger] o[a]) && collected(
            roots,
        )[a] == measured(entry_at(roots, o[a])) by {
            if a < before.len() {
                assert(o[a] == before[a]);
                assert(dir_at(init, before[a]));
                assert(init[o[a].0] == roots[o[a].0]);
            } else {
                let b = a - before.len();
                assert(o[a] == (n, taken[b]));
                assert(collected(roots)[a] == r[b]);
                assert(r[b] == measured(roots.last()->0[taken[b]]));
            }
        }
        assert forall|a: int, b: int| 0 <= a < b < o.len() implies ({
            let x = #[trigger] o[a];
            let y = #[trigger] o[b];
            x.0 < y.0 || (x.0 == y.0 && larger_or_earlier(roots[x.0]->0, x.1, y.1))
        }) by {
            if a < before.len() {
                assert(o[a] == before[a]);
                assert(dir_at(init, before[a]));
                if b < before.len() {
                    assert(o[b] == before[b]);
                    assert(init[o[a].0] == roots[o[a].0]);
                } else {
                    assert(o[b] == (n, taken[b - before.len()]));
                }
            } else {
                let c = a - before.len();
                let e = b - before.len();
                assert(o[a] == (n, taken[c]));
                assert(o[b] == (n, taken[e]));
                assert(larger_or_earlier(roots.last()->0, taken[c], taken[e]));
            }
        }
        assert forall|at: (int, int)| #[trigger]
            dir_at(roots, at) && !o.contains(at) implies exists|five: Seq<int>|
            five_ahead(roots[at.0]->0, five, at.1) by {
            if at.0 < n {
                assert(init[at.0] == roots[at.0]);
                assert(dir_at(init, at));
                if before.contains(at) {
                    let k = choose|k: int| 0 <= k < before.len() && before[k] == at;
                    assert(o[k] == at);
                }
            } else {
                let listing = roots[n]->0;
                if taken.contains(at.1) {
                    let k = choose|k: int| 0 <= k < taken.len() && taken[k] == at.1;
                    assert(o[before.len() + k] == at);
                }
                assert(listing[at.1].is_dir);
                assert forall|a: int, b: int| 0 <= a < b < 5 implies #[trigger] taken[a]
                    != #[trigger] taken[b] by {
                    assert(larger_or_earlier(listing, taken[a], taken[b]));
                }
                assert(five_ahead(listing, taken, at.1));
            }
        }
        o
    }
}

/// The analysis over all places: what is shown are directories of the places with their own paths and
/// sizes, at most ten, each once, the larger ones first and equally large ones as they were come upon.
/// A directory is left out only if ten that come before it are shown, or if five others of its own
/// place come before it.
pub proof fn the_largest_over_all_places_are_shown(roots: Seq<Option<Seq<Listed>>>) -> (shown: Seq<
    (int, int),
>)
    ensures
        ({
            let r = cut(ranked(collected(roots)), SHOWN as nat);
            &&& r.len() == shown.len()
            &&& shown.len() <= 10
            &&& forall|a: int|
                0 <= a < shown.len() ==> {
                    let at = #[trigger] shown[a];
                    &&& dir_at(roots, at)
                    &&& r[a].path == entry_at(roots, at).path@
                    &&& r[a].size == listing_size(entry_at(roots, at).entries@)
                    &&& r[a].human == units::human_size(
                        listing_size(entry_at(roots, at).entries@),
                    )
                }
            &&& forall|a: int, b: int|
                0 <= a < b < shown.len() ==> is_ahead(
                    roots,
                    #[trigger] shown[a],
                    #[trigger] shown[b],
                )
            &&& forall|at: (int, int)| #[trigger]
                dir_at(roots, at) && !shown.contains(at) ==> (shown.len() == 10 && forall|a: int|
                    0 <= a < 10 ==> is_ahead(roots, #[trigger] shown[a], at)) || exists|
                    five: Seq<int>,
                |
                    five_ahead(roots[at.0]->0, five, at.1)
        }),
{
    let o = lemma_origins(roots);
    let c = collected(roots);
    let order = ranking_sorts(c);
    let kept = cut(order, SHOWN as nat);
    let shown = kept.map_values(|k: int| o[k]);
    let r = cut(ranked(c), SHOWN as nat);
    assert forall|a: int| 0 <= a < shown.len() implies dir_at(roots, #[trigger] shown[a]) && r[a]
        == measured(entry_at(roots, shown[a])) by {
        assert(kept[a] == order[a]);
        assert(ranked(c)[a] == c[order[a]]);
        assert(shown[a] == o[order[a]]);
        assert(dir_at(roots, o[order[a]]));
    }
    assert forall|a: int, b: int| 0 <= a < b < order.len() implies is_ahead(
        roots,
        o[#[trigger] order[a]],
        o[#[trigger] order[b]],
    ) by {
        let x = o[order[a]];
        let y = o[order[b]];
        assert(comes_before(c, order[a], order[b]));
        assert(dir_at(roots, x) && c[order[a]] == measured(entry_at(roots, x)));
        assert(dir_at(roots, y) && c[order[b]] == measured(entry_at(roots, y)));
        if c[order[a]].size == c[order[b]].size {
            assert(x.0 < y.0 || (x.0 == y.0 && larger_or_earlier(roots[x.0]->0, x.1, y.1)));
        }
    }
    assert forall|a: int, b: int| 0 <= a < b < shown.len() implies is_ahead(
        roots,
        #[trigger] shown[a],
        #[trigger] shown[b],
    ) by {
        assert(shown[a] == o[order[a]] && shown[b] == o[order[b]]);
    }
    assert forall|at: (int, int)| #[trigger] dir_at(roots, at) && !shown.contains(at) implies (
    shown.len() == 10 && forall|a: int| 0 <= a < 10 ==> is_ahead(roots, #[trigger] shown[a], at))
        || exists|five: Seq<int>| five_ahead(roots[at.0]->0, five, at.1) by {
        if o.contains(at) {
            let k = choose|k: int| 0 <= k < o.len() && o[k] == at;
            assert(order.contains(k));
            let e = choose|e: int| 0 <= e < order.len() && order[e] == k;
            if e < kept.len() {
                assert(shown[e] == at);
            }
            assert forall|a: int| 0 <= a < 10 implies is_ahead(roots, #[trigger] shown[a], at) by {
                assert(shown[a] == o[order[a]]);
                assert(o[order[e]] == at);
            }
        }
    }
    shown
}

/// A directory that is larger than all others over all places always comes first.
pub proof fn the_largest_directory_comes_first(roots: Seq<Option<Seq<Listed>>>, at: (int, int))
    requires
        dir_at(roots, at),
        forall|other: (int, int)| #[trigger]
            dir_at(roots, other) && other != at ==> listing_size(entry_at(roots, other).entries@)
                < listing_size(entry_at(roots, at).entries@),
    ensures
        ({
            let r = cut(ranked(collected(roots)), SHOWN as nat);
            &&& r.len() > 0
            &&& r[0].path == entry_at(roots, at).path@
            &&& r[0].size == listing_size(entry_at(roots, at).entries@)
        }),
{
    let shown = the_largest_over_all_places_are_shown(roots);
    if shown.contains(at) {
        let k = choose|k: int| 0 <= k < shown.len() && shown[k] == at;
        if k > 0 {
            assert(is_ahead(roots, shown[0], shown[k]));
            assert(dir_at(roots, shown[0]));
            assert(false);
        }
    } else {
        if shown.len() == 10 && forall|a: int|
            0 <= a < 10 ==> is_ahead(roots, #[trigger] shown[a], at) {
            assert(is_ahead(roots, shown[0], at));
            assert(dir_at(roots, shown[0]));
            assert(shown[0] == at);
            assert(false);
        } else {
            let five = choose|five: Seq<int>| five_ahead(roots[at.0]->0, five, at.1);
            assert(larger_or_earlier(roots[at.0]->0, five[0], at.1));
            let other = (at.0, five[0]);
            assert(dir_at(roots, other));
            assert(entry_at(roots, other) == roots[at.0]->0[five[0]]);
            assert(false);
        }
    }
}

/// Directories and listings are seen as they are, all of them, and only a directory whose size goes
/// beyond 64 bits makes a listing one that cannot be measured.
pub proof fn listings_are_seen_as_they_are(
    e: DirEntry,
    entries: Vec<Listed>,
    roots: Seq<Option<Vec<Listed>>>,
)
    ensures
        e@ == (DirEntryView { path: e.path@, size: e.size as nat, human: e.human@ }),
        listing_of(Some(entries)) == Some(entries@),
        listing_of(None) is None,
        listings_of(roots).len() == roots.len(),
        forall|i: int|
            0 <= i < roots.len() ==> #[trigger] listings_of(roots)[i] == match roots[i] {
                Some(listing) => Some(listing@),
                None => None,
            },
        measurable(entries@) <==> forall|i: int|
            0 <= i < entries@.len() && (#[trigger] entries@[i]).is_dir ==> listing_size(
                entries@[i].entries@,
            ) <= 0xffff_ffff_ffff_ffff,
        root_measurable(Some(entries@)) <==> measurable(entries@),
        root_measurable(None),
{
}

} // verus!
