//! The statistics of the dashboard, made out of what was read from the system.
use crate::aur::AurHelper;
use crate::command::{Captured, CapturedView, Invocation, InvocationView};
use crate::text;
use crate::units;
use vstd::prelude::*;
use vstd::string::*;
use vstd::utf8::*;

verus! {

/// A part of a whole. The whole is never nothing.
#[derive(Clone, Copy, Debug, PartialEq, Eq, Structural)]
pub struct Share {
    pub used: u64,
    pub total: u64,
}

impl Share {
    /// The share of `used` in `total`; nothing, if the total is not known.
    pub open spec fn spec_of(used: u64, total: u64) -> Share {
        if total > 0 {
            Share { used, total }
        } else {
            Share { used: 0, total: 1 }
        }
    }

    /// The share of `used` in `total`; nothing, if the total is not known.
    pub fn of(used: u64, total: u64) -> (r: Share)
        ensures
            r == Share::spec_of(used, total),
            r.total > 0,
    {
        if total > 0 {
            Share { used, total }
        } else {
            Share { used: 0, total: 1 }
        }
    }
}

/// A disk as the system reports it.
pub struct DiskReading {
    /// Whether it is mounted at `/`.
    pub is_root: bool,
    pub total: u64,
    pub available: u64,
}

/// Total and available space of the first disk that is mounted at `/`; nothing if there is none.
pub open spec fn root_space(disks: Seq<DiskReading>) -> (u64, u64)
    decreases disks.len(),
{
    if disks.len() == 0 {
        (0, 0)
    } else if disks.first().is_root {
        (disks.first().total, disks.first().available)
    } else {
        root_space(disks.drop_first())
    }
}

/// Total and available space of the first disk that is mounted at `/`.
pub fn root_disk(disks: &Vec<DiskReading>) -> (r: (u64, u64))
    ensures
        r == root_space(disks@),
{
    let mut i: usize = 0;
    assert(disks@.skip(0) == disks@);
    while i < disks.len()
        invariant
            i <= disks.len(),
            root_space(disks@) == root_space(disks@.skip(i as int)),
        decreases disks.len() - i,
    {
        assert(disks@.skip(i as int).first() == disks@[i as int]);
        assert(disks@.skip(i as int).drop_first() == disks@.skip(i + 1));
        if disks[i].is_root {
            return (disks[i].total, disks[i].available);
        }
        i += 1;
    }
    (0, 0)
}

/// What a command printed, trimmed; nothing if it failed or could not be run.
pub open spec fn output_text(out: Option<CapturedView>) -> Seq<char> {
    match out {
        Some(c) => if c.success {
            text::trimmed(text::lossy_text(c.stdout))
        } else {
            Seq::empty()
        },
        None => Seq::empty(),
    }
}

/// What a command printed, trimmed; nothing if it failed or could not be run.
pub fn run_cmd(out: &Option<Captured>) -> (r: String)
    ensures
        r@ == output_text(crate::command::capture(*out)),
{
    match out {
        Some(c) => {
            if c.success {
                text::trim(text::from_utf8_lossy(c.stdout.as_slice()).as_str())
            } else {
                String::new()
            }
        },
        None => String::new(),
    }
}

/// A question to the package manager whose answer is counted.
#[derive(Clone, Copy, Debug, PartialEq, Eq, Structural)]
pub enum PackageQuery {
    /// All installed packages.
    Installed,
    /// The packages that nothing needs any more.
    Orphaned,
    /// The packages for which there is an update.
    Outdated,
}

impl PackageQuery {
    pub open spec fn spec_command(self) -> InvocationView {
        match self {
            PackageQuery::Installed => InvocationView::of("pacman"@).arg("-Q"@),
            PackageQuery::Orphaned => InvocationView::of("pacman"@).arg("-Qtdq"@),
            PackageQuery::Outdated => InvocationView::of("checkupdates"@),
        }
    }

    /// The command that answers the question.
    pub fn command(self) -> (r: Invocation)
        ensures
            r@ == self.spec_command(),
    {
        match self {
            PackageQuery::Installed => Invocation::new("pacman").arg("-Q"),
            PackageQuery::Orphaned => Invocation::new("pacman").arg("-Qtdq"),
            PackageQuery::Outdated => Invocation::new("checkupdates"),
        }
    }
}

/// How many lines a text has, in decimal notation; `none` stands for a text without any.
pub open spec fn line_count(s: Seq<char>, none: Seq<char>) -> Seq<char> {
    if s.len() == 0 {
        none
    } else {
        text::decimal(text::lines_of(s).len())
    }
}

/// How many lines a text has, in decimal notation; `none` stands for a text without any.
pub fn count_lines(s: &str, none: &str) -> (r: String)
    ensures
        r@ == line_count(s@, none@),
        s@.len() > 0 ==> text::decimal_value(r@) == text::lines_of(s@).len(),
{
    proof {
        counts_read_back(s@, none@);
    }
    if s.is_empty() {
        none.to_owned()
    } else {
        let all = text::lines(s);
        assert(all.deep_view().len() == all.len());
        text::decimal_text(all.len() as u64)
    }
}

/// The search for an active firewall.
#[derive(Clone, Copy, Debug, PartialEq, Eq, Structural)]
pub enum FirewallProbe {
    /// Ask UFW for its status.
    AskUfw,
    /// Ask firewalld for its state.
    AskFirewalld,
    Known(Firewall),
}

impl FirewallProbe {
    pub open spec fn spec_command(self) -> Option<InvocationView> {
        match self {
            FirewallProbe::AskUfw => Some(InvocationView::of("ufw"@).arg("status"@)),
            FirewallProbe::AskFirewalld => Some(
                InvocationView::of("firewall-cmd"@).arg("--state"@),
            ),
            FirewallProbe::Known(_) => None,
        }
    }

    /// The command whose output is needed next, if any.
    pub fn command(self) -> (r: Option<Invocation>)
        ensures
            (match r {
                Some(c) => Some(c@),
                None => None,
            }) == self.spec_command(),
    {
        match self {
            FirewallProbe::AskUfw => Some(Invocation::new("ufw").arg("status")),
            FirewallProbe::AskFirewalld => Some(Invocation::new("firewall-cmd").arg("--state")),
            FirewallProbe::Known(_) => None,
        }
    }
}

/// The firewall that is active.
#[derive(Clone, Copy, Debug, PartialEq, Eq, Structural)]
pub enum Firewall {
    Ufw,
    Firewalld,
    NotConfigured,
}

impl Firewall {
    pub open spec fn spec_text(self) -> Seq<char> {
        match self {
            Firewall::Ufw => "UFW Active"@,
            Firewall::Firewalld => "firewalld Active"@,
            Firewall::NotConfigured => "Not configured"@,
        }
    }

    /// The words in which the dashboard shows it.
    pub fn text(self) -> (r: &'static str)
        ensures
            r@ == self.spec_text(),
    {
        match self {
            Firewall::Ufw => "UFW Active",
            Firewall::Firewalld => "firewalld Active",
            Firewall::NotConfigured => "Not configured",
        }
    }
}

/// `ufw status` says that the firewall is active, whatever its exit status.
pub open spec fn ufw_active(out: Option<CapturedView>) -> bool {
    out matches Some(c) && text::occurs(text::lossy_text(c.stdout), "Status: active"@)
}

/// `firewall-cmd --state` succeeds and says nothing but that the firewall is running.
pub open spec fn firewalld_active(out: Option<CapturedView>) -> bool {
    out matches Some(c) && c.success && text::trimmed(text::lossy_text(c.stdout)) == "running"@
}

/// What the output of the command that was asked for leads to.
pub open spec fn firewall_next(probe: FirewallProbe, out: Option<CapturedView>) -> FirewallProbe {
    match probe {
        FirewallProbe::AskUfw => if ufw_active(out) {
            FirewallProbe::Known(Firewall::Ufw)
        } else {
            FirewallProbe::AskFirewalld
        },
        FirewallProbe::AskFirewalld => FirewallProbe::Known(
            if firewalld_active(out) {
                Firewall::Firewalld
            } else {
                Firewall::NotConfigured
            },
        ),
        FirewallProbe::Known(_) => probe,
    }
}

/// Takes note of the output of the command that was asked for.
pub fn detect_firewall(probe: FirewallProbe, out: &Option<Captured>) -> (r: FirewallProbe)
    ensures
        r == firewall_next(probe, crate::command::capture(*out)),
{
    match probe {
        FirewallProbe::AskUfw => {
            if let Some(c) = out {
                let printed = text::from_utf8_lossy(c.stdout.as_slice());
                if text::contains(printed.as_str(), "Status: active") {
                    return FirewallProbe::Known(Firewall::Ufw);
                }
            }
            FirewallProbe::AskFirewalld
        },
        FirewallProbe::AskFirewalld => {
            if let Some(c) = out {
                if c.success {
                    let printed = text::from_utf8_lossy(c.stdout.as_slice());
                    if text::same_text(text::trim(printed.as_str()).as_str(), "running") {
                        return FirewallProbe::Known(Firewall::Firewalld);
                    }
                }
            }
            FirewallProbe::Known(Firewall::NotConfigured)
        },
        FirewallProbe::Known(_) => probe,
    }
}

/// UFW comes before firewalld, and nothing is configured only if neither is active.
pub proof fn firewall_search_ends(ufw: Option<CapturedView>, firewalld: Option<CapturedView>)
    ensures
        ({
            let first = firewall_next(FirewallProbe::AskUfw, ufw);
            let last = if first is Known {
                first
            } else {
                firewall_next(first, firewalld)
            };
            last == FirewallProbe::Known(
                if ufw_active(ufw) {
                    Firewall::Ufw
                } else if firewalld_active(firewalld) {
                    Firewall::Firewalld
                } else {
                    Firewall::NotConfigured
                },
            )
        }),
{
}

/// A line of the package manager's log that tells of an upgrade.
pub open spec fn update_line(line: Seq<char>) -> bool {
    text::occurs(line, "[ALPM]"@) && text::occurs(line, "upgraded"@)
}

/// The part of a line in which the log holds the date: ten bytes behind the first one, if they
/// are whole characters.
pub open spec fn date_in(line: Seq<char>) -> Option<Seq<char>> {
    let bytes = encode_utf8(line);
    if is_char_boundary(bytes, 1) && is_char_boundary(bytes, 11) {
        Some(decode_utf8(bytes.subrange(1, 11)))
    } else {
        None
    }
}

/// The date of the last upgrade in the log.
pub open spec fn last_date(lines: Seq<Seq<char>>) -> Seq<char>
    decreases lines.len(),
{
    if lines.len() == 0 {
        "unknown"@
    } else if update_line(lines.last()) && date_in(lines.last()) is Some {
        date_in(lines.last())->0
    } else {
        last_date(lines.drop_last())
    }
}

/// The part of a line in which the log holds the date.
pub fn date_of(line: &str) -> (r: Option<String>)
    ensures
        text::text_in(r) == date_in(line@),
{
    let ghost bytes = encode_utf8(line@);
    proof {
        encode_utf8_valid_utf8(line@);
    }
    if line.is_char_boundary(1) && line.is_char_boundary(11) {
        let (head, _) = line.split_at(11);
        proof {
            lemma_boundary_fits(bytes, 11);
            valid_utf8_split(bytes, 11);
            is_char_boundary_iff_not_is_continuation_byte(bytes, 1);
            is_char_boundary_iff_not_is_continuation_byte(bytes.subrange(0, 11), 1);
        }
        let (_, date) = head.split_at(1);
        proof {
            assert(bytes.subrange(0, 11).subrange(1, 11) == bytes.subrange(1, 11));
            encode_utf8_decode_utf8(date@);
        }
        Some(date.to_owned())
    } else {
        None
    }
}

proof fn lemma_boundary_fits(bytes: Seq<u8>, index: int)
    requires
        valid_utf8(bytes),
        is_char_boundary(bytes, index),
    ensures
        0 <= index <= bytes.len(),
{
}

/// The date of the last upgrade, given the lines of the package manager's log; "unknown" if there
/// is none, or no log.
pub fn read_last_update(log: &Option<Vec<String>>) -> (r: String)
    ensures
        r@ == match *log {
            Some(lines) => last_date(lines.deep_view()),
            None => "unknown"@,
        },
{
    let mut last = "unknown".to_owned();
    if let Some(lines) = log {
        let ghost all = lines.deep_view();
        for i in 0..lines.len()
            invariant
                all == lines.deep_view(),
                last@ == last_date(all.take(i as int)),
        {
            let line = lines[i].as_str();
            proof {
                assert(all.take(i + 1).drop_last() == all.take(i as int));
                assert(all.take(i + 1).last() == line@);
            }
            if text::contains(line, "[ALPM]") && text::contains(line, "upgraded") {
                if let Some(date) = date_of(line) {
                    last = date;
                }
            }
        }
        assert(all.take(lines.len() as int) == all);
    }
    last
}

/// In a line of ASCII characters the date is what stands at its second to eleventh place.
pub proof fn date_stands_behind_the_bracket(line: Seq<char>)
    requires
        is_ascii_chars(line),
        line.len() >= 11,
    ensures
        date_in(line) == Some(line.subrange(1, 11)),
{
    let bytes = encode_utf8(line);
    let date = line.subrange(1, 11);
    encode_utf8_valid_utf8(line);
    is_ascii_chars_encode_utf8(line);
    assert(is_ascii_chars(date));
    is_ascii_chars_encode_utf8(date);
    encode_utf8_decode_utf8(date);
    assert(bytes.subrange(1, 11) == encode_utf8(date));
    is_char_boundary_iff_not_is_continuation_byte(bytes, 1);
    if line.len() == 11 {
        is_char_boundary_start_end_of_seq(bytes);
    } else {
        is_char_boundary_iff_not_is_continuation_byte(bytes, 11);
    }
}

/// All statistics that the dashboard shows.
#[derive(Clone, Debug)]
pub struct SystemStats {
    pub disk_used: String,
    pub disk_free: String,
    pub disk_total: String,
    pub disk_percent: Share,
    pub mem_used: String,
    pub mem_total: String,
    pub mem_percent: Share,
    pub cpu_usage: String,
    pub uptime: String,
    pub kernel: String,
    pub packages: String,
    pub orphans: String,
    pub cache_size: String,
    pub updates_available: String,
    pub aur_helper: String,
    pub firewall_status: String,
    pub last_update: String,
}

impl Default for SystemStats {
    /// Nothing known yet.
    fn default() -> (r: SystemStats)
        ensures
            r.disk_used@.len() == 0,
            r.disk_free@.len() == 0,
            r.disk_total@.len() == 0,
            r.mem_used@.len() == 0,
            r.mem_total@.len() == 0,
            r.cpu_usage@.len() == 0,
            r.uptime@.len() == 0,
            r.kernel@.len() == 0,
            r.packages@.len() == 0,
            r.orphans@.len() == 0,
            r.cache_size@.len() == 0,
            r.updates_available@.len() == 0,
            r.aur_helper@.len() == 0,
            r.firewall_status@.len() == 0,
            r.last_update@.len() == 0,
            r.disk_percent == Share::spec_of(0, 0),
            r.mem_percent == Share::spec_of(0, 0),
    {
        SystemStats {
            disk_used: String::new(),
            disk_free: String::new(),
            disk_total: String::new(),
            mem_used: String::new(),
            mem_total: String::new(),
            cpu_usage: String::new(),
            uptime: String::new(),
            kernel: String::new(),
            packages: String::new(),
            orphans: String::new(),
            cache_size: String::new(),
            updates_available: String::new(),
            aur_helper: String::new(),
            firewall_status: String::new(),
            last_update: String::new(),
            disk_percent: Share::of(0, 0),
            mem_percent: Share::of(0, 0),
        }
    }
}

/// What was read from the system.
pub struct Readings {
    /// The average load of the processors, as it is shown.
    pub cpu_usage: String,
    pub mem_total: u64,
    pub mem_used: u64,
    pub disks: Vec<DiskReading>,
    /// Seconds since the system was started.
    pub uptime: u64,
    pub kernel: Option<String>,
    /// The answer to `PackageQuery::Installed`.
    pub packages: Option<Captured>,
    /// The answer to `PackageQuery::Orphaned`.
    pub orphans: Option<Captured>,
    /// The bytes of the files in the package cache.
    pub cache_size: u64,
    /// The answer to `PackageQuery::Outdated`.
    pub updates: Option<Captured>,
    pub aur_helper: Option<AurHelper>,
    pub firewall: Firewall,
    /// The lines of the package manager's log, if it can be read.
    pub pacman_log: Option<Vec<String>>,
}

/// Makes the statistics out of what was read.
pub fn collect_stats(raw: Readings) -> (r: SystemStats)
    ensures
        ({
            let (total, free) = root_space(raw.disks@);
            let used = if total >= free {
                (total - free) as u64
            } else {
                0
            };
            &&& r.disk_used@ == units::human_size(used as nat)
            &&& r.disk_free@ == units::human_size(free as nat)
            &&& r.disk_total@ == units::human_size(total as nat)
            &&& r.disk_percent == Share::spec_of(used, total)
        }),
        r.disk_percent.used <= r.disk_percent.total,
        r.disk_percent.total > 0,
        r.mem_used@ == units::human_size(raw.mem_used as nat),
        r.mem_total@ == units::human_size(raw.mem_total as nat),
        r.mem_percent == Share::spec_of(raw.mem_used, raw.mem_total),
        r.cpu_usage@ == raw.cpu_usage@,
        r.uptime@ == units::human_uptime(raw.uptime as nat),
        r.kernel@ == match raw.kernel {
            Some(k) => k@,
            None => "unknown"@,
        },
        r.packages@ == line_count(output_text(crate::command::capture(raw.packages)), "?"@),
        r.orphans@ == line_count(output_text(crate::command::capture(raw.orphans)), "0"@),
        r.cache_size@ == units::human_size(raw.cache_size as nat),
        r.updates_available@ == line_count(output_text(crate::command::capture(raw.updates)), "0"@),
        r.aur_helper@ == match raw.aur_helper {
            Some(h) => h.spec_name(),
            None => "none"@,
        },
        r.firewall_status@ == raw.firewall.spec_text(),
        r.last_update@ == match raw.pacman_log {
            Some(lines) => last_date(lines.deep_view()),
            None => "unknown"@,
        },
{
    let (disk_total, disk_free) = root_disk(&raw.disks);
    let disk_used: u64 = disk_total.saturating_sub(disk_free);
    let kernel = match raw.kernel {
        Some(k) => k,
        None => "unknown".to_owned(),
    };
    let aur_helper = match raw.aur_helper {
        Some(h) => h.name().to_owned(),
        None => "none".to_owned(),
    };
    SystemStats {
        disk_used: units::fmt_bytes(disk_used),
        disk_free: units::fmt_bytes(disk_free),
        disk_total: units::fmt_bytes(disk_total),
        disk_percent: Share::of(disk_used, disk_total),
        mem_used: units::fmt_bytes(raw.mem_used),
        mem_total: units::fmt_bytes(raw.mem_total),
        mem_percent: Share::of(raw.mem_used, raw.mem_total),
        cpu_usage: raw.cpu_usage,
        uptime: units::fmt_uptime(raw.uptime),
        kernel,
        packages: count_lines(run_cmd(&raw.packages).as_str(), "?"),
        orphans: count_lines(run_cmd(&raw.orphans).as_str(), "0"),
        cache_size: units::fmt_bytes(raw.cache_size),
        updates_available: count_lines(run_cmd(&raw.updates).as_str(), "0"),
        aur_helper,
        firewall_status: raw.firewall.text().to_owned(),
        last_update: read_last_update(&raw.pacman_log),
    }
}

/// The text that is shown for a count reads back as the number of lines, however many there are, and
/// is made of digits alone. Only a text without any line is shown otherwise.
pub proof fn counts_read_back(s: Seq<char>, none: Seq<char>)
    ensures
        s.len() > 0 ==> text::decimal_value(line_count(s, none)) == text::lines_of(s).len(),
        s.len() > 0 ==> line_count(s, none).len() > 0 && forall|i: int|
            0 <= i < line_count(s, none).len() ==> '0' <= #[trigger] line_count(s, none)[i] <= '9',
        s.len() == 0 ==> line_count(s, none) == none,
{
    text::decimal_is_plain(text::lines_of(s).len());
}

/// A listing of so many packages, one to a line, is counted as that many: each line more makes the
/// count one larger.
pub proof fn each_line_counts_once(line: Seq<char>, rest: Seq<char>, none: Seq<char>)
    requires
        !line.contains('\n'),
        rest.len() > 0,
    ensures
        text::decimal_value(line_count(line + seq!['\n'] + rest, none)) == text::decimal_value(
            line_count(rest, none),
        ) + 1,
{
    counts_read_back(line + seq!['\n'] + rest, none);
    counts_read_back(rest, none);
    text::lines_end_at_line_feeds(line, rest);
}

/// What a command printed is taken without the white space at its ends if the command succeeded, and
/// not at all if it failed or could not be run.
pub proof fn output_counts_only_after_success(c: CapturedView)
    ensures
        c.success ==> output_text(Some(c)) == text::trimmed(text::lossy_text(c.stdout)),
        !c.success ==> output_text(Some(c)) == Seq::<char>::empty(),
        output_text(None) == Seq::<char>::empty(),
{
}

/// The space that is shown is that of the first disk at the root, wherever it stands among the disks
/// and whatever its size; without such a disk there is none.
pub proof fn first_root_disk_counts(disks: Seq<DiskReading>, i: int)
    requires
        0 <= i <= disks.len(),
        forall|j: int| 0 <= j < i ==> !(#[trigger] disks[j]).is_root,
    ensures
        i < disks.len() && disks[i].is_root ==> root_space(disks) == (
            disks[i].total,
            disks[i].available,
        ),
        i == disks.len() ==> root_space(disks) == (0u64, 0u64),
    decreases disks.len(),
{
    if i > 0 {
        assert(!disks[0].is_root);
        let rest = disks.drop_first();
        assert forall|j: int| 0 <= j < i - 1 implies !(#[trigger] rest[j]).is_root by {
            assert(rest[j] == disks[j + 1]);
        }
        first_root_disk_counts(rest, i - 1);
        if i < disks.len() {
            assert(rest[i - 1] == disks[i]);
        }
    }
}

/// A share is the part and the whole as they are, and nothing of one where there is no whole.
pub proof fn shares_are_exact(used: u64, total: u64)
    ensures
        total > 0 ==> Share::spec_of(used, total).used == used && Share::spec_of(used, total).total
            == total,
        Share::spec_of(used, 0).used == 0,
        Share::spec_of(used, total).total > 0,
{
}

/// UFW counts as active exactly if the words "Status: active" stand somewhere in what it printed,
/// whether it succeeded or not; firewalld exactly if it succeeded and printed nothing but the word
/// "running" and white space around it.
pub proof fn firewalls_are_known_by_their_words(c: CapturedView)
    ensures
        (exists|before: Seq<char>, after: Seq<char>|
            text::lossy_text(c.stdout) == #[trigger] (before + "Status: active"@ + after))
            <==> firewall_next(FirewallProbe::AskUfw, Some(c)) == FirewallProbe::Known(
            Firewall::Ufw,
        ),
        firewall_next(FirewallProbe::AskUfw, Some(c)) != FirewallProbe::Known(Firewall::Ufw)
            ==> firewall_next(FirewallProbe::AskUfw, Some(c)) == FirewallProbe::AskFirewalld,
        c.success && text::trimmed(text::lossy_text(c.stdout)) == "running"@ ==> firewall_next(
            FirewallProbe::AskFirewalld,
            Some(c),
        ) == FirewallProbe::Known(Firewall::Firewalld),
        !(c.success && text::trimmed(text::lossy_text(c.stdout)) == "running"@) ==> firewall_next(
            FirewallProbe::AskFirewalld,
            Some(c),
        ) == FirewallProbe::Known(Firewall::NotConfigured),
        firewall_next(FirewallProbe::AskUfw, None) == FirewallProbe::AskFirewalld,
        firewall_next(FirewallProbe::AskFirewalld, None) == FirewallProbe::Known(
            Firewall::NotConfigured,
        ),
{
    text::occurrence_is_a_middle_part(text::lossy_text(c.stdout), "Status: active"@);
}

/// A line tells of an upgrade and has whole characters where the date stands.
pub open spec fn dated_upgrade(line: Seq<char>) -> bool {
    &&& exists|a: Seq<char>, b: Seq<char>| line == #[trigger] (a + "[ALPM]"@ + b)
    &&& exists|a: Seq<char>, b: Seq<char>| line == #[trigger] (a + "upgraded"@ + b)
    &&& is_char_boundary(encode_utf8(line), 1)
    &&& is_char_boundary(encode_utf8(line), 11)
}

/// What is shown as the last update is the date in the last line of the log that tells of an upgrade
/// and has one, however long the log is; without such a line it is not known.
pub proof fn last_upgrade_is_shown(lines: Seq<Seq<char>>, i: int)
    requires
        -1 <= i < lines.len(),
        i >= 0 ==> dated_upgrade(lines[i]),
        forall|j: int| i < j < lines.len() ==> !dated_upgrade(#[trigger] lines[j]),
    ensures
        i >= 0 ==> last_date(lines) == decode_utf8(encode_utf8(lines[i]).subrange(1, 11)),
        i >= 0 && is_ascii_chars(lines[i]) && lines[i].len() >= 11 ==> last_date(lines)
            == lines[i].subrange(1, 11),
        i == -1 ==> last_date(lines) == "unknown"@,
    decreases lines.len(),
{
    if i >= 0 && is_ascii_chars(lines[i]) && lines[i].len() >= 11 {
        date_stands_behind_the_bracket(lines[i]);
    }
    if lines.len() > 0 {
        let last = lines.last();
        text::occurrence_is_a_middle_part(last, "[ALPM]"@);
        text::occurrence_is_a_middle_part(last, "upgraded"@);
        assert(dated_upgrade(last) <==> update_line(last) && date_in(last) is Some);
        if i < lines.len() - 1 {
            assert(!dated_upgrade(lines[lines.len() - 1]));
            let rest = lines.drop_last();
            assert forall|j: int| i < j < rest.len() implies !dated_upgrade(
                #[trigger] rest[j],
            ) by {
                assert(rest[j] == lines[j]);
            }
            last_upgrade_is_shown(rest, i);
        }
    }
}

} // verus!
