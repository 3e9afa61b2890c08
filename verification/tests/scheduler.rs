use zerolinux_cleaner::scheduler::{toggle_scheduler, unit_path, Interval, Schedule};

fn commands(s: Schedule, written: bool) -> Vec<String> {
    s.commands(written).iter().map(|c| c.announcement()).collect()
}

#[test]
fn intervals_are_found_by_their_words() {
    for i in [Interval::Daily, Interval::Weekly, Interval::Monthly] {
        assert_eq!(Interval::named(i.calendar()), i);
    }
    for other in ["", "Daily", "hourly", "daily; reboot"] {
        assert_eq!(Interval::named(other), Interval::Weekly);
    }
}

#[test]
fn the_timer_unit_has_an_exact_text() {
    let s = toggle_scheduler(true, "monthly");
    assert_eq!(s, Schedule::Enable(Interval::Monthly));
    assert_eq!(
        s.unit().unwrap(),
        "[Unit]\nDescription=ZeroLinux Auto Cleaner\n\n[Timer]\nOnCalendar=monthly\n\
         Persistent=true\n\n[Install]\nWantedBy=timers.target\n"
    );
    assert_eq!(unit_path(), "/etc/systemd/system/zerolinux-cleaner.timer");
    assert_eq!(toggle_scheduler(false, "monthly"), Schedule::Disable);
    assert_eq!(Schedule::Disable.unit(), None);
}

#[test]
fn the_timer_is_turned_on_only_with_its_unit() {
    let s = toggle_scheduler(true, "daily");
    assert_eq!(
        commands(s, true),
        vec!["$ systemctl daemon-reload", "$ systemctl enable --now zerolinux-cleaner.timer"]
    );
    assert!(commands(s, false).is_empty());
    for written in [true, false] {
        assert_eq!(
            commands(Schedule::Disable, written),
            vec!["$ systemctl disable --now zerolinux-cleaner.timer"]
        );
    }
}

#[test]
fn chosen_text_does_not_reach_commands() {
    let odd = toggle_scheduler(true, "$(reboot)");
    assert_eq!(commands(odd, true), commands(toggle_scheduler(true, "daily"), true));
    assert_eq!(odd.unit(), toggle_scheduler(true, "weekly").unit());
}
