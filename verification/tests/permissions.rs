use zerolinux_cleaner::permissions::{
    ensure_root, fallback_program, is_root, refusal_message, relaunch, Elevator, Escalation,
    EscalationEvent, SessionEnv,
};

fn env() -> SessionEnv {
    SessionEnv {
        display: Some(":0".to_string()),
        wayland_display: None,
        xauthority: Some("/home/u/.Xauthority".to_string()),
        xdg_runtime_dir: Some("/run/user/1000".to_string()),
        dbus_session_bus_address: None,
    }
}

#[test]
fn only_the_first_user_is_root() {
    assert!(is_root(0));
    assert!(!is_root(1000));
    assert_eq!(ensure_root(0), Escalation::Granted);
    assert_eq!(ensure_root(1000), Escalation::Probe(Elevator::Pkexec));
}

#[test]
fn pkexec_hands_its_exit_status_on() {
    let run = ensure_root(1000).step(EscalationEvent::Found(true));
    assert_eq!(run, Escalation::Relaunch(Elevator::Pkexec));
    assert_eq!(run.step(EscalationEvent::Ended(Some(126))), Escalation::Exit(126));
    assert_eq!(run.step(EscalationEvent::Ended(None)), Escalation::Exit(0));
}

#[test]
fn sudo_is_the_fallback() {
    let sudo = Escalation::Probe(Elevator::Sudo);
    let start = ensure_root(1000);
    assert_eq!(start.step(EscalationEvent::Found(false)), sudo);
    assert_eq!(start.step(EscalationEvent::Found(true)).step(EscalationEvent::NotStarted), sudo);
    let run = sudo.step(EscalationEvent::Found(true));
    assert_eq!(run, Escalation::Relaunch(Elevator::Sudo));
    assert_eq!(run.step(EscalationEvent::Ended(Some(1))), Escalation::Exit(1));
}

#[test]
fn without_any_way_the_user_is_told() {
    let sudo = Escalation::Probe(Elevator::Sudo);
    assert_eq!(sudo.step(EscalationEvent::Found(false)), Escalation::Refused);
    let run = Escalation::Relaunch(Elevator::Sudo);
    assert_eq!(run.step(EscalationEvent::NotStarted), Escalation::Refused);
    assert_eq!(
        refusal_message(),
        "\nZeroLinux Cleaner requires root privileges.\nPlease run:  sudo -E ./zerolinux-cleaner\n"
    );
}

#[test]
fn nothing_leads_from_an_end() {
    for end in [Escalation::Granted, Escalation::Exit(3), Escalation::Refused] {
        for event in [
            EscalationEvent::Found(true),
            EscalationEvent::Found(false),
            EscalationEvent::Ended(Some(0)),
            EscalationEvent::NotStarted,
        ] {
            assert_eq!(end.step(event), end);
        }
    }
}

#[test]
fn the_program_is_started_again_with_its_arguments() {
    let extra = vec!["--verbose".to_string()];
    let p = relaunch(Elevator::Pkexec, &env(), extra.clone());
    assert_eq!(p.bin, "pkexec");
    assert_eq!(
        p.before,
        vec![
            "env",
            "DISPLAY=:0",
            "WAYLAND_DISPLAY=",
            "XAUTHORITY=/home/u/.Xauthority",
            "XDG_RUNTIME_DIR=/run/user/1000",
            "DBUS_SESSION_BUS_ADDRESS=",
        ]
    );
    assert_eq!(p.after, extra);
    let s = relaunch(Elevator::Sudo, &env(), vec![]);
    assert_eq!(s.bin, "sudo");
    assert_eq!(s.before, vec!["-E"]);
    assert!(s.after.is_empty());
    assert_eq!(Elevator::Pkexec.name(), "pkexec");
    assert_eq!(fallback_program(), "/usr/bin/zerolinux-cleaner");
}
