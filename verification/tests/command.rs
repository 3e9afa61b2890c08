use zerolinux_cleaner::command::{
    command_exists, run_streamed, which, Captured, Invocation, StreamEvent, StreamPhase, StreamStep,
};
use zerolinux_cleaner::terminal::{Frame, Term};

fn lines(term: &Term) -> Vec<String> {
    term.snapshot().into_iter().map(|e| format!("{}|{}", e.level, e.text)).collect()
}

/// Feeds the events; the run has to end with the last of them.
fn run(command: &Invocation, events: Vec<StreamEvent>, term: &mut Term) -> Result<(), String> {
    let mut run = run_streamed(command, 20, term);
    let last = events.len() - 1;
    for (i, e) in events.into_iter().enumerate() {
        match run.step(e, term) {
            StreamStep::Continue(next) => run = next,
            StreamStep::Done(r) => {
                assert_eq!(i, last);
                return r;
            }
        }
    }
    panic!("the run did not end");
}

fn line(s: &str) -> StreamEvent {
    StreamEvent::Line(s.to_string())
}

#[test]
fn an_invocation_collects_its_arguments() {
    let more = vec!["x".to_string(), "y".to_string()];
    let c = Invocation::new("pacman").arg("-Rns").arg("--").args(&more);
    assert_eq!(c.bin, "pacman");
    assert_eq!(c.args, vec!["-Rns", "--", "x", "y"]);
    assert_eq!(c.announcement(), "$ pacman -Rns -- x y");
    assert_eq!(Invocation::new("checkupdates").announcement(), "$ checkupdates ");
}

#[test]
fn a_successful_run_logs_every_line() {
    let mut t = Term::new();
    let r = run(
        &Invocation::new("paccache").arg("-rk1"),
        vec![
            StreamEvent::Spawned,
            line("  one "),
            line("   "),
            line("error on stdout"),
            StreamEvent::EndOfStream,
            line("warning: two"),
            line("An ERROR: three"),
            line("\t"),
            StreamEvent::EndOfStream,
            StreamEvent::Exited { success: true, status: "exit status: 0".to_string() },
        ],
        &mut t,
    );
    assert_eq!(r, Ok(()));
    assert_eq!(
        lines(&t),
        vec![
            "cmd|$ paccache -rk1",
            "output|one",
            "output|",
            "output|error on stdout",
            "output|warning: two",
            "error|An ERROR: three",
            "output|",
        ]
    );
    assert_eq!(t.frames_after(0).len(), 7);
    assert_eq!(t.frames_after(6), vec![Frame::Lines { shown: 7, percent: 20 }]);
}

#[test]
fn every_failure_has_its_words() {
    let c = Invocation::new("pacman").arg("-Sy");
    let mut t = Term::new();
    let spawn = run(&c, vec![StreamEvent::SpawnFailed("No such file".to_string())], &mut t);
    assert_eq!(spawn, Err("Failed to start `pacman`: No such file".to_string()));
    let to_the_end = || vec![StreamEvent::Spawned, StreamEvent::EndOfStream, StreamEvent::EndOfStream];
    let mut events = to_the_end();
    events.push(StreamEvent::Exited { success: false, status: "exit status: 1".to_string() });
    assert_eq!(
        run(&c, events, &mut t),
        Err("`pacman` exited with status: exit status: 1".to_string())
    );
    let mut events = to_the_end();
    events.push(StreamEvent::WaitFailed("interrupted".to_string()));
    assert_eq!(run(&c, events, &mut t), Err("interrupted".to_string()));
}

#[test]
fn the_word_error_is_found_in_any_case_of_letters() {
    for (text, level) in [
        ("error", "error"),
        ("Error", "error"),
        ("xERRORx", "error"),
        ("eRrOr: \u{c4}", "error"),
        ("err or", "output"),
        ("\u{c4}rger", "output"),
    ] {
        let mut t = Term::new();
        let mut r = run_streamed(&Invocation::new("b"), 1, &mut t);
        for e in [StreamEvent::Spawned, StreamEvent::EndOfStream, line(text)] {
            r = match r.step(e, &mut t) {
                StreamStep::Continue(next) => next,
                StreamStep::Done(_) => panic!("ended early"),
            };
        }
        assert_eq!(lines(&t)[1], format!("{}|{}", level, text));
    }
}

#[test]
fn lowercase_of_ascii_is_what_is_stated() {
    for code in 0..0x80u32 {
        let c = char::from_u32(code).unwrap();
        let expected = if c.is_ascii_uppercase() { (c as u8 + 32) as char } else { c };
        assert_eq!(c.to_string().to_lowercase(), expected.to_string());
    }
}

#[test]
fn an_event_out_of_turn_changes_nothing() {
    let mut t = Term::new();
    let r = run_streamed(&Invocation::new("b"), 1, &mut t);
    let before = lines(&t);
    let r = match r.step(line("too early"), &mut t) {
        StreamStep::Continue(next) => next,
        StreamStep::Done(_) => panic!("ended early"),
    };
    assert_eq!(r.phase(), StreamPhase::Spawn);
    assert_eq!(lines(&t), before);
}

#[test]
fn a_binary_exists_if_which_succeeds() {
    assert_eq!(which("flatpak").announcement(), "$ which flatpak");
    assert!(command_exists(&Some(Captured { success: true, stdout: vec![] })));
    assert!(!command_exists(&Some(Captured { success: false, stdout: b"/bin/x".to_vec() })));
    assert!(!command_exists(&None));
}
