use hunter_core::proclist::{status_cell, PreviewOp, ProcAction, ProcEffect, ProcEvent, ProcView, Process, ReaderInput};

fn output(s: &str) -> ReaderInput {
    ReaderInput::Output(s.to_string())
}

#[test]
fn echo_hello_lifecycle() {
    let mut view = ProcView::new(5);
    let id = view.run_proc("echo hello".to_string(), 4242).unwrap();
    assert_eq!(view.running_count(), 1);
    let mut events = Vec::new();
    events.push(view.feed(id, output("hello\n")));
    events.push(view.feed(id, ReaderInput::Exit { code: Some(0), signal: None, success: true }));
    events.push(view.feed(id, output("late")));
    events.push(view.feed(id, ReaderInput::Exit { code: Some(1), signal: None, success: false }));
    let p = &view.procs[0];
    assert_eq!(p.output, "hello\n");
    assert_eq!(p.status, Some(0));
    assert_eq!(p.success, Some(true));
    assert_eq!(
        events,
        vec![
            Some(ProcEvent::Read(6)),
            Some(ProcEvent::Exited { status: 0, success: true }),
            None,
            None
        ]
    );
    assert_eq!(view.running_count(), 0);
}

#[test]
fn signalled_process_reports_signal() {
    let mut p = Process::new(0, "sleep 100".to_string(), 7);
    assert!(p.is_running());
    let e = p.observe(ReaderInput::Exit { code: None, signal: Some(9), success: false });
    assert_eq!(e, Some(ProcEvent::Exited { status: 9, success: false }));
    let mut q = Process::new(1, "x".to_string(), 8);
    let e = q.observe(ReaderInput::Exit { code: None, signal: None, success: false });
    assert_eq!(e, Some(ProcEvent::Exited { status: -1, success: false }));
    assert!(!q.is_running());
}

#[test]
fn feeding_unknown_id_changes_nothing() {
    let mut view = ProcView::new(5);
    view.run_proc("a".to_string(), 1);
    assert_eq!(view.feed(99, output("x")), None);
    assert_eq!(view.procs[0].output, "");
}

#[test]
fn remove_running_process_drops_it() {
    let mut view = ProcView::new(5);
    view.run_proc("first".to_string(), 10);
    let second = view.run_proc("second".to_string(), 11).unwrap();
    view.run_proc("third".to_string(), 12);
    view.move_down();
    assert_eq!(view.kill_proc(), Some(11));
    let removed = view.remove_proc().unwrap();
    assert_eq!(removed.id, second);
    assert_eq!(view.len(), 2);
    assert_eq!(view.procs[1].cmd, "third");
    view.move_down();
    assert_eq!(view.get_selection(), 1);
    view.remove_proc();
    assert_eq!(view.get_selection(), 0);
    assert_eq!(view.procs[0].cmd, "first");
    view.remove_proc();
    assert_eq!(view.len(), 0);
    assert!(view.remove_proc().is_none());
    assert_eq!(view.kill_proc(), None);
}

#[test]
fn finished_process_needs_no_kill() {
    let mut view = ProcView::new(5);
    let id = view.run_proc("true".to_string(), 3).unwrap();
    view.feed(id, ReaderInput::Exit { code: Some(0), signal: None, success: true });
    assert_eq!(view.kill_proc(), None);
    assert!(view.remove_proc().is_some());
}

#[test]
fn preview_swaps_only_on_selection_change() {
    let mut view = ProcView::new(5);
    assert_eq!(view.show_output(), None);
    let a = view.run_proc("a".to_string(), 1).unwrap();
    let b = view.run_proc("b".to_string(), 2).unwrap();
    view.feed(a, output("from a"));
    view.feed(b, output("from b"));
    assert_eq!(view.show_output(), Some("from a".to_string()));
    view.feed(a, output(" more"));
    assert_eq!(view.show_output(), None);
    view.move_down();
    assert_eq!(view.show_output(), Some("from b".to_string()));
    view.move_up();
    assert_eq!(view.show_output(), Some("from a more".to_string()));
    assert_eq!(view.selected_proc().unwrap().cmd, "a");
}

#[test]
fn status_cells() {
    let mut p = Process::new(0, "x".to_string(), 4711);
    assert_eq!(status_cell(&p), ("<4711>".to_string(), false));
    p.observe(ReaderInput::Exit { code: Some(-12), signal: None, success: false });
    assert_eq!(status_cell(&p), ("-12".to_string(), true));
    let mut q = Process::new(1, "y".to_string(), 0);
    assert_eq!(status_cell(&q), ("<0>".to_string(), false));
    q.observe(ReaderInput::Exit { code: Some(130), signal: None, success: true });
    assert_eq!(status_cell(&q), ("130".to_string(), false));
}

#[test]
fn panel_key_actions() {
    let mut view = ProcView::new(5);
    assert_eq!(view.do_action(ProcAction::Remove), ProcEffect::Nothing);
    let a = view.run_proc("a".to_string(), 21).unwrap();
    let b = view.run_proc("b".to_string(), 22).unwrap();
    assert_eq!(view.do_action(ProcAction::Kill), ProcEffect::Kill(21));
    assert_eq!(view.do_action(ProcAction::Down), ProcEffect::Nothing);
    assert_eq!(view.get_selection(), 1);
    view.feed(b, ReaderInput::Exit { code: Some(0), signal: None, success: true });
    assert_eq!(view.do_action(ProcAction::Kill), ProcEffect::Nothing);
    assert_eq!(view.do_action(ProcAction::Remove), ProcEffect::Removed { id: b, kill: None });
    assert_eq!(view.do_action(ProcAction::Up), ProcEffect::Nothing);
    assert_eq!(view.do_action(ProcAction::Remove), ProcEffect::Removed { id: a, kill: Some(21) });
    assert_eq!(view.len(), 0);
    assert_eq!(
        view.do_action(ProcAction::Preview(PreviewOp::PageUp)),
        ProcEffect::Preview(PreviewOp::PageUp)
    );
    assert_eq!(view.do_action(ProcAction::Close), ProcEffect::Close);
}
