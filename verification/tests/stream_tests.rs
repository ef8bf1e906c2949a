use rmux::models::{TermSize, TerminalMessage};
use rmux::stream::{
    gone_notice, initial_size_step, not_found_notice, stream_step, SizeWaitEvent, SizeWaitStep,
    StreamAction, StreamEvent, start_actions, AttachOutcome, StartAction,
};

#[test]
fn waiting_for_the_first_size() {
    let recorded = TermSize { cols: 80, rows: 24 };
    let mut pending = Vec::new();
    let step = initial_size_step(SizeWaitEvent::Text(Some(TerminalMessage::Input { data: "ls".into() })), recorded, &mut pending);
    assert_eq!(step, SizeWaitStep::Continue);
    let step = initial_size_step(SizeWaitEvent::Binary(vec![3]), recorded, &mut pending);
    assert_eq!(step, SizeWaitStep::Continue);
    assert_eq!(pending, vec![b"ls".to_vec(), vec![3]]);
    let step = initial_size_step(SizeWaitEvent::Text(Some(TerminalMessage::Resize { cols: 100, rows: 30 })), recorded, &mut pending);
    assert_eq!(step, SizeWaitStep::Ready(TermSize { cols: 100, rows: 30 }));
    assert_eq!(initial_size_step(SizeWaitEvent::TimedOut, recorded, &mut pending), SizeWaitStep::Ready(recorded));
    assert_eq!(initial_size_step(SizeWaitEvent::Closed, recorded, &mut pending), SizeWaitStep::Abort);
    assert_eq!(initial_size_step(SizeWaitEvent::Text(None), recorded, &mut pending), SizeWaitStep::Continue);
    assert_eq!(pending.len(), 2);
}

#[test]
fn attached_connection_events() {
    let s = stream_step(StreamEvent::Text(Some(TerminalMessage::Resize { cols: 0, rows: 4000 })));
    match s.action {
        StreamAction::Resize { cols, rows, reported } => {
            assert_eq!((cols, rows), (1, 1000));
            assert_eq!(reported, TermSize { cols: 0, rows: 4000 });
        },
        other => panic!("{:?}", other),
    }
    assert!(!s.stop);
    let s = stream_step(StreamEvent::TicketChanged { sender_alive: true });
    assert!(s.stop);
    assert!(matches!(s.action, StreamAction::Notify(ref m) if m == "SESSION_REPLACED"));
    let s = stream_step(StreamEvent::TicketChanged { sender_alive: false });
    assert!(s.stop && matches!(s.action, StreamAction::Nothing));
    let s = stream_step(StreamEvent::OutputEnded { replaced: false });
    assert!(s.stop && matches!(s.action, StreamAction::CheckSession));
    let s = stream_step(StreamEvent::Text(Some(TerminalMessage::Input { data: "é".into() })));
    assert!(matches!(s.action, StreamAction::WriteInput(ref b) if b == "é".as_bytes()));
    let s = stream_step(StreamEvent::Text(Some(TerminalMessage::CloseTerminal)));
    assert!(s.stop);
    let s = stream_step(StreamEvent::Text(Some(TerminalMessage::KeepAlive)));
    assert!(!s.stop && matches!(s.action, StreamAction::Nothing));
    let s = stream_step(StreamEvent::Output(vec![1, 2]));
    assert!(matches!(s.action, StreamAction::SendBinary(ref b) if b == &vec![1, 2]));
    assert_eq!(gone_notice(false), Some("SESSION_GONE".to_string()));
    assert_eq!(gone_notice(true), None);
    assert_eq!(not_found_notice(), "SESSION_NOT_FOUND");
}

#[test]
fn starting_a_connection() {
    let failed = start_actions(AttachOutcome::Failed);
    assert!(matches!(failed[0], StartAction::ReleaseTicket));
    assert!(matches!(&failed[1], StartAction::Notify(m) if m == "SESSION_GONE"));
    assert_eq!(failed.len(), 2);
    let ok = start_actions(AttachOutcome::Attached { history: b"old".to_vec(), pending: vec![b"a".to_vec(), b"b".to_vec()] });
    assert_eq!(ok.len(), 3);
    assert!(matches!(&ok[0], StartAction::SendBinary(b) if b == b"old"));
    assert!(matches!(&ok[1], StartAction::WriteInput(b) if b == b"a"));
    assert!(matches!(&ok[2], StartAction::WriteInput(b) if b == b"b"));
    let no_history = start_actions(AttachOutcome::Attached { history: vec![], pending: vec![b"x".to_vec()] });
    assert_eq!(no_history.len(), 1);
    assert!(matches!(&no_history[0], StartAction::WriteInput(b) if b == b"x"));
}
