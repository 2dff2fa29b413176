use msg_relay::frame::Frame;
use msg_relay::reader::{ReadEvent, Reader, ReaderAction};
use msg_relay::registry::{Delivery, Registry, WriteOutcome};
use msg_relay::session::{InboundAction, InputAction, Session};

fn sent_frame(session: &mut Session, line: &str) -> Frame {
    match session.on_line(line) {
        InputAction::Send(frame) => frame,
        InputAction::Stop(end) => panic!("session ended: {:?}", end),
    }
}

fn forwarded(reader: &mut Reader, frame: Frame) -> String {
    match reader.on_read(ReadEvent::Frame(frame)) {
        ReaderAction::Forward(text) => text,
        other => panic!("unexpected action {:?}", other),
    }
}

#[test]
fn hello_reaches_all_three_clients() {
    let mut registry = Registry::new();
    let mut sessions = vec![Session::new(), Session::new(), Session::new()];
    let mut readers = vec![Reader::new(), Reader::new(), Reader::new()];
    for id in 0..3 {
        assert_eq!(registry.register(), Some(id));
    }

    let frame = sent_frame(&mut sessions[1], "hello\n");
    let wire = Frame::from_bytes(frame.as_bytes()).unwrap();
    let message = forwarded(&mut readers[1], wire);
    assert_eq!(message, "hello");

    let plan = registry.broadcast(&message);
    assert_eq!(plan.targets, vec![0, 1, 2]);
    let mut reports = Vec::new();
    for id in &plan.targets {
        let wire = Frame::from_bytes(plan.frame.as_bytes()).unwrap();
        let shown = sessions[*id as usize].on_inbound(ReadEvent::Frame(wire));
        assert_eq!(shown, InboundAction::Show(String::from("hello")));
        reports.push(Delivery { conn: *id, outcome: WriteOutcome::Written });
    }
    assert_eq!(registry.prune(&reports), Vec::<u64>::new());
    assert_eq!(registry.ids(), vec![0, 1, 2]);
}

#[test]
fn remaining_client_still_receives_after_the_other_closed() {
    let mut registry = Registry::new();
    let staying = registry.register().unwrap();
    let leaving = registry.register().unwrap();
    let mut survivor = Session::new();

    let first = registry.broadcast("first");
    assert_eq!(first.targets, vec![staying, leaving]);
    let reports = [
        Delivery { conn: staying, outcome: WriteOutcome::Written },
        Delivery { conn: leaving, outcome: WriteOutcome::Failed },
    ];
    assert_eq!(
        survivor.on_inbound(ReadEvent::Frame(first.frame)),
        InboundAction::Show(String::from("first"))
    );
    assert_eq!(registry.prune(&reports), vec![leaving]);
    assert!(!registry.contains(leaving));

    let second = registry.broadcast("second");
    assert_eq!(second.targets, vec![staying]);
    assert_eq!(
        survivor.on_inbound(ReadEvent::Frame(second.frame)),
        InboundAction::Show(String::from("second"))
    );
}

#[test]
fn quit_never_reaches_the_relay() {
    let registry = Registry::new();
    let mut session = Session::new();
    let mut sent = 0;
    for line in ["one\n", ":quit\n", "two\n"] {
        if let InputAction::Send(_) = session.on_line(line) {
            sent += 1;
        }
    }
    assert_eq!(sent, 1);
    assert!(registry.is_empty());
}

#[test]
fn messages_of_one_sender_keep_their_order() {
    let mut registry = Registry::new();
    registry.register().unwrap();
    let mut session = Session::new();
    let mut reader = Reader::new();
    let mut receiver = Session::new();
    let mut shown = Vec::new();
    for line in ["a\n", "b\n", "c\n"] {
        let frame = sent_frame(&mut session, line);
        let message = forwarded(&mut reader, frame);
        let plan = registry.broadcast(&message);
        match receiver.on_inbound(ReadEvent::Frame(plan.frame)) {
            InboundAction::Show(text) => shown.push(text),
            other => panic!("unexpected action {:?}", other),
        }
    }
    assert_eq!(shown, vec!["a", "b", "c"]);
}
