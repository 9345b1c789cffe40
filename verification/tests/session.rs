use chat_relay::broker::{Broker, Reaction};
use chat_relay::event::Event;
use chat_relay::peer::{PeerId, PeerIdAllocator};
use chat_relay::reader::{ReadOutcome, Reader};
use chat_relay::writer::{Writer, WriterInput, WriterStep};
use futures_channel::mpsc::{TryRecvError, UnboundedReceiver};

/// Everything that the reader of one connection sends when its reads give
/// `lines` and then the end of the connection.
fn session(id: PeerId, lines: &[&str]) -> Vec<Event<usize>> {
    let (mut reader, first) = Reader::start(id, id.0 as usize);
    let mut sent = vec![first];
    for text in lines {
        sent.extend(reader.take(ReadOutcome::Line(text.to_string())));
    }
    sent.extend(reader.take(ReadOutcome::Closed));
    sent.extend(reader.take(ReadOutcome::Closed));
    sent
}

/// Mixes the sessions by taking, in turn, `stride[k]` events of session `k`.
fn mix(mut sessions: Vec<Vec<Event<usize>>>, strides: &[usize]) -> Vec<Event<usize>> {
    for s in sessions.iter_mut() {
        s.reverse();
    }
    let mut mixed = Vec::new();
    while sessions.iter().any(|s| !s.is_empty()) {
        for (k, s) in sessions.iter_mut().enumerate() {
            for _ in 0..strides[k] {
                mixed.extend(s.pop());
            }
        }
    }
    mixed
}

fn check_order(trace: &[Event<usize>], id: PeerId) {
    let own: Vec<&Event<usize>> = trace.iter().filter(|e| e.peer() == id).collect();
    assert!(matches!(own.first(), Some(Event::Join(..))));
    assert!(matches!(own.last(), Some(Event::Leave(..))));
    assert_eq!(own.iter().filter(|e| matches!(e, Event::Join(..))).count(), 1);
    assert_eq!(own.iter().filter(|e| matches!(e, Event::Leave(..))).count(), 1);
}

#[test]
fn every_mixture_has_one_join_first_and_one_leave_last() {
    let all_strides: [[usize; 3]; 5] = [[1, 1, 1], [3, 1, 2], [1, 4, 1], [9, 9, 9], [1, 2, 9]];
    for strides in all_strides.iter() {
        let mut ids = PeerIdAllocator::new();
        let a = ids.allocate().unwrap();
        let b = ids.allocate().unwrap();
        let c = ids.allocate().unwrap();
        let trace = mix(
            vec![session(a, &["a1", "a2", "a3"]), session(b, &[]), session(c, &["c1"])],
            strides,
        );
        assert_eq!(trace.len(), 5 + 2 + 3);
        check_order(&trace, a);
        check_order(&trace, b);
        check_order(&trace, c);
    }
}

#[test]
fn in_every_mixture_a_peer_is_registered_exactly_while_it_speaks() {
    let all_strides: [[usize; 3]; 4] = [[1, 1, 1], [3, 1, 2], [1, 4, 1], [9, 9, 9]];
    for strides in all_strides.iter() {
        let trace = mix(
            vec![
                session(PeerId(1), &["a1", "a2"]),
                session(PeerId(2), &["b1"]),
                session(PeerId(3), &[]),
            ],
            strides,
        );
        let mut broker = Broker::new();
        let mut kept = Vec::new();
        for event in trace {
            let id = event.peer();
            let announces = matches!(event, Event::Join(..));
            assert_eq!(broker.is_registered(id), !announces);
            match broker.handle(event) {
                Reaction::Registered { conn, lines, replaced } => {
                    assert_eq!(conn, id.0 as usize);
                    assert!(!replaced);
                    kept.push(lines);
                }
                Reaction::Removed { was_registered } => assert!(was_registered),
                Reaction::Relayed { refused } => assert!(refused.is_empty()),
            }
        }
        assert!(!broker.is_registered(PeerId(1)));
        assert!(!broker.is_registered(PeerId(2)));
        assert!(!broker.is_registered(PeerId(3)));
    }
}

/// Runs a writer over a channel until it ends; returns what it wrote and
/// the step that ended it. A line that holds `break` fails to be written.
fn write_out(lines: &mut UnboundedReceiver<String>) -> (Vec<String>, String) {
    let mut writer = Writer::new();
    let mut written = Vec::new();
    let mut step = WriterStep::Receive;
    loop {
        step = match step {
            WriterStep::Receive => match lines.try_recv() {
                Ok(line) => writer.advance(WriterInput::Line(line)),
                Err(TryRecvError::Closed) => writer.advance(WriterInput::Drained),
                Err(TryRecvError::Empty) => return (written, "waiting".to_string()),
            },
            WriterStep::Write(line) => {
                if line.contains("break") {
                    writer.advance(WriterInput::WriteFailed)
                } else {
                    written.push(line);
                    writer.advance(WriterInput::Written)
                }
            }
            WriterStep::Close => return (written, "closed".to_string()),
            WriterStep::Abandon => return (written, "abandoned".to_string()),
            WriterStep::Stop => return (written, "stopped".to_string()),
        }
    }
}

#[test]
fn a_writer_drains_its_channel_and_closes_after_the_leave() {
    let mut broker = Broker::new();
    let (mut a, _) = broker.join(PeerId(1));
    let (mut b, _) = broker.join(PeerId(2));
    broker.relay(PeerId(1), "one");
    broker.relay(PeerId(1), "two");
    assert_eq!(
        write_out(&mut b),
        (vec!["client1> one\n".to_string(), "client1> two\n".to_string()], "waiting".to_string())
    );
    broker.relay(PeerId(1), "three");
    broker.leave(PeerId(2));
    assert_eq!(write_out(&mut b), (vec!["client1> three\n".to_string()], "closed".to_string()));
    assert_eq!(write_out(&mut a), (vec![], "waiting".to_string()));
}

#[test]
fn a_writer_whose_write_fails_leaves_the_rest() {
    let mut broker = Broker::new();
    let (_a, _) = broker.join(PeerId(1));
    let (mut b, _) = broker.join(PeerId(2));
    broker.relay(PeerId(1), "one");
    broker.relay(PeerId(1), "break");
    broker.relay(PeerId(1), "three");
    assert_eq!(write_out(&mut b), (vec!["client1> one\n".to_string()], "abandoned".to_string()));
    drop(b);
    assert_eq!(broker.relay(PeerId(1), "four"), vec![PeerId(2)]);
    assert!(broker.is_registered(PeerId(2)));
}

#[test]
fn a_peer_whose_first_read_fails_is_never_written_to() {
    let (mut reader, join) = Reader::start(PeerId(1), 0usize);
    let leave: Event<usize> = reader.take(ReadOutcome::Failed).unwrap();
    assert!(reader.take::<usize>(ReadOutcome::Failed).is_none());

    let mut broker = Broker::new();
    let (mut b, _) = broker.join(PeerId(2));
    let mut a = match broker.handle(join) {
        Reaction::Registered { lines, .. } => lines,
        _ => panic!("a join registers"),
    };
    match broker.handle(leave) {
        Reaction::Removed { was_registered } => assert!(was_registered),
        _ => panic!("a leave removes"),
    }
    assert!(!broker.is_registered(PeerId(1)));
    assert!(broker.relay(PeerId(2), "gone already?").is_empty());
    assert!(!broker.is_registered(PeerId(1)));
    assert_eq!(a.try_recv(), Err(TryRecvError::Closed));
    assert_eq!(b.try_recv(), Err(TryRecvError::Empty));
}
