use otrsp::link::{
    drain_continues, drain_wait, settle, settle_shutdown, Delivery, DrainRead, LineReader,
    LinkEvent, LinkState, QueryOutcome,
};
use otrsp::Error;

#[test]
fn many_failures_publish_one_disconnected() {
    for n in 1..6 {
        let mut link = LinkState::new();
        let mut published = 0;
        for _ in 0..n {
            let out = link.finish_write(Err("broken pipe".to_string()));
            assert!(matches!(out.reply, Err(Error::Io(ref m)) if m == "broken pipe"));
            if out.emit_disconnected {
                published += 1;
            }
        }
        if link.step(LinkEvent::Stopped).emit_disconnected {
            published += 1;
        }
        assert_eq!(published, 1);
    }
}

#[test]
fn shutdown_twice_publishes_once() {
    let mut link = LinkState::new();
    assert!(link.step(LinkEvent::Stopped).emit_disconnected);
    assert!(!link.step(LinkEvent::Stopped).emit_disconnected);
    assert!(!link.step(LinkEvent::StreamFailed).emit_disconnected);
    assert!(link.terminated);
}

#[test]
fn read_failure_publishes_disconnected() {
    let mut link = LinkState::new();
    let out = link.finish_query(QueryOutcome::Failed("mock port closed".to_string()));
    assert!(out.emit_disconnected);
    assert!(matches!(out.reply, Err(Error::Io(_))));
    assert!(!link.step(LinkEvent::Stopped).emit_disconnected);
}

#[test]
fn timeout_arms_drain_for_next_query_only() {
    let mut link = LinkState::new();
    assert!(!link.step(LinkEvent::QueryStarted).drain_first);
    let out = link.finish_query(QueryOutcome::TimedOut);
    assert!(matches!(out.reply, Err(Error::Timeout)));
    assert!(!out.emit_disconnected);
    assert!(link.finish_write(Ok(())).reply.is_ok());
    assert!(link.step(LinkEvent::QueryStarted).drain_first);
    let out = link.finish_query(QueryOutcome::Line("AUX14\r".to_string()));
    assert_eq!(out.reply.unwrap(), "AUX14\r");
    assert!(!link.step(LinkEvent::QueryStarted).drain_first);
}

#[test]
fn drain_waits_within_its_window() {
    assert_eq!(drain_wait(0), Some(20));
    assert_eq!(drain_wait(150), Some(20));
    assert_eq!(drain_wait(190), Some(10));
    assert_eq!(drain_wait(199), Some(1));
    assert_eq!(drain_wait(200), None);
    assert_eq!(drain_wait(5000), None);
    assert!(drain_continues(DrainRead::Bytes(14)));
    assert!(!drain_continues(DrainRead::Bytes(0)));
    assert!(!drain_continues(DrainRead::Idle));
    assert!(!drain_continues(DrainRead::Failed));
}

#[test]
fn line_reader_stops_at_cr_or_lf() {
    let mut line = LineReader::new();
    for b in b"AUX1" {
        assert!(!line.push(*b));
    }
    assert!(line.push(b'\r'));
    assert_eq!(line.text(), "AUX1\r");
    let mut line = LineReader::new();
    assert!(line.push(b'\n'));
    assert_eq!(line.text(), "\n");
}

#[test]
fn unreachable_task_means_not_connected() {
    assert!(matches!(settle::<()>(Delivery::Unreachable), Err(Error::NotConnected)));
    assert_eq!(settle(Delivery::Replied(Ok(5u8))).unwrap(), 5);
    assert!(matches!(settle::<u8>(Delivery::Replied(Err(Error::Timeout))), Err(Error::Timeout)));
    let (r, cancel) = settle_shutdown(Delivery::Unreachable);
    assert!(r.is_ok() && cancel);
    let (r, cancel) = settle_shutdown(Delivery::Replied(Ok(())));
    assert!(r.is_ok() && !cancel);
}
