//! The synchronization primitive: drain-until-marker and the search loop.

use uci::protocol::{drain_step, search_step, send_and_drain, DrainStep, SearchStep};
use uci::{EngineError, Transport, TransportEvent};

fn script(lines: &[&str]) -> Transport {
    let mut v: Vec<String> = Vec::new();
    for l in lines {
        v.push(String::from(*l));
    }
    Transport::new(v)
}

#[test]
fn drain_returns_lines_before_marker_in_order() {
    let mut t = script(&["info string hello\n", "  spaced line \n", "readyok\n", "later\n"]);
    let out = send_and_drain(&mut t, "ucinewgame\n").unwrap();
    assert_eq!(out, vec![String::from("info string hello"), String::from("spaced line")]);
    assert_eq!(t.cursor, 3);
    assert_eq!(
        t.log,
        vec![
            TransportEvent::Wrote(String::from("ucinewgame\n")),
            TransportEvent::Wrote(String::from("isready\n")),
            TransportEvent::LineRead,
            TransportEvent::LineRead,
            TransportEvent::LineRead,
        ]
    );
}

#[test]
fn drain_with_no_output_returns_empty_collection() {
    let mut t = script(&["readyok\n"]);
    let out = send_and_drain(&mut t, "ucinewgame\n").unwrap();
    assert_eq!(out, Vec::<String>::new());
    assert_eq!(t.cursor, 1);
}

#[test]
fn drain_accepts_marker_with_surrounding_whitespace() {
    let mut t = script(&["one\n", "  readyok  \r\n"]);
    let out = send_and_drain(&mut t, "x\n").unwrap();
    assert_eq!(out, vec![String::from("one")]);
}

#[test]
fn drain_fails_when_stream_ends_before_marker() {
    let mut t = script(&["info only\n"]);
    let r = send_and_drain(&mut t, "x\n");
    assert!(matches!(r, Err(EngineError::Io(_))));
    assert_eq!(t.cursor, 1);
}

#[test]
fn drain_step_classifies_lines() {
    assert!(matches!(drain_step("readyok\n"), DrainStep::Stop));
    assert!(matches!(drain_step("  readyok  "), DrainStep::Stop));
    match drain_step(" info depth 1 \n") {
        DrainStep::Keep(t) => assert_eq!(t, "info depth 1"),
        DrainStep::Stop => panic!("not a marker"),
    }
    // A line that merely contains the marker word is no marker.
    assert!(matches!(drain_step("readyok extra\n"), DrainStep::Keep(_)));
}

#[test]
fn search_step_classifies_lines() {
    assert!(matches!(search_step("info depth 1\n"), SearchStep::Pending));
    match search_step("bestmove e2e4 ponder e7e5\n") {
        SearchStep::Found(mv) => assert_eq!(mv, "e2e4"),
        _ => panic!("result line expected"),
    }
    assert!(matches!(search_step("bestmove\n"), SearchStep::Missing));
    // The marker must be the first token, not a prefix of it.
    assert!(matches!(search_step("bestmoves e2e4\n"), SearchStep::Pending));
}
