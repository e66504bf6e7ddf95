//! The client over a scripted transport: construction order, position and
//! option commands, search-result extraction, and the error taxonomy.

use uci::{Engine, EngineError, SearchBudget, Transport, TransportEvent};

fn script(lines: &[&str]) -> Transport {
    let mut v: Vec<String> = Vec::new();
    for l in lines {
        v.push(String::from(*l));
    }
    Transport::new(v)
}

fn ready_engine(lines: &[&str]) -> Engine {
    Engine { transport: script(lines), budget: SearchBudget::MoveTime(100) }
}

fn wrote(text: &str) -> TransportEvent {
    TransportEvent::Wrote(String::from(text))
}

#[test]
fn construction_reads_greeting_then_handshakes_then_runs_barrier() {
    let t = script(&["Stockfish 16 by the authors\n", "id name Stockfish\n", "uciok\n",
        "readyok\n"]);
    let eng = Engine::new(t).unwrap();
    assert_eq!(
        eng.transport.log,
        vec![
            TransportEvent::LineRead,
            wrote("uci\n"),
            wrote("isready\n"),
            TransportEvent::LineRead,
            TransportEvent::LineRead,
            TransportEvent::LineRead,
        ]
    );
    assert_eq!(eng.transport.cursor, 4);
    assert_eq!(eng.budget, SearchBudget::MoveTime(100));
}

#[test]
fn construction_fails_without_greeting() {
    let t = script(&[]);
    assert!(matches!(Engine::new(t), Err(EngineError::Io(_))));
}

#[test]
fn construction_fails_without_barrier_marker() {
    let t = script(&["greeting\n", "id name X\n"]);
    assert!(matches!(Engine::new(t), Err(EngineError::Io(_))));
}

#[test]
fn movetime_and_depth_set_the_budget() {
    let eng = ready_engine(&[]);
    let eng = eng.movetime(200);
    assert_eq!(eng.budget, SearchBudget::MoveTime(200));
    let eng = eng.depth(12);
    assert_eq!(eng.budget, SearchBudget::Depth(12));
}

#[test]
fn make_moves_writes_one_position_command_and_reads_nothing() {
    let mut eng = ready_engine(&["unconsumed\n"]);
    let moves = vec![String::from("e2e4"), String::from("e7e5")];
    eng.make_moves(&moves).unwrap();
    assert_eq!(eng.transport.log, vec![wrote("position startpos moves e2e4 e7e5\n")]);
    assert_eq!(eng.transport.cursor, 0);
}

#[test]
fn set_position_writes_fen_command_with_empty_move_list() {
    let mut eng = ready_engine(&[]);
    eng.set_position("2k4R/8/3K4/8/8/8/8/8 b - - 0 1").unwrap();
    assert_eq!(
        eng.transport.log,
        vec![wrote("position fen 2k4R/8/3K4/8/8/8/8/8 b - - 0 1 moves \n")]
    );
}

#[test]
fn make_moves_from_position_joins_moves() {
    let mut eng = ready_engine(&[]);
    let moves = vec![String::from("c8b7"), String::from("d6c5")];
    eng.make_moves_from_position("2k4R/8/3K4/8/8/8/8/8 b - - 0 1", &moves).unwrap();
    assert_eq!(
        eng.transport.log,
        vec![wrote("position fen 2k4R/8/3K4/8/8/8/8/8 b - - 0 1 moves c8b7 d6c5\n")]
    );
}

#[test]
fn bestmove_extracts_second_token_of_result_line() {
    let mut eng = ready_engine(&["info depth 1 seldepth 1\n", "info nodes 20\n",
        "bestmove e2e4 ponder e7e5\n"]);
    let mv = eng.bestmove().unwrap();
    assert_eq!(mv, "e2e4");
    assert_eq!(eng.transport.cursor, 3);
    assert_eq!(
        eng.transport.log,
        vec![
            wrote("go movetime 100\n"),
            TransportEvent::LineRead,
            TransportEvent::LineRead,
            TransportEvent::LineRead,
        ]
    );
}

#[test]
fn bestmove_uses_the_configured_budget() {
    let mut eng = ready_engine(&["bestmove c8b7\n"]).movetime(200);
    assert_eq!(eng.bestmove().unwrap(), "c8b7");
    assert_eq!(eng.transport.log[0], wrote("go movetime 200\n"));

    let mut eng = ready_engine(&["bestmove c8b7\n"]).depth(10);
    assert_eq!(eng.bestmove().unwrap(), "c8b7");
    assert_eq!(eng.transport.log[0], wrote("go depth 10\n"));
}

#[test]
fn bestmove_fails_on_result_line_without_a_move() {
    let mut eng = ready_engine(&["bestmove\n"]);
    assert!(matches!(eng.bestmove(), Err(EngineError::Io(_))));
}

#[test]
fn bestmove_fails_when_stream_ends_first() {
    let mut eng = ready_engine(&["info depth 1\n"]);
    assert!(matches!(eng.bestmove(), Err(EngineError::Io(_))));
    assert_eq!(eng.transport.cursor, 1);
}

#[test]
fn set_option_succeeds_on_empty_output() {
    let mut eng = ready_engine(&["readyok\n"]);
    eng.set_option("Skill Level", "5").unwrap();
    assert_eq!(
        eng.transport.log,
        vec![
            wrote("setoption name Skill Level value 5\n"),
            wrote("isready\n"),
            TransportEvent::LineRead,
        ]
    );
}

#[test]
fn set_option_treats_blank_output_as_success() {
    let mut eng = ready_engine(&["   \n", "readyok\n"]);
    assert!(eng.set_option("Skill Level", "5").is_ok());
}

#[test]
fn set_option_reports_rejection_with_the_option_name() {
    let mut eng = ready_engine(&["No such option: Foo\n", "readyok\n"]);
    match eng.set_option("Foo", "1") {
        Err(EngineError::UnknownOption(name)) => assert_eq!(name, "Foo"),
        other => panic!("unexpected outcome: {:?}", other.map(|_| ())),
    }
}

#[test]
fn set_option_fails_with_io_error_when_stream_ends() {
    let mut eng = ready_engine(&[]);
    assert!(matches!(eng.set_option("Foo", "1"), Err(EngineError::Io(_))));
}

#[test]
fn command_returns_output_joined_by_newlines() {
    let mut eng = ready_engine(&["line one\n", "  line two \n", "readyok\n"]);
    let out = eng.command("  ucinewgame \n").unwrap();
    assert_eq!(out, "line one\nline two");
    assert_eq!(eng.transport.log[0], wrote("ucinewgame\n"));
    assert_eq!(eng.transport.log[1], wrote("isready\n"));
}

#[test]
fn command_with_no_output_returns_empty_text() {
    let mut eng = ready_engine(&["readyok\n"]);
    assert_eq!(eng.command("ucinewgame").unwrap(), "");
}

#[test]
fn error_messages_name_their_cause() {
    assert_eq!(EngineError::Io(String::from("broken pipe")).message(), "IO error: broken pipe");
    assert_eq!(
        EngineError::UnknownOption(String::from("Foo")).message(),
        "No such option: 'Foo'"
    );
    assert_eq!(
        EngineError::Spawn(String::from("no such file")).message(),
        "Unable to run engine: no such file"
    );
}
