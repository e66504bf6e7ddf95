//! The command builders emit exactly the documented wire text.

use uci::commands::{fen_command, generic_command, go_depth_command, go_movetime_command,
    option_command, startpos_command};

#[test]
fn option_command_is_exact() {
    let cmd = option_command("Skill Level", "5");
    assert_eq!(cmd, "setoption name Skill Level value 5\n");
}

#[test]
fn option_command_keeps_whitespace_in_value() {
    let cmd = option_command("SyzygyPath", "  /a dir/with spaces  ");
    assert_eq!(cmd, "setoption name SyzygyPath value   /a dir/with spaces  \n");
}

#[test]
fn startpos_command_joins_moves_with_spaces() {
    let moves = vec![String::from("e2e4"), String::from("e7e5"), String::from("g1f3")];
    let cmd = startpos_command(&moves);
    assert_eq!(cmd, "position startpos moves e2e4 e7e5 g1f3\n");
}

#[test]
fn startpos_command_single_move() {
    let moves = vec![String::from("e2e4")];
    let cmd = startpos_command(&moves);
    assert_eq!(cmd, "position startpos moves e2e4\n");
}

#[test]
fn startpos_command_empty_moves_keeps_trailing_space() {
    let moves: Vec<String> = vec![];
    let cmd = startpos_command(&moves);
    assert_eq!(cmd, "position startpos moves \n");
}

#[test]
fn fen_command_is_exact() {
    let moves = vec![String::from("c8b7")];
    let cmd = fen_command("2k4R/8/3K4/8/8/8/8/8 b - - 0 1", &moves);
    assert_eq!(cmd, "position fen 2k4R/8/3K4/8/8/8/8/8 b - - 0 1 moves c8b7\n");
}

#[test]
fn fen_command_empty_moves_keeps_trailing_space() {
    let moves: Vec<String> = vec![];
    let cmd = fen_command("8/8/8/8/8/8/8/8 w - - 0 1", &moves);
    assert_eq!(cmd, "position fen 8/8/8/8/8/8/8/8 w - - 0 1 moves \n");
}

#[test]
fn go_commands_render_decimal_budgets() {
    assert_eq!(go_movetime_command(100), "go movetime 100\n");
    assert_eq!(go_movetime_command(0), "go movetime 0\n");
    assert_eq!(go_depth_command(10), "go depth 10\n");
    assert_eq!(go_movetime_command(u32::MAX), "go movetime 4294967295\n");
}

#[test]
fn generic_command_trims_and_terminates() {
    assert_eq!(generic_command("  go depth 10 \r\n"), "go depth 10\n");
    assert_eq!(generic_command("stop"), "stop\n");
}
