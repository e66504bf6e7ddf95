//! Builders for the command lines the client sends to the engine.
//!
//! Each builder is a plain text formatter: its contract pins the emitted
//! text exactly, with no escaping and no other transformation.

use vstd::prelude::*;

use crate::text::{dec_digits, join_with, joined_with, trim_str, trimmed, u32_digits};

verus! {

/// The text of the option-setting command for an option `name` and `value`.
pub open spec fn option_command_text(name: Seq<char>, value: Seq<char>) -> Seq<char> {
    "setoption name "@ + name + " value "@ + value + "\n"@
}

/// Format the option-setting command for `name` and `value`, verbatim.
pub fn option_command(name: &str, value: &str) -> (r: String)
    ensures
        r@ == option_command_text(name@, value@),
{
    let mut r = String::from_str("setoption name ");
    r.append(name);
    r.append(" value ");
    r.append(value);
    r.append("\n");
    r
}

/// The text of the position command that plays `moves` from the standard
/// starting position.  For no moves the move-list segment is empty, which
/// leaves one space before the newline.
pub open spec fn startpos_command_text(moves: Seq<Seq<char>>) -> Seq<char> {
    "position startpos moves "@ + joined_with(moves, ' ') + "\n"@
}

/// Format the position command for `moves` from the standard start.
pub fn startpos_command(moves: &Vec<String>) -> (r: String)
    ensures
        r@ == startpos_command_text(moves.deep_view()),
{
    proof {
        reveal_strlit(" ");
    }
    let mut r = String::from_str("position startpos moves ");
    let joined = join_with(moves, " ");
    r.append(joined.as_str());
    r.append("\n");
    r
}

/// With no moves the joined move-list segment is empty, so the emitted
/// position command keeps exactly one space between the `moves` keyword
/// and the newline — deliberate, so the wire format never varies.
pub proof fn lemma_startpos_empty_moves()
    ensures
        startpos_command_text(Seq::empty()) == "position startpos moves \n"@,
{
    reveal_strlit("position startpos moves ");
    reveal_strlit("position startpos moves \n");
    reveal_strlit("\n");
    assert(startpos_command_text(Seq::empty()) =~= "position startpos moves \n"@);
}

/// The text of the position command that sets up the position `fen` and
/// plays `moves` from it.
pub open spec fn fen_command_text(fen: Seq<char>, moves: Seq<Seq<char>>) -> Seq<char> {
    "position fen "@ + fen + " moves "@ + joined_with(moves, ' ') + "\n"@
}

/// Format the position command for the position `fen` plus `moves`.
pub fn fen_command(fen: &str, moves: &Vec<String>) -> (r: String)
    ensures
        r@ == fen_command_text(fen@, moves.deep_view()),
{
    proof {
        reveal_strlit(" ");
    }
    let mut r = String::from_str("position fen ");
    r.append(fen);
    r.append(" moves ");
    let joined = join_with(moves, " ");
    r.append(joined.as_str());
    r.append("\n");
    r
}

/// The text of the search command with a think-time budget of `ms`
/// milliseconds.
pub open spec fn go_movetime_text(ms: nat) -> Seq<char> {
    "go movetime "@ + dec_digits(ms) + "\n"@
}

/// Format the search command for a think-time of `ms` milliseconds.
pub fn go_movetime_command(ms: u32) -> (r: String)
    ensures
        r@ == go_movetime_text(ms as nat),
{
    let mut r = String::from_str("go movetime ");
    let digits = u32_digits(ms);
    r.append(digits.as_str());
    r.append("\n");
    r
}

/// The text of the search command with a fixed-depth budget of `plies`.
pub open spec fn go_depth_text(plies: nat) -> Seq<char> {
    "go depth "@ + dec_digits(plies) + "\n"@
}

/// Format the search command for a fixed depth of `plies`.
pub fn go_depth_command(plies: u32) -> (r: String)
    ensures
        r@ == go_depth_text(plies as nat),
{
    let mut r = String::from_str("go depth ");
    let digits = u32_digits(plies);
    r.append(digits.as_str());
    r.append("\n");
    r
}

/// The wire text of an arbitrary pass-through command: the caller's text,
/// trimmed, with one newline appended.
pub open spec fn generic_command_text(cmd: Seq<char>) -> Seq<char> {
    trimmed(cmd) + "\n"@
}

/// Format an arbitrary pass-through command line.
pub fn generic_command(cmd: &str) -> (r: String)
    ensures
        r@ == generic_command_text(cmd@),
{
    let mut r = trim_str(cmd);
    r.append("\n");
    r
}

} // verus!
