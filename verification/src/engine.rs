//! The client: one engine, one synchronous request/response surface.
//!
//! An `Engine` owns the transport of one engine subprocess and a single
//! search budget.  Every operation blocks for its whole duration; there is
//! at most one request in flight, and a transport failure leaves the
//! instance unusable.  Concurrent use of one instance must be serialized
//! by the caller: the protocol carries no request identifiers.

use vstd::prelude::*;

use crate::commands::{fen_command, fen_command_text, go_depth_command, go_depth_text,
    go_movetime_command, go_movetime_text, option_command, option_command_text, generic_command,
    generic_command_text, startpos_command, startpos_command_text};
use crate::error::EngineError;
use crate::protocol::{all_blank, barrier_log, drained_lines, lines_all_blank, lemma_marker_index,
    lemma_result_index, marker_index, result_index, search_step, send_and_drain, send_log,
    SearchStep};
use crate::text::{joined_with, join_with, second_token};
use crate::transport::{Transport, TransportEvent, is_write_event};

verus! {

/// The default think-time budget, in milliseconds.
pub const DEFAULT_TIME: u32 = 100;

/// The search budget: a think-time in milliseconds or a fixed depth in
/// plies, mutually exclusive.
#[derive(Debug, Clone, Copy, PartialEq, Eq, Structural)]
pub enum SearchBudget {
    /// Think for this many milliseconds.
    MoveTime(u32),
    /// Search to this fixed depth, in plies.
    Depth(u32),
}

/// The search command a budget turns into.
pub open spec fn go_command_view(b: SearchBudget) -> Seq<char> {
    match b {
        SearchBudget::MoveTime(ms) => go_movetime_text(ms as nat),
        SearchBudget::Depth(plies) => go_depth_text(plies as nat),
    }
}

/// The operation record of construction, appended to `pre`: one initial
/// line read, one handshake command write, then one full synchronization
/// barrier (the probe write followed by only reads).
pub open spec fn construction_log(
    pre: Seq<TransportEvent>,
    post: Seq<TransportEvent>,
    n_reads: nat,
) -> bool {
    &&& post.len() == pre.len() + 3 + n_reads
    &&& post.subrange(0, pre.len() as int) == pre
    &&& post[pre.len() as int] is LineRead
    &&& is_write_event(post[pre.len() as int + 1], "uci\n"@)
    &&& is_write_event(post[pre.len() as int + 2], "isready\n"@)
    &&& forall|i: int| pre.len() + 3 <= i < post.len() ==> post[i] is LineRead
}

/// The client for one engine subprocess.
pub struct Engine {
    /// The engine's transport.
    pub transport: Transport,
    /// The search budget `bestmove` sends.
    pub budget: SearchBudget,
}

impl Engine {
    /// The client is in a consistent state.
    pub open spec fn wf(&self) -> bool {
        self.transport.wf()
    }

    /// Create a new client over a transport whose subprocess was just
    /// spawned: read the engine's one greeting line, send the handshake
    /// command, and run one full synchronization barrier.  No usable
    /// instance is returned before that barrier completes.  Fails when the
    /// stream ends before the greeting or before the barrier marker.
    pub fn new(transport: Transport) -> (r: Result<Engine, EngineError>)
        requires
            transport.wf(),
        ensures
            ({
                let lines = transport.lines();
                let c0 = transport.cursor as int;
                let m = marker_index(lines, c0 + 1);
                &&& (c0 < lines.len() && m < lines.len() ==> {
                    &&& r matches Ok(eng)
                    &&& eng.wf()
                    &&& eng.budget == SearchBudget::MoveTime(DEFAULT_TIME)
                    &&& eng.transport.incoming == transport.incoming
                    &&& eng.transport.cursor == m + 1
                    &&& construction_log(transport.log@, eng.transport.log@, (m - c0) as nat)
                })
                &&& (c0 >= lines.len() ==> (r matches Err(e) && e is Io))
                &&& (c0 < lines.len() && m >= lines.len() ==> (r matches Err(e) && e is Io))
            }),
    {
        let mut transport = transport;
        let ghost pre = transport.log@;
        let ghost lines = transport.lines();
        let ghost c0 = transport.cursor as int;
        match transport.read_line() {
            Err(e) => Err(e),
            Ok(_) => {
                let ghost pre1 = transport.log@;
                match send_and_drain(&mut transport, "uci\n") {
                    Err(e) => Err(e),
                    Ok(_) => {
                        proof {
                            let post = transport.log@;
                            let m = marker_index(lines, c0 + 1);
                            lemma_marker_index(lines, c0 + 1);
                            assert(pre1 == pre.push(TransportEvent::LineRead));
                            assert forall|i: int| 0 <= i < pre1.len() implies post[i]
                                == pre1[i] by {
                                assert(post.subrange(0, pre1.len() as int)[i] == post[i]);
                            }
                            assert(post.subrange(0, pre.len() as int) =~= pre);
                            assert(construction_log(pre, post, (m - c0) as nat));
                        }
                        Ok(Engine { transport, budget: SearchBudget::MoveTime(DEFAULT_TIME) })
                    },
                }
            },
        }
    }

    /// Change the think-time the engine spends looking for a move, in
    /// milliseconds.  Consumes and returns the client; the transport is
    /// untouched.
    #[must_use]
    pub fn movetime(self, new_movetime: u32) -> (r: Engine)
        ensures
            r.transport == self.transport,
            r.budget == SearchBudget::MoveTime(new_movetime),
    {
        Engine { budget: SearchBudget::MoveTime(new_movetime), ..self }
    }

    /// Change the budget to a fixed search depth, in plies.  Consumes and
    /// returns the client; the transport is untouched.
    #[must_use]
    pub fn depth(self, new_depth: u32) -> (r: Engine)
        ensures
            r.transport == self.transport,
            r.budget == SearchBudget::Depth(new_depth),
    {
        Engine { budget: SearchBudget::Depth(new_depth), ..self }
    }

    /// Ask the engine to play `moves` (coordinate notation) from the
    /// standard starting position.  Fire-and-forget: exactly the position
    /// command is written, nothing is read, and the engine is relied on to
    /// process its input strictly in order.
    pub fn make_moves(&mut self, moves: &Vec<String>) -> (r: Result<(), EngineError>)
        requires
            old(self).wf(),
        ensures
            final(self).wf(),
            final(self).transport.incoming == old(self).transport.incoming,
            final(self).transport.cursor == old(self).transport.cursor,
            final(self).budget == old(self).budget,
            final(self).transport.log@.len() == old(self).transport.log@.len() + 1,
            final(self).transport.log@.drop_last() == old(self).transport.log@,
            is_write_event(
                final(self).transport.log@.last(),
                startpos_command_text(moves.deep_view()),
            ),
            r is Ok,
    {
        let cmd = startpos_command(moves);
        self.transport.write_text(cmd.as_str());
        Ok(())
    }

    /// Ask the engine to set up the position `fen` (Forsyth-Edwards
    /// Notation).  Fire-and-forget, like `make_moves`.
    pub fn set_position(&mut self, fen: &str) -> (r: Result<(), EngineError>)
        requires
            old(self).wf(),
        ensures
            final(self).wf(),
            final(self).transport.incoming == old(self).transport.incoming,
            final(self).transport.cursor == old(self).transport.cursor,
            final(self).budget == old(self).budget,
            final(self).transport.log@.len() == old(self).transport.log@.len() + 1,
            final(self).transport.log@.drop_last() == old(self).transport.log@,
            is_write_event(
                final(self).transport.log@.last(),
                fen_command_text(fen@, Seq::empty()),
            ),
            r is Ok,
    {
        let moves: Vec<String> = Vec::new();
        proof {
            assert(moves.deep_view() =~= Seq::<Seq<char>>::empty());
        }
        self.make_moves_from_position(fen, &moves)
    }

    /// Ask the engine to set up the position `fen` and play `moves` from
    /// it.  Fire-and-forget, like `make_moves`.
    pub fn make_moves_from_position(&mut self, fen: &str, moves: &Vec<String>) -> (r: Result<
        (),
        EngineError,
    >)
        requires
            old(self).wf(),
        ensures
            final(self).wf(),
            final(self).transport.incoming == old(self).transport.incoming,
            final(self).transport.cursor == old(self).transport.cursor,
            final(self).budget == old(self).budget,
            final(self).transport.log@.len() == old(self).transport.log@.len() + 1,
            final(self).transport.log@.drop_last() == old(self).transport.log@,
            is_write_event(
                final(self).transport.log@.last(),
                fen_command_text(fen@, moves.deep_view()),
            ),
            r is Ok,
    {
        let cmd = fen_command(fen, moves);
        self.transport.write_text(cmd.as_str());
        Ok(())
    }

    /// Ask the engine for the best move in the current position: send the
    /// search command with the configured budget, then wait for the result
    /// line and return its second token, the move in coordinate notation.
    /// Fails when the stream ends first, or when the result line carries
    /// no move.
    pub fn bestmove(&mut self) -> (r: Result<String, EngineError>)
        requires
            old(self).wf(),
        ensures
            final(self).wf(),
            final(self).transport.incoming == old(self).transport.incoming,
            final(self).budget == old(self).budget,
            ({
                let lines = old(self).transport.lines();
                let c0 = old(self).transport.cursor as int;
                let m = result_index(lines, c0);
                &&& (m < lines.len() && second_token(lines[m]).len() > 0 ==> {
                    &&& r matches Ok(mv) && mv@ == second_token(lines[m])
                    &&& final(self).transport.cursor == m + 1
                    &&& send_log(
                        old(self).transport.log@,
                        final(self).transport.log@,
                        go_command_view(old(self).budget),
                        (m + 1 - c0) as nat,
                    )
                })
                &&& (m < lines.len() && second_token(lines[m]).len() == 0 ==> {
                    &&& r matches Err(e) && e is Io
                    &&& final(self).transport.cursor == m + 1
                    &&& send_log(
                        old(self).transport.log@,
                        final(self).transport.log@,
                        go_command_view(old(self).budget),
                        (m + 1 - c0) as nat,
                    )
                })
                &&& (m >= lines.len() ==> {
                    &&& r matches Err(e) && e is Io
                    &&& final(self).transport.cursor == lines.len()
                    &&& send_log(
                        old(self).transport.log@,
                        final(self).transport.log@,
                        go_command_view(old(self).budget),
                        (lines.len() - c0 + 1) as nat,
                    )
                })
            }),
    {
        let ghost lines = old(self).transport.lines();
        let ghost c0 = old(self).transport.cursor as int;
        let ghost pre = old(self).transport.log@;
        proof {
            lemma_result_index(lines, c0);
        }
        let cmd = match self.budget {
            SearchBudget::MoveTime(ms) => go_movetime_command(ms),
            SearchBudget::Depth(plies) => go_depth_command(plies),
        };
        self.transport.write_text(cmd.as_str());
        proof {
            assert(self.transport.log@.subrange(0, pre.len() as int) =~= pre);
            assert(send_log(pre, self.transport.log@, go_command_view(old(self).budget), 0));
        }
        loop
            invariant
                self.transport.wf(),
                self.transport.incoming == old(self).transport.incoming,
                self.budget == old(self).budget,
                lines == self.transport.lines(),
                lines == old(self).transport.lines(),
                c0 == old(self).transport.cursor as int,
                pre == old(self).transport.log@,
                0 <= c0 <= self.transport.cursor <= lines.len(),
                result_index(lines, c0) == result_index(lines, self.transport.cursor as int),
                send_log(
                    pre,
                    self.transport.log@,
                    go_command_view(old(self).budget),
                    (self.transport.cursor - c0) as nat,
                ),
            decreases lines.len() - self.transport.cursor,
        {
            let ghost j = self.transport.cursor as int;
            let line = match self.transport.read_line() {
                Ok(l) => l,
                Err(e) => {
                    proof {
                        assert(result_index(lines, j) == lines.len() as int);
                        assert(self.transport.log@.subrange(0, pre.len() as int) =~= pre);
                    }
                    return Err(e);
                },
            };
            proof {
                assert(line@ == lines[j]);
                assert(self.transport.log@.subrange(0, pre.len() as int) =~= pre);
            }
            match search_step(line.as_str()) {
                SearchStep::Pending => {},
                SearchStep::Found(mv) => {
                    proof {
                        assert(result_index(lines, j) == j);
                    }
                    return Ok(mv);
                },
                SearchStep::Missing => {
                    proof {
                        assert(result_index(lines, j) == j);
                    }
                    return Err(EngineError::Io(String::from_str("result line carries no move")));
                },
            }
        }
    }

    /// Set the engine option `name` to `value`, then run a barrier and
    /// classify the collected output: empty output means the option was
    /// accepted; any non-empty output is taken as rejection and reported
    /// as an unrecognized option carrying `name`.  That classification is
    /// a heuristic, not a protocol guarantee: an engine that emits benign
    /// informational lines for an accepted option is misreported as
    /// failure.
    pub fn set_option(&mut self, name: &str, value: &str) -> (r: Result<(), EngineError>)
        requires
            old(self).wf(),
        ensures
            final(self).wf(),
            final(self).transport.incoming == old(self).transport.incoming,
            final(self).budget == old(self).budget,
            ({
                let lines = old(self).transport.lines();
                let c0 = old(self).transport.cursor as int;
                let m = marker_index(lines, c0);
                &&& (m < lines.len() ==> {
                    &&& final(self).transport.cursor == m + 1
                    &&& barrier_log(
                        old(self).transport.log@,
                        final(self).transport.log@,
                        option_command_text(name@, value@),
                        (m + 1 - c0) as nat,
                    )
                    &&& (all_blank(drained_lines(lines, c0)) ==> r is Ok)
                    &&& (!all_blank(drained_lines(lines, c0)) ==> (r matches Err(e)
                        && e matches EngineError::UnknownOption(n) && n@ == name@))
                })
                &&& (m >= lines.len() ==> (r matches Err(e) && e is Io))
            }),
    {
        let cmd = option_command(name, value);
        match send_and_drain(&mut self.transport, cmd.as_str()) {
            Err(e) => Err(e),
            Ok(collected) => {
                if lines_all_blank(&collected) {
                    Ok(())
                } else {
                    Err(EngineError::UnknownOption(String::from_str(name)))
                }
            },
        }
    }

    /// Send an arbitrary engine-specific command (trimmed, one newline
    /// appended), run a barrier, and return the output collected before
    /// the marker, joined by newlines.
    pub fn command(&mut self, cmd: &str) -> (r: Result<String, EngineError>)
        requires
            old(self).wf(),
        ensures
            final(self).wf(),
            final(self).transport.incoming == old(self).transport.incoming,
            final(self).budget == old(self).budget,
            ({
                let lines = old(self).transport.lines();
                let c0 = old(self).transport.cursor as int;
                let m = marker_index(lines, c0);
                &&& (m < lines.len() ==> {
                    &&& r matches Ok(out) && out@ == joined_with(drained_lines(lines, c0), '\n')
                    &&& final(self).transport.cursor == m + 1
                    &&& barrier_log(
                        old(self).transport.log@,
                        final(self).transport.log@,
                        generic_command_text(cmd@),
                        (m + 1 - c0) as nat,
                    )
                })
                &&& (m >= lines.len() ==> (r matches Err(e) && e is Io))
            }),
    {
        let wire = generic_command(cmd);
        match send_and_drain(&mut self.transport, wire.as_str()) {
            Err(e) => Err(e),
            Ok(collected) => {
                proof {
                    reveal_strlit("\n");
                }
                Ok(join_with(&collected, "\n"))
            },
        }
    }
}

} // verus!
