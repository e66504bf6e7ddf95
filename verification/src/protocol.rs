//! The synchronization core of the client.
//!
//! The engine's output stream has no framing: unsolicited lines interleave
//! with the response to a command, and most responses do not terminate
//! themselves.  The one reliable guarantee is that the liveness-probe
//! command is always eventually answered by exactly one marker line.  The
//! core turns that guarantee into a barrier: send the command, send the
//! probe, then drain lines until the marker, returning everything that
//! arrived strictly in between, in order, marker excluded.
//!
//! Search results are the one self-terminating response: there the loop
//! waits for the line whose first token is the result marker token, and
//! extracts the move from its second token.

use vstd::prelude::*;

use crate::error::EngineError;
use crate::text::{first_token, second_token, str_eq, trim_str, trimmed, first_token_str,
    second_token_str};
use crate::transport::{Transport, TransportEvent, is_write_event};

verus! {

/// Whether `line` is the barrier marker: it trims to the marker word.
pub open spec fn is_marker_line(line: Seq<char>) -> bool {
    trimmed(line) == "readyok"@
}

/// Whether `line` carries a search result: its first whitespace-delimited
/// token is the result marker token.
pub open spec fn is_result_line(line: Seq<char>) -> bool {
    first_token(line) == "bestmove"@
}

/// The index of the first marker line of `lines` at or after `start`,
/// or `lines.len()` if there is none.
pub open spec fn marker_index(lines: Seq<Seq<char>>, start: int) -> int
    decreases lines.len() - start
        when 0 <= start <= lines.len()
{
    if start >= lines.len() {
        lines.len() as int
    } else if is_marker_line(lines[start]) {
        start
    } else {
        marker_index(lines, start + 1)
    }
}

/// The index of the first result line of `lines` at or after `start`,
/// or `lines.len()` if there is none.
pub open spec fn result_index(lines: Seq<Seq<char>>, start: int) -> int
    decreases lines.len() - start
        when 0 <= start <= lines.len()
{
    if start >= lines.len() {
        lines.len() as int
    } else if is_result_line(lines[start]) {
        start
    } else {
        result_index(lines, start + 1)
    }
}

/// What the barrier drain collects from `lines` starting at `start`: every
/// line before the first marker, trimmed, in order, the marker excluded.
pub open spec fn drained_lines(lines: Seq<Seq<char>>, start: int) -> Seq<Seq<char>>
    decreases lines.len() - start
        when 0 <= start <= lines.len()
{
    if start >= lines.len() {
        Seq::empty()
    } else if is_marker_line(lines[start]) {
        Seq::empty()
    } else {
        seq![trimmed(lines[start])] + drained_lines(lines, start + 1)
    }
}

/// The first marker is where the scan says, everything before it is no
/// marker, and there is a marker at the returned index when one exists.
pub proof fn lemma_marker_index(lines: Seq<Seq<char>>, start: int)
    requires
        0 <= start <= lines.len(),
    ensures
        start <= marker_index(lines, start) <= lines.len(),
        marker_index(lines, start) < lines.len() ==> is_marker_line(
            lines[marker_index(lines, start)],
        ),
        forall|i: int| start <= i < marker_index(lines, start) ==> !is_marker_line(lines[i]),
    decreases lines.len() - start,
{
    if start < lines.len() && !is_marker_line(lines[start]) {
        lemma_marker_index(lines, start + 1);
    }
}

/// The same characterization for the result-line scan.
pub proof fn lemma_result_index(lines: Seq<Seq<char>>, start: int)
    requires
        0 <= start <= lines.len(),
    ensures
        start <= result_index(lines, start) <= lines.len(),
        result_index(lines, start) < lines.len() ==> is_result_line(
            lines[result_index(lines, start)],
        ),
        forall|i: int| start <= i < result_index(lines, start) ==> !is_result_line(lines[i]),
    decreases lines.len() - start,
{
    if start < lines.len() && !is_result_line(lines[start]) {
        lemma_result_index(lines, start + 1);
    }
}

/// The barrier drain is exact.  If `lines[start ..]` begins with some
/// number of non-marker lines followed by a marker at `end`, the drain
/// stops at exactly that marker and collects exactly the lines before it,
/// trimmed, in order, the marker excluded; for zero such lines it collects
/// nothing.
pub proof fn lemma_drain_exact(lines: Seq<Seq<char>>, start: int, end: int)
    requires
        0 <= start <= end < lines.len(),
        forall|i: int| start <= i < end ==> !is_marker_line(lines[i]),
        is_marker_line(lines[end]),
    ensures
        marker_index(lines, start) == end,
        drained_lines(lines, start) == lines.subrange(start, end).map_values(
            |l: Seq<char>| trimmed(l),
        ),
        end == start ==> drained_lines(lines, start) == Seq::<Seq<char>>::empty(),
    decreases end - start,
{
    if start == end {
        assert(lines.subrange(start, end).map_values(|l: Seq<char>| trimmed(l))
            =~= Seq::<Seq<char>>::empty());
    } else {
        lemma_drain_exact(lines, start + 1, end);
        assert(seq![trimmed(lines[start])] + lines.subrange(start + 1, end).map_values(
            |l: Seq<char>| trimmed(l),
        ) =~= lines.subrange(start, end).map_values(|l: Seq<char>| trimmed(l)));
    }
}

/// Terminal extraction is exact whatever trails the move: a line made of
/// the result marker token, one space, a move, and any whitespace-led tail
/// (trailing tokens included) is a result line whose payload is exactly
/// that move.
pub proof fn lemma_result_line_extraction(mv: Seq<char>, trail: Seq<char>)
    requires
        mv.len() > 0,
        forall|i: int| 0 <= i < mv.len() ==> !crate::text::is_ws(mv[i]),
        trail.len() == 0 || crate::text::is_ws(trail[0]),
    ensures
        is_result_line("bestmove"@ + seq![' '] + mv + trail),
        second_token("bestmove"@ + seq![' '] + mv + trail) == mv,
{
    reveal_strlit("bestmove");
    assert forall|i: int| 0 <= i < "bestmove"@.len() implies !crate::text::is_ws(
        "bestmove"@[i],
    ) by {
        assert("bestmove"@.len() == 8);
    }
    crate::text::lemma_two_tokens("bestmove"@, mv, trail);
}

/// The decision the drain loop takes on one line of output.
pub enum DrainStep {
    /// The line is the barrier marker: the drain is complete.
    Stop,
    /// The line belongs to the pending output: keep its trimmed text.
    Keep(String),
}

/// Classify one line of engine output against the barrier marker.
pub fn drain_step(line: &str) -> (r: DrainStep)
    ensures
        is_marker_line(line@) ==> r is Stop,
        !is_marker_line(line@) ==> (r matches DrainStep::Keep(t) && t@ == trimmed(line@)),
{
    let t = trim_str(line);
    if str_eq(t.as_str(), "readyok") {
        DrainStep::Stop
    } else {
        DrainStep::Keep(t)
    }
}

/// The decision the search loop takes on one line of output.
pub enum SearchStep {
    /// Not a result line: keep waiting.
    Pending,
    /// The result line, carrying this move.
    Found(String),
    /// A result line with no second token: the engine sent a malformed
    /// result.
    Missing,
}

/// Classify one line of engine output against the search-result marker.
pub fn search_step(line: &str) -> (r: SearchStep)
    ensures
        !is_result_line(line@) ==> r is Pending,
        is_result_line(line@) && second_token(line@).len() > 0 ==> (r matches SearchStep::Found(mv)
            && mv@ == second_token(line@)),
        is_result_line(line@) && second_token(line@).len() == 0 ==> r is Missing,
{
    let tok = first_token_str(line);
    if str_eq(tok.as_str(), "bestmove") {
        let mv = second_token_str(line);
        if mv.as_str().is_empty() {
            SearchStep::Missing
        } else {
            SearchStep::Found(mv)
        }
    } else {
        SearchStep::Pending
    }
}

/// Whether every collected line is blank.  The drain trims each line it
/// keeps, so blank means empty.
pub open spec fn all_blank(lines: Seq<Seq<char>>) -> bool {
    forall|i: int| 0 <= i < lines.len() ==> lines[i].len() == 0
}

/// Check that every collected line is blank.
pub fn lines_all_blank(collected: &Vec<String>) -> (r: bool)
    ensures
        r == all_blank(collected.deep_view()),
{
    let mut i: usize = 0;
    while i < collected.len()
        invariant
            i <= collected.len(),
            forall|k: int| 0 <= k < i ==> collected.deep_view()[k].len() == 0,
        decreases collected.len() - i,
    {
        if !collected[i].as_str().is_empty() {
            proof {
                assert(collected.deep_view()[i as int].len() > 0);
            }
            return false;
        }
        i += 1;
    }
    true
}

/// The operation record of one synchronization barrier: appended to `pre`,
/// a write of the command, a write of the liveness probe, then only reads.
pub open spec fn barrier_log(
    pre: Seq<TransportEvent>,
    post: Seq<TransportEvent>,
    cmd: Seq<char>,
    n_reads: nat,
) -> bool {
    &&& post.len() == pre.len() + 2 + n_reads
    &&& post.subrange(0, pre.len() as int) == pre
    &&& is_write_event(post[pre.len() as int], cmd)
    &&& is_write_event(post[pre.len() as int + 1], "isready\n"@)
    &&& forall|i: int| pre.len() + 2 <= i < post.len() ==> post[i] is LineRead
}

/// The operation record of one fire-and-forget send followed by reads:
/// appended to `pre`, a write of the command, then only reads.
pub open spec fn send_log(
    pre: Seq<TransportEvent>,
    post: Seq<TransportEvent>,
    cmd: Seq<char>,
    n_reads: nat,
) -> bool {
    &&& post.len() == pre.len() + 1 + n_reads
    &&& post.subrange(0, pre.len() as int) == pre
    &&& is_write_event(post[pre.len() as int], cmd)
    &&& forall|i: int| pre.len() + 1 <= i < post.len() ==> post[i] is LineRead
}

/// Synchronized send-and-drain: send `cmd` verbatim, send the liveness
/// probe, then read lines until the barrier marker.  Returns the output
/// produced strictly between command and marker, trimmed, in receipt
/// order, marker excluded.  If the stream ends before a marker the engine
/// has exited and the drain fails.
pub fn send_and_drain(t: &mut Transport, cmd: &str) -> (r: Result<Vec<String>, EngineError>)
    requires
        old(t).wf(),
    ensures
        final(t).wf(),
        final(t).incoming == old(t).incoming,
        ({
            let lines = old(t).lines();
            let c0 = old(t).cursor as int;
            let m = marker_index(lines, c0);
            &&& (m < lines.len() ==> {
                &&& r matches Ok(out) && out.deep_view() == drained_lines(lines, c0)
                &&& final(t).cursor == m + 1
                &&& barrier_log(old(t).log@, final(t).log@, cmd@, (m + 1 - c0) as nat)
            })
            &&& (m >= lines.len() ==> {
                &&& r matches Err(e) && e is Io
                &&& final(t).cursor == lines.len()
                &&& barrier_log(old(t).log@, final(t).log@, cmd@, (lines.len() - c0 + 1) as nat)
            })
        }),
{
    let ghost lines = old(t).lines();
    let ghost c0 = old(t).cursor as int;
    let ghost pre = old(t).log@;
    proof {
        lemma_marker_index(lines, c0);
    }
    t.write_text(cmd);
    t.write_text("isready\n");
    proof {
        assert(t.log@.subrange(0, pre.len() as int) =~= pre);
        assert(barrier_log(pre, t.log@, cmd@, 0));
    }
    let mut out: Vec<String> = Vec::new();
    loop
        invariant
            t.wf(),
            t.incoming == old(t).incoming,
            lines == t.lines(),
            lines == old(t).lines(),
            c0 == old(t).cursor as int,
            pre == old(t).log@,
            0 <= c0 <= t.cursor <= lines.len(),
            marker_index(lines, c0) == marker_index(lines, t.cursor as int),
            drained_lines(lines, c0) == out.deep_view() + drained_lines(lines, t.cursor as int),
            barrier_log(pre, t.log@, cmd@, (t.cursor - c0) as nat),
        decreases lines.len() - t.cursor,
    {
        let ghost j = t.cursor as int;
        let ghost log_before = t.log@;
        let line = match t.read_line() {
            Ok(l) => l,
            Err(e) => {
                proof {
                    assert(marker_index(lines, j) == lines.len() as int);
                    assert(t.log@.subrange(0, pre.len() as int) =~= pre);
                }
                return Err(e);
            },
        };
        proof {
            assert(line@ == lines[j]);
            assert(t.log@.subrange(0, pre.len() as int) =~= pre);
        }
        match drain_step(line.as_str()) {
            DrainStep::Stop => {
                proof {
                    assert(marker_index(lines, j) == j);
                    assert(drained_lines(lines, j) =~= Seq::<Seq<char>>::empty());
                    assert(out.deep_view() + Seq::<Seq<char>>::empty() =~= out.deep_view());
                }
                return Ok(out);
            },
            DrainStep::Keep(tr) => {
                let ghost dv = out.deep_view();
                out.push(tr);
                proof {
                    assert(out.deep_view() =~= dv.push(trimmed(lines[j])));
                    assert(drained_lines(lines, j) == seq![trimmed(lines[j])] + drained_lines(
                        lines,
                        j + 1,
                    ));
                    assert(dv.push(trimmed(lines[j])) + drained_lines(lines, j + 1) =~= dv + (seq![
                        trimmed(lines[j]),
                    ] + drained_lines(lines, j + 1)));
                }
            },
        }
    }
}

} // verus!
