//! The transport model: one engine subprocess seen as a transcript.
//!
//! The protocol core is verified against this explicit model of the
//! subprocess's two streams.  `incoming` holds the lines the engine emits,
//! in order; `cursor` says how many of them have been consumed; `log`
//! records every read and write the client performs, in order.  An
//! unverified shell binds the same protocol decisions to a live subprocess.

use vstd::prelude::*;

use crate::error::EngineError;

verus! {

/// One recorded transport operation.
#[derive(Debug, PartialEq, Eq)]
pub enum TransportEvent {
    /// One blocking line read was performed (it may have found the stream
    /// closed).
    LineRead,
    /// This text was written to the engine's input, verbatim.
    Wrote(String),
}

/// Whether `e` records a write of exactly `text`.
pub open spec fn is_write_event(e: TransportEvent, text: Seq<char>) -> bool {
    e matches TransportEvent::Wrote(s) && s@ == text
}

/// The byte-level transport: a scripted output stream plus the record of
/// every operation performed on the subprocess's streams.
pub struct Transport {
    /// The lines the engine emits on its output stream, in order.
    pub incoming: Vec<String>,
    /// How many of those lines have been read so far.
    pub cursor: usize,
    /// Every operation performed, in order.
    pub log: Vec<TransportEvent>,
}

impl Transport {
    /// The transport is in a consistent state.
    pub open spec fn wf(&self) -> bool {
        self.cursor <= self.incoming.len()
    }

    /// The engine's output stream, as a sequence of lines of text.
    pub open spec fn lines(&self) -> Seq<Seq<char>> {
        self.incoming.deep_view()
    }

    /// A fresh transport over the given output stream, nothing consumed
    /// and nothing recorded yet.
    pub fn new(script: Vec<String>) -> (t: Transport)
        ensures
            t.wf(),
            t.incoming == script,
            t.cursor == 0,
            t.log@ == Seq::<TransportEvent>::empty(),
    {
        Transport { incoming: script, cursor: 0, log: Vec::new() }
    }

    /// Write `text` to the engine's input, verbatim, and record it.
    pub fn write_text(&mut self, text: &str)
        requires
            old(self).wf(),
        ensures
            final(self).wf(),
            final(self).incoming == old(self).incoming,
            final(self).cursor == old(self).cursor,
            final(self).log@.len() == old(self).log@.len() + 1,
            final(self).log@.drop_last() == old(self).log@,
            is_write_event(final(self).log@.last(), text@),
    {
        let s = String::from_str(text);
        self.log.push(TransportEvent::Wrote(s));
        proof {
            assert(self.log@.drop_last() =~= old(self).log@);
        }
    }

    /// Read the next line of the engine's output, blocking until it is
    /// there, and record the read.  A stream that ends before the next
    /// line is an explicit terminal condition: the engine has exited.
    pub fn read_line(&mut self) -> (r: Result<String, EngineError>)
        requires
            old(self).wf(),
        ensures
            final(self).wf(),
            final(self).incoming == old(self).incoming,
            final(self).log@ == old(self).log@.push(TransportEvent::LineRead),
            old(self).cursor < old(self).incoming.len() ==> {
                &&& r matches Ok(line) && line@ == old(self).lines()[old(self).cursor as int]
                &&& final(self).cursor == old(self).cursor + 1
            },
            old(self).cursor >= old(self).incoming.len() ==> {
                &&& r matches Err(e) && e is Io
                &&& final(self).cursor == old(self).cursor
            },
    {
        self.log.push(TransportEvent::LineRead);
        if self.cursor < self.incoming.len() {
            let line = self.incoming[self.cursor].clone();
            self.cursor = self.cursor + 1;
            proof {
                assert(old(self).lines()[old(self).cursor as int] == old(self).incoming@[old(
                    self,
                ).cursor as int]@);
            }
            Ok(line)
        } else {
            Err(EngineError::Io(String::from_str("engine output stream closed")))
        }
    }
}

} // verus!
