//! The typed-channel core: the error taxonomy, the connection's shutdown
//! state machine, and the decoder that pulls self-delimiting units off a
//! live stream while telling graceful termination apart from malformed
//! payloads.

use vstd::prelude::*;

use crate::scan::{scan_value_at, skip_ws_at, units_of};
use crate::text::push_chars;

verus! {

/// The stream conditions the channel layer distinguishes.
#[derive(Clone, Copy, PartialEq, Eq, Structural, Debug)]
pub enum IoKind {
    /// The peer closed its read side.
    BrokenPipe,
    /// The connection was reset.
    ConnectionReset,
    /// The stream ended inside a unit.
    UnexpectedEof,
    /// Any other input/output fault.
    Other,
}

/// Errors of channel operations: a transport fault, a malformed payload, a
/// bootstrap failure, or the peer having closed — the last kept distinct so
/// callers can treat graceful shutdown as an expected outcome.
#[derive(Clone, Copy, PartialEq, Eq, Structural, Debug)]
pub enum IpcError {
    /// An input/output fault other than a graceful close.
    Io(IoKind),
    /// A malformed or undecodable payload.
    Json,
    /// A bootstrap failure underneath the channel.
    Privileged(crate::service::Error),
    /// The peer has closed the connection.
    ConnectionClosed,
}

/// Direction of a shutdown request.
#[derive(Clone, Copy, PartialEq, Eq, Structural, Debug)]
pub enum ShutdownHow {
    Read,
    Write,
    Both,
}

/// Which directions of a connection have been shut down.  The operating
/// system call itself is made by the unverified runner; this state machine
/// fixes what each call means and what later operations must report.
#[derive(Clone, Copy, PartialEq, Eq, Structural, Debug)]
pub struct ConnectionState {
    pub write_down: bool,
    pub read_down: bool,
}

/// The state after a shutdown request: each requested direction is down,
/// each other direction keeps its state.  Requesting a direction that is
/// already down changes nothing.
pub open spec fn spec_apply_shutdown(s: ConnectionState, how: ShutdownHow) -> ConnectionState {
    ConnectionState {
        write_down: s.write_down || how != ShutdownHow::Read,
        read_down: s.read_down || how != ShutdownHow::Write,
    }
}

/// What a send must report, given the connection state and the fault the
/// transport reported for the write-and-flush (if any): a send after the
/// write side is down, or onto a peer that closed its read side, reports
/// the connection closed; any other fault is a transport error.
pub open spec fn spec_classify_send(s: ConnectionState, fault: Option<IoKind>) -> Result<
    (),
    IpcError,
> {
    if s.write_down {
        Err(IpcError::ConnectionClosed)
    } else {
        match fault {
            None => Ok(()),
            Some(IoKind::BrokenPipe) => Err(IpcError::ConnectionClosed),
            Some(k) => Err(IpcError::Io(k)),
        }
    }
}

impl ConnectionState {
    /// A freshly connected endpoint: both directions open.
    pub fn new() -> (r: Self)
        ensures
            !r.write_down,
            !r.read_down,
    {
        ConnectionState { write_down: false, read_down: false }
    }

    /// Records a shutdown request.  The request never fails, a repeated
    /// request included.
    pub fn apply_shutdown(&mut self, how: ShutdownHow)
        ensures
            *final(self) == spec_apply_shutdown(*old(self), how),
    {
        if how == ShutdownHow::Write || how == ShutdownHow::Both {
            self.write_down = true;
        }
        if how == ShutdownHow::Read || how == ShutdownHow::Both {
            self.read_down = true;
        }
    }

    /// Classifies the outcome of one send attempt; see
    /// [`spec_classify_send`].
    pub fn classify_send(&self, fault: Option<IoKind>) -> (r: Result<(), IpcError>)
        ensures
            r == spec_classify_send(*self, fault),
    {
        if self.write_down {
            Err(IpcError::ConnectionClosed)
        } else {
            match fault {
                None => Ok(()),
                Some(IoKind::BrokenPipe) => Err(IpcError::ConnectionClosed),
                Some(k) => Err(IpcError::Io(k)),
            }
        }
    }
}

/// Shutting a direction down twice is the same as doing it once, and a
/// send attempted after the write side is down reports the connection
/// closed — an error, never a hang or a crash.
pub proof fn lemma_shutdown_idempotent(s: ConnectionState, how: ShutdownHow, fault: Option<
    IoKind,
>)
    ensures
        spec_apply_shutdown(spec_apply_shutdown(s, how), how) == spec_apply_shutdown(s, how),
        how != ShutdownHow::Read ==> spec_classify_send(spec_apply_shutdown(s, how), fault)
            == Err::<(), IpcError>(IpcError::ConnectionClosed),
{
}

/// Classification of a read-side transport fault: a broken pipe, a reset
/// or an unexpected end are folded into graceful termination (no error
/// element); any other fault is surfaced as a transport error.
pub open spec fn spec_terminal_kind(k: IoKind) -> bool {
    k == IoKind::BrokenPipe || k == IoKind::ConnectionReset || k == IoKind::UnexpectedEof
}

/// One step of the decoder.
pub enum UnitStep {
    /// One complete unit was pulled off the stream.
    Item(Vec<char>),
    /// The buffered text holds no complete unit; more input is needed.
    NeedMore,
    /// The decoder is terminal: the stream has ended.
    End,
}

/// Pull-based decoder over a live stream: buffers arriving text, yields
/// one self-delimiting unit per step, and holds a single terminal flag —
/// once the end of the stream has been observed, the decoder yields
/// nothing further, whatever arrives later.
pub struct IpcMessageIterator {
    buf: Vec<char>,
    closed: bool,
    eof: bool,
}

impl IpcMessageIterator {
    /// The text received and not yet consumed.
    pub closed spec fn remaining(&self) -> Seq<char> {
        self.buf@
    }

    /// Whether the decoder has observed the end of the stream and is
    /// terminal: it yields nothing further, whatever arrives later.
    pub closed spec fn terminal(&self) -> bool {
        self.eof
    }

    /// Whether the stream has ended: no further input will arrive, and
    /// once the buffered complete units are drained the decoder becomes
    /// terminal.
    pub closed spec fn stream_ended(&self) -> bool {
        self.closed
    }

    pub fn new() -> (r: Self)
        ensures
            r.remaining() == Seq::<char>::empty(),
            !r.terminal(),
            !r.stream_ended(),
    {
        IpcMessageIterator { buf: Vec::new(), closed: false, eof: false }
    }

    /// Hands newly received text to the decoder.
    pub fn feed(&mut self, s: &str)
        ensures
            final(self).remaining() == old(self).remaining() + s@,
            final(self).terminal() == old(self).terminal(),
            final(self).stream_ended() == old(self).stream_ended(),
    {
        push_chars(&mut self.buf, s);
    }

    /// Records that the stream has ended.  Buffered complete units are
    /// still yielded; after them the decoder turns terminal — a close in
    /// the middle of a unit folds into termination the same way.
    pub fn on_stream_end(&mut self)
        ensures
            final(self).remaining() == old(self).remaining(),
            final(self).terminal() == old(self).terminal(),
            final(self).stream_ended(),
    {
        self.closed = true;
    }

    /// Classifies a read-side fault: a terminal condition silently ends
    /// the stream; any other fault is returned as an explicit error
    /// element, and the decoder stays usable.
    pub fn on_transport_error(&mut self, k: IoKind) -> (r: Option<IpcError>)
        ensures
            final(self).remaining() == old(self).remaining(),
            final(self).stream_ended() == old(self).stream_ended(),
            spec_terminal_kind(k) ==> final(self).terminal() && r is None,
            !spec_terminal_kind(k) ==> final(self).terminal() == old(self).terminal() && r
                == Some(IpcError::Io(k)),
    {
        if k == IoKind::BrokenPipe || k == IoKind::ConnectionReset || k == IoKind::UnexpectedEof {
            self.eof = true;
            None
        } else {
            Some(IpcError::Io(k))
        }
    }

    /// Pulls the next complete unit off the buffered text.  Once terminal,
    /// the decoder yields nothing further.  Otherwise it yields the first
    /// complete unit and keeps exactly the units after it; with no
    /// complete unit buffered it asks for more input, or — when the
    /// stream has ended, a trailing incomplete unit included — turns
    /// terminal.
    pub fn next_unit(&mut self) -> (r: UnitStep)
        ensures
            match r {
                UnitStep::End => (old(self).terminal() && *final(self) == *old(self)) || (
                !old(self).terminal() && old(self).stream_ended() && units_of(
                    old(self).remaining(),
                ).len() == 0 && final(self).terminal() && final(self).remaining() == old(
                    self,
                ).remaining()),
                UnitStep::Item(u) => {
                    &&& !old(self).terminal()
                    &&& !final(self).terminal()
                    &&& final(self).stream_ended() == old(self).stream_ended()
                    &&& units_of(old(self).remaining()).len() > 0
                    &&& u@ == units_of(old(self).remaining())[0]
                    &&& units_of(final(self).remaining()) == units_of(
                        old(self).remaining(),
                    ).drop_first()
                },
                UnitStep::NeedMore => {
                    &&& !old(self).terminal()
                    &&& !old(self).stream_ended()
                    &&& *final(self) == *old(self)
                    &&& units_of(old(self).remaining()).len() == 0
                },
            },
    {
        if self.eof {
            return UnitStep::End;
        }
        let s = self.buf.as_slice();
        let start = skip_ws_at(s, 0);
        proof {
            crate::scan::lemma_skip_ws_bounds(self.buf@, 0);
        }
        if start >= self.buf.len() {
            if self.closed {
                self.eof = true;
                return UnitStep::End;
            }
            return UnitStep::NeedMore;
        }
        match scan_value_at(s, start) {
            Some(j) => {
                proof {
                    crate::scan::lemma_scan_value_bounds(self.buf@, start as int, j as int);
                }
                let unit = crate::text::copy_range(s, start, j);
                let rest = crate::text::copy_range(s, j, self.buf.len());
                proof {
                    assert(units_of(self.buf@) == seq![
                        self.buf@.subrange(start as int, j as int),
                    ] + units_of(self.buf@.subrange(j as int, self.buf@.len() as int)));
                }
                let ghost prev = self.buf@;
                self.buf = rest;
                proof {
                    assert(units_of(prev).drop_first() =~= units_of(self.buf@));
                }
                UnitStep::Item(unit)
            },
            None => {
                if self.closed {
                    self.eof = true;
                    UnitStep::End
                } else {
                    UnitStep::NeedMore
                }
            },
        }
    }
}

/// One step of a typed read from the channel: a decoded message, an
/// explicit error element for a malformed unit (after which the decoder
/// stays usable), a request for more input, or the end of the stream.
pub enum Step<M> {
    Msg(M),
    Bad(IpcError),
    NeedMore,
    End,
}

} // verus!
