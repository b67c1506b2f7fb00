//! The push-driven session engine: one byte (or one target event) at a time
//! goes in, the new state and at most one requested action come out. A
//! blocking host can wrap this in a loop around its own polling call; an
//! interrupt handler can drive it byte by byte with no blocking inside.
//!
//! While the target runs, ordinary bytes are only queued; the dedicated
//! interrupt byte is delivered out of band, before any queued command byte
//! is looked at. Acknowledgment mode is session state: the client may turn
//! it off mid-session.

use crate::commands::{parse_command_spec, parse_command, Command};
use crate::packet::{decode_frame, decode_spec, DecodeModel, DecodeOutcome, ACK, FRAME_END,
    FRAME_START, NAK};
use vstd::prelude::*;

verus! {

/// The dedicated out-of-band interrupt byte.
pub const INTERRUPT: u8 = 0x03;

/// The phases a session moves through.
#[derive(Debug, Clone, Copy, PartialEq, Eq)]
pub enum SessionStatus {
    /// Between commands: incoming bytes assemble the next frame.
    AwaitingPacket,
    /// A resume or step handed control to the target.
    TargetRunning,
    /// The session ended; everything further is ignored.
    Disconnected,
}

/// One input to the engine.
#[derive(Debug, Clone, Copy, PartialEq, Eq)]
pub enum Event {
    /// A byte arrived from the transport.
    Byte(u8),
    /// The running target reported a stop.
    TargetStopped,
}

/// What the caller must do after a step.
#[derive(Debug, PartialEq, Eq)]
pub enum Action {
    /// Nothing yet; feed the next event when it comes.
    Wait,
    /// Invoke the target's interrupt handler now, before any queued byte.
    DeliverInterrupt,
    /// A full frame arrived; decode it and answer.
    FrameReady(Vec<u8>),
    /// Report the target's stop reason to the client.
    ReportStop,
}

/// The mathematical state of a session.
pub struct SessionModel {
    /// The phase.
    pub status: SessionStatus,
    /// Whether a frame start has been seen and the frame is being assembled.
    pub collecting: bool,
    /// Whether the checksum separator of the current frame has been seen.
    pub hash_seen: bool,
    /// Checksum digits collected so far after the separator.
    pub cs_digits: int,
    /// The partially assembled frame.
    pub frame: Seq<u8>,
    /// Bytes deferred while the target runs.
    pub pending: Seq<u8>,
    /// Whether acknowledgment bytes are exchanged.
    pub ack_mode: bool,
}

/// What a step does, stated over models.
pub enum ActionModel {
    /// Nothing yet.
    Wait,
    /// Invoke the interrupt handler.
    DeliverInterrupt,
    /// A full frame arrived.
    FrameReady(Seq<u8>),
    /// Report the stop reason.
    ReportStop,
}

impl View for Action {
    type V = ActionModel;

    open spec fn view(&self) -> ActionModel {
        match self {
            Action::Wait => ActionModel::Wait,
            Action::DeliverInterrupt => ActionModel::DeliverInterrupt,
            Action::FrameReady(f) => ActionModel::FrameReady(f@),
            Action::ReportStop => ActionModel::ReportStop,
        }
    }
}

/// One protocol session: the frame assembler and the execution phase.
pub struct Session {
    /// The phase.
    pub status: SessionStatus,
    /// Whether a frame is being assembled.
    pub collecting: bool,
    /// Whether the current frame's checksum separator has been seen.
    pub hash_seen: bool,
    /// Checksum digits collected after the separator.
    pub cs_digits: u8,
    /// The partially assembled frame.
    pub frame: Vec<u8>,
    /// Bytes deferred while the target runs.
    pub pending: Vec<u8>,
    /// Whether acknowledgment bytes are exchanged.
    pub ack_mode: bool,
}

impl View for Session {
    type V = SessionModel;

    open spec fn view(&self) -> SessionModel {
        SessionModel {
            status: self.status,
            collecting: self.collecting,
            hash_seen: self.hash_seen,
            cs_digits: self.cs_digits as int,
            frame: self.frame@,
            pending: self.pending@,
            ack_mode: self.ack_mode,
        }
    }
}

impl SessionModel {
    /// The assembler's invariant: checksum digits only accumulate inside a
    /// frame, and outside a frame the buffer is empty.
    pub open spec fn wf(self) -> bool {
        &&& 0 <= self.cs_digits <= 1
        &&& (self.hash_seen ==> self.collecting)
        &&& (self.cs_digits > 0 ==> self.hash_seen)
        &&& (!self.collecting ==> !self.hash_seen && self.cs_digits == 0 && self.frame.len() == 0)
    }
}

impl Session {
    /// A fresh session: awaiting the first packet, acknowledging, nothing
    /// assembled and nothing deferred.
    pub fn new() -> (s: Session)
        ensures
            s@ == (SessionModel {
                status: SessionStatus::AwaitingPacket,
                collecting: false,
                hash_seen: false,
                cs_digits: 0,
                frame: Seq::<u8>::empty(),
                pending: Seq::<u8>::empty(),
                ack_mode: true,
            }),
            s@.wf(),
    {
        let s = Session {
            status: SessionStatus::AwaitingPacket,
            collecting: false,
            hash_seen: false,
            cs_digits: 0,
            frame: Vec::new(),
            pending: Vec::new(),
            ack_mode: true,
        };
        proof {
            assert(s@ =~= SessionModel {
                status: SessionStatus::AwaitingPacket,
                collecting: false,
                hash_seen: false,
                cs_digits: 0,
                frame: Seq::<u8>::empty(),
                pending: Seq::<u8>::empty(),
                ack_mode: true,
            });
        }
        s
    }

    /// Feed one event to the engine. The returned action is everything the
    /// caller must do before the next event.
    ///
    /// While the target runs, the interrupt byte is delivered immediately
    /// and no queued byte is consumed before it; every other byte is only
    /// deferred. This is the out-of-band interrupt path: an interrupt can
    /// never be queued behind ordinary command bytes.
    pub fn step(&mut self, ev: Event) -> (r: Action)
        requires
            old(self)@.wf(),
        ensures
            final(self)@.wf(),
            // a dead session absorbs everything
            old(self)@.status is Disconnected ==> final(self)@ == old(self)@ && r@ is Wait,
            // a stop report ends the running phase
            old(self)@.status is TargetRunning && ev is TargetStopped ==> final(self)@ == (
            SessionModel { status: SessionStatus::AwaitingPacket, ..old(self)@ }) && r@ is ReportStop,
            // a spurious stop report is ignored
            old(self)@.status is AwaitingPacket && ev is TargetStopped ==> final(self)@ == old(self)@ && r@ is Wait,
            // the interrupt byte preempts: delivered now, no queued byte touched
            old(self)@.status is TargetRunning && ev == Event::Byte(INTERRUPT) ==> final(self)@
                == old(self)@ && r@ is DeliverInterrupt,
            // any other byte is deferred while the target runs
            (old(self)@.status is TargetRunning && ev is Byte && ev->Byte_0 != INTERRUPT) ==> final(self)@ == (SessionModel { pending: old(self)@.pending.push(ev->Byte_0), ..old(self)@ })
                && r@ is Wait,
            // between packets, the interrupt byte goes to the target as well
            (old(self)@.status is AwaitingPacket && !old(self)@.collecting && ev == Event::Byte(
                INTERRUPT,
            )) ==> final(self)@ == old(self)@ && r@ is DeliverInterrupt,
            // a frame start begins assembly; anything else between frames is
            // discarded (acknowledgment bytes, line noise)
            (old(self)@.status is AwaitingPacket && !old(self)@.collecting && ev is Byte
                && ev->Byte_0 != INTERRUPT) ==> r@ is Wait && final(self)@ == (if ev->Byte_0
                == FRAME_START {
                SessionModel { collecting: true, frame: seq![ev->Byte_0], ..old(self)@ }
            } else {
                old(self)@
            }),
            // inside a frame, bytes accumulate until the separator
            (old(self)@.status is AwaitingPacket && old(self)@.collecting && !old(self)@.hash_seen && ev is Byte) ==> r@ is Wait && final(self)@ == (SessionModel {
                hash_seen: ev->Byte_0 == FRAME_END,
                frame: old(self)@.frame.push(ev->Byte_0),
                ..old(self)@
            }),
            // the first checksum digit
            (old(self)@.status is AwaitingPacket && old(self)@.hash_seen && old(self)@.cs_digits
                == 0 && ev is Byte) ==> r@ is Wait && final(self)@ == (SessionModel {
                cs_digits: 1,
                frame: old(self)@.frame.push(ev->Byte_0),
                ..old(self)@
            }),
            // the second checksum digit completes the frame
            (old(self)@.status is AwaitingPacket && old(self)@.hash_seen && old(self)@.cs_digits
                == 1 && ev is Byte) ==> r@ == ActionModel::FrameReady(
                old(self)@.frame.push(ev->Byte_0),
            ) && final(self)@ == (SessionModel {
                collecting: false,
                hash_seen: false,
                cs_digits: 0,
                frame: Seq::<u8>::empty(),
                ..old(self)@
            }),
    {
        match self.status {
            SessionStatus::Disconnected => Action::Wait,
            SessionStatus::TargetRunning => {
                match ev {
                    Event::TargetStopped => {
                        self.status = SessionStatus::AwaitingPacket;
                        Action::ReportStop
                    },
                    Event::Byte(b) => {
                        if b == INTERRUPT {
                            Action::DeliverInterrupt
                        } else {
                            self.pending.push(b);
                            Action::Wait
                        }
                    },
                }
            },
            SessionStatus::AwaitingPacket => {
                match ev {
                    Event::TargetStopped => Action::Wait,
                    Event::Byte(b) => {
                        if !self.collecting {
                            if b == INTERRUPT {
                                Action::DeliverInterrupt
                            } else if b == FRAME_START {
                                self.collecting = true;
                                self.frame.push(b);
                                proof {
                                    assert(self@.frame =~= seq![b]);
                                }
                                Action::Wait
                            } else {
                                Action::Wait
                            }
                        } else if !self.hash_seen {
                            self.frame.push(b);
                            if b == FRAME_END {
                                self.hash_seen = true;
                            }
                            Action::Wait
                        } else if self.cs_digits == 0 {
                            self.cs_digits = 1;
                            self.frame.push(b);
                            Action::Wait
                        } else {
                            self.frame.push(b);
                            let mut done: Vec<u8> = Vec::new();
                            core::mem::swap(&mut done, &mut self.frame);
                            self.collecting = false;
                            self.hash_seen = false;
                            self.cs_digits = 0;
                            proof {
                                assert(self@.frame =~= Seq::<u8>::empty());
                            }
                            Action::FrameReady(done)
                        }
                    },
                }
            },
        }
    }

    /// Hand control to the target after a resume or step command.
    pub fn resume(&mut self)
        requires
            old(self)@.status is AwaitingPacket,
        ensures
            final(self)@ == (SessionModel { status: SessionStatus::TargetRunning, ..old(self)@ }),
    {
        self.status = SessionStatus::TargetRunning;
    }

    /// End the session; every further event is ignored.
    pub fn disconnect(&mut self)
        ensures
            final(self)@ == (SessionModel { status: SessionStatus::Disconnected, ..old(self)@ }),
    {
        self.status = SessionStatus::Disconnected;
    }

    /// Take the bytes deferred while the target ran, in arrival order, to
    /// replay them through the assembler once the target has stopped.
    pub fn take_pending(&mut self) -> (r: Vec<u8>)
        ensures
            r@ == old(self)@.pending,
            final(self)@ == (SessionModel { pending: Seq::<u8>::empty(), ..old(self)@ }),
    {
        let mut out: Vec<u8> = Vec::new();
        core::mem::swap(&mut out, &mut self.pending);
        proof {
            assert(self@.pending =~= Seq::<u8>::empty());
        }
        out
    }

    /// Turn acknowledgment mode on or off; the client may disable it
    /// mid-session.
    pub fn set_ack_mode(&mut self, on: bool)
        ensures
            final(self)@ == (SessionModel { ack_mode: on, ..old(self)@ }),
    {
        self.ack_mode = on;
    }
}

/// Process one complete frame: verify its checksum, choose the
/// acknowledgment byte the caller must send (when acknowledgment mode is
/// on), and parse the payload. A checksum failure asks for retransmission
/// and delivers nothing; a malformed frame delivers nothing; only a verified
/// payload reaches the command parser.
pub fn process_frame(frame: &[u8], ack_mode: bool) -> (r: (Option<u8>, Option<Command>))
    ensures
        decode_spec(frame@) is BadChecksum ==> r == (
            if ack_mode {
                Some(NAK)
            } else {
                None::<u8>
            },
            None::<Command>,
        ),
        decode_spec(frame@) is Malformed ==> r == (None::<u8>, None::<Command>),
        decode_spec(frame@) matches DecodeModel::Payload(p) ==> r == (
            if ack_mode {
                Some(ACK)
            } else {
                None::<u8>
            },
            Some(parse_command_spec(p)),
        ),
{
    match decode_frame(frame) {
        DecodeOutcome::BadChecksum => {
            if ack_mode {
                (Some(NAK), None)
            } else {
                (None, None)
            }
        },
        DecodeOutcome::Malformed => (None, None),
        DecodeOutcome::Packet(p) => {
            let cmd = parse_command(p.as_slice());
            if ack_mode {
                (Some(ACK), Some(cmd))
            } else {
                (None, Some(cmd))
            }
        },
    }
}

} // verus!
