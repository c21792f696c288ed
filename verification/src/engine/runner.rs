//! Decisions of the engine that runs a session over a link.
//!
//! The link itself, and the channels that bring commands and take events, are
//! the caller's: it hands in what was read and performs what is decided.
use crate::engine::event::{events_model, EngineCmd, EngineEvent, EventModel, SessionState};
use crate::engine::session::{commanded, initial, pinged, received, Model, Session, State};
use crate::engine::wire::{get_can, is_get_can, is_ping, PING};
use crate::frame::{
    encoded, scan, sightings, Frame, FrameScanner, Met, Scan, Sighting,
};
use crate::text::ascii;
use vstd::prelude::*;
use vstd::string::*;

verus! {

/// An engine over the link `L`.
pub struct CbEngine<L> {
    /// The link.
    pub link: L,
    /// The session.
    pub session: Session,
    /// Bytes of frames that have not arrived whole.
    pub scanner: FrameScanner,
}

/// What to do with bytes that were read.
pub struct ReadStep {
    /// Frames to handle, in order.
    pub met: Vec<Met>,
    /// Fault to report afterwards.
    pub warning: Option<EngineEvent>,
}

/// What to do about one frame.
pub enum FrameStep {
    /// Nothing.
    Idle,
    /// Write the bytes; afterwards report the flush, if there was one.
    Transmit {
        /// The encoded frame.
        bytes: Vec<u8>,
        /// Whether queued writes are in it.
        flushed: bool,
    },
    /// Report the events, in order.
    Events(Vec<EngineEvent>),
}

/// The events of a link that went down.
pub open spec fn link_down(text: Seq<char>) -> Seq<EventModel> {
    seq![EventModel::SessionState(SessionState::LinkDown), EventModel::LinkError(text)]
}

/// The session after a frame whose checksum failed. A ping does not count.
pub open spec fn crc_failed(m: Model, payload: Seq<u8>) -> Model {
    if payload == ascii(PING@) {
        m
    } else {
        Model { crc_ok: false, ack_armed: m.ack_armed || get_can(payload), ..m }
    }
}

/// The session after a frame, intact or not.
pub open spec fn handled(m: Model, met: Sighting, after: Model) -> bool {
    if !met.intact {
        after == crc_failed(m, met.payload)
    } else if met.payload == ascii(PING@) {
        after == match pinged(m).1 {
            Some(_) => Model { write_flushed: false, ..pinged(m).0 },
            None => pinged(m).0,
        }
    } else {
        exists|events: Seq<EventModel>| received(m, met.payload, after, events)
    }
}

/// What is reported of a scan.
pub open spec fn scan_warning(s: Scan) -> Option<EventModel> {
    match s.result() {
        Ok(_) => None,
        Err(e) => Some(EventModel::ProtocolWarn("frame scan: "@ + e.text())),
    }
}

/// The events with the news that the mailbox is in sync after each snapshot.
pub open spec fn with_synced(events: Seq<EventModel>) -> Seq<EventModel>
    decreases events.len(),
{
    if events.len() == 0 {
        seq![]
    } else {
        let before = with_synced(events.drop_last()).push(events.last());
        if events.last() is Snapshot {
            before.push(EventModel::SessionState(SessionState::Synced))
        } else {
            before
        }
    }
}

/// Reports that the link went down because of an error.
pub fn link_failed(text: String) -> (events: Vec<EngineEvent>)
    ensures
        events_model(events@) == link_down(text@),
{
    let mut events: Vec<EngineEvent> = Vec::new();
    events.push(EngineEvent::SessionState(SessionState::LinkDown));
    events.push(EngineEvent::LinkError(text));
    proof {
        assert(events_model(events@) =~= link_down(text@));
    }
    events
}

/// Reports that the link went down because it ended.
pub fn link_ended() -> (events: Vec<EngineEvent>)
    ensures
        events_model(events@) == link_down(
            "link EOF (read returned 0); accessory closed or detached"@,
        ),
{
    link_failed("link EOF (read returned 0); accessory closed or detached".to_owned())
}

/// The event that a command causes before it is applied.
pub open spec fn command_event(cmd: EngineCmd) -> Option<EventModel> {
    if cmd is ResyncMailbox {
        Some(EventModel::SessionState(SessionState::Resyncing))
    } else {
        None
    }
}

impl<L> CbEngine<L> {
    /// An engine over an open link.
    pub fn new(link: L) -> (e: CbEngine<L>)
        ensures
            e.link == link,
            e.session@ == initial(),
            e.scanner@ == Seq::<u8>::empty(),
    {
        CbEngine { link, session: Session::new(), scanner: FrameScanner::new() }
    }

    /// The event of an engine that starts.
    pub fn started(&self) -> (event: EngineEvent)
        ensures
            event@ == EventModel::SessionState(SessionState::Negotiating),
    {
        EngineEvent::SessionState(SessionState::Negotiating)
    }

    /// Whether to close the link and stop.
    pub fn is_shutdown(&self) -> (r: bool)
        ensures
            r == self.session@.shutdown,
    {
        self.session.is_shutdown()
    }

    /// Applies a command; returns the event to report first.
    pub fn on_command(&mut self, cmd: EngineCmd) -> (event: Option<EngineEvent>)
        ensures
            final(self).session@ == commanded(old(self).session@, cmd),
            final(self).scanner == old(self).scanner,
            final(self).link == old(self).link,
            match event {
                Some(e) => command_event(cmd) == Some(e@),
                None => command_event(cmd) is None,
            },
    {
        let event = match &cmd {
            EngineCmd::ResyncMailbox => Some(EngineEvent::SessionState(SessionState::Resyncing)),
            _ => None,
        };
        self.session.apply_cmd(cmd);
        event
    }

    /// Takes bytes that were read. The fault of a scan that brought no intact frame
    /// is reported where no frame start follows it.
    pub fn on_bytes(&mut self, chunk: &[u8]) -> (step: ReadStep)
        ensures
            final(self).link == old(self).link,
            final(self).session == old(self).session,
            ({
                let s = scan(old(self).scanner@ + chunk@);
                &&& final(self).scanner@ == s.rest
                &&& sightings(step.met@) == s.met
                &&& match step.warning {
                    Some(event) => scan_warning(s) == Some(event@),
                    None => scan_warning(s) is None,
                }
            }),
    {
        let report = self.scanner.scan(chunk);
        let warning = match report.failure() {
            Some(fault) => {
                let mut text = "frame scan: ".to_owned();
                let name = fault.describe();
                text.append(name.as_str());
                Some(EngineEvent::ProtocolWarn(text))
            },
            None => None,
        };
        ReadStep { met: report.met, warning }
    }

    /// Handles one frame: a ping is answered with at most one payload, any other
    /// intact frame makes events, and a failed checksum is kept for the next
    /// acknowledgement.
    pub fn on_frame(&mut self, met: &Met) -> (step: FrameStep)
        ensures
            final(self).scanner == old(self).scanner,
            final(self).link == old(self).link,
            handled(old(self).session@, met@, final(self).session@),
            step matches FrameStep::Transmit { flushed, .. } ==> {
                let m = old(self).session@;
                &&& flushed <==> m.write_flushed || (m.state == State::Steady && !m.ack_armed
                    && m.write_queue.len() > 0)
                &&& !final(self).session@.write_flushed
            },
            ({
                let m = old(self).session@;
                let after = final(self).session@;
                let payload = met.frame.payload@;
                if !met.intact {
                    step is Idle
                } else if payload == ascii(PING@) {
                    match pinged(m).1 {
                        Some(answer) => step matches FrameStep::Transmit { bytes, flushed }
                            && bytes@ == encoded(answer) && flushed == pinged(m).0.write_flushed,
                        None => step is Idle,
                    }
                } else {
                    step matches FrameStep::Events(events) && exists|heard: Seq<EventModel>|
                        received(m, payload, after, heard) && events_model(events@)
                            == #[trigger] with_synced(heard)
                }
            }),
    {
        let payload = met.frame.payload.as_slice();
        if !met.intact {
            if !is_ping(payload) {
                self.session.on_crc_failure(is_get_can(payload));
            }
            return FrameStep::Idle;
        }
        if is_ping(payload) {
            return match self.session.on_ping() {
                Some(answer) => {
                    let flushed = self.session.take_write_flushed();
                    let out = Frame { payload: answer };
                    FrameStep::Transmit { bytes: out.encode(), flushed }
                },
                None => FrameStep::Idle,
            };
        }
        let heard = self.session.on_frame(payload);
        FrameStep::Events(announce_sync(heard))
    }
}

/// Adds the news that the mailbox is in sync after each snapshot.
fn announce_sync(heard: Vec<EngineEvent>) -> (out: Vec<EngineEvent>)
    ensures
        events_model(out@) == with_synced(events_model(heard@)),
{
    let ghost all = events_model(heard@);
    let mut rest = heard;
    let mut out: Vec<EngineEvent> = Vec::new();
    let ghost mut done: int = 0;
    proof {
        assert(events_model(out@) =~= with_synced(all.take(0)));
        assert(all.skip(0) =~= all);
    }
    while rest.len() > 0
        invariant
            0 <= done <= all.len(),
            events_model(rest@) == all.skip(done),
            events_model(out@) == with_synced(all.take(done)),
        decreases rest@.len(),
    {
        let ghost shown = out@;
        let ghost left = rest@;
        let event = rest.remove(0);
        let snapshot = match &event {
            EngineEvent::Snapshot { .. } => true,
            _ => false,
        };
        proof {
            assert(events_model(left).len() == left.len());
            assert(done < all.len());
            assert(event@ == events_model(left)[0]);
            assert(event@ == all[done]);
            assert(all.take(done + 1).drop_last() =~= all.take(done));
            assert(all.take(done + 1).last() == event@);
            assert forall|i: int| 0 <= i < rest@.len() implies events_model(rest@)[i] == all.skip(
                done + 1,
            )[i] by {
                assert(rest@[i] == left[i + 1]);
                assert(events_model(left)[i + 1] == all.skip(done)[i + 1]);
            }
            assert(events_model(rest@) =~= all.skip(done + 1));
        }
        out.push(event);
        proof {
            assert(events_model(out@) =~= events_model(shown).push(event@));
        }
        if snapshot {
            let ghost pushed = out@;
            out.push(EngineEvent::SessionState(SessionState::Synced));
            proof {
                assert(events_model(out@) =~= events_model(pushed).push(
                    EventModel::SessionState(SessionState::Synced),
                ));
            }
        }
        proof {
            done = done + 1;
        }
    }
    proof {
        assert(events_model(rest@).len() == 0);
        assert(all.take(done) =~= all);
    }
    out
}

} // verus!
