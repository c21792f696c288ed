//! What the events of the engine mean for all sessions.
use crate::daemon::address::Contents;
use crate::daemon::client::{WsEvent, WsEventModel};
use crate::daemon::replies::{map_session_state, status_of};
use crate::engine::event::{EngineEvent, EventModel, SessionState};
use crate::engine::runner::with_synced;
use crate::engine::session::{answers, received, Model, PendingRead, State};
use crate::mailbox::dto::StatusState;
use crate::registers::bank::{lookup, stored, BankKey, RegisterBank};
use crate::registers::wire::CanRecord;
use vstd::prelude::*;

verus! {

/// How many commands or events may wait in a channel.
pub const CHANNEL_BOUND: usize = 32;

/// What all sessions hear of an event. Session states become states of the link; a
/// link error is followed by a state that carries its text.
pub open spec fn fan_out(e: EventModel) -> Seq<WsEventModel> {
    match e {
        EventModel::SessionState(state) => seq![
            WsEventModel::Status { state: status_of(state), detail: None },
        ],
        EventModel::LinkError(text) => seq![
            WsEventModel::Engine(e),
            WsEventModel::Status { state: StatusState::LinkDown, detail: Some(text) },
        ],
        _ => seq![WsEventModel::Engine(e)],
    }
}

/// The mailbox that is held after an event: a dump replaces it, changed records go
/// into it once there is one.
pub open spec fn held_after(held: Contents, e: EventModel) -> Contents {
    match (held, e) {
        (_, EventModel::Snapshot { bank, .. }) => Some(bank),
        (Some(bank), EventModel::RegistersChanged { records }) => Some(stored(bank, records)),
        _ => held,
    }
}

/// Whether an event brings a mailbox or changes to it.
pub open spec fn renewing(e: EventModel) -> bool {
    match e {
        EventModel::Snapshot { .. } => true,
        EventModel::RegistersChanged { records } => records.len() > 0,
        _ => false,
    }
}

/// Whether an event brings a mailbox or changes to it.
pub fn renews_mailbox(event: &EngineEvent) -> (r: bool)
    ensures
        r == renewing(event@),
{
    match event {
        EngineEvent::Snapshot { .. } => true,
        EngineEvent::RegistersChanged { records } => records.len() > 0,
        _ => false,
    }
}

/// The state of the link after an event.
pub open spec fn status_after(status: StatusState, e: EventModel) -> StatusState {
    match e {
        EventModel::SessionState(state) => status_of(state),
        _ => status,
    }
}

/// What a list of events for all sessions says.
pub open spec fn ws_events_model(events: Seq<WsEvent>) -> Seq<WsEventModel> {
    events.map_values(|e: WsEvent| e@)
}

/// What late clients need: the current mailbox and the state of the link.
#[derive(Debug, Clone)]
pub struct Hub {
    /// The mailbox, once there was a dump.
    pub held: Option<RegisterBank>,
    /// The state of the link.
    pub status: StatusState,
}

impl Hub {
    /// The contents of the held mailbox.
    pub open spec fn contents(self) -> Contents {
        match self.held {
            Some(bank) => Some(bank@),
            None => None,
        }
    }

    /// Nothing is held, and the link is being negotiated.
    pub fn new() -> (hub: Hub)
        ensures
            hub.contents() is None,
            hub.status is Negotiating,
    {
        Hub { held: None, status: StatusState::Negotiating }
    }

    /// Takes note of an event and returns what all sessions hear of it.
    pub fn on_event(&mut self, event: EngineEvent) -> (out: Vec<WsEvent>)
        ensures
            ws_events_model(out@) == fan_out(event@),
            final(self).contents() == held_after(old(self).contents(), event@),
            final(self).status == status_after(old(self).status, event@),
    {
        let ghost e = event@;
        let mut out: Vec<WsEvent> = Vec::new();
        match &event {
            EngineEvent::SessionState(state) => {
                let mapped = map_session_state(*state);
                self.status = mapped;
                out.push(WsEvent::Status { state: mapped, detail: None });
                proof {
                    assert(ws_events_model(out@) =~= fan_out(e));
                }
                return out;
            },
            EngineEvent::LinkError(text) => {
                out.push(WsEvent::Engine(EngineEvent::LinkError(text.clone())));
                out.push(
                    WsEvent::Status {
                        state: StatusState::LinkDown,
                        detail: Some(text.clone()),
                    },
                );
                proof {
                    assert(ws_events_model(out@) =~= fan_out(e));
                }
                return out;
            },
            EngineEvent::Snapshot { bank, .. } => {
                self.held = Some(bank.clone());
            },
            EngineEvent::RegistersChanged { records } => {
                if let Some(bank) = self.held.take() {
                    self.held = Some(apply_records(bank, records));
                }
            },
            _ => {},
        }
        out.push(WsEvent::Engine(event));
        proof {
            assert(ws_events_model(out@) =~= fan_out(e));
        }
        out
    }
}

/// Puts records into a mailbox, in order.
fn apply_records(bank: RegisterBank, records: &Vec<CanRecord>) -> (r: RegisterBank)
    ensures
        r@ == stored(bank@, records@),
{
    let ghost before = bank@;
    let mut bank = bank;
    let mut i: usize = 0;
    while i < records.len()
        invariant
            i <= records@.len(),
            bank@ == stored(before, records@.take(i as int)),
        decreases records@.len() - i,
    {
        bank.apply(&records[i]);
        proof {
            let next = records@.take(i + 1);
            assert(next.drop_last() =~= records@.take(i as int));
        }
        i = i + 1;
    }
    proof {
        assert(records@.take(i as int) =~= records@);
    }
    bank
}

/// The held mailbox is current: after changed records it holds, under the address of
/// each, the last value that the records bring, and under all other addresses what
/// it held before.
pub proof fn law_held_mailbox_is_current(
    bank: Map<BankKey, [u8; 7]>,
    records: Seq<CanRecord>,
    key: BankKey,
    at: int,
)
    requires
        0 <= at < records.len() ==> BankKey::of(records[at]) == key && forall|j: int|
            at < j < records.len() ==> BankKey::of(#[trigger] records[j]) != key,
        !(0 <= at < records.len()) ==> forall|j: int|
            0 <= j < records.len() ==> BankKey::of(#[trigger] records[j]) != key,
    ensures
        held_after(Some(bank), EventModel::RegistersChanged { records }) == Some(
            stored(bank, records),
        ),
        lookup(stored(bank, records), key) == if 0 <= at < records.len() {
            Some(records[at].data)
        } else {
            lookup(bank, key)
        },
    decreases records.len(),
{
    if records.len() > 0 {
        let init = records.drop_last();
        assert(records.last() == records[records.len() - 1]);
        if at != records.len() - 1 {
            assert(BankKey::of(records[records.len() - 1]) != key);
            if 0 <= at < records.len() {
                assert(init[at] == records[at]);
            }
            assert forall|j: int| at < j < init.len() && 0 <= j implies BankKey::of(
                #[trigger] init[j],
            ) != key by {
                assert(init[j] == records[j]);
            }
            if !(0 <= at < records.len()) {
                assert forall|j: int| 0 <= j < init.len() implies BankKey::of(
                    #[trigger] init[j],
                ) != key by {
                    assert(init[j] == records[j]);
                }
                law_held_mailbox_is_current(bank, init, key, -1);
            } else {
                law_held_mailbox_is_current(bank, init, key, at);
            }
        }
    }
}

/// The held mailbox changes only with an event that brings changes to it.
pub proof fn law_other_events_keep_the_mailbox(held: Contents, e: EventModel)
    requires
        !renewing(e),
    ensures
        held_after(held, e) == held,
{
}

/// The mailbox that is held after events, in order.
pub open spec fn held_through(held: Contents, events: Seq<EventModel>) -> Contents
    decreases events.len(),
{
    if events.len() == 0 {
        held
    } else {
        held_after(held_through(held, events.drop_last()), events.last())
    }
}

/// The news that the mailbox is in sync does not touch it.
proof fn lemma_held_synced(held: Contents, events: Seq<EventModel>)
    ensures
        held_through(held, with_synced(events)) == held_through(held, events),
    decreases events.len(),
{
    if events.len() > 0 {
        let before = with_synced(events.drop_last());
        lemma_held_synced(held, events.drop_last());
        let told = before.push(events.last());
        assert(told.drop_last() =~= before);
        assert(held_through(held, told) == held_through(held, events));
        let synced = told.push(EventModel::SessionState(SessionState::Synced));
        assert(synced.drop_last() =~= told);
        assert(held_through(held, synced) == held_through(held, told));
    }
}

/// Answers to reads do not touch the mailbox.
proof fn lemma_held_answers(
    held: Contents,
    head: Seq<EventModel>,
    bank: Map<BankKey, [u8; 7]>,
    reads: Seq<PendingRead>,
)
    ensures
        held_through(held, head + answers(bank, reads)) == held_through(held, head),
    decreases reads.len(),
{
    let all = head + answers(bank, reads);
    if reads.len() == 0 {
        assert(all =~= head);
    } else {
        let before = answers(bank, reads.drop_last());
        lemma_held_answers(held, head, bank, reads.drop_last());
        if reads.last().flush_sent {
            assert(all.drop_last() =~= head + before);
        }
    }
}

/// What late clients are told is what the engine knows: once the session is in
/// steady state the held mailbox is the session's own, after every frame.
pub proof fn law_held_mailbox_follows_the_session(
    held: Contents,
    m: Model,
    payload: Seq<u8>,
    after: Model,
    events: Seq<EventModel>,
)
    requires
        received(m, payload, after, events),
        after.state == State::Steady,
        m.state == State::Steady ==> held == Some(m.bank),
    ensures
        held_through(held, with_synced(events)) == Some(after.bank),
{
    lemma_held_synced(held, events);
    let reads = m.pending_reads;
    if events.len() == 0 {
    } else {
        let head = seq![events[0]];
        assert(head.drop_last() =~= Seq::<EventModel>::empty());
        assert(held_through(held, Seq::<EventModel>::empty()) == held);
        assert(held_through(held, head) == held_after(held, events[0]));
        lemma_held_answers(held, head, after.bank, reads);
        if events[0] is ProtocolWarn {
            assert(events =~= head);
        } else {
            assert(events =~= head + answers(after.bank, reads));
        }
    }
}

} // verus!
