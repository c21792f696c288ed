//! Timers of the daemon: the idle failsafe, the liveness of clients, and the wait
//! for the first snapshot. Instants are milliseconds.
use crate::daemon::replies::{power_off_records, powers_off, status_slot};
use crate::mailbox::dto::StatusState;
use crate::mailbox::message::{Saying, ServerMessage};
use crate::registers::bank::RegisterBank;
use crate::registers::ids::UnitId;
use crate::registers::wire::CanRecord;
use vstd::prelude::*;

verus! {

/// The instant `span` after `now`, or the last instant there is.
pub open spec fn after(now: u64, span: u64) -> u64 {
    if now + span <= u64::MAX {
        (now + span) as u64
    } else {
        u64::MAX
    }
}

/// The instant `span` after `now`. A span that is too long ends at the last instant
/// rather than failing, so that it cannot disable the failsafe.
pub fn idle_deadline(now: u64, span: u64) -> (r: u64)
    ensures
        r == after(now, span),
        now + span <= u64::MAX ==> r - now == span,
        now + span > u64::MAX ==> r == u64::MAX,
{
    if span <= u64::MAX - now {
        now + span
    } else {
        u64::MAX
    }
}

/// The idle failsafe: powers units off when no client has been connected for too
/// long, again and again while none connects.
#[derive(Debug, Clone, Copy, PartialEq, Eq, Structural)]
pub struct Watchdog {
    /// How long no client may be connected.
    pub timeout: u64,
    /// How long until the next attempt.
    pub retry: u64,
    /// When units are powered off; none while a client is connected.
    pub deadline: Option<u64>,
}

impl Watchdog {
    /// The failsafe after the number of clients changed. A connected client disarms
    /// it; the loss of the last one arms it, and a count that stays at zero leaves
    /// it alone.
    pub open spec fn counted(self, clients: usize, now: u64) -> Watchdog {
        Watchdog {
            deadline: if clients > 0 {
                None
            } else if self.deadline is Some {
                self.deadline
            } else {
                Some(after(now, self.timeout))
            },
            ..self
        }
    }

    /// The failsafe after its deadline.
    pub open spec fn elapsed(self, clients: usize, now: u64) -> Watchdog {
        Watchdog {
            deadline: if clients == 0 {
                Some(after(now, self.retry))
            } else {
                None
            },
            ..self
        }
    }

    /// The failsafe at the start of the daemon, armed where no client is connected.
    /// A timeout of zero disables it.
    pub fn start(clients: usize, now: u64, timeout: u64, retry: u64) -> (r: Option<Watchdog>)
        ensures
            r == if timeout == 0 {
                None
            } else {
                Some((Watchdog { timeout, retry, deadline: None }).counted(clients, now))
            },
            r is None <==> timeout == 0,
            r matches Some(dog) ==> dog.timeout == timeout && dog.retry == retry && (
            dog.deadline is None <==> clients > 0),
            r matches Some(dog) && clients == 0 && now + timeout <= u64::MAX ==> r->0.deadline
                is Some && r->0.deadline->0 - now == timeout,
    {
        if timeout == 0 {
            return None;
        }
        let deadline: Option<u64> = if clients > 0 {
            None
        } else {
            Some(idle_deadline(now, timeout))
        };
        Some(Watchdog { timeout, retry, deadline })
    }

    /// Takes note of the number of clients.
    pub fn on_clients(&mut self, clients: usize, now: u64)
        ensures
            *final(self) == old(self).counted(clients, now),
            final(self).timeout == old(self).timeout,
            final(self).retry == old(self).retry,
            clients > 0 ==> final(self).deadline is None,
            clients == 0 && old(self).deadline is Some ==> final(self).deadline == old(
                self,
            ).deadline,
            clients == 0 && old(self).deadline is None && now + old(self).timeout <= u64::MAX
                ==> final(self).deadline is Some && final(self).deadline->0 - now == old(
                self,
            ).timeout,
    {
        if clients > 0 {
            self.deadline = None;
        } else if self.deadline.is_none() {
            self.deadline = Some(idle_deadline(now, self.timeout));
        }
    }

    /// Takes note that the deadline has come. Units are powered off unless a client
    /// has just connected.
    pub fn on_deadline(&mut self, clients: usize, now: u64) -> (fire: bool)
        ensures
            *final(self) == old(self).elapsed(clients, now),
            fire == (clients == 0),
            final(self).timeout == old(self).timeout,
            final(self).retry == old(self).retry,
            final(self).deadline is Some <==> clients == 0,
            clients == 0 && now + old(self).retry <= u64::MAX ==> final(self).deadline->0 - now
                == old(self).retry,
    {
        if clients == 0 {
            self.deadline = Some(idle_deadline(now, self.retry));
            true
        } else {
            self.deadline = None;
            false
        }
    }
}

/// What the failsafe writes: the records that power units off, if there is a mailbox
/// and it holds a status.
pub fn idle_power_off(held: Option<&RegisterBank>) -> (r: Option<Vec<CanRecord>>)
    ensures
        match held {
            Some(bank) => match r {
                Some(records) => records@.len() > 0 && powers_off(bank@, records@),
                None => forall|id: UnitId| !#[trigger] bank@.dom().contains(status_slot(id)),
            },
            None => r is None,
        },
{
    match held {
        Some(bank) => {
            let records = power_off_records(bank);
            if records.len() == 0 {
                None
            } else {
                Some(records)
            }
        },
        None => None,
    }
}

/// A deadline is the whole span away: where the instants reach, the time from now to
/// the deadline is the span itself, for every span, and where they do not the deadline
/// is the last instant.
pub proof fn law_deadline_is_the_whole_span(now: u64, span: u64)
    ensures
        now + span <= u64::MAX ==> after(now, span) - now == span,
        now + span > u64::MAX ==> after(now, span) == u64::MAX,
{
}

/// The failsafe never acts before the whole configured time without a client, and then
/// it waits for the whole retry time. While a client is connected there is no deadline.
pub proof fn law_failsafe_waits_its_time(dog: Watchdog, clients: usize, now: u64)
    requires
        now + dog.timeout <= u64::MAX,
        now + dog.retry <= u64::MAX,
    ensures
        clients > 0 ==> dog.counted(clients, now).deadline is None && dog.elapsed(
            clients,
            now,
        ).deadline is None,
        dog.deadline is None && clients == 0 ==> dog.counted(clients, now).deadline is Some
            && dog.counted(clients, now).deadline->0 - now == dog.timeout,
        dog.deadline is Some && clients == 0 ==> dog.counted(clients, now).deadline
            == dog.deadline,
        clients == 0 ==> dog.elapsed(clients, now).deadline is Some && dog.elapsed(
            clients,
            now,
        ).deadline->0 - now == dog.retry,
        dog.counted(clients, now).timeout == dog.timeout,
        dog.counted(clients, now).retry == dog.retry,
        dog.elapsed(clients, now).timeout == dog.timeout,
        dog.elapsed(clients, now).retry == dog.retry,
{
}

/// The failsafe acts only after its time: while no client connects, the deadline
/// stays where the loss of the last client put it, however often the count is
/// reported.
pub proof fn law_deadline_stays(dog: Watchdog, now: u64, later: u64)
    ensures
        dog.counted(0, now).counted(0, later) == dog.counted(0, now),
        dog.deadline is None ==> dog.counted(0, now).deadline == Some(after(now, dog.timeout)),
{
}

/// A client that connects disarms the failsafe, and losing it again starts the full
/// time anew.
pub proof fn law_client_disarms(dog: Watchdog, clients: usize, now: u64, later: u64)
    requires
        clients > 0,
    ensures
        dog.counted(clients, now).deadline is None,
        dog.counted(clients, now).counted(0, later).deadline == Some(after(later, dog.timeout)),
        dog.elapsed(clients, now).deadline is None,
{
}

/// Attempts go on while no client is connected, one retry time after another.
pub proof fn law_attempts_go_on(dog: Watchdog, now: u64, later: u64)
    ensures
        dog.elapsed(0, now).deadline == Some(after(now, dog.retry)),
        dog.elapsed(0, now).counted(0, later) == dog.elapsed(0, now),
{
}

/// What is done for the liveness of a client.
#[derive(Debug, Clone, Copy, PartialEq, Eq, Structural)]
pub enum LivenessStep {
    /// Nothing yet.
    Wait,
    /// A ping is sent.
    Ping,
    /// The session is closed: the client was silent for too long.
    Close,
}

/// Pings a client and notices when it falls silent.
#[derive(Debug, Clone, Copy, PartialEq, Eq, Structural)]
pub struct Liveness {
    /// How long between pings.
    pub interval: u64,
    /// How long a client may be silent.
    pub silence: u64,
    /// When the next ping is due.
    pub next_ping: u64,
    /// When the client has been silent for too long.
    pub dead_at: u64,
}

impl Liveness {
    /// A client that connects now.
    pub fn start(now: u64, interval: u64, silence: u64) -> (r: Liveness)
        ensures
            r == (Liveness {
                interval,
                silence,
                next_ping: after(now, interval),
                dead_at: after(now, silence),
            }),
            now + interval <= u64::MAX ==> r.next_ping - now == interval,
            now + silence <= u64::MAX ==> r.dead_at - now == silence,
    {
        Liveness {
            interval,
            silence,
            next_ping: idle_deadline(now, interval),
            dead_at: idle_deadline(now, silence),
        }
    }

    /// Something was heard of the client.
    pub fn on_heard(&mut self, now: u64)
        ensures
            *final(self) == (Liveness { dead_at: after(now, old(self).silence), ..*old(self) }),
            now + old(self).silence <= u64::MAX ==> final(self).dead_at - now == old(self).silence,
    {
        self.dead_at = idle_deadline(now, self.silence);
    }

    /// When there is something to do.
    pub fn next_deadline(&self) -> (r: u64)
        ensures
            r == if self.next_ping <= self.dead_at {
                self.next_ping
            } else {
                self.dead_at
            },
    {
        if self.next_ping <= self.dead_at {
            self.next_ping
        } else {
            self.dead_at
        }
    }

    /// What is to be done now: silence closes the session, and pings come one
    /// interval after the other.
    pub fn on_time(&mut self, now: u64) -> (step: LivenessStep)
        ensures
            step == if now >= old(self).dead_at {
                LivenessStep::Close
            } else if now >= old(self).next_ping {
                LivenessStep::Ping
            } else {
                LivenessStep::Wait
            },
            *final(self) == if step is Ping {
                Liveness { next_ping: after(now, old(self).interval), ..*old(self) }
            } else {
                *old(self)
            },
            step is Ping && now + old(self).interval <= u64::MAX ==> final(self).next_ping - now
                == old(self).interval,
    {
        if now >= self.dead_at {
            LivenessStep::Close
        } else if now >= self.next_ping {
            self.next_ping = idle_deadline(now, self.interval);
            LivenessStep::Ping
        } else {
            LivenessStep::Wait
        }
    }
}

/// What a client is told that has waited too long for the first snapshot, before its
/// session is closed.
pub fn snapshot_overdue(started: u64, now: u64, limit: u64) -> (r: Option<ServerMessage>)
    ensures
        match r {
            Some(m) => now >= after(started, limit) && m.says(
                Saying::Status { state: StatusState::LinkDown, detail: None },
            ),
            None => now < after(started, limit),
        },
        started + limit <= u64::MAX ==> (r is Some <==> now >= started + limit),
{
    if now >= idle_deadline(started, limit) {
        Some(ServerMessage::Status { state: StatusState::LinkDown, detail: None })
    } else {
        None
    }
}

} // verus!
