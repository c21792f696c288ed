//! Requests of a client that wait for the engine. Instants are milliseconds.
use crate::engine::event::texts;
use crate::registers::bank::BankKey;
use crate::text::{
    comes_before, lemma_text_order, lemma_text_order_goes_on, same_text, text_before,
};
use vstd::prelude::*;

verus! {

/// How long requests wait, in milliseconds.
#[derive(Debug, Clone, Copy, PartialEq, Eq, Structural)]
pub struct SessionTimeouts {
    /// Until a write must have been transmitted.
    pub write_ack: u64,
    /// Until a read must have been answered.
    pub read: u64,
}

impl Default for SessionTimeouts {
    /// Ten seconds for a write, five for a read.
    fn default() -> (t: SessionTimeouts)
        ensures
            t == (SessionTimeouts { write_ack: 10_000, read: 5_000 }),
    {
        SessionTimeouts { write_ack: 10_000, read: 5_000 }
    }
}

/// A write that waits for its transmission.
#[derive(Debug, Clone, PartialEq, Eq)]
pub struct PendingAck {
    /// Correlation id of the client.
    pub msg_id: String,
    /// When the write has waited too long.
    pub deadline: u64,
}

/// Correlation ids with their deadlines.
pub type Acks = Seq<(Seq<char>, u64)>;

/// What a list of waiting writes says.
pub open spec fn acks_model(list: Seq<PendingAck>) -> Acks {
    list.map_values(|p: PendingAck| (p.msg_id@, p.deadline))
}

/// The list with one more write, in the order of the ids. A second write under the
/// same id takes the place of the first.
pub open spec fn acks_with(s: Acks, msg_id: Seq<char>, deadline: u64) -> Acks
    decreases s.len(),
{
    if s.len() == 0 {
        seq![(msg_id, deadline)]
    } else if s[0].0 == msg_id {
        s.update(0, (msg_id, deadline))
    } else if text_before(msg_id, s[0].0) {
        seq![(msg_id, deadline)] + s
    } else {
        seq![s[0]] + acks_with(s.drop_first(), msg_id, deadline)
    }
}

/// The ids in a list.
pub open spec fn ids_of(s: Acks) -> Seq<Seq<char>> {
    s.map_values(|p: (Seq<char>, u64)| p.0)
}

/// The writes that have waited too long.
pub open spec fn acks_due(s: Acks, now: u64) -> Acks
    decreases s.len(),
{
    if s.len() == 0 {
        seq![]
    } else if s.last().1 <= now {
        acks_due(s.drop_last(), now).push(s.last())
    } else {
        acks_due(s.drop_last(), now)
    }
}

/// The writes that may wait on.
pub open spec fn acks_left(s: Acks, now: u64) -> Acks
    decreases s.len(),
{
    if s.len() == 0 {
        seq![]
    } else if s.last().1 <= now {
        acks_left(s.drop_last(), now)
    } else {
        acks_left(s.drop_last(), now).push(s.last())
    }
}

/// The smaller of two instants that may be there.
pub open spec fn earlier(a: Option<u64>, b: Option<u64>) -> Option<u64> {
    match (a, b) {
        (Some(x), Some(y)) => if x <= y {
            Some(x)
        } else {
            Some(y)
        },
        (Some(x), None) => Some(x),
        (None, y) => y,
    }
}

/// The smaller of two instants that may be there.
pub fn earlier_of(a: Option<u64>, b: Option<u64>) -> (r: Option<u64>)
    ensures
        r == earlier(a, b),
{
    match (a, b) {
        (Some(x), Some(y)) => if x <= y {
            Some(x)
        } else {
            Some(y)
        },
        (Some(x), None) => Some(x),
        (None, y) => y,
    }
}

/// The earliest deadline of waiting writes.
pub open spec fn acks_deadline(s: Acks) -> Option<u64>
    decreases s.len(),
{
    if s.len() == 0 {
        None
    } else {
        earlier(acks_deadline(s.drop_last()), Some(s.last().1))
    }
}

/// Writes that wait for their transmission. The engine transmits all queued writes
/// at once, so one transmission answers them all.
#[derive(Debug, Clone, PartialEq, Eq)]
pub struct PendingAcks {
    /// The writes, in the order of their ids.
    pub list: Vec<PendingAck>,
    /// How long a write may wait.
    pub timeout: u64,
}

impl View for PendingAcks {
    type V = Acks;

    open spec fn view(&self) -> Acks {
        acks_model(self.list@)
    }
}

impl PendingAcks {
    /// No writes, with a timeout.
    pub fn with_timeout(timeout: u64) -> (r: PendingAcks)
        ensures
            r@ == Acks::empty(),
            r.timeout == timeout,
    {
        let r = PendingAcks { list: Vec::new(), timeout };
        proof {
            assert(r@ =~= Acks::empty());
        }
        r
    }

    /// Adds a write.
    pub fn push(&mut self, msg_id: String, now: u64)
        requires
            now + old(self).timeout <= u64::MAX,
        ensures
            final(self)@ == acks_with(old(self)@, msg_id@, (now + old(self).timeout) as u64),
            exists|i: int|
                0 <= i < final(self)@.len() && (#[trigger] final(self)@[i]).0 == msg_id@
                    && final(self)@[i].1 == now + old(self).timeout,
            final(self).timeout == old(self).timeout,
    {
        let deadline: u64 = now + self.timeout;
        let ghost s = self@;
        let ghost id = msg_id@;
        let mut i: usize = 0;
        proof {
            assert(s.take(0) + acks_with(s.skip(0), id, deadline) =~= acks_with(s, id, deadline)) by {
                assert(s.skip(0) =~= s);
            }
        }
        while i < self.list.len()
            invariant
                i <= self.list@.len(),
                s == acks_model(self.list@),
                s == old(self)@,
                deadline == now + old(self).timeout,
                id == msg_id@,
                acks_with(s, id, deadline) == s.take(i as int) + acks_with(
                    s.skip(i as int),
                    id,
                    deadline,
                ),
                self.timeout == old(self).timeout,
            decreases self.list@.len() - i,
        {
            let ghost rest = s.skip(i as int);
            assert(rest[0] == s[i as int]);
            if same_text(self.list[i].msg_id.as_str(), msg_id.as_str()) {
                self.list[i].deadline = deadline;
                proof {
                    assert(acks_model(self.list@) =~= s.update(i as int, (id, deadline)));
                    assert(self@[i as int] == (id, deadline));
                    assert(s.take(i as int) + rest.update(0, (id, deadline)) =~= s.update(
                        i as int,
                        (id, deadline),
                    ));
                }
                return ;
            }
            if comes_before(msg_id.as_str(), self.list[i].msg_id.as_str()) {
                self.list.insert(i, PendingAck { msg_id, deadline });
                proof {
                    assert(acks_model(self.list@) =~= s.take(i as int) + (seq![(id, deadline)]
                        + rest));
                    assert(self@[i as int] == (id, deadline));
                }
                return ;
            }
            proof {
                assert(rest.drop_first() =~= s.skip(i + 1));
                assert(s.take(i as int) + (seq![rest[0]] + acks_with(
                    s.skip(i + 1),
                    id,
                    deadline,
                )) =~= s.take(i + 1) + acks_with(s.skip(i + 1), id, deadline));
            }
            i = i + 1;
        }
        self.list.push(PendingAck { msg_id, deadline });
        proof {
            assert(s.skip(i as int) =~= Acks::empty());
            assert(acks_model(self.list@) =~= s.take(i as int) + seq![(id, deadline)]);
            assert(self@[i as int] == (id, deadline));
        }
    }

    /// The earliest deadline.
    pub fn next_deadline(&self) -> (r: Option<u64>)
        ensures
            r == acks_deadline(self@),
    {
        let mut r: Option<u64> = None;
        let mut i: usize = 0;
        while i < self.list.len()
            invariant
                i <= self.list@.len(),
                r == acks_deadline(self@.take(i as int)),
            decreases self.list@.len() - i,
        {
            proof {
                assert(self@.take(i + 1).drop_last() =~= self@.take(i as int));
            }
            r = earlier_of(r, Some(self.list[i].deadline));
            i = i + 1;
        }
        proof {
            assert(self@.take(i as int) =~= self@);
        }
        r
    }

    /// Takes all writes out.
    pub fn drain_all(&mut self) -> (out: Vec<String>)
        ensures
            texts(out@) == ids_of(old(self)@),
            final(self)@ == Acks::empty(),
            final(self).timeout == old(self).timeout,
    {
        let mut taken: Vec<PendingAck> = Vec::new();
        std::mem::swap(&mut taken, &mut self.list);
        let mut out: Vec<String> = Vec::new();
        let mut i: usize = 0;
        proof {
            assert(self@ =~= Acks::empty());
        }
        while i < taken.len()
            invariant
                i <= taken@.len(),
                texts(out@) == ids_of(acks_model(taken@)).take(i as int),
            decreases taken@.len() - i,
        {
            let ghost before = out@;
            out.push(taken[i].msg_id.clone());
            proof {
                let all = ids_of(acks_model(taken@));
                assert(texts(out@) =~= texts(before).push(all[i as int]));
                assert(all.take(i + 1) =~= all.take(i as int).push(all[i as int]));
            }
            i = i + 1;
        }
        proof {
            let all = ids_of(acks_model(taken@));
            assert(all.take(i as int) =~= all);
        }
        out
    }

    /// Takes the writes out that have waited too long.
    pub fn drain_expired(&mut self, now: u64) -> (out: Vec<String>)
        ensures
            texts(out@) == ids_of(acks_due(old(self)@, now)),
            final(self)@ == acks_left(old(self)@, now),
            final(self).timeout == old(self).timeout,
    {
        let mut taken: Vec<PendingAck> = Vec::new();
        std::mem::swap(&mut taken, &mut self.list);
        let mut out: Vec<String> = Vec::new();
        let mut left: Vec<PendingAck> = Vec::new();
        let ghost s = acks_model(taken@);
        let mut i: usize = 0;
        proof {
            assert(texts(out@) =~= ids_of(acks_due(s.take(0), now)));
            assert(acks_model(left@) =~= acks_left(s.take(0), now));
        }
        while i < taken.len()
            invariant
                i <= taken@.len(),
                s == acks_model(taken@),
                texts(out@) == ids_of(acks_due(s.take(i as int), now)),
                acks_model(left@) == acks_left(s.take(i as int), now),
                self.timeout == old(self).timeout,
            decreases taken@.len() - i,
        {
            let ghost e = s[i as int];
            proof {
                assert(s.take(i + 1).drop_last() =~= s.take(i as int));
                assert(s.take(i + 1).last() == e);
            }
            let ghost out_before = out@;
            let ghost left_before = left@;
            if taken[i].deadline <= now {
                out.push(taken[i].msg_id.clone());
                proof {
                    assert(texts(out@) =~= texts(out_before).push(e.0));
                    assert(ids_of(acks_due(s.take(i as int), now).push(e)) =~= ids_of(
                        acks_due(s.take(i as int), now),
                    ).push(e.0));
                }
            } else {
                left.push(
                    PendingAck { msg_id: taken[i].msg_id.clone(), deadline: taken[i].deadline },
                );
                proof {
                    assert(acks_model(left@) =~= acks_model(left_before).push(e));
                }
            }
            i = i + 1;
        }
        proof {
            assert(s.take(i as int) =~= s);
        }
        self.list = left;
        out
    }
}

/// A read that waits for its report.
#[derive(Debug, Clone, PartialEq, Eq)]
pub struct PendingRead {
    /// What is read.
    pub key: BankKey,
    /// Correlation id of the client.
    pub msg_id: String,
    /// When the read has waited too long.
    pub deadline: u64,
}

/// Reads with their correlation ids and deadlines.
pub type Reads = Seq<(BankKey, Seq<char>, u64)>;

/// What a list of waiting reads says.
pub open spec fn reads_model(list: Seq<PendingRead>) -> Reads {
    list.map_values(|p: PendingRead| (p.key, p.msg_id@, p.deadline))
}

/// The list with one more read, in the order of what is read. Reads of one register
/// stay in the order in which they came.
pub open spec fn reads_with(s: Reads, e: (BankKey, Seq<char>, u64)) -> Reads
    decreases s.len(),
{
    if s.len() == 0 {
        seq![e]
    } else if e.0.rank() < s[0].0.rank() {
        seq![e] + s
    } else {
        seq![s[0]] + reads_with(s.drop_first(), e)
    }
}

/// The ids of the reads of one register.
pub open spec fn reads_of(s: Reads, key: BankKey) -> Seq<Seq<char>>
    decreases s.len(),
{
    if s.len() == 0 {
        seq![]
    } else if s.last().0 == key {
        reads_of(s.drop_last(), key).push(s.last().1)
    } else {
        reads_of(s.drop_last(), key)
    }
}

/// The reads of all other registers.
pub open spec fn reads_but(s: Reads, key: BankKey) -> Reads
    decreases s.len(),
{
    if s.len() == 0 {
        seq![]
    } else if s.last().0 == key {
        reads_but(s.drop_last(), key)
    } else {
        reads_but(s.drop_last(), key).push(s.last())
    }
}

/// The ids of the reads that have waited too long.
pub open spec fn reads_due(s: Reads, now: u64) -> Seq<Seq<char>>
    decreases s.len(),
{
    if s.len() == 0 {
        seq![]
    } else if s.last().2 <= now {
        reads_due(s.drop_last(), now).push(s.last().1)
    } else {
        reads_due(s.drop_last(), now)
    }
}

/// The reads that may wait on.
pub open spec fn reads_left(s: Reads, now: u64) -> Reads
    decreases s.len(),
{
    if s.len() == 0 {
        seq![]
    } else if s.last().2 <= now {
        reads_left(s.drop_last(), now)
    } else {
        reads_left(s.drop_last(), now).push(s.last())
    }
}

/// The earliest deadline of waiting reads.
pub open spec fn reads_deadline(s: Reads) -> Option<u64>
    decreases s.len(),
{
    if s.len() == 0 {
        None
    } else {
        earlier(reads_deadline(s.drop_last()), Some(s.last().2))
    }
}

/// Reads that wait for their report. One report answers all reads of its register.
#[derive(Debug, Clone, PartialEq, Eq)]
pub struct PendingReads {
    /// The reads, in the order of what is read.
    pub list: Vec<PendingRead>,
    /// How long a read may wait.
    pub timeout: u64,
}

impl View for PendingReads {
    type V = Reads;

    open spec fn view(&self) -> Reads {
        reads_model(self.list@)
    }
}

impl PendingReads {
    /// No reads, with a timeout.
    pub fn with_timeout(timeout: u64) -> (r: PendingReads)
        ensures
            r@ == Reads::empty(),
            r.timeout == timeout,
    {
        let r = PendingReads { list: Vec::new(), timeout };
        proof {
            assert(r@ =~= Reads::empty());
        }
        r
    }

    /// Adds a read.
    pub fn push(&mut self, key: BankKey, msg_id: String, now: u64)
        requires
            now + old(self).timeout <= u64::MAX,
        ensures
            final(self)@ == reads_with(
                old(self)@,
                (key, msg_id@, (now + old(self).timeout) as u64),
            ),
            exists|i: int|
                0 <= i < final(self)@.len() && (#[trigger] final(self)@[i]).0 == key
                    && final(self)@[i].1 == msg_id@ && final(self)@[i].2 == now + old(self).timeout,
            final(self).timeout == old(self).timeout,
    {
        let deadline: u64 = now + self.timeout;
        let place: u64 = key.place();
        let ghost s = self@;
        let ghost e = (key, msg_id@, deadline);
        let mut i: usize = 0;
        proof {
            assert(s.take(0) + reads_with(s.skip(0), e) =~= reads_with(s, e)) by {
                assert(s.skip(0) =~= s);
            }
        }
        while i < self.list.len() && self.list[i].key.place() <= place
            invariant
                i <= self.list@.len(),
                s == reads_model(self.list@),
                place == key.rank(),
                e == (key, msg_id@, deadline),
                reads_with(s, e) == s.take(i as int) + reads_with(s.skip(i as int), e),
                self.timeout == old(self).timeout,
            decreases self.list@.len() - i,
        {
            proof {
                let rest = s.skip(i as int);
                assert(rest[0] == s[i as int]);
                assert(rest.drop_first() =~= s.skip(i + 1));
                assert(s.take(i as int) + (seq![rest[0]] + reads_with(s.skip(i + 1), e))
                    =~= s.take(i + 1) + reads_with(s.skip(i + 1), e));
            }
            i = i + 1;
        }
        let ghost rest = s.skip(i as int);
        self.list.insert(i, PendingRead { key, msg_id, deadline });
        proof {
            if i < s.len() {
                assert(rest[0] == s[i as int]);
                assert(reads_with(rest, e) == seq![e] + rest);
            } else {
                assert(rest =~= Reads::empty());
            }
            assert(reads_model(self.list@) =~= s.take(i as int) + (seq![e] + rest));
            assert(self@[i as int] == e);
        }
    }

    /// The earliest deadline.
    pub fn next_deadline(&self) -> (r: Option<u64>)
        ensures
            r == reads_deadline(self@),
    {
        let mut r: Option<u64> = None;
        let mut i: usize = 0;
        while i < self.list.len()
            invariant
                i <= self.list@.len(),
                r == reads_deadline(self@.take(i as int)),
            decreases self.list@.len() - i,
        {
            proof {
                assert(self@.take(i + 1).drop_last() =~= self@.take(i as int));
            }
            r = earlier_of(r, Some(self.list[i].deadline));
            i = i + 1;
        }
        proof {
            assert(self@.take(i as int) =~= self@);
        }
        r
    }

    /// Takes the reads of one register out.
    pub fn resolve(&mut self, key: BankKey) -> (out: Vec<String>)
        ensures
            texts(out@) == reads_of(old(self)@, key),
            final(self)@ == reads_but(old(self)@, key),
            final(self).timeout == old(self).timeout,
    {
        let mut taken: Vec<PendingRead> = Vec::new();
        std::mem::swap(&mut taken, &mut self.list);
        let mut out: Vec<String> = Vec::new();
        let mut left: Vec<PendingRead> = Vec::new();
        let ghost s = reads_model(taken@);
        let mut i: usize = 0;
        proof {
            assert(texts(out@) =~= reads_of(s.take(0), key));
            assert(reads_model(left@) =~= reads_but(s.take(0), key));
        }
        while i < taken.len()
            invariant
                i <= taken@.len(),
                s == reads_model(taken@),
                texts(out@) == reads_of(s.take(i as int), key),
                reads_model(left@) == reads_but(s.take(i as int), key),
                self.timeout == old(self).timeout,
            decreases taken@.len() - i,
        {
            let ghost e = s[i as int];
            proof {
                assert(s.take(i + 1).drop_last() =~= s.take(i as int));
                assert(s.take(i + 1).last() == e);
            }
            let ghost out_before = out@;
            let ghost left_before = left@;
            if taken[i].key == key {
                out.push(taken[i].msg_id.clone());
                proof {
                    assert(texts(out@) =~= texts(out_before).push(e.1));
                }
            } else {
                left.push(copy_read(&taken[i]));
                proof {
                    assert(reads_model(left@) =~= reads_model(left_before).push(e));
                }
            }
            i = i + 1;
        }
        proof {
            assert(s.take(i as int) =~= s);
        }
        self.list = left;
        out
    }

    /// Takes the reads out that have waited too long.
    pub fn drain_expired(&mut self, now: u64) -> (out: Vec<String>)
        ensures
            texts(out@) == reads_due(old(self)@, now),
            final(self)@ == reads_left(old(self)@, now),
            final(self).timeout == old(self).timeout,
    {
        let mut taken: Vec<PendingRead> = Vec::new();
        std::mem::swap(&mut taken, &mut self.list);
        let mut out: Vec<String> = Vec::new();
        let mut left: Vec<PendingRead> = Vec::new();
        let ghost s = reads_model(taken@);
        let mut i: usize = 0;
        proof {
            assert(texts(out@) =~= reads_due(s.take(0), now));
            assert(reads_model(left@) =~= reads_left(s.take(0), now));
        }
        while i < taken.len()
            invariant
                i <= taken@.len(),
                s == reads_model(taken@),
                texts(out@) == reads_due(s.take(i as int), now),
                reads_model(left@) == reads_left(s.take(i as int), now),
                self.timeout == old(self).timeout,
            decreases taken@.len() - i,
        {
            let ghost e = s[i as int];
            proof {
                assert(s.take(i + 1).drop_last() =~= s.take(i as int));
                assert(s.take(i + 1).last() == e);
            }
            let ghost out_before = out@;
            let ghost left_before = left@;
            if taken[i].deadline <= now {
                out.push(taken[i].msg_id.clone());
                proof {
                    assert(texts(out@) =~= texts(out_before).push(e.1));
                }
            } else {
                left.push(copy_read(&taken[i]));
                proof {
                    assert(reads_model(left@) =~= reads_model(left_before).push(e));
                }
            }
            i = i + 1;
        }
        proof {
            assert(s.take(i as int) =~= s);
        }
        self.list = left;
        out
    }
}

/// A copy of a waiting read.
fn copy_read(read: &PendingRead) -> (r: PendingRead)
    ensures
        r.key == read.key,
        r.msg_id@ == read.msg_id@,
        r.deadline == read.deadline,
{
    PendingRead { key: read.key, msg_id: read.msg_id.clone(), deadline: read.deadline }
}

/// Whether ids stand in order, each once.
pub open spec fn acks_ordered(s: Acks) -> bool {
    forall|i: int, j: int|
        0 <= i < j < s.len() ==> text_before((#[trigger] s[i]).0, (#[trigger] s[j]).0)
}

/// The deadline under an id.
pub open spec fn ack_at(s: Acks, msg_id: Seq<char>) -> Option<u64>
    decreases s.len(),
{
    if s.len() == 0 {
        None
    } else if s[0].0 == msg_id {
        Some(s[0].1)
    } else {
        ack_at(s.drop_first(), msg_id)
    }
}

/// Adding a write sets its deadline, keeps all others, and keeps the order.
pub proof fn law_one_deadline_for_each_write(
    s: Acks,
    msg_id: Seq<char>,
    deadline: u64,
    other: Seq<char>,
)
    requires
        acks_ordered(s),
    ensures
        acks_ordered(acks_with(s, msg_id, deadline)),
        ack_at(acks_with(s, msg_id, deadline), msg_id) == Some(deadline),
        other != msg_id ==> ack_at(acks_with(s, msg_id, deadline), other) == ack_at(s, other),
    decreases s.len(),
{
    let after = acks_with(s, msg_id, deadline);
    if s.len() > 0 {
        let rest = s.drop_first();
        assert forall|i: int, j: int| 0 <= i < j < rest.len() implies text_before(
            (#[trigger] rest[i]).0,
            (#[trigger] rest[j]).0,
        ) by {
            assert(rest[i] == s[i + 1] && rest[j] == s[j + 1]);
        }
        law_one_deadline_for_each_write(rest, msg_id, deadline, other);
        lemma_text_order(msg_id, s[0].0);
        if s[0].0 == msg_id {
            assert forall|i: int, j: int| 0 <= i < j < after.len() implies text_before(
                (#[trigger] after[i]).0,
                (#[trigger] after[j]).0,
            ) by {
                assert(after[i].0 == s[i].0 && after[j].0 == s[j].0);
            }
            assert(after.drop_first() =~= rest);
        } else if text_before(msg_id, s[0].0) {
            assert forall|i: int, j: int| 0 <= i < j < after.len() implies text_before(
                (#[trigger] after[i]).0,
                (#[trigger] after[j]).0,
            ) by {
                assert(after[j] == s[j - 1]);
                if i > 0 {
                    assert(after[i] == s[i - 1]);
                } else if j > 1 {
                    assert(text_before(s[0].0, s[j - 1].0));
                    lemma_text_order_goes_on(msg_id, s[0].0, s[j - 1].0);
                }
            }
            assert(after.drop_first() =~= s);
        } else {
            let tail = acks_with(rest, msg_id, deadline);
            assert(after.drop_first() =~= tail);
            lemma_acks_with_ids(rest, msg_id, deadline);
            assert forall|i: int, j: int| 0 <= i < j < after.len() implies text_before(
                (#[trigger] after[i]).0,
                (#[trigger] after[j]).0,
            ) by {
                assert(after[j] == tail[j - 1]);
                if i > 0 {
                    assert(after[i] == tail[i - 1]);
                } else if tail[j - 1].0 != msg_id {
                    let k = choose|k: int| 0 <= k < rest.len() && rest[k].0 == tail[j - 1].0;
                    assert(rest[k] == s[k + 1]);
                    assert(text_before(s[0].0, s[k + 1].0));
                }
            }
        }
    } else {
        assert(after.drop_first() =~= s);
    }
}

/// Adding a write adds no id but its own.
proof fn lemma_acks_with_ids(s: Acks, msg_id: Seq<char>, deadline: u64)
    ensures
        forall|j: int|
            0 <= j < acks_with(s, msg_id, deadline).len() ==> (#[trigger] acks_with(
                s,
                msg_id,
                deadline,
            )[j]).0 == msg_id || exists|k: int|
                0 <= k < s.len() && (#[trigger] s[k]).0 == acks_with(s, msg_id, deadline)[j].0,
    decreases s.len(),
{
    let after = acks_with(s, msg_id, deadline);
    if s.len() > 0 {
        let rest = s.drop_first();
        lemma_acks_with_ids(rest, msg_id, deadline);
        assert forall|j: int| 0 <= j < after.len() && (#[trigger] after[j]).0
            != msg_id implies exists|k: int|
            0 <= k < s.len() && (#[trigger] s[k]).0 == after[j].0 by {
            if s[0].0 == msg_id {
                assert(after[j] == s[j]);
            } else if text_before(msg_id, s[0].0) {
                assert(after[j] == s[j - 1]);
            } else if j == 0 {
                assert(after[0] == s[0]);
            } else {
                let tail = acks_with(rest, msg_id, deadline);
                assert(after[j] == tail[j - 1]);
                let k = choose|k: int| 0 <= k < rest.len() && (#[trigger] rest[k]).0 == after[j].0;
                assert(rest[k] == s[k + 1]);
            }
        }
    }
}

/// A write that has waited too long leaves once: it is reported or waits on, never
/// both and never neither.
pub proof fn law_expired_writes_leave_once(s: Acks, now: u64)
    ensures
        acks_due(s, now).len() + acks_left(s, now).len() == s.len(),
        forall|i: int| 0 <= i < acks_due(s, now).len() ==> (#[trigger] acks_due(s, now)[i]).1 <= now,
        forall|i: int| 0 <= i < acks_left(s, now).len() ==> (#[trigger] acks_left(s, now)[i]).1 > now,
        forall|e: (Seq<char>, u64)| #[trigger]
            s.contains(e) ==> acks_due(s, now).contains(e) || acks_left(s, now).contains(e),
        acks_due(acks_left(s, now), now).len() == 0,
    decreases s.len(),
{
    if s.len() > 0 {
        let init = s.drop_last();
        law_expired_writes_leave_once(init, now);
        let due = acks_due(s, now);
        let left = acks_left(s, now);
        assert forall|e: (Seq<char>, u64)| #[trigger] s.contains(e) implies due.contains(e)
            || left.contains(e) by {
            let k = choose|k: int| 0 <= k < s.len() && s[k] == e;
            if k < init.len() {
                assert(init[k] == e);
                assert(init.contains(e));
                if acks_due(init, now).contains(e) {
                    let m = choose|m: int|
                        0 <= m < acks_due(init, now).len() && acks_due(init, now)[m] == e;
                    assert(due[m] == e);
                } else {
                    let m = choose|m: int|
                        0 <= m < acks_left(init, now).len() && acks_left(init, now)[m] == e;
                    assert(left[m] == e);
                }
            } else if e.1 <= now {
                assert(due[due.len() - 1] == e);
            } else {
                assert(left[left.len() - 1] == e);
            }
        }
        if s.last().1 > now {
            assert(left.drop_last() =~= acks_left(init, now));
        }
    }
}

/// A read that has waited too long leaves once: it is reported or waits on, never
/// both and never neither.
pub proof fn law_expired_reads_leave_once(s: Reads, now: u64)
    ensures
        reads_due(s, now).len() + reads_left(s, now).len() == s.len(),
        forall|i: int|
            0 <= i < reads_left(s, now).len() ==> (#[trigger] reads_left(s, now)[i]).2 > now,
        forall|e: (BankKey, Seq<char>, u64)| #[trigger]
            s.contains(e) ==> if e.2 <= now {
                reads_due(s, now).contains(e.1)
            } else {
                reads_left(s, now).contains(e)
            },
        reads_due(reads_left(s, now), now).len() == 0,
    decreases s.len(),
{
    if s.len() > 0 {
        let init = s.drop_last();
        law_expired_reads_leave_once(init, now);
        let due = reads_due(s, now);
        let left = reads_left(s, now);
        assert forall|e: (BankKey, Seq<char>, u64)| #[trigger] s.contains(e) implies if e.2
            <= now {
            due.contains(e.1)
        } else {
            left.contains(e)
        } by {
            let k = choose|k: int| 0 <= k < s.len() && s[k] == e;
            if k < init.len() {
                assert(init[k] == e);
                assert(init.contains(e));
                if e.2 <= now {
                    let m = choose|m: int|
                        0 <= m < reads_due(init, now).len() && reads_due(init, now)[m] == e.1;
                    assert(due[m] == e.1);
                } else {
                    let m = choose|m: int|
                        0 <= m < reads_left(init, now).len() && reads_left(init, now)[m] == e;
                    assert(left[m] == e);
                }
            } else if e.2 <= now {
                assert(due[due.len() - 1] == e.1);
            } else {
                assert(left[left.len() - 1] == e);
            }
        }
        if s.last().2 > now {
            assert(left.drop_last() =~= reads_left(init, now));
        }
    }
}

/// A report answers each read of its register once, and no other read.
pub proof fn law_report_answers_its_reads(s: Reads, key: BankKey)
    ensures
        reads_of(s, key).len() + reads_but(s, key).len() == s.len(),
        forall|i: int|
            0 <= i < reads_but(s, key).len() ==> (#[trigger] reads_but(s, key)[i]).0 != key,
        forall|e: (BankKey, Seq<char>, u64)| #[trigger]
            s.contains(e) ==> if e.0 == key {
                reads_of(s, key).contains(e.1)
            } else {
                reads_but(s, key).contains(e)
            },
        reads_of(reads_but(s, key), key).len() == 0,
    decreases s.len(),
{
    if s.len() > 0 {
        let init = s.drop_last();
        law_report_answers_its_reads(init, key);
        let ids = reads_of(s, key);
        let rest = reads_but(s, key);
        assert forall|e: (BankKey, Seq<char>, u64)| #[trigger] s.contains(e) implies if e.0
            == key {
            ids.contains(e.1)
        } else {
            rest.contains(e)
        } by {
            let k = choose|k: int| 0 <= k < s.len() && s[k] == e;
            if k < init.len() {
                assert(init[k] == e);
                assert(init.contains(e));
                if e.0 == key {
                    let m = choose|m: int|
                        0 <= m < reads_of(init, key).len() && reads_of(init, key)[m] == e.1;
                    assert(ids[m] == e.1);
                } else {
                    let m = choose|m: int|
                        0 <= m < reads_but(init, key).len() && reads_but(init, key)[m] == e;
                    assert(rest[m] == e);
                }
            } else if e.0 == key {
                assert(ids[ids.len() - 1] == e.1);
            } else {
                assert(rest[rest.len() - 1] == e);
            }
        }
        if s.last().0 != key {
            assert(rest.drop_last() =~= reads_but(init, key));
        }
    }
}

} // verus!
