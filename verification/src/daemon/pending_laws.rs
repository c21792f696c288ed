//! What the lists of waiting requests hold, entry by entry.
use crate::daemon::pending::{
    acks_deadline, acks_due, acks_left, acks_with, earlier, ids_of, reads_but, reads_deadline,
    reads_due, reads_left, reads_of, reads_with, Acks, Reads,
};
use crate::registers::bank::BankKey;
use vstd::prelude::*;

verus! {

/// A write that joins the list takes the place of one with its id, or stands between
/// two others. All other writes stay as they are, in their order.
pub proof fn law_write_joins_the_list(s: Acks, msg_id: Seq<char>, deadline: u64)
    ensures
        exists|i: int|
            0 <= i <= s.len() && (acks_with(s, msg_id, deadline) == #[trigger] s.insert(
                i,
                (msg_id, deadline),
            ) || (i < s.len() && s[i].0 == msg_id && acks_with(s, msg_id, deadline) == s.update(
                i,
                (msg_id, deadline),
            ))),
    decreases s.len(),
{
    let e = (msg_id, deadline);
    let after = acks_with(s, msg_id, deadline);
    if s.len() == 0 {
        assert(after =~= s.insert(0, e));
    } else if s[0].0 == msg_id {
        assert(s.insert(0, e).len() == s.len() + 1);
        assert(after == s.update(0, e));
    } else if after =~= seq![e] + s {
        assert(after =~= s.insert(0, e));
    } else {
        let rest = s.drop_first();
        law_write_joins_the_list(rest, msg_id, deadline);
        let i = choose|i: int|
            0 <= i <= rest.len() && (acks_with(rest, msg_id, deadline) == #[trigger] rest.insert(
                i,
                e,
            ) || (i < rest.len() && rest[i].0 == msg_id && acks_with(rest, msg_id, deadline)
                == rest.update(i, e)));
        if acks_with(rest, msg_id, deadline) == rest.insert(i, e) {
            assert(after =~= s.insert(i + 1, e));
        } else {
            assert(s.insert(i + 1, e).len() == s.len() + 1);
            assert(s[i + 1] == rest[i]);
            assert(after =~= s.update(i + 1, e));
        }
    }
}

/// The ids of a list are those of its writes, in order.
pub proof fn law_ids_of_writes(s: Acks)
    ensures
        ids_of(s).len() == s.len(),
        forall|i: int| 0 <= i < s.len() ==> #[trigger] ids_of(s)[i] == s[i].0,
{
}

/// The writes that have waited too long are those whose deadline has come, in order,
/// and the others stay, in order.
pub proof fn law_writes_are_due_at_their_deadline(s: Acks, now: u64)
    ensures
        acks_due(s, now) == s.filter(|e: (Seq<char>, u64)| e.1 <= now),
        acks_left(s, now) == s.filter(|e: (Seq<char>, u64)| e.1 > now),
    decreases s.len(),
{
    reveal(Seq::filter);
    if s.len() > 0 {
        law_writes_are_due_at_their_deadline(s.drop_last(), now);
    }
}

/// The reads that have waited too long are those whose deadline has come, in order,
/// and the others stay, in order.
pub proof fn law_reads_are_due_at_their_deadline(s: Reads, now: u64)
    ensures
        reads_due(s, now) == s.filter(|e: (BankKey, Seq<char>, u64)| e.2 <= now).map_values(
            |e: (BankKey, Seq<char>, u64)| e.1,
        ),
        reads_left(s, now) == s.filter(|e: (BankKey, Seq<char>, u64)| e.2 > now),
    decreases s.len(),
{
    reveal(Seq::filter);
    if s.len() > 0 {
        law_reads_are_due_at_their_deadline(s.drop_last(), now);
    }
    assert(reads_due(s, now) =~= s.filter(
        |e: (BankKey, Seq<char>, u64)| e.2 <= now,
    ).map_values(|e: (BankKey, Seq<char>, u64)| e.1));
}

/// The reads of a register are those that ask for it, in order, and the others stay,
/// in order.
pub proof fn law_reads_of_a_register(s: Reads, key: BankKey)
    ensures
        reads_of(s, key) == s.filter(|e: (BankKey, Seq<char>, u64)| e.0 == key).map_values(
            |e: (BankKey, Seq<char>, u64)| e.1,
        ),
        reads_but(s, key) == s.filter(|e: (BankKey, Seq<char>, u64)| e.0 != key),
    decreases s.len(),
{
    reveal(Seq::filter);
    if s.len() > 0 {
        law_reads_of_a_register(s.drop_last(), key);
    }
    assert(reads_of(s, key) =~= s.filter(
        |e: (BankKey, Seq<char>, u64)| e.0 == key,
    ).map_values(|e: (BankKey, Seq<char>, u64)| e.1));
}

/// A read that joins the list stands behind all that do not come after it, and the
/// other reads stay as they are, in their order.
pub proof fn law_read_joins_the_list(s: Reads, e: (BankKey, Seq<char>, u64))
    ensures
        exists|i: int|
            0 <= i <= s.len() && reads_with(s, e) == #[trigger] s.insert(i, e) && (forall|j: int|
                0 <= j < i ==> (#[trigger] s[j]).0.rank() <= e.0.rank()) && (i < s.len()
                ==> e.0.rank() < s[i].0.rank()),
    decreases s.len(),
{
    if s.len() == 0 || e.0.rank() < s[0].0.rank() {
        assert(reads_with(s, e) =~= s.insert(0, e));
    } else {
        let rest = s.drop_first();
        law_read_joins_the_list(rest, e);
        let i = choose|i: int|
            0 <= i <= rest.len() && reads_with(rest, e) == #[trigger] rest.insert(i, e) && (forall|
                j: int,
            |
                0 <= j < i ==> (#[trigger] rest[j]).0.rank() <= e.0.rank()) && (i < rest.len()
                ==> e.0.rank() < rest[i].0.rank());
        assert(reads_with(s, e) =~= s.insert(i + 1, e));
        assert forall|j: int| 0 <= j < i + 1 implies (#[trigger] s[j]).0.rank()
            <= e.0.rank() by {
            if j > 0 {
                assert(s[j] == rest[j - 1]);
            }
        }
        if i < rest.len() {
            assert(s[i + 1] == rest[i]);
        }
    }
}

/// The earlier of two instants.
pub proof fn law_earlier_instant(x: u64, y: u64)
    ensures
        earlier(None, None) is None,
        earlier(Some(x), None) == Some(x),
        earlier(None, Some(y)) == Some(y),
        x <= y ==> earlier(Some(x), Some(y)) == Some(x),
        y <= x ==> earlier(Some(x), Some(y)) == Some(y),
{
}

/// The next deadline of writes is one of theirs, and none is earlier. There is one
/// exactly when a write waits.
pub proof fn law_next_deadline_of_writes(s: Acks)
    ensures
        acks_deadline(s) is None <==> s.len() == 0,
        acks_deadline(s) matches Some(d) ==> (forall|i: int|
            0 <= i < s.len() ==> d <= (#[trigger] s[i]).1) && exists|i: int|
            0 <= i < s.len() && (#[trigger] s[i]).1 == d,
    decreases s.len(),
{
    if s.len() > 0 {
        let init = s.drop_last();
        let n = init.len() as int;
        law_next_deadline_of_writes(init);
        let d = acks_deadline(s)->0;
        assert forall|i: int| 0 <= i < s.len() implies d <= (#[trigger] s[i]).1 by {
            if i < n {
                assert(init[i] == s[i]);
            }
        }
        if d == s[n].1 {
        } else {
            let i = choose|i: int| 0 <= i < init.len() && (#[trigger] init[i]).1 == d;
            assert(s[i].1 == d);
        }
    }
}

/// The next deadline of reads is one of theirs, and none is earlier. There is one
/// exactly when a read waits.
pub proof fn law_next_deadline_of_reads(s: Reads)
    ensures
        reads_deadline(s) is None <==> s.len() == 0,
        reads_deadline(s) matches Some(d) ==> (forall|i: int|
            0 <= i < s.len() ==> d <= (#[trigger] s[i]).2) && exists|i: int|
            0 <= i < s.len() && (#[trigger] s[i]).2 == d,
    decreases s.len(),
{
    if s.len() > 0 {
        let init = s.drop_last();
        let n = init.len() as int;
        law_next_deadline_of_reads(init);
        let d = reads_deadline(s)->0;
        assert forall|i: int| 0 <= i < s.len() implies d <= (#[trigger] s[i]).2 by {
            if i < n {
                assert(init[i] == s[i]);
            }
        }
        if d == s[n].2 {
        } else {
            let i = choose|i: int| 0 <= i < init.len() && (#[trigger] init[i]).2 == d;
            assert(s[i].2 == d);
        }
    }
}

/// Addresses are in the order of their unit types, then their units, their registers,
/// and their zones, of which no zone comes first.
pub proof fn law_order_of_addresses(a: BankKey, b: BankKey)
    requires
        a.unit_id@ < 0x10_0000,
        b.unit_id@ < 0x10_0000,
    ensures
        a.rank() < b.rank() <==> a.unit_type.0 < b.unit_type.0 || (a.unit_type.0 == b.unit_type.0
            && (a.unit_id@ < b.unit_id@ || (a.unit_id@ == b.unit_id@ && (a.reg.0 < b.reg.0 || (
        a.reg.0 == b.reg.0 && match (a.zone, b.zone) {
            (None, Some(_)) => true,
            (Some(x), Some(y)) => x < y,
            _ => false,
        }))))),
{
}

} // verus!
