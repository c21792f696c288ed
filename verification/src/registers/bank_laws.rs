//! Laws of the mailbox that span several listings.
use crate::registers::bank::{
    any_key, fits, law_lists_unique, lemma_lists_init, lemma_rank, lists, lookup, of_type, of_unit,
    smallest_unit, stored, tablet_record, type_present, unit_present, well_kept, BankKey,
};
use crate::registers::ids::{RegId, UnitId, UnitType, UNIT_ID_MAX};
use crate::registers::wire::{CanRecord, Dest};
use vstd::prelude::*;

verus! {

/// A mailbox that records were stored in has exactly the slots of the records, and is
/// well kept.
pub proof fn law_slots_are_those_of_records(records: Seq<CanRecord>)
    requires
        forall|i: int| 0 <= i < records.len() ==> (#[trigger] records[i]).unit_id@ <= UNIT_ID_MAX,
    ensures
        stored(Map::empty(), records).dom() == records.map_values(
            |r: CanRecord| BankKey::of(r),
        ).to_set(),
        well_kept(stored(Map::empty(), records)),
    decreases records.len(),
{
    let keys = records.map_values(|r: CanRecord| BankKey::of(r));
    let bank = stored(Map::empty(), records);
    if records.len() == 0 {
        assert(bank.dom() =~= keys.to_set());
    } else {
        let init = records.drop_last();
        let last = records.last();
        let before = init.map_values(|r: CanRecord| BankKey::of(r));
        assert forall|i: int| 0 <= i < init.len() implies (#[trigger] init[i]).unit_id@
            <= UNIT_ID_MAX by {
            assert(init[i] == records[i]);
        }
        law_slots_are_those_of_records(init);
        assert(last.unit_id@ <= UNIT_ID_MAX);
        assert(keys =~= before.push(BankKey::of(last)));
        assert forall|k: BankKey| keys.to_set().contains(k) <==> before.to_set().insert(
            BankKey::of(last),
        ).contains(k) by {
            if before.contains(k) {
                let i = choose|i: int| 0 <= i < before.len() && before[i] == k;
                assert(keys[i] == k);
            }
            if k == BankKey::of(last) {
                assert(keys[before.len() as int] == k);
            }
        }
        assert(bank.dom() =~= keys.to_set());
    }
}

/// The keys of the records of a listing.
spec fn keys_of(out: Seq<CanRecord>) -> Seq<BankKey> {
    out.map_values(|r: CanRecord| BankKey::of(r))
}

/// The listing of a whole mailbox is as long as the mailbox has slots.
pub proof fn law_listing_has_every_slot_once(bank: Map<BankKey, [u8; 7]>, out: Seq<CanRecord>)
    requires
        lists(bank, any_key(), out),
    ensures
        out.len() == bank.dom().len(),
{
    let keys = keys_of(out);
    assert forall|i: int, j: int|
        0 <= i < keys.len() && 0 <= j < keys.len() && i != j implies keys[i] != keys[j] by {
        if i < j {
            assert(BankKey::of(out[i]).rank() < BankKey::of(out[j]).rank());
        } else {
            assert(BankKey::of(out[j]).rank() < BankKey::of(out[i]).rank());
        }
    }
    assert(keys.no_duplicates());
    keys.unique_seq_to_set();
    assert forall|k: BankKey| keys.to_set().contains(k) <==> bank.dom().contains(k) by {
        if bank.dom().contains(k) {
            assert(any_key()(k));
            let i = choose|i: int| 0 <= i < out.len() && BankKey::of(#[trigger] out[i]) == k;
            assert(keys[i] == k);
        }
        if keys.contains(k) {
            let i = choose|i: int| 0 <= i < keys.len() && keys[i] == k;
            assert(BankKey::of(out[i]) == k);
        }
    }
    assert(keys.to_set() =~= bank.dom());
}

/// Two listings, the first of smaller addresses, one behind the other.
proof fn lemma_lists_add(
    bank: Map<BankKey, [u8; 7]>,
    low: spec_fn(BankKey) -> bool,
    high: spec_fn(BankKey) -> bool,
    both: spec_fn(BankKey) -> bool,
    a: Seq<CanRecord>,
    b: Seq<CanRecord>,
)
    requires
        lists(bank, low, a),
        lists(bank, high, b),
        forall|k: BankKey| #[trigger]
            bank.dom().contains(k) ==> (both(k) <==> low(k) || high(k)),
        forall|x: BankKey, y: BankKey|
            #![trigger bank.dom().contains(x), bank.dom().contains(y)]
            bank.dom().contains(x) && bank.dom().contains(y) && low(x) && high(y) ==> x.rank()
                < y.rank(),
    ensures
        lists(bank, both, a + b),
{
    let out = a + b;
    assert forall|i: int| 0 <= i < out.len() implies {
        let key = BankKey::of(#[trigger] out[i]);
        bank.dom().contains(key) && both(key) && out[i] == tablet_record(
            key,
            bank[key],
        )
    } by {
        if i < a.len() {
            assert(out[i] == a[i]);
        } else {
            assert(out[i] == b[i - a.len()]);
        }
    }
    assert forall|i: int, j: int| 0 <= i < j < out.len() implies BankKey::of(
        #[trigger] out[i],
    ).rank() < BankKey::of(#[trigger] out[j]).rank() by {
        if j < a.len() {
            assert(out[i] == a[i] && out[j] == a[j]);
        } else if i >= a.len() {
            assert(out[i] == b[i - a.len()] && out[j] == b[j - a.len()]);
        } else {
            assert(out[i] == a[i] && out[j] == b[j - a.len()]);
            assert(bank.dom().contains(BankKey::of(a[i])));
            assert(bank.dom().contains(BankKey::of(b[j - a.len()])));
        }
    }
    assert forall|k: BankKey| #[trigger] bank.dom().contains(k) && both(k) implies exists|i: int|
        0 <= i < out.len() && BankKey::of(#[trigger] out[i]) == k by {
        if low(k) {
            let i = choose|i: int| 0 <= i < a.len() && BankKey::of(#[trigger] a[i]) == k;
            assert(out[i] == a[i]);
        } else {
            let i = choose|i: int| 0 <= i < b.len() && BankKey::of(#[trigger] b[i]) == k;
            assert(out[i + a.len()] == b[i]);
        }
    }
}

/// Listings one behind the other.
pub open spec fn chained(parts: Seq<Seq<CanRecord>>) -> Seq<CanRecord>
    decreases parts.len(),
{
    if parts.len() == 0 {
        seq![]
    } else {
        chained(parts.drop_last()) + parts.last()
    }
}

/// The lengths of listings together.
pub open spec fn total(parts: Seq<Seq<CanRecord>>) -> nat
    decreases parts.len(),
{
    if parts.len() == 0 {
        0
    } else {
        total(parts.drop_last()) + parts.last().len()
    }
}

proof fn lemma_chained_len(parts: Seq<Seq<CanRecord>>)
    ensures
        chained(parts).len() == total(parts),
    decreases parts.len(),
{
    if parts.len() > 0 {
        lemma_chained_len(parts.drop_last());
    }
}

/// The keys of the first unit types of a list.
spec fn of_types(types: Seq<UnitType>) -> spec_fn(BankKey) -> bool {
    |k: BankKey| types.contains(k.unit_type)
}

proof fn lemma_chained_types(
    bank: Map<BankKey, [u8; 7]>,
    types: Seq<UnitType>,
    parts: Seq<Seq<CanRecord>>,
)
    requires
        well_kept(bank),
        parts.len() == types.len(),
        forall|i: int, j: int|
            0 <= i < j < types.len() ==> (#[trigger] types[i]).0 < (#[trigger] types[j]).0,
        forall|i: int|
            0 <= i < types.len() ==> lists(bank, of_type(#[trigger] types[i]), parts[i]),
    ensures
        lists(bank, of_types(types), chained(parts)),
    decreases types.len(),
{
    if types.len() > 0 {
        let init = types.drop_last();
        let last = types.last();
        let n = types.len() - 1;
        assert forall|i: int| 0 <= i < init.len() implies lists(
            bank,
            of_type(#[trigger] init[i]),
            parts.drop_last()[i],
        ) by {
            assert(init[i] == types[i]);
        }
        lemma_chained_types(bank, init, parts.drop_last());
        assert(lists(bank, of_type(types[n]), parts[n]));
        assert forall|k: BankKey| #[trigger] bank.dom().contains(k) implies (of_types(types)(k)
            <==> of_types(init)(k) || of_type(last)(k)) by {
            if init.contains(k.unit_type) {
                let i = choose|i: int| 0 <= i < init.len() && init[i] == k.unit_type;
                assert(types[i] == k.unit_type);
            }
            if k.unit_type == last {
                assert(types[n] == k.unit_type);
            }
            if types.contains(k.unit_type) && k.unit_type != last {
                let i = choose|i: int| 0 <= i < types.len() && types[i] == k.unit_type;
                assert(init[i] == k.unit_type);
            }
        }
        assert forall|x: BankKey, y: BankKey|
            #![trigger bank.dom().contains(x), bank.dom().contains(y)]
            bank.dom().contains(x) && bank.dom().contains(y) && of_types(init)(x) && of_type(last)(
                y,
            ) implies x.rank() < y.rank() by {
            let i = choose|i: int| 0 <= i < init.len() && init[i] == x.unit_type;
            assert(types[i].0 < types[n].0);
            assert(fits(x, bank[x]) && fits(y, bank[y]));
            lemma_rank(x, y);
        }
        lemma_lists_add(
            bank,
            of_types(init),
            of_type(last),
            of_types(types),
            chained(parts.drop_last()),
            parts.last(),
        );
    }
}

/// A mailbox is the units of its types: over the unit types with an occupied slot, the
/// listings of each type, one behind the other, are the listing of the whole, and
/// their lengths together are the number of slots.
pub proof fn law_types_make_the_whole(
    bank: Map<BankKey, [u8; 7]>,
    types: Seq<UnitType>,
    parts: Seq<Seq<CanRecord>>,
)
    requires
        well_kept(bank),
        forall|i: int, j: int|
            0 <= i < j < types.len() ==> (#[trigger] types[i]).0 < (#[trigger] types[j]).0,
        forall|t: UnitType| types.contains(t) <==> type_present(bank, t),
        parts.len() == types.len(),
        forall|i: int|
            0 <= i < types.len() ==> lists(bank, of_type(#[trigger] types[i]), parts[i]),
    ensures
        lists(bank, any_key(), chained(parts)),
        bank.dom().len() == total(parts),
{
    lemma_chained_types(bank, types, parts);
    lemma_chained_len(parts);
    let out = chained(parts);
    assert forall|k: BankKey| #[trigger] bank.dom().contains(k) && any_key()(k) implies exists|
        i: int,
    |
        0 <= i < out.len() && BankKey::of(#[trigger] out[i]) == k by {
        assert(type_present(bank, k.unit_type));
        assert(of_types(types)(k));
    }
    law_listing_has_every_slot_once(bank, out);
}

/// The keys of the first units of a list.
spec fn of_units(unit_type: UnitType, ids: Seq<UnitId>) -> spec_fn(BankKey) -> bool {
    |k: BankKey| k.unit_type == unit_type && ids.contains(k.unit_id)
}

proof fn lemma_chained_units(
    bank: Map<BankKey, [u8; 7]>,
    unit_type: UnitType,
    ids: Seq<UnitId>,
    parts: Seq<Seq<CanRecord>>,
)
    requires
        well_kept(bank),
        parts.len() == ids.len(),
        forall|i: int, j: int|
            0 <= i < j < ids.len() ==> (#[trigger] ids[i])@ < (#[trigger] ids[j])@,
        forall|i: int|
            0 <= i < ids.len() ==> lists(bank, of_unit(unit_type, #[trigger] ids[i]), parts[i]),
    ensures
        lists(bank, of_units(unit_type, ids), chained(parts)),
    decreases ids.len(),
{
    if ids.len() > 0 {
        let init = ids.drop_last();
        let last = ids.last();
        let n = ids.len() - 1;
        assert forall|i: int| 0 <= i < init.len() implies lists(
            bank,
            of_unit(unit_type, #[trigger] init[i]),
            parts.drop_last()[i],
        ) by {
            assert(init[i] == ids[i]);
        }
        lemma_chained_units(bank, unit_type, init, parts.drop_last());
        assert(lists(bank, of_unit(unit_type, ids[n]), parts[n]));
        assert forall|k: BankKey| #[trigger] bank.dom().contains(k) implies (of_units(
            unit_type,
            ids,
        )(k) <==> of_units(unit_type, init)(k) || of_unit(unit_type, last)(k)) by {
            if init.contains(k.unit_id) {
                let i = choose|i: int| 0 <= i < init.len() && init[i] == k.unit_id;
                assert(ids[i] == k.unit_id);
            }
            if k.unit_id == last {
                assert(ids[n] == k.unit_id);
            }
            if ids.contains(k.unit_id) && k.unit_id != last {
                let i = choose|i: int| 0 <= i < ids.len() && ids[i] == k.unit_id;
                assert(init[i] == k.unit_id);
            }
        }
        assert forall|x: BankKey, y: BankKey|
            #![trigger bank.dom().contains(x), bank.dom().contains(y)]
            bank.dom().contains(x) && bank.dom().contains(y) && of_units(unit_type, init)(x)
                && of_unit(unit_type, last)(y) implies x.rank() < y.rank() by {
            let i = choose|i: int| 0 <= i < init.len() && init[i] == x.unit_id;
            assert(ids[i]@ < ids[n]@);
            assert(fits(x, bank[x]) && fits(y, bank[y]));
            lemma_rank(x, y);
        }
        lemma_lists_add(
            bank,
            of_units(unit_type, init),
            of_unit(unit_type, last),
            of_units(unit_type, ids),
            chained(parts.drop_last()),
            parts.last(),
        );
    }
}

/// The listing of a unit type is that of its units: over the unit ids with an occupied
/// slot, the listings of each unit, one behind the other.
pub proof fn law_units_make_the_type(
    bank: Map<BankKey, [u8; 7]>,
    unit_type: UnitType,
    ids: Seq<UnitId>,
    parts: Seq<Seq<CanRecord>>,
    out: Seq<CanRecord>,
)
    requires
        well_kept(bank),
        forall|i: int, j: int|
            0 <= i < j < ids.len() ==> (#[trigger] ids[i])@ < (#[trigger] ids[j])@,
        forall|id: UnitId| ids.contains(id) <==> unit_present(bank, unit_type, id),
        parts.len() == ids.len(),
        forall|i: int|
            0 <= i < ids.len() ==> lists(bank, of_unit(unit_type, #[trigger] ids[i]), parts[i]),
        lists(bank, of_type(unit_type), out),
    ensures
        out == chained(parts),
{
    lemma_chained_units(bank, unit_type, ids, parts);
    let all = chained(parts);
    assert forall|k: BankKey| #[trigger] bank.dom().contains(k) && of_type(unit_type)(
        k,
    ) implies exists|i: int| 0 <= i < all.len() && BankKey::of(#[trigger] all[i]) == k by {
        assert(unit_present(bank, unit_type, k.unit_id));
        assert(of_units(unit_type, ids)(k));
    }
    assert(lists(bank, of_type(unit_type), all));
    law_lists_unique(bank, of_type(unit_type), out, all);
}

/// A listing can be stored again: in an empty mailbox its records make the slots that
/// were listed, with their values, and no others.
pub proof fn law_replay_rebuilds(
    bank: Map<BankKey, [u8; 7]>,
    wanted: spec_fn(BankKey) -> bool,
    out: Seq<CanRecord>,
    key: BankKey,
)
    requires
        lists(bank, wanted, out),
    ensures
        lookup(stored(Map::empty(), out), key) == if wanted(key) {
            lookup(bank, key)
        } else {
            None
        },
    decreases out.len(),
{
    if out.len() == 0 {
        if bank.dom().contains(key) && wanted(key) {
            let i = choose|i: int| 0 <= i < out.len() && BankKey::of(#[trigger] out[i]) == key;
            assert(false);
        }
    } else {
        let last = BankKey::of(out.last());
        let fewer = |k: BankKey| wanted(k) && k != last;
        lemma_lists_init(bank, wanted, out);
        assert(lists(bank, fewer, out.drop_last()));
        law_replay_rebuilds(bank, fewer, out.drop_last(), key);
        assert(out[out.len() - 1] == out.last());
        assert(bank.dom().contains(last) && wanted(last));
        assert(out.last().data == bank[last]);
    }
}

/// A slot holds the last record that was reported for it: the last one with its unit
/// type, unit id and register, and for registers `03` and `04` with its zone in the
/// first byte. `at` is the place of that record; without one, where `at` is no place,
/// the slot holds what it held.
pub proof fn law_slot_holds_the_last_report(
    bank: Map<BankKey, [u8; 7]>,
    records: Seq<CanRecord>,
    unit_type: UnitType,
    unit_id: UnitId,
    reg: RegId,
    zone: Option<u8>,
    at: int,
)
    requires
        reg != RegId(0x03) && reg != RegId(0x04) ==> zone is None,
        0 <= at < records.len() ==> records[at].unit_type == unit_type && records[at].unit_id
            == unit_id && records[at].reg == reg && (reg == RegId(0x03) || reg == RegId(0x04)
            ==> zone == Some(records[at].data[0])),
        forall|i: int|
            0 <= i < records.len() && (i > at || !(0 <= at < records.len())) ==> !((
            #[trigger] records[i]).unit_type == unit_type && records[i].unit_id == unit_id
                && records[i].reg == reg && (reg == RegId(0x03) || reg == RegId(0x04) ==> zone
                == Some(records[i].data[0]))),
    ensures
        ({
            let slot = BankKey { unit_type, unit_id, reg, zone };
            let after = stored(bank, records);
            if 0 <= at < records.len() {
                after.dom().contains(slot) && after[slot] == records[at].data
            } else {
                &&& after.dom().contains(slot) <==> bank.dom().contains(slot)
                &&& bank.dom().contains(slot) ==> after[slot] == bank[slot]
            }
        }),
    decreases records.len(),
{
    if records.len() > 0 {
        let init = records.drop_last();
        let last = records.last();
        let n = records.len() - 1;
        assert(records[n] == last);
        if at == n {
        } else {
            assert forall|i: int|
                0 <= i < init.len() && (i > at || !(0 <= at < init.len())) implies !((
            #[trigger] init[i]).unit_type == unit_type && init[i].unit_id == unit_id
                && init[i].reg == reg && (reg == RegId(0x03) || reg == RegId(0x04) ==> zone
                == Some(init[i].data[0]))) by {
                assert(init[i] == records[i]);
            }
            law_slot_holds_the_last_report(bank, init, unit_type, unit_id, reg, zone, at);
        }
    }
}

/// A unit is there exactly when the mailbox holds something of it, a type exactly when
/// it holds something of one of its units, and the smallest unit of a type is the one
/// with the smallest id of those that are there.
pub proof fn law_units_that_are_there(
    bank: Map<BankKey, [u8; 7]>,
    unit_type: UnitType,
    unit_id: UnitId,
    key: BankKey,
)
    ensures
        bank.dom().contains(key) ==> unit_present(bank, key.unit_type, key.unit_id)
            && type_present(bank, key.unit_type),
        unit_present(bank, unit_type, unit_id) ==> exists|k: BankKey| #[trigger]
            bank.dom().contains(k) && k.unit_type == unit_type && k.unit_id == unit_id,
        type_present(bank, unit_type) ==> exists|k: BankKey| #[trigger]
            bank.dom().contains(k) && k.unit_type == unit_type,
        smallest_unit(bank, unit_type, unit_id) ==> (exists|k: BankKey| #[trigger]
            bank.dom().contains(k) && k.unit_type == unit_type && k.unit_id == unit_id) && (
        bank.dom().contains(key) && key.unit_type == unit_type ==> unit_id@ <= key.unit_id@),
        lookup(bank, key) is Some <==> bank.dom().contains(key),
        bank.dom().contains(key) ==> lookup(bank, key) == Some(bank[key]),
{
}

/// A listing has, for each slot that is wanted, one record to the tablet with its value,
/// in the order of unit types, units, registers and zones.
pub proof fn law_listings(
    bank: Map<BankKey, [u8; 7]>,
    wanted: spec_fn(BankKey) -> bool,
    out: Seq<CanRecord>,
    i: int,
    j: int,
    key: BankKey,
)
    requires
        lists(bank, wanted, out),
        well_kept(bank),
    ensures
        0 <= i < out.len() ==> {
            let slot = BankKey {
                unit_type: out[i].unit_type,
                unit_id: out[i].unit_id,
                reg: out[i].reg,
                zone: if out[i].reg.0 == 0x03 || out[i].reg.0 == 0x04 {
                    Some(out[i].data[0])
                } else {
                    None
                },
            };
            &&& wanted(slot)
            &&& bank.dom().contains(slot)
            &&& out[i].data == bank[slot]
            &&& out[i].dest == Dest::Tablet
        },
        0 <= i < j < out.len() ==> out[i].unit_type.0 < out[j].unit_type.0 || (out[i].unit_type
            == out[j].unit_type && (out[i].unit_id@ < out[j].unit_id@ || (out[i].unit_id@
            == out[j].unit_id@ && (out[i].reg.0 < out[j].reg.0 || (out[i].reg == out[j].reg
            && out[i].data[0] < out[j].data[0]))))),
        bank.dom().contains(key) && wanted(key) ==> exists|n: int|
            0 <= n < out.len() && (#[trigger] out[n]).unit_type == key.unit_type && out[n].unit_id
                == key.unit_id && out[n].reg == key.reg && out[n].data == bank[key],
{
    if 0 <= i < out.len() {
        assert(bank.dom().contains(BankKey::of(out[i])));
    }
    if 0 <= i < j < out.len() {
        let a = BankKey::of(out[i]);
        let b = BankKey::of(out[j]);
        assert(bank.dom().contains(a) && bank.dom().contains(b));
        assert(a.unit_id@ <= UNIT_ID_MAX && b.unit_id@ <= UNIT_ID_MAX) by {
            assert(fits(a, bank[a]) && fits(b, bank[b]));
        }
        assert(a.rank() < b.rank());
    }
    if bank.dom().contains(key) && wanted(key) {
        let n = choose|n: int| 0 <= n < out.len() && BankKey::of(#[trigger] out[n]) == key;
        assert(out[n].data == bank[key]);
    }
}

/// The slots of a unit are those under its type and its id, those of a type are those
/// under it.
pub proof fn law_slots_of_units(unit_type: UnitType, unit_id: UnitId, key: BankKey)
    ensures
        of_unit(unit_type, unit_id)(key) <==> key.unit_type == unit_type && key.unit_id == unit_id,
        of_type(unit_type)(key) <==> key.unit_type == unit_type,
        any_key()(key),
{
}

} // verus!
