//! Audit records kept in memory, up to a ceiling.

use vstd::prelude::*;
use vstd::string::*;

use crate::data::StoreData;
use crate::model::knowledge::AuditRecord;
use crate::table::Table;
use crate::text::{text_before, text_lt};

verus! {

/// The most audit records that are kept in memory.
pub const MAX_IN_MEMORY_AUDIT_RECORDS: usize = 10_000;

/// Whether one record is older than another; of two from the same moment, the one with the lesser
/// id.
pub open spec fn is_older(a: AuditRecord, b: AuditRecord) -> bool {
    a.occurred_at < b.occurred_at || (a.occurred_at == b.occurred_at && text_lt(a.id@, b.id@))
}

fn check_older(a: &AuditRecord, b: &AuditRecord) -> (r: bool)
    ensures
        r == is_older(*a, *b),
{
    a.occurred_at < b.occurred_at || (a.occurred_at == b.occurred_at && text_before(
        a.id.as_str(),
        b.id.as_str(),
    ))
}

/// The oldest of records.
pub open spec fn oldest(s: Seq<AuditRecord>) -> Option<AuditRecord>
    decreases s.len(),
{
    if s.len() == 0 {
        None
    } else {
        match oldest(s.drop_last()) {
            Some(a) => if is_older(s.last(), a) {
                Some(s.last())
            } else {
                Some(a)
            },
            None => Some(s.last()),
        }
    }
}

/// The oldest of records is one of them.
pub proof fn the_oldest_is_there(s: Seq<AuditRecord>)
    ensures
        match oldest(s) {
            Some(a) => s.contains(a),
            None => s.len() == 0,
        },
    decreases s.len(),
{
    if s.len() > 0 {
        the_oldest_is_there(s.drop_last());
        match oldest(s.drop_last()) {
            Some(a) => {
                let i = choose|i: int| 0 <= i < s.drop_last().len() && s.drop_last()[i] == a;
                assert(s[i] == a);
            },
            None => {},
        }
        assert(s[s.len() - 1] == s.last());
    }
}

fn find_oldest(t: &Table<String, AuditRecord>) -> (r: Option<String>)
    ensures
        match (r, oldest(t.values())) {
            (Some(id), Some(a)) => id@ == a.id@,
            (None, None) => true,
            _ => false,
        },
{
    let n: usize = t.len();
    let ghost all = t.values();
    if n == 0 {
        return None;
    }
    let mut at: usize = 0;
    let mut i: usize = 1;
    proof {
        assert(all.take(1).drop_last() =~= Seq::<AuditRecord>::empty());
        assert(oldest(all.take(1).drop_last()) is None);
        assert(all.take(1).last() == all[0]);
    }
    while i < n
        invariant
            at < i <= n == t.rows().len(),
            all == t.values(),
            all.len() == n,
            oldest(all.take(i as int)) == Some(all[at as int]),
        decreases n - i,
    {
        assert(all.take(i + 1).drop_last() =~= all.take(i as int));
        if check_older(t.value_at(i), t.value_at(at)) {
            at = i;
        }
        i += 1;
    }
    assert(all.take(i as int) =~= all);
    Some(t.value_at(at).id.clone())
}

/// The records that stay where a new one comes: all but the oldest where there are too many.
pub open spec fn room_made(t: Table<String, AuditRecord>, record: AuditRecord) -> Map<
    Seq<char>,
    AuditRecord,
> {
    if !t@.dom().contains(record.id@) && t.rows().len() >= MAX_IN_MEMORY_AUDIT_RECORDS {
        match oldest(t.values()) {
            Some(a) => t@.remove(a.id@),
            None => t@,
        }
    } else {
        t@
    }
}

/// Keeps an audit record in memory; where there is no room for it, the oldest goes.
pub fn cache_audit_record(data: &mut StoreData, record: &AuditRecord)
    ensures
        *final(data) == (StoreData { audit_records: final(data).audit_records, ..*old(data) }),
        final(data).audit_records@ == room_made(old(data).audit_records, *record).insert(
            record.id@,
            *record,
        ),
{
    let full: bool = !data.audit_records.contains_key(&record.id) && data.audit_records.len()
        >= MAX_IN_MEMORY_AUDIT_RECORDS;
    if full {
        match find_oldest(&data.audit_records) {
            Some(id) => {
                data.audit_records.remove(&id);
            },
            None => {},
        }
    }
    data.audit_records.insert(record.id.clone(), record.clone());
}

/// However many records come, no more than the ceiling are kept, and the new one is.
pub proof fn the_ceiling_holds(t: Table<String, AuditRecord>, record: AuditRecord)
    requires
        t.wf(),
        forall|i: int| 0 <= i < t.rows().len() ==> (#[trigger] t.rows()[i]).0@ == t.rows()[i].1.id@,
        t@.dom().len() <= MAX_IN_MEMORY_AUDIT_RECORDS,
    ensures
        room_made(t, record).insert(record.id@, record).dom().len() <= MAX_IN_MEMORY_AUDIT_RECORDS,
        room_made(t, record).insert(record.id@, record)[record.id@] == record,
{
    t.size_facts();
    let m = room_made(t, record);
    let after = m.insert(record.id@, record);
    assert(after.dom() =~= m.dom().insert(record.id@));
    if t@.dom().contains(record.id@) {
        assert(after.dom() =~= t@.dom());
    } else if t.rows().len() >= MAX_IN_MEMORY_AUDIT_RECORDS {
        the_oldest_is_there(t.values());
        let a = oldest(t.values())->0;
        let i = choose|i: int| 0 <= i < t.values().len() && t.values()[i] == a;
        t.row_facts(i);
        assert(t.rows()[i].0@ == a.id@);
        assert(m.dom() =~= t@.dom().remove(a.id@));
    }
}

/// A record that is kept stays until it is the oldest.
pub proof fn only_the_oldest_goes(t: Table<String, AuditRecord>, record: AuditRecord, id: Seq<char>)
    requires
        t@.dom().contains(id),
        id != record.id@,
        match oldest(t.values()) {
            Some(a) => a.id@ != id,
            None => true,
        },
    ensures
        room_made(t, record).insert(record.id@, record).dom().contains(id),
        room_made(t, record).insert(record.id@, record)[id] == t@[id],
{
}

} // verus!
