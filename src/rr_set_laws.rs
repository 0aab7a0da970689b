//! What holds of record sets over several updates.
use vstd::prelude::*;

use crate::rdata::RecordType;
use crate::record::RecordModel;
use crate::rr_set::{
    after_insert, after_remove, any_supported_sig, has_rdata, insert_changes, is_selected_sig,
    rdata_unique, remove_changes, set_wf, sig_rank, sig_supported, soa_serial, RecordSetModel,
};

verus! {

/// The set after inserting each of `updates` in turn, each record at its serial.
pub open spec fn after_inserts(s: RecordSetModel, updates: Seq<(RecordModel, u32)>) -> RecordSetModel
    decreases updates.len(),
{
    if updates.len() == 0 {
        s
    } else {
        after_insert(after_inserts(s, updates.drop_last()), updates.last().0, updates.last().1)
    }
}

/// Whatever records of the set's name and type are inserted into a fresh set,
/// no two of the records held afterwards hold equal data.
pub proof fn lemma_inserts_keep_data_unique(s: RecordSetModel, updates: Seq<(RecordModel, u32)>)
    requires
        s.records.len() == 0,
        s.rrsigs.len() == 0,
        forall|i: int|
            0 <= i < updates.len() ==> (#[trigger] updates[i]).0.name == s.name && updates[i].0.rr_type
                == s.record_type,
    ensures
        set_wf(after_inserts(s, updates)),
        rdata_unique(after_inserts(s, updates).records),
        after_inserts(s, updates).name == s.name,
        after_inserts(s, updates).record_type == s.record_type,
    decreases updates.len(),
{
    if updates.len() == 0 {
    } else {
        let init = updates.drop_last();
        assert forall|i: int| 0 <= i < init.len() implies (#[trigger] init[i]).0.name == s.name
            && init[i].0.rr_type == s.record_type by {
            assert(init[i] == updates[i]);
        }
        lemma_inserts_keep_data_unique(s, init);
        let t = after_inserts(s, init);
        let last = updates[updates.len() - 1];
        assert(updates.last() == last);
        crate::rr_set::lemma_insert_keeps_wf(t, last.0, last.1);
    }
}

/// Into a start-of-authority set that holds a record, start-of-authority data
/// whose serial is not above the one held is refused and changes nothing; data
/// with a higher serial is taken and replaces the record held.
pub proof fn lemma_soa_serial_must_rise(s: RecordSetModel, r: RecordModel, serial: u32)
    requires
        set_wf(s),
        s.record_type == RecordType::SOA,
        s.records.len() == 1,
        r.name == s.name,
        r.rr_type == RecordType::SOA,
        r.rdata is SOA,
    ensures
        soa_serial(r.rdata) <= soa_serial(s.records[0].rdata) ==> !insert_changes(s, r)
            && after_insert(s, r, serial) == s,
        soa_serial(r.rdata) > soa_serial(s.records[0].rdata) ==> insert_changes(s, r)
            && after_insert(s, r, serial).records == seq![r],
{
    if soa_serial(r.rdata) > soa_serial(s.records[0].rdata) {
        assert(Seq::<RecordModel>::empty().push(r) =~= seq![r]);
    }
}

/// Into an alias set that holds a record, any alias record of the set's name
/// is taken and replaces the record held, whatever its data.
pub proof fn lemma_cname_replaced(s: RecordSetModel, r: RecordModel, serial: u32)
    requires
        set_wf(s),
        s.record_type == RecordType::CNAME,
        s.records.len() == 1,
        r.name == s.name,
        r.rr_type == RecordType::CNAME,
    ensures
        insert_changes(s, r),
        after_insert(s, r, serial).records == seq![r],
{
    assert(Seq::<RecordModel>::empty().push(r) =~= seq![r]);
}

/// The last record of a name-server set is never removed, whatever the type of
/// the record given.
pub proof fn lemma_last_ns_kept(s: RecordSetModel, r: RecordModel, serial: u32)
    requires
        s.record_type == RecordType::NS,
        s.records.len() <= 1,
    ensures
        !remove_changes(s, r),
        after_remove(s, r, serial) == s,
{
}

/// Of the two records of a name-server set, the first can be removed, and then
/// the second cannot.
pub proof fn lemma_ns_remove_one_of_two(
    s: RecordSetModel,
    r1: RecordModel,
    r2: RecordModel,
    serial1: u32,
    serial2: u32,
)
    requires
        set_wf(s),
        s.record_type == RecordType::NS,
        s.records.len() == 2,
        r1.rdata == s.records[0].rdata,
        r2.rdata == s.records[1].rdata,
    ensures
        remove_changes(s, r1),
        after_remove(s, r1, serial1).records.len() == 1,
        !remove_changes(after_remove(s, r1, serial1), r2),
        after_remove(after_remove(s, r1, serial1), r2, serial2) == after_remove(s, r1, serial1),
{
    assert(s.records[0].rdata == r1.rdata);
    let t = after_remove(s, r1, serial1);
    crate::rr_set::lemma_remove_keeps_wf(s, r1, serial1, 0);
    assert(t.records == s.records.remove(0));
}

/// Inserting a record that the set already holds, in every field, changes
/// nothing; but for an alias set, whose one record is always replaced.
pub proof fn lemma_duplicate_insert_unchanged(s: RecordSetModel, r: RecordModel, serial: u32)
    requires
        set_wf(s),
        s.record_type != RecordType::CNAME,
        s.records.contains(r),
    ensures
        !insert_changes(s, r),
        after_insert(s, r, serial) == s,
{
    let i = choose|i: int| 0 <= i < s.records.len() && s.records[i] == r;
    if s.record_type == RecordType::SOA {
        assert(s.records.len() == 1);
        assert(i == 0);
        assert(s.records[i].rdata is SOA);
    }
}

/// Where one supported signature has a rank above every other supported one,
/// that signature is the one chosen.
pub proof fn lemma_highest_rank_selected(
    rrsigs: Seq<RecordModel>,
    supported: crate::rdata::SupportedAlgorithms,
    best: int,
)
    requires
        0 <= best < rrsigs.len(),
        sig_supported(rrsigs[best], supported),
        forall|k: int|
            0 <= k < rrsigs.len() && k != best && sig_supported(#[trigger] rrsigs[k], supported)
                ==> sig_rank(rrsigs[k]) < sig_rank(rrsigs[best]),
    ensures
        any_supported_sig(rrsigs, supported),
        forall|j: int| is_selected_sig(rrsigs, supported, j) <==> j == best,
{
    assert(is_selected_sig(rrsigs, supported, best));
    assert forall|j: int| is_selected_sig(rrsigs, supported, j) implies j == best by {
        if j != best {
            assert(sig_rank(rrsigs[best]) <= sig_rank(rrsigs[j]));
        }
    }
}

} // verus!
