//! The set of resource records that share one owner name and one type.
use vstd::prelude::*;

use crate::name::Name;
use crate::rdata::{rdata_type, DNSClass, RData, RDataModel, RecordType, SupportedAlgorithms};
use crate::record::{Record, RecordModel};
use vstd::std_specs::iter::IteratorSpec;

verus! {

/// What a record set holds.
pub struct RecordSetModel {
    pub name: Seq<Seq<char>>,
    pub record_type: RecordType,
    pub dns_class: DNSClass,
    pub ttl: u32,
    pub records: Seq<RecordModel>,
    pub rrsigs: Seq<RecordModel>,
    pub serial: u32,
}

/// The serial number of start-of-authority data (zero for other data).
pub open spec fn soa_serial(d: RDataModel) -> u32 {
    match d {
        RDataModel::SOA(s) => s.serial,
        _ => 0,
    }
}

/// No two records hold equal data.
pub open spec fn rdata_unique(rs: Seq<RecordModel>) -> bool {
    forall|i: int, j: int|
        0 <= i < rs.len() && 0 <= j < rs.len() && i != j ==> #[trigger] rs[i].rdata
            != #[trigger] rs[j].rdata
}

/// Some record holds data `d`.
pub open spec fn has_rdata(rs: Seq<RecordModel>, d: RDataModel) -> bool {
    exists|i: int| 0 <= i < rs.len() && #[trigger] rs[i].rdata == d
}

/// The invariant of a record set: every record belongs to the set's name (and,
/// but for signatures, to its type), a start-of-authority or alias set holds at
/// most one record, a start-of-authority set holds start-of-authority data
/// only, and no two records hold equal data.
pub open spec fn set_wf(s: RecordSetModel) -> bool {
    &&& (forall|i: int| 0 <= i < s.records.len() ==> #[trigger] s.records[i].name == s.name)
    &&& (forall|i: int|
        0 <= i < s.records.len() ==> #[trigger] s.records[i].rr_type == s.record_type)
    &&& (forall|i: int| 0 <= i < s.rrsigs.len() ==> #[trigger] s.rrsigs[i].name == s.name)
    &&& ((s.record_type == RecordType::SOA || s.record_type == RecordType::CNAME)
        ==> s.records.len() <= 1)
    &&& (s.record_type == RecordType::SOA ==> (forall|i: int|
        0 <= i < s.records.len() ==> #[trigger] s.records[i].rdata is SOA))
    &&& rdata_unique(s.records)
}

/// A record may seed a set: a start-of-authority record holds
/// start-of-authority data.
pub open spec fn record_fits(r: RecordModel) -> bool {
    r.rr_type == RecordType::SOA ==> r.rdata is SOA
}

/// An insert of `r` into `s` is refused for the sake of the zone serial: into a
/// start-of-authority set, `r` must hold start-of-authority data whose serial is
/// above that of the record held.
pub open spec fn soa_update_refused(s: RecordSetModel, r: RecordModel) -> bool {
    s.record_type == RecordType::SOA && (!(r.rdata is SOA) || (s.records.len() > 0 && soa_serial(
        r.rdata,
    ) <= soa_serial(s.records[0].rdata)))
}

/// The records that an insert starts from: none for a start-of-authority or
/// alias set, whose one record is replaced, else all of them.
pub open spec fn insert_base(s: RecordSetModel) -> Seq<RecordModel> {
    if s.record_type == RecordType::SOA || s.record_type == RecordType::CNAME {
        Seq::empty()
    } else {
        s.records
    }
}

/// An insert of `r` changes the set.
pub open spec fn insert_changes(s: RecordSetModel, r: RecordModel) -> bool {
    !soa_update_refused(s, r) && !insert_base(s).contains(r)
}

/// The records after an insert of `r` that changes the set: a record with the
/// same data is replaced by `r`, and where there is none `r` is appended.
pub open spec fn records_after_insert(s: RecordSetModel, r: RecordModel) -> Seq<RecordModel> {
    let base = insert_base(s);
    if has_rdata(base, r.rdata) {
        base.map_values(|x: RecordModel| if x.rdata == r.rdata { r } else { x })
    } else {
        base.push(r)
    }
}

/// The set `s` marked as changed at `serial` with the given records and time to
/// live: its signatures are dropped.
pub open spec fn updated_model(
    s: RecordSetModel,
    records: Seq<RecordModel>,
    ttl: u32,
    serial: u32,
) -> RecordSetModel {
    RecordSetModel { records, ttl, serial, rrsigs: Seq::empty(), ..s }
}

/// The set after an insert of `r` at `serial`.
pub open spec fn after_insert(s: RecordSetModel, r: RecordModel, serial: u32) -> RecordSetModel {
    if insert_changes(s, r) {
        updated_model(s, records_after_insert(s, r), r.ttl, serial)
    } else {
        s
    }
}

/// A remove from `s` is refused, whatever the type of the record given: a
/// start-of-authority set keeps its record, and a name-server set its last one.
pub open spec fn remove_refused(s: RecordSetModel) -> bool {
    s.record_type == RecordType::SOA || (s.record_type == RecordType::NS && s.records.len() <= 1)
}

/// A remove of `r` changes the set.
pub open spec fn remove_changes(s: RecordSetModel, r: RecordModel) -> bool {
    !remove_refused(s) && has_rdata(s.records, r.rdata)
}

/// Whether a record holds data other than `d`.
pub open spec fn holds_other(d: RDataModel) -> spec_fn(RecordModel) -> bool {
    |x: RecordModel| x.rdata != d
}

/// The records that do not hold data `d`.
pub open spec fn records_without(rs: Seq<RecordModel>, d: RDataModel) -> Seq<RecordModel> {
    rs.filter(holds_other(d))
}

/// The set after a remove of `r` at `serial`.
pub open spec fn after_remove(s: RecordSetModel, r: RecordModel, serial: u32) -> RecordSetModel {
    if remove_changes(s, r) {
        updated_model(s, records_without(s.records, r.rdata), s.ttl, serial)
    } else {
        s
    }
}

/// Whether `r` is a signature by an algorithm in `supported`.
pub open spec fn sig_supported(r: RecordModel, supported: SupportedAlgorithms) -> bool {
    match r.rdata {
        RDataModel::SIG(sig) => supported.contains(sig.algorithm),
        _ => false,
    }
}

/// The rank of the algorithm of signature `r`.
pub open spec fn sig_rank(r: RecordModel) -> nat {
    match r.rdata {
        RDataModel::SIG(sig) => sig.algorithm.spec_rank(),
        _ => 0,
    }
}

/// Some signature is by a supported algorithm.
pub open spec fn any_supported_sig(rrsigs: Seq<RecordModel>, supported: SupportedAlgorithms) -> bool {
    exists|j: int| 0 <= j < rrsigs.len() && sig_supported(#[trigger] rrsigs[j], supported)
}

/// The signature at `j` may be the one chosen for `supported`: it is by a
/// supported algorithm of the highest rank among them. Which of several such
/// signatures is chosen is left open.
pub open spec fn is_selected_sig(
    rrsigs: Seq<RecordModel>,
    supported: SupportedAlgorithms,
    j: int,
) -> bool {
    &&& 0 <= j < rrsigs.len()
    &&& sig_supported(rrsigs[j], supported)
    &&& (forall|k: int|
        0 <= k < rrsigs.len() && sig_supported(#[trigger] rrsigs[k], supported) ==> sig_rank(
            rrsigs[k],
        ) <= sig_rank(rrsigs[j]))
}

/// The models of a sequence of borrowed records.
pub open spec fn ref_models(v: Seq<&Record>) -> Seq<RecordModel> {
    v.map_values(|r: &Record| r@)
}

/// The record that `new_record` builds for data `d`: the set's name, type and
/// time to live, class IN.
pub open spec fn synthesized(s: RecordSetModel, d: RDataModel) -> RecordModel {
    RecordModel { name: s.name, rr_type: s.record_type, dns_class: DNSClass::IN, ttl: s.ttl, rdata: d }
}

/// Set of resource records that share one name and one type, with the
/// signatures over them.
#[derive(Debug)]
pub struct RecordSet {
    name: Name,
    record_type: RecordType,
    dns_class: DNSClass,
    ttl: u32,
    records: Vec<Record>,
    rrsigs: Vec<Record>,
    serial: u32,
}

/// The models of a sequence of records.
pub open spec fn models(v: Seq<Record>) -> Seq<RecordModel> {
    v.map_values(|r: Record| r@)
}

impl View for RecordSet {
    type V = RecordSetModel;

    closed spec fn view(&self) -> RecordSetModel {
        RecordSetModel {
            name: self.name@,
            record_type: self.record_type,
            dns_class: self.dns_class,
            ttl: self.ttl,
            records: models(self.records@),
            rrsigs: models(self.rrsigs@),
            serial: self.serial,
        }
    }
}

/// An insert keeps the records free of duplicate data.
proof fn lemma_insert_keeps_unique(s: RecordSetModel, r: RecordModel)
    requires
        rdata_unique(s.records),
    ensures
        rdata_unique(records_after_insert(s, r)),
{
    let base = insert_base(s);
    let out = records_after_insert(s, r);
    if has_rdata(base, r.rdata) {
        assert forall|i: int, j: int|
            0 <= i < out.len() && 0 <= j < out.len() && i != j implies #[trigger] out[i].rdata
            != #[trigger] out[j].rdata by {
            if base[i].rdata == r.rdata {
                assert(base[j].rdata != base[i].rdata);
            }
        }
    } else {
        assert forall|i: int, j: int|
            0 <= i < out.len() && 0 <= j < out.len() && i != j implies #[trigger] out[i].rdata
            != #[trigger] out[j].rdata by {
            if i == base.len() {
                assert(base[j].rdata != r.rdata);
            } else if j == base.len() {
                assert(base[i].rdata != r.rdata);
            }
        }
    }
}

/// After an insert every record still belongs to the set's name and type.
proof fn lemma_insert_members(s: RecordSetModel, r: RecordModel)
    requires
        set_wf(s),
        r.name == s.name,
        r.rr_type == s.record_type,
    ensures
        forall|i: int|
            0 <= i < records_after_insert(s, r).len() ==> #[trigger] records_after_insert(
                s,
                r,
            )[i] == r || s.records.contains(records_after_insert(s, r)[i]),
{
    let base = insert_base(s);
    let out = records_after_insert(s, r);
    assert forall|i: int| 0 <= i < out.len() implies #[trigger] out[i] == r || s.records.contains(
        out[i],
    ) by {
        if s.record_type == RecordType::SOA || s.record_type == RecordType::CNAME {
        } else if has_rdata(base, r.rdata) {
            assert(out[i] == s.records[i] || out[i] == r);
        } else if i < base.len() {
            assert(out[i] == s.records[i]);
        }
    }
}

/// An insert keeps the invariant of the set.
pub proof fn lemma_insert_keeps_wf(s: RecordSetModel, r: RecordModel, serial: u32)
    requires
        set_wf(s),
        r.name == s.name,
        r.rr_type == s.record_type,
    ensures
        set_wf(after_insert(s, r, serial)),
{
    if insert_changes(s, r) {
        lemma_insert_keeps_unique(s, r);
        lemma_insert_members(s, r);
        let t = after_insert(s, r, serial);
        if s.record_type == RecordType::SOA || s.record_type == RecordType::CNAME {
            assert(t.records =~= seq![r]);
        }
        assert(t.rrsigs =~= Seq::<RecordModel>::empty());
        assert forall|i: int| 0 <= i < t.records.len() implies #[trigger] t.records[i].name
            == s.name && t.records[i].rr_type == s.record_type by {
            if t.records[i] != r {
                let j = choose|j: int| 0 <= j < s.records.len() && s.records[j] == t.records[i];
                assert(s.records[j].name == s.name);
                assert(s.records[j].rr_type == s.record_type);
            }
        }
    }
}

/// Filtering keeps a sequence whose every element passes.
proof fn lemma_filter_keeps_all(rs: Seq<RecordModel>, pred: spec_fn(RecordModel) -> bool)
    requires
        forall|i: int| 0 <= i < rs.len() ==> pred(#[trigger] rs[i]),
    ensures
        rs.filter(pred) == rs,
    decreases rs.len(),
{
    reveal(Seq::filter);
    if rs.len() > 0 {
        let init = rs.drop_last();
        assert forall|i: int| 0 <= i < init.len() implies pred(#[trigger] init[i]) by {
            assert(init[i] == rs[i]);
        }
        lemma_filter_keeps_all(init, pred);
        assert(init.push(rs.last()) =~= rs);
    }
}

/// Filtering drops exactly the one element that fails.
proof fn lemma_filter_drops_one(rs: Seq<RecordModel>, pred: spec_fn(RecordModel) -> bool, k: int)
    requires
        0 <= k < rs.len(),
        !pred(rs[k]),
        forall|i: int| 0 <= i < rs.len() && i != k ==> pred(#[trigger] rs[i]),
    ensures
        rs.filter(pred) == rs.remove(k),
    decreases rs.len(),
{
    reveal(Seq::filter);
    let init = rs.drop_last();
    if k == rs.len() - 1 {
        assert forall|i: int| 0 <= i < init.len() implies pred(#[trigger] init[i]) by {
            assert(init[i] == rs[i]);
        }
        lemma_filter_keeps_all(init, pred);
        assert(rs.remove(k) =~= init);
    } else {
        assert forall|i: int| 0 <= i < init.len() && i != k implies pred(#[trigger] init[i]) by {
            assert(init[i] == rs[i]);
        }
        assert(init[k] == rs[k]);
        lemma_filter_drops_one(init, pred, k);
        assert(pred(rs[rs.len() - 1]));
        assert(init.remove(k).push(rs.last()) =~= rs.remove(k));
    }
}

/// A remove keeps the invariant of the set.
pub proof fn lemma_remove_keeps_wf(s: RecordSetModel, r: RecordModel, serial: u32, k: int)
    requires
        set_wf(s),
        0 <= k < s.records.len(),
        s.records[k].rdata == r.rdata,
    ensures
        records_without(s.records, r.rdata) == s.records.remove(k),
        set_wf(updated_model(s, s.records.remove(k), s.ttl, serial)),
{
    assert forall|i: int| 0 <= i < s.records.len() && i != k implies holds_other(r.rdata)(
        #[trigger] s.records[i],
    ) by {
        assert(s.records[i].rdata != s.records[k].rdata);
    }
    lemma_filter_drops_one(s.records, holds_other(r.rdata), k);
    let out = s.records.remove(k);
    let t = updated_model(s, out, s.ttl, serial);
    assert forall|i: int| 0 <= i < out.len() implies #[trigger] out[i] == s.records[if i < k {
        i
    } else {
        i + 1
    }] by {}
    assert forall|i: int, j: int|
        0 <= i < out.len() && 0 <= j < out.len() && i != j implies #[trigger] out[i].rdata
        != #[trigger] out[j].rdata by {
        let a = if i < k { i } else { i + 1 };
        let b = if j < k { j } else { j + 1 };
        assert(out[i] == s.records[a]);
        assert(out[j] == s.records[b]);
    }
    assert forall|i: int| 0 <= i < out.len() implies #[trigger] out[i].name == s.name by {
        let a = if i < k { i } else { i + 1 };
        assert(out[i] == s.records[a]);
    }
    assert forall|i: int| 0 <= i < out.len() implies #[trigger] out[i].rr_type == s.record_type by {
        let a = if i < k { i } else { i + 1 };
        assert(out[i] == s.records[a]);
    }
    assert forall|i: int| 0 <= i < out.len() && s.record_type == RecordType::SOA implies #[trigger] out[i].rdata is SOA by {
        let a = if i < k { i } else { i + 1 };
        assert(out[i] == s.records[a]);
    }
    assert(t.rrsigs =~= Seq::<RecordModel>::empty());
}

/// After an insert that was not refused for the zone serial, some record holds
/// the inserted data.
proof fn lemma_insert_leaves_rdata(s: RecordSetModel, r: RecordModel, serial: u32)
    requires
        set_wf(s),
        !soa_update_refused(s, r) || has_rdata(s.records, r.rdata),
    ensures
        has_rdata(after_insert(s, r, serial).records, r.rdata),
{
    let base = insert_base(s);
    if insert_changes(s, r) {
        let out = records_after_insert(s, r);
        if has_rdata(base, r.rdata) {
            let i = choose|i: int| 0 <= i < base.len() && #[trigger] base[i].rdata == r.rdata;
            assert(out[i] == r);
        } else {
            assert(out[base.len() as int] == r);
        }
    } else if !soa_update_refused(s, r) {
        let i = choose|i: int| 0 <= i < base.len() && base[i] == r;
        assert(base[i] == s.records[i]);
        assert(s.records[i].rdata == r.rdata);
    }
}

/// The position of the record that holds data `d`, if any.
fn find_rdata(records: &Vec<Record>, d: &RData) -> (r: Option<usize>)
    ensures
        match r {
            Some(k) => k < records@.len() && records@[k as int]@.rdata == d@,
            None => !has_rdata(models(records@), d@),
        },
{
    let mut i: usize = 0;
    while i < records.len()
        invariant
            0 <= i <= records@.len(),
            forall|j: int| 0 <= j < i ==> #[trigger] records@[j]@.rdata != d@,
        decreases records@.len() - i,
    {
        if records[i].get_rdata().same_as(d) {
            return Some(i);
        }
        i = i + 1;
    }
    proof {
        let m = models(records@);
        if has_rdata(m, d@) {
            let j = choose|j: int| 0 <= j < m.len() && #[trigger] m[j].rdata == d@;
            assert(records@[j]@.rdata == d@);
        }
    }
    None
}

impl RecordSet {
    /// The invariant of the set.
    pub open spec fn wf(&self) -> bool {
        set_wf(self@)
    }

    /// An empty set of class IN with a time to live of zero, last changed at
    /// `serial`.
    pub fn new(name: &Name, record_type: RecordType, serial: u32) -> (r: RecordSet)
        ensures
            r.wf(),
            r@ == (RecordSetModel {
                name: name@,
                record_type,
                dns_class: DNSClass::IN,
                ttl: 0,
                records: Seq::empty(),
                rrsigs: Seq::empty(),
                serial,
            }),
    {
        let r = RecordSet {
            name: name.clone(),
            record_type,
            dns_class: DNSClass::IN,
            ttl: 0,
            records: Vec::new(),
            rrsigs: Vec::new(),
            serial,
        };
        assert(r@.records =~= Seq::empty());
        assert(r@.rrsigs =~= Seq::empty());
        r
    }

    /// An empty set of class IN with the given time to live, at serial zero.
    pub fn with_ttl(name: Name, record_type: RecordType, ttl: u32) -> (r: RecordSet)
        ensures
            r.wf(),
            r@ == (RecordSetModel {
                name: name@,
                record_type,
                dns_class: DNSClass::IN,
                ttl,
                records: Seq::empty(),
                rrsigs: Seq::empty(),
                serial: 0,
            }),
    {
        let r = RecordSet {
            name,
            record_type,
            dns_class: DNSClass::IN,
            ttl,
            records: Vec::new(),
            rrsigs: Vec::new(),
            serial: 0,
        };
        assert(r@.records =~= Seq::empty());
        assert(r@.rrsigs =~= Seq::empty());
        r
    }

    /// The set that holds `record` alone, with its name, type, class and time
    /// to live, at serial zero.
    pub fn from(record: Record) -> (r: RecordSet)
        requires
            record_fits(record@),
        ensures
            r.wf(),
            r@ == (RecordSetModel {
                name: record@.name,
                record_type: record@.rr_type,
                dns_class: record@.dns_class,
                ttl: record@.ttl,
                records: seq![record@],
                rrsigs: Seq::empty(),
                serial: 0,
            }),
    {
        let name = record.get_name().clone();
        let record_type = record.get_rr_type();
        let dns_class = record.get_dns_class();
        let ttl = record.get_ttl();
        let ghost m = record@;
        let mut records: Vec<Record> = Vec::new();
        records.push(record);
        let r = RecordSet {
            name,
            record_type,
            dns_class,
            ttl,
            records,
            rrsigs: Vec::new(),
            serial: 0,
        };
        assert(r@.records =~= seq![m]);
        assert(r@.rrsigs =~= Seq::empty());
        r
    }

    /// Marks the set as changed at `serial`: the signatures no longer hold.
    fn updated(&mut self, serial: u32)
        ensures
            final(self)@ == (RecordSetModel { serial, rrsigs: Seq::empty(), ..old(self)@ }),
    {
        self.serial = serial;
        self.rrsigs.clear();
        assert(self@.rrsigs =~= Seq::empty());
    }

    /// Inserts `record` under the rules of dynamic update, and returns whether
    /// the set changed.
    ///
    /// Into a start-of-authority set only start-of-authority data with a serial
    /// above the one held is taken, and it replaces the record held; into an
    /// alias set a record always replaces the one held. Otherwise a record with
    /// equal data is replaced, unless it equals `record` in every field, and
    /// where there is none `record` is appended. On a change the set takes the
    /// record's time to live and `serial`, and drops its signatures.
    pub fn insert(&mut self, record: Record, serial: u32) -> (r: bool)
        requires
            old(self).wf(),
            record@.name == old(self)@.name,
            record@.rr_type == old(self)@.record_type,
        ensures
            final(self).wf(),
            r == insert_changes(old(self)@, record@),
            final(self)@ == after_insert(old(self)@, record@, serial),
            r ==> final(self)@.rrsigs.len() == 0 && final(self)@.serial == serial,
    {
        proof {
            lemma_insert_keeps_wf(self@, record@, serial);
        }
        let ghost s = self@;
        let ghost rm = record@;
        match self.record_type {
            RecordType::SOA => {
                match record.get_rdata() {
                    RData::SOA(new_soa) => {
                        if self.records.len() > 0 {
                            assert(s.records[0] == self.records@[0]@);
                            match self.records[0].get_rdata() {
                                RData::SOA(existing_soa) => {
                                    if new_soa.get_serial() <= existing_soa.get_serial() {
                                        return false;
                                    }
                                },
                                _ => {
                                    return false;
                                },
                            }
                        }
                    },
                    _ => {
                        return false;
                    },
                }
                self.records.clear();
            },
            RecordType::CNAME => {
                self.records.clear();
            },
            _ => {},
        }
        let ghost base = insert_base(s);
        assert(models(self.records@) =~= base);
        let found = find_rdata(&self.records, record.get_rdata());
        match found {
            Some(k) => {
                assert(base[k as int].rdata == rm.rdata);
                assert(has_rdata(base, rm.rdata));
                if self.records[k].same_as(&record) {
                    assert(base.contains(rm));
                    return false;
                }
                assert(!base.contains(rm)) by {
                    if base.contains(rm) {
                        let j = choose|j: int| 0 <= j < base.len() && base[j] == rm;
                        assert(j != k);
                        assert(base[j].rdata == base[k as int].rdata);
                    }
                }
                self.ttl = record.get_ttl();
                self.records.set(k, record);
                self.updated(serial);
                assert(self@.records =~= records_after_insert(s, rm)) by {
                    assert forall|j: int| 0 <= j < base.len() && j != k implies base[j].rdata
                        != rm.rdata by {
                        assert(base[j].rdata != base[k as int].rdata);
                    }
                }
                true
            },
            None => {
                assert(!has_rdata(base, rm.rdata));
                assert(!base.contains(rm)) by {
                    if base.contains(rm) {
                        let j = choose|j: int| 0 <= j < base.len() && base[j] == rm;
                        assert(base[j].rdata == rm.rdata);
                    }
                }
                self.ttl = record.get_ttl();
                self.updated(serial);
                self.records.push(record);
                assert(self@.records =~= records_after_insert(s, rm));
                true
            },
        }
    }

    /// Removes the records that hold the data of `record`, and returns whether
    /// any was removed. Nothing is removed from a start-of-authority set, nor the
    /// last record of a name-server set, whatever the type of `record`. On a change the set takes `serial` and
    /// drops its signatures.
    pub fn remove(&mut self, record: &Record, serial: u32) -> (r: bool)
        requires
            old(self).wf(),
            record@.name == old(self)@.name,
            record@.rr_type == old(self)@.record_type || record@.rr_type == RecordType::ANY,
        ensures
            final(self).wf(),
            r == remove_changes(old(self)@, record@),
            final(self)@ == after_remove(old(self)@, record@, serial),
            r ==> final(self)@.rrsigs.len() == 0 && final(self)@.serial == serial,
            old(self)@.record_type == RecordType::SOA ==> !r && final(self)@ == old(self)@,
            old(self)@.record_type == RecordType::NS && old(self)@.records.len() <= 1 ==> !r
                && final(self)@ == old(self)@,
    {
        let ghost s = self@;
        match self.record_type {
            RecordType::NS => {
                if self.records.len() <= 1 {
                    return false;
                }
            },
            RecordType::SOA => {
                return false;
            },
            _ => {},
        }
        match find_rdata(&self.records, record.get_rdata()) {
            Some(k) => {
                proof {
                    assert(s.records[k as int] == self.records@[k as int]@);
                    lemma_remove_keeps_wf(s, record@, serial, k as int);
                }
                self.records.remove(k);
                self.updated(serial);
                assert(self@.records =~= s.records.remove(k as int));
                true
            },
            None => false,
        }
    }

    /// The records of the set; with `and_rrsigs`, followed by one signature of
    /// the highest rank among those by an algorithm in `supported_algorithms`,
    /// if there is one.
    pub fn get_records(&self, and_rrsigs: bool, supported_algorithms: SupportedAlgorithms) -> (r:
        Vec<&Record>)
        ensures
            !(and_rrsigs && any_supported_sig(self@.rrsigs, supported_algorithms)) ==> ref_models(
                r@,
            ) == self@.records,
            and_rrsigs && any_supported_sig(self@.rrsigs, supported_algorithms) ==> exists|j: int|
                is_selected_sig(self@.rrsigs, supported_algorithms, j) && ref_models(r@)
                    == self@.records.push(#[trigger] self@.rrsigs[j]),
    {
        let mut out: Vec<&Record> = Vec::new();
        let mut i: usize = 0;
        while i < self.records.len()
            invariant
                0 <= i <= self.records@.len(),
                ref_models(out@) == self@.records.subrange(0, i as int),
            decreases self.records@.len() - i,
        {
            let ghost prev = out@;
            let rec = &self.records[i];
            assert(self@.records[i as int] == rec@);
            out.push(rec);
            assert(out@ == prev.push(rec));
            assert(ref_models(out@) =~= ref_models(prev).push(rec@));
            i = i + 1;
            assert(ref_models(out@) =~= self@.records.subrange(0, i as int));
        }
        assert(self@.records.subrange(0, i as int) =~= self@.records);
        if and_rrsigs {
            let ghost sigs = self@.rrsigs;
            let mut best: Option<usize> = None;
            let mut best_rank: u8 = 0;
            let mut i: usize = 0;
            while i < self.rrsigs.len()
                invariant
                    0 <= i <= self.rrsigs@.len(),
                    sigs == self@.rrsigs,
                    match best {
                        Some(j) => {
                            &&& j < i
                            &&& sig_supported(sigs[j as int], supported_algorithms)
                            &&& best_rank as nat == sig_rank(sigs[j as int])
                            &&& (forall|k: int|
                                0 <= k < i && sig_supported(#[trigger] sigs[k], supported_algorithms)
                                    ==> sig_rank(sigs[k]) <= sig_rank(sigs[j as int]))
                            &&& (forall|k: int|
                                j < k < i && sig_supported(#[trigger] sigs[k], supported_algorithms)
                                    ==> sig_rank(sigs[k]) < sig_rank(sigs[j as int]))
                        },
                        None => forall|k: int|
                            0 <= k < i ==> !sig_supported(#[trigger] sigs[k], supported_algorithms),
                    },
                decreases self.rrsigs@.len() - i,
            {
                assert(sigs[i as int] == self.rrsigs@[i as int]@);
                match self.rrsigs[i].get_rdata() {
                    RData::SIG(sig) => {
                        let alg = sig.get_algorithm();
                        if supported_algorithms.has(alg) {
                            let rank = alg.rank();
                            match best {
                                Some(_) => {
                                    if best_rank <= rank {
                                        best = Some(i);
                                        best_rank = rank;
                                    }
                                },
                                None => {
                                    best = Some(i);
                                    best_rank = rank;
                                },
                            }
                        }
                    },
                    _ => {},
                }
                i = i + 1;
            }
            match best {
                Some(j) => {
                    assert(is_selected_sig(sigs, supported_algorithms, j as int));
                    out.push(&self.rrsigs[j]);
                    assert(ref_models(out@) =~= self@.records.push(sigs[j as int]));
                },
                None => {
                    assert(!any_supported_sig(sigs, supported_algorithms));
                },
            }
        }
        out
    }

    /// The name that every record of the set carries.
    pub fn get_name(&self) -> (r: &Name)
        ensures
            r@ == self@.name,
    {
        &self.name
    }

    /// The type that every record of the set carries.
    pub fn get_record_type(&self) -> (r: RecordType)
        ensures
            r == self@.record_type,
    {
        self.record_type
    }

    /// Sets the class of the set and of every record it holds.
    pub fn set_dns_class(&mut self, dns_class: DNSClass)
        requires
            old(self).wf(),
        ensures
            final(self).wf(),
            final(self)@ == (RecordSetModel {
                dns_class,
                records: old(self)@.records.map_values(
                    |x: RecordModel| RecordModel { dns_class, ..x },
                ),
                ..old(self)@
            }),
    {
        let ghost s = self@;
        self.dns_class = dns_class;
        let mut i: usize = 0;
        while i < self.records.len()
            invariant
                0 <= i <= self.records@.len(),
                self.records@.len() == s.records.len(),
                self.name@ == s.name,
                self.record_type == s.record_type,
                self.ttl == s.ttl,
                self.serial == s.serial,
                self.dns_class == dns_class,
                models(self.rrsigs@) == s.rrsigs,
                forall|j: int|
                    0 <= j < i ==> #[trigger] self.records@[j]@ == (RecordModel {
                        dns_class,
                        ..s.records[j]
                    }),
                forall|j: int| i <= j < self.records@.len() ==> #[trigger] self.records@[j]@ == s.records[j],
            decreases self.records@.len() - i,
        {
            self.records[i].set_dns_class(dns_class);
            i = i + 1;
        }
        assert(self@.records =~= s.records.map_values(
            |x: RecordModel| RecordModel { dns_class, ..x },
        ));
        assert(self@.rrsigs == s.rrsigs);
    }

    /// The class of the set.
    pub fn get_dns_class(&self) -> (r: DNSClass)
        ensures
            r == self@.dns_class,
    {
        self.dns_class
    }

    /// Sets the time to live of the set and of every record it holds.
    pub fn set_ttl(&mut self, ttl: u32)
        requires
            old(self).wf(),
        ensures
            final(self).wf(),
            final(self)@ == (RecordSetModel {
                ttl,
                records: old(self)@.records.map_values(|x: RecordModel| RecordModel { ttl, ..x }),
                ..old(self)@
            }),
    {
        let ghost s = self@;
        self.ttl = ttl;
        let mut i: usize = 0;
        while i < self.records.len()
            invariant
                0 <= i <= self.records@.len(),
                self.records@.len() == s.records.len(),
                self.name@ == s.name,
                self.record_type == s.record_type,
                self.dns_class == s.dns_class,
                self.serial == s.serial,
                self.ttl == ttl,
                models(self.rrsigs@) == s.rrsigs,
                forall|j: int|
                    0 <= j < i ==> #[trigger] self.records@[j]@ == (RecordModel {
                        ttl,
                        ..s.records[j]
                    }),
                forall|j: int| i <= j < self.records@.len() ==> #[trigger] self.records@[j]@ == s.records[j],
            decreases self.records@.len() - i,
        {
            self.records[i].set_ttl(ttl);
            i = i + 1;
        }
        assert(self@.records =~= s.records.map_values(|x: RecordModel| RecordModel { ttl, ..x }));
        assert(self@.rrsigs == s.rrsigs);
    }

    /// The time to live of the set: that of the record inserted last.
    pub fn get_ttl(&self) -> (r: u32)
        ensures
            r == self@.ttl,
    {
        self.ttl
    }

    /// Whether the set holds no record (signatures are not counted).
    pub fn is_empty(&self) -> (r: bool)
        ensures
            r == (self@.records.len() == 0),
    {
        self.records.len() == 0
    }

    /// The serial at which the set last changed.
    pub fn get_serial(&self) -> (r: u32)
        ensures
            r == self@.serial,
    {
        self.serial
    }

    /// The signatures over the set.
    pub fn get_rrsigs(&self) -> (r: &[Record])
        ensures
            models(r@) == self@.rrsigs,
    {
        self.rrsigs.as_slice()
    }

    /// Adds a signature over the set, as it is.
    pub fn insert_rrsig(&mut self, rrsig: Record)
        requires
            old(self).wf(),
            rrsig@.name == old(self)@.name,
        ensures
            final(self).wf(),
            final(self)@ == (RecordSetModel { rrsigs: old(self)@.rrsigs.push(rrsig@), ..old(self)@ }),
    {
        let ghost s = self@;
        let ghost m = rrsig@;
        self.rrsigs.push(rrsig);
        assert(self@.rrsigs =~= s.rrsigs.push(m));
    }

    /// Drops every signature over the set.
    pub fn clear_rrsigs(&mut self)
        requires
            old(self).wf(),
        ensures
            final(self).wf(),
            final(self)@ == (RecordSetModel { rrsigs: Seq::empty(), ..old(self)@ }),
    {
        self.rrsigs.clear();
        assert(self@.rrsigs =~= Seq::<RecordModel>::empty());
    }

    /// Builds a record of the set's name, type and time to live that holds
    /// `rdata`, inserts it at serial zero, and returns the record of the set
    /// that holds `rdata`, whether it was inserted now or held before. Into a
    /// start-of-authority set the data must be taken, or be held already.
    pub fn new_record(&mut self, rdata: RData) -> (r: &Record)
        requires
            old(self).wf(),
            rdata_type(rdata@) == old(self)@.record_type,
            !soa_update_refused(old(self)@, synthesized(old(self)@, rdata@)) || has_rdata(
                old(self)@.records,
                rdata@,
            ),
        ensures
            final(self).wf(),
            final(self)@ == after_insert(old(self)@, synthesized(old(self)@, rdata@), 0),
            r@.rdata == rdata@,
            final(self)@.records.contains(r@),
    {
        let ghost s = self@;
        let mut record = Record::with(self.name.clone(), self.record_type, self.ttl);
        let data = rdata.clone();
        record.set_rdata(rdata);
        proof {
            let m = synthesized(s, data@);
            assert(record@ == m);
            lemma_insert_leaves_rdata(s, m, 0);
        }
        self.insert(record, 0);
        match find_rdata(&self.records, &data) {
            Some(k) => {
                assert(self@.records[k as int] == self.records@[k as int]@);
                &self.records[k]
            },
            None => {
                // the insert leaves a record with this data in the set
                proof {
                    assert(false);
                }
                &self.records[0]
            },
        }
    }

    /// The records of the set, in order, without the signatures.
    pub fn iter(&self) -> (r: std::slice::Iter<'_, Record>)
        ensures
            ref_models(r.remaining()) == self@.records,
    {
        let r = self.records.as_slice().iter();
        proof {
            broadcast use vstd::std_specs::slice::axiom_spec_slice_iter;

            assert(ref_models(r.remaining()) =~= self@.records);
        }
        r
    }
}

/// Conversion of a value into a record set.
pub trait IntoRecordSet: Sized {
    fn into_record_set(self) -> RecordSet;
}

impl IntoRecordSet for RecordSet {
    fn into_record_set(self) -> RecordSet {
        self
    }
}

impl IntoIterator for RecordSet {
    type Item = Record;
    type IntoIter = std::vec::IntoIter<Record>;

    /// The records, followed by the signatures.
    fn into_iter(self) -> std::vec::IntoIter<Record> {
        let mut all = self.records;
        let mut rrsigs = self.rrsigs;
        all.append(&mut rrsigs);
        all.into_iter()
    }
}

} // verus!
