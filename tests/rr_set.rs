use trust_dns::name::Name;
use trust_dns::rdata::{Algorithm, DNSClass, RData, RecordType, SupportedAlgorithms, SIG, SOA};
use trust_dns::record::Record;
use trust_dns::rr_set::RecordSet;

fn name_of(labels: &[&str]) -> Name {
    let mut name = Name::new();
    for l in labels {
        name = name.label(l);
    }
    name
}

fn soa_record(name: &Name, mname: &[&str], rname: &[&str], serial: u32) -> Record {
    Record::from_rdata(
        name.clone(),
        3600,
        RecordType::SOA,
        RData::SOA(SOA::new(name_of(mname), name_of(rname), serial, 7200, 3600, 1209600, 3600)),
    )
}

fn sig_record(algorithm: Algorithm) -> Record {
    let sig = SIG::new(RecordType::A, algorithm, 0, 0, 0, 0, 0, Name::root(), vec![]);
    Record::from_rdata(Name::root(), 3600, RecordType::RRSIG, RData::SIG(sig))
}

fn has_sig(records: &[&Record], algorithm: Algorithm) -> bool {
    records.iter().any(|r| match r.get_rdata() {
        RData::SIG(sig) => sig.get_algorithm() == algorithm,
        _ => false,
    })
}

#[test]
fn test_insert() {
    let name = name_of(&["www", "example", "com"]);
    let record_type = RecordType::A;
    let mut rr_set = RecordSet::new(&name, record_type, 0);

    let insert = Record::from_rdata(name.clone(), 86400, record_type, RData::A(93, 184, 216, 24));

    assert!(rr_set.insert(insert.clone(), 0));
    assert_eq!(rr_set.get_records(false, Default::default()).len(), 1);
    assert!(rr_set.get_records(false, Default::default()).contains(&&insert));

    // dups ignored
    assert!(!rr_set.insert(insert.clone(), 0));
    assert_eq!(rr_set.get_records(false, Default::default()).len(), 1);
    assert!(rr_set.get_records(false, Default::default()).contains(&&insert));

    // add one
    let insert1 = Record::from_rdata(name.clone(), 86400, record_type, RData::A(93, 184, 216, 25));
    assert!(rr_set.insert(insert1.clone(), 0));
    assert_eq!(rr_set.get_records(false, Default::default()).len(), 2);
    assert!(rr_set.get_records(false, Default::default()).contains(&&insert));
    assert!(rr_set.get_records(false, Default::default()).contains(&&insert1));
}

#[test]
fn test_insert_soa() {
    let name = name_of(&["example", "com"]);
    let record_type = RecordType::SOA;
    let mut rr_set = RecordSet::new(&name, record_type, 0);

    let insert = soa_record(&name, &["sns", "dns", "icann", "org"], &["noc", "dns", "icann", "org"], 2015082403);
    let same_serial =
        soa_record(&name, &["sns", "dns", "icann", "net"], &["noc", "dns", "icann", "net"], 2015082403);
    let new_serial =
        soa_record(&name, &["sns", "dns", "icann", "net"], &["noc", "dns", "icann", "net"], 2015082404);

    assert!(rr_set.insert(insert.clone(), 0));
    assert!(rr_set.get_records(false, Default::default()).contains(&&insert));
    // same serial number
    assert!(!rr_set.insert(same_serial.clone(), 0));
    assert!(rr_set.get_records(false, Default::default()).contains(&&insert));
    assert!(!rr_set.get_records(false, Default::default()).contains(&&same_serial));

    assert!(rr_set.insert(new_serial.clone(), 0));
    assert!(!rr_set.insert(same_serial.clone(), 0));
    assert!(!rr_set.insert(insert.clone(), 0));

    assert!(rr_set.get_records(false, Default::default()).contains(&&new_serial));
    assert!(!rr_set.get_records(false, Default::default()).contains(&&insert));
    assert!(!rr_set.get_records(false, Default::default()).contains(&&same_serial));
}

#[test]
fn test_insert_cname() {
    let name = name_of(&["web", "example", "com"]);
    let cname = name_of(&["www", "example", "com"]);
    let new_cname = name_of(&["w2", "example", "com"]);

    let record_type = RecordType::CNAME;
    let mut rr_set = RecordSet::new(&name, record_type, 0);

    let insert = Record::from_rdata(name.clone(), 3600, RecordType::CNAME, RData::CNAME(cname.clone()));
    let new_record =
        Record::from_rdata(name.clone(), 3600, RecordType::CNAME, RData::CNAME(new_cname.clone()));

    assert!(rr_set.insert(insert.clone(), 0));
    assert!(rr_set.get_records(false, Default::default()).contains(&&insert));

    // update the record
    assert!(rr_set.insert(new_record.clone(), 0));
    assert!(!rr_set.get_records(false, Default::default()).contains(&&insert));
    assert!(rr_set.get_records(false, Default::default()).contains(&&new_record));
}

#[test]
fn test_remove() {
    let name = name_of(&["www", "example", "com"]);
    let record_type = RecordType::A;
    let mut rr_set = RecordSet::new(&name, record_type, 0);

    let insert = Record::from_rdata(name.clone(), 86400, record_type, RData::A(93, 184, 216, 24));
    let insert1 = Record::from_rdata(name.clone(), 86400, record_type, RData::A(93, 184, 216, 25));

    assert!(rr_set.insert(insert.clone(), 0));
    assert!(rr_set.insert(insert1.clone(), 0));

    assert!(rr_set.remove(&insert, 0));
    assert!(!rr_set.remove(&insert, 0));
    assert!(rr_set.remove(&insert1, 0));
    assert!(!rr_set.remove(&insert1, 0));
}

#[test]
fn test_remove_soa() {
    let name = name_of(&["example", "com"]);
    let record_type = RecordType::SOA;
    let mut rr_set = RecordSet::new(&name, record_type, 0);

    let insert = soa_record(&name, &["sns", "dns", "icann", "org"], &["noc", "dns", "icann", "org"], 2015082403);

    assert!(rr_set.insert(insert.clone(), 0));
    assert!(!rr_set.remove(&insert, 0));
    assert!(rr_set.get_records(false, Default::default()).contains(&&insert));
}

#[test]
fn test_remove_ns() {
    let name = name_of(&["example", "com"]);
    let record_type = RecordType::NS;
    let mut rr_set = RecordSet::new(&name, record_type, 0);

    let ns1 = Record::from_rdata(
        name.clone(),
        86400,
        RecordType::NS,
        RData::NS(name_of(&["a", "iana-servers", "net"])),
    );
    let ns2 = Record::from_rdata(
        name.clone(),
        86400,
        RecordType::NS,
        RData::NS(name_of(&["b", "iana-servers", "net"])),
    );

    assert!(rr_set.insert(ns1.clone(), 0));
    assert!(rr_set.insert(ns2.clone(), 0));

    // ok to remove one, but not two...
    assert!(rr_set.remove(&ns1, 0));
    assert!(!rr_set.remove(&ns2, 0));

    // either one can be the one that stays
    assert!(rr_set.insert(ns1.clone(), 0));

    assert!(rr_set.remove(&ns2, 0));
    assert!(!rr_set.remove(&ns1, 0));
}

#[test]
fn test_get_filter() {
    let name = Name::root();
    let rrsig_rsa = sig_record(Algorithm::RSASHA256);
    let rrsig_ecp256 = sig_record(Algorithm::ECDSAP256SHA256);
    let rrsig_ecp384 = sig_record(Algorithm::ECDSAP384SHA384);
    let rrsig_ed25519 = sig_record(Algorithm::ED25519);

    let a = Record::from_rdata(name.clone(), 3600, RecordType::A, RData::A(93, 184, 216, 24));

    let mut rrset = RecordSet::from(a);
    rrset.insert_rrsig(rrsig_rsa);
    rrset.insert_rrsig(rrsig_ecp256);
    rrset.insert_rrsig(rrsig_ecp384);
    rrset.insert_rrsig(rrsig_ed25519);

    assert!(has_sig(&rrset.get_records(true, SupportedAlgorithms::all()), Algorithm::ED25519));

    let mut supported_algorithms = SupportedAlgorithms::new();
    supported_algorithms.set(Algorithm::ECDSAP384SHA384);
    assert!(has_sig(&rrset.get_records(true, supported_algorithms), Algorithm::ECDSAP384SHA384));
}

#[test]
fn get_records_appends_only_the_highest_supported_signature() {
    let a = Record::from_rdata(Name::root(), 3600, RecordType::A, RData::A(10, 0, 0, 1));
    let mut rrset = RecordSet::from(a.clone());
    let low = sig_record(Algorithm::RSASHA256);
    let high = sig_record(Algorithm::RSASHA1NSEC3SHA1);
    rrset.insert_rrsig(high.clone());
    rrset.insert_rrsig(low.clone());
    let mut supported = SupportedAlgorithms::new();
    supported.set(Algorithm::RSASHA256);
    supported.set(Algorithm::RSASHA1NSEC3SHA1);

    let out = rrset.get_records(true, supported);
    assert_eq!(out.len(), 2);
    assert!(*out[0] == a);
    assert!(*out[1] == high);

    // without signatures asked for, only the records come back
    assert_eq!(rrset.get_records(false, supported).len(), 1);
}

#[test]
fn get_records_without_supported_signature_adds_nothing() {
    let a = Record::from_rdata(Name::root(), 3600, RecordType::A, RData::A(10, 0, 0, 1));
    let mut rrset = RecordSet::from(a);
    rrset.insert_rrsig(sig_record(Algorithm::RSASHA1));
    let mut supported = SupportedAlgorithms::new();
    supported.set(Algorithm::ED25519);
    assert_eq!(rrset.get_records(true, supported).len(), 1);
    assert_eq!(rrset.get_records(true, SupportedAlgorithms::default()).len(), 1);
    assert_eq!(rrset.get_records(true, SupportedAlgorithms::all()).len(), 2);
}

#[test]
fn supported_algorithms_set_and_has() {
    let mut s = SupportedAlgorithms::new();
    assert!(!s.has(Algorithm::RSASHA1));
    s.set(Algorithm::ECDSAP256SHA256);
    assert!(s.has(Algorithm::ECDSAP256SHA256));
    assert!(!s.has(Algorithm::ECDSAP384SHA384));
    assert!(!s.has(Algorithm::RSASHA1));
    let all = SupportedAlgorithms::all();
    assert!(all.has(Algorithm::RSASHA1));
    assert!(all.has(Algorithm::ED25519));
    assert_eq!(Algorithm::RSASHA1.rank(), 0);
    assert_eq!(Algorithm::ED25519.rank(), 6);
}

#[test]
fn successful_updates_clear_signatures_and_take_serial() {
    let name = name_of(&["www", "example", "com"]);
    let mut rr_set = RecordSet::new(&name, RecordType::A, 7);
    assert_eq!(rr_set.get_serial(), 7);
    let r1 = Record::from_rdata(name.clone(), 300, RecordType::A, RData::A(1, 2, 3, 4));
    rr_set.insert_rrsig(sig_record(Algorithm::RSASHA256));
    assert_eq!(rr_set.get_rrsigs().len(), 1);

    assert!(rr_set.insert(r1.clone(), 11));
    assert_eq!(rr_set.get_serial(), 11);
    assert_eq!(rr_set.get_rrsigs().len(), 0);

    // a refused update keeps the signatures and the serial
    rr_set.insert_rrsig(sig_record(Algorithm::RSASHA256));
    assert!(!rr_set.insert(r1.clone(), 12));
    assert_eq!(rr_set.get_serial(), 11);
    assert_eq!(rr_set.get_rrsigs().len(), 1);

    assert!(rr_set.remove(&r1, 13));
    assert_eq!(rr_set.get_serial(), 13);
    assert_eq!(rr_set.get_rrsigs().len(), 0);
    assert!(rr_set.is_empty());

    rr_set.insert_rrsig(sig_record(Algorithm::RSASHA256));
    rr_set.clear_rrsigs();
    assert_eq!(rr_set.get_rrsigs().len(), 0);
}

#[test]
fn same_data_new_ttl_replaces_in_place() {
    let name = name_of(&["www", "example", "com"]);
    let mut rr_set = RecordSet::with_ttl(name.clone(), RecordType::A, 60);
    assert_eq!(rr_set.get_ttl(), 60);
    assert_eq!(rr_set.get_serial(), 0);
    let r1 = Record::from_rdata(name.clone(), 300, RecordType::A, RData::A(1, 2, 3, 4));
    let r2 = Record::from_rdata(name.clone(), 300, RecordType::A, RData::A(1, 2, 3, 5));
    let r1_longer = Record::from_rdata(name.clone(), 900, RecordType::A, RData::A(1, 2, 3, 4));
    assert!(rr_set.insert(r1.clone(), 1));
    assert!(rr_set.insert(r2.clone(), 2));
    assert!(rr_set.insert(r1_longer.clone(), 3));
    assert_eq!(rr_set.get_ttl(), 900);
    let recs = rr_set.get_records(false, SupportedAlgorithms::new());
    assert_eq!(recs.len(), 2);
    assert!(*recs[0] == r1_longer);
    assert!(*recs[1] == r2);
    assert_eq!(rr_set.iter().count(), 2);
}

#[test]
fn duplicate_insert_changes_nothing() {
    let name = name_of(&["example", "com"]);
    let mut rr_set = RecordSet::new(&name, RecordType::NS, 0);
    let ns = Record::from_rdata(name.clone(), 86400, RecordType::NS, RData::NS(name_of(&["ns", "example", "com"])));
    assert!(rr_set.insert(ns.clone(), 5));
    assert!(!rr_set.insert(ns.clone(), 6));
    assert_eq!(rr_set.get_serial(), 5);
    let recs = rr_set.get_records(false, SupportedAlgorithms::new());
    assert_eq!(recs.len(), 1);
    assert!(*recs[0] == ns);
}

#[test]
fn cname_reinsert_of_same_record_replaces_it() {
    let name = name_of(&["web", "example", "com"]);
    let mut rr_set = RecordSet::new(&name, RecordType::CNAME, 0);
    let c = Record::from_rdata(name.clone(), 3600, RecordType::CNAME, RData::CNAME(name_of(&["www", "example", "com"])));
    assert!(rr_set.insert(c.clone(), 1));
    assert!(rr_set.insert(c.clone(), 2));
    assert_eq!(rr_set.get_serial(), 2);
    assert_eq!(rr_set.get_records(false, SupportedAlgorithms::new()).len(), 1);
}

#[test]
fn soa_insert_with_other_data_is_refused() {
    let name = name_of(&["example", "com"]);
    let mut rr_set = RecordSet::new(&name, RecordType::SOA, 0);
    let bad = Record::from_rdata(name.clone(), 3600, RecordType::SOA, RData::A(1, 1, 1, 1));
    assert!(!rr_set.insert(bad, 1));
    assert!(rr_set.is_empty());
}

#[test]
fn ns_floor_with_single_record() {
    let name = name_of(&["example", "com"]);
    let mut rr_set = RecordSet::new(&name, RecordType::NS, 0);
    let ns = Record::from_rdata(name.clone(), 86400, RecordType::NS, RData::NS(name_of(&["a", "iana-servers", "net"])));
    assert!(rr_set.insert(ns.clone(), 0));
    assert!(!rr_set.remove(&ns, 1));
    assert_eq!(rr_set.get_records(false, SupportedAlgorithms::new()).len(), 1);
}

#[test]
fn remove_with_any_type_matches_on_data() {
    let name = name_of(&["www", "example", "com"]);
    let mut rr_set = RecordSet::new(&name, RecordType::A, 0);
    let r = Record::from_rdata(name.clone(), 300, RecordType::A, RData::A(8, 8, 8, 8));
    assert!(rr_set.insert(r, 0));
    let mut any = Record::from_rdata(name.clone(), 0, RecordType::ANY, RData::A(8, 8, 4, 4));
    assert!(!rr_set.remove(&any, 1));
    any.set_rdata(RData::A(8, 8, 8, 8));
    assert!(rr_set.remove(&any, 1));
    assert!(rr_set.is_empty());
}

#[test]
fn set_ttl_and_class_reach_every_record() {
    let name = name_of(&["www", "example", "com"]);
    let mut rr_set = RecordSet::new(&name, RecordType::A, 0);
    assert!(rr_set.insert(Record::from_rdata(name.clone(), 300, RecordType::A, RData::A(1, 1, 1, 1)), 0));
    assert!(rr_set.insert(Record::from_rdata(name.clone(), 600, RecordType::A, RData::A(1, 1, 1, 2)), 0));
    rr_set.set_ttl(42);
    rr_set.set_dns_class(DNSClass::CH);
    assert_eq!(rr_set.get_ttl(), 42);
    assert_eq!(rr_set.get_dns_class(), DNSClass::CH);
    for r in rr_set.iter() {
        assert_eq!(r.get_ttl(), 42);
        assert_eq!(r.get_dns_class(), DNSClass::CH);
    }
}

#[test]
fn from_record_seeds_the_set() {
    let name = name_of(&["www", "example", "com"]);
    let mut r = Record::with(name.clone(), RecordType::A, 120);
    r.set_dns_class(DNSClass::HS);
    r.set_rdata(RData::A(9, 9, 9, 9));
    let rr_set = RecordSet::from(r.clone());
    assert!(*rr_set.get_name() == name);
    assert_eq!(rr_set.get_record_type(), RecordType::A);
    assert_eq!(rr_set.get_dns_class(), DNSClass::HS);
    assert_eq!(rr_set.get_ttl(), 120);
    assert_eq!(rr_set.get_serial(), 0);
    assert!(!rr_set.is_empty());
    assert!(rr_set.get_records(false, SupportedAlgorithms::new())[0] == &r);
}

#[test]
fn new_record_builds_from_the_set() {
    let name = name_of(&["www", "example", "com"]);
    let mut rr_set = RecordSet::with_ttl(name.clone(), RecordType::A, 3600);
    {
        let r = rr_set.new_record(RData::A(5, 6, 7, 8));
        assert!(*r.get_name() == name);
        assert_eq!(r.get_rr_type(), RecordType::A);
        assert_eq!(r.get_ttl(), 3600);
        assert_eq!(r.get_dns_class(), DNSClass::IN);
        assert!(*r.get_rdata() == RData::A(5, 6, 7, 8));
    }
    // data already held: the held record comes back
    let r = rr_set.new_record(RData::A(5, 6, 7, 8));
    assert!(*r.get_rdata() == RData::A(5, 6, 7, 8));
    assert_eq!(rr_set.get_records(false, SupportedAlgorithms::new()).len(), 1);
}

#[test]
fn names_compare_by_labels() {
    let a = name_of(&["www", "example", "com"]);
    let b = Name::new().label("www").label("example").label("com");
    let c = name_of(&["www", "example", "org"]);
    assert!(a == b);
    assert!(a != c);
    assert!(a != Name::root());
    assert_eq!(a.num_labels(), 3);
    assert_eq!(RData::NS(a.clone()).to_record_type(), RecordType::NS);
    assert!(RData::NS(a.clone()) != RData::CNAME(a));
}

#[test]
fn record_new_defaults() {
    let r = Record::new();
    assert!(*r.get_name() == Name::root());
    assert_eq!(r.get_rr_type(), RecordType::A);
    assert_eq!(r.get_dns_class(), DNSClass::IN);
    assert_eq!(r.get_ttl(), 0);
    assert_eq!(r.get_rdata().to_record_type(), RecordType::NULL);
}

#[test]
fn into_iter_yields_records_then_signatures() {
    let a = Record::from_rdata(Name::root(), 3600, RecordType::A, RData::A(10, 0, 0, 1));
    let mut rrset = RecordSet::from(a.clone());
    let sig = sig_record(Algorithm::ED25519);
    rrset.insert_rrsig(sig.clone());
    let all: Vec<Record> = rrset.into_iter().collect();
    assert_eq!(all.len(), 2);
    assert!(all[0] == a);
    assert!(all[1] == sig);
}

#[test]
fn any_typed_remove_keeps_last_ns_record() {
    let name = name_of(&["example", "com"]);
    let mut rr_set = RecordSet::new(&name, RecordType::NS, 0);
    let ns = Record::from_rdata(name.clone(), 86400, RecordType::NS, RData::NS(name_of(&["a", "iana-servers", "net"])));
    assert!(rr_set.insert(ns.clone(), 0));
    let any = Record::from_rdata(name.clone(), 0, RecordType::ANY, RData::NS(name_of(&["a", "iana-servers", "net"])));
    assert!(!rr_set.remove(&any, 1));
    assert_eq!(rr_set.get_serial(), 0);
    let recs = rr_set.get_records(false, SupportedAlgorithms::new());
    assert_eq!(recs.len(), 1);
    assert!(*recs[0] == ns);
}

#[test]
fn any_typed_remove_keeps_soa_record() {
    let name = name_of(&["example", "com"]);
    let mut rr_set = RecordSet::new(&name, RecordType::SOA, 0);
    let soa = soa_record(&name, &["sns", "dns", "icann", "org"], &["noc", "dns", "icann", "org"], 2015082403);
    assert!(rr_set.insert(soa.clone(), 0));
    let mut any = soa.clone();
    any.set_rr_type(RecordType::ANY);
    assert!(!rr_set.remove(&any, 1));
    assert_eq!(rr_set.get_serial(), 0);
    assert!(rr_set.get_records(false, SupportedAlgorithms::new()).contains(&&soa));
}
