//! Resource records.
use vstd::prelude::*;

use crate::name::Name;
use crate::rdata::{DNSClass, RData, RDataModel, RecordType};

verus! {

/// What a resource record holds.
pub struct RecordModel {
    pub name: Seq<Seq<char>>,
    pub rr_type: RecordType,
    pub dns_class: DNSClass,
    pub ttl: u32,
    pub rdata: RDataModel,
}

/// A resource record: owner name, type, class, time to live and data.
#[derive(Debug)]
pub struct Record {
    name: Name,
    rr_type: RecordType,
    dns_class: DNSClass,
    ttl: u32,
    rdata: RData,
}

impl View for Record {
    type V = RecordModel;

    closed spec fn view(&self) -> RecordModel {
        RecordModel {
            name: self.name@,
            rr_type: self.rr_type,
            dns_class: self.dns_class,
            ttl: self.ttl,
            rdata: self.rdata@,
        }
    }
}

impl Record {
    /// A record of type A and class IN for the root name, with a time to live
    /// of zero and empty data.
    pub fn new() -> (r: Record)
        ensures
            r@ == (RecordModel {
                name: Seq::<Seq<char>>::empty(),
                rr_type: RecordType::A,
                dns_class: DNSClass::IN,
                ttl: 0,
                rdata: RDataModel::Unknown(RecordType::NULL, Seq::<u8>::empty()),
            }),
    {
        let r = Record {
            name: Name::root(),
            rr_type: RecordType::A,
            dns_class: DNSClass::IN,
            ttl: 0,
            rdata: RData::Unknown(RecordType::NULL, Vec::new()),
        };
        assert(r.rdata@ == RDataModel::Unknown(RecordType::NULL, Seq::<u8>::empty()));
        r
    }

    /// A record of class IN with the given name, type and time to live, and
    /// empty data.
    pub fn with(name: Name, rr_type: RecordType, ttl: u32) -> (r: Record)
        ensures
            r@ == (RecordModel {
                name: name@,
                rr_type,
                dns_class: DNSClass::IN,
                ttl,
                rdata: RDataModel::Unknown(RecordType::NULL, Seq::<u8>::empty()),
            }),
    {
        let r = Record {
            name,
            rr_type,
            dns_class: DNSClass::IN,
            ttl,
            rdata: RData::Unknown(RecordType::NULL, Vec::new()),
        };
        assert(r.rdata@ == RDataModel::Unknown(RecordType::NULL, Seq::<u8>::empty()));
        r
    }

    /// A record of class IN with the given name, time to live, type and data.
    pub fn from_rdata(name: Name, ttl: u32, rr_type: RecordType, rdata: RData) -> (r: Record)
        ensures
            r@ == (RecordModel { name: name@, rr_type, dns_class: DNSClass::IN, ttl, rdata: rdata@ }),
    {
        Record { name, rr_type, dns_class: DNSClass::IN, ttl, rdata }
    }

    pub fn set_name(&mut self, name: Name)
        ensures
            final(self)@ == (RecordModel { name: name@, ..old(self)@ }),
    {
        self.name = name;
    }

    pub fn set_rr_type(&mut self, rr_type: RecordType)
        ensures
            final(self)@ == (RecordModel { rr_type, ..old(self)@ }),
    {
        self.rr_type = rr_type;
    }

    pub fn set_dns_class(&mut self, dns_class: DNSClass)
        ensures
            final(self)@ == (RecordModel { dns_class, ..old(self)@ }),
    {
        self.dns_class = dns_class;
    }

    pub fn set_ttl(&mut self, ttl: u32)
        ensures
            final(self)@ == (RecordModel { ttl, ..old(self)@ }),
    {
        self.ttl = ttl;
    }

    pub fn set_rdata(&mut self, rdata: RData)
        ensures
            final(self)@ == (RecordModel { rdata: rdata@, ..old(self)@ }),
    {
        self.rdata = rdata;
    }

    pub fn get_name(&self) -> (r: &Name)
        ensures
            r@ == self@.name,
    {
        &self.name
    }

    pub fn get_rr_type(&self) -> (r: RecordType)
        ensures
            r == self@.rr_type,
    {
        self.rr_type
    }

    pub fn get_dns_class(&self) -> (r: DNSClass)
        ensures
            r == self@.dns_class,
    {
        self.dns_class
    }

    pub fn get_ttl(&self) -> (r: u32)
        ensures
            r == self@.ttl,
    {
        self.ttl
    }

    pub fn get_rdata(&self) -> (r: &RData)
        ensures
            r@ == self@.rdata,
    {
        &self.rdata
    }

    /// Whether two records agree in every field.
    pub fn same_as(&self, other: &Record) -> (r: bool)
        ensures
            r == (self@ == other@),
    {
        self.rr_type == other.rr_type && self.dns_class == other.dns_class && self.ttl
            == other.ttl && self.rdata.same_as(&other.rdata) && self.name.same_as(&other.name)
    }
}

impl Clone for Record {
    fn clone(&self) -> (r: Record)
        ensures
            r@ == self@,
    {
        Record {
            name: self.name.clone(),
            rr_type: self.rr_type,
            dns_class: self.dns_class,
            ttl: self.ttl,
            rdata: self.rdata.clone(),
        }
    }
}

impl PartialEq for Record {
    fn eq(&self, other: &Record) -> (r: bool)
        ensures
            r == (self@ == other@),
    {
        self.same_as(other)
    }
}

impl vstd::std_specs::cmp::PartialEqSpecImpl for Record {
    open spec fn obeys_eq_spec() -> bool {
        true
    }

    open spec fn eq_spec(&self, other: &Record) -> bool {
        self@ == other@
    }
}

} // verus!
