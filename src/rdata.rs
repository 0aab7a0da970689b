//! Record types, classes, signing algorithms and the data that a record carries.
use vstd::prelude::*;

use crate::name::Name;

verus! {

/// The type of a resource record.
#[derive(PartialEq, Eq, Structural, Clone, Copy, Debug)]
pub enum RecordType {
    A,
    AAAA,
    ANY,
    CNAME,
    MX,
    NS,
    NULL,
    PTR,
    RRSIG,
    SIG,
    SOA,
    SRV,
    TXT,
}

/// The class of a resource record.
#[derive(PartialEq, Eq, Structural, Clone, Copy, Debug)]
pub enum DNSClass {
    IN,
    CH,
    HS,
    NONE,
    ANY,
}

/// A signing algorithm. The algorithms are ranked in the order in which they
/// are declared here: a later one is preferred over an earlier one.
#[derive(PartialEq, Eq, Structural, Clone, Copy, Debug)]
pub enum Algorithm {
    RSASHA1,
    RSASHA256,
    RSASHA1NSEC3SHA1,
    RSASHA512,
    ECDSAP256SHA256,
    ECDSAP384SHA384,
    ED25519,
}

impl Algorithm {
    /// The position of the algorithm in the order of preference.
    pub open spec fn spec_rank(self) -> nat {
        match self {
            Algorithm::RSASHA1 => 0,
            Algorithm::RSASHA256 => 1,
            Algorithm::RSASHA1NSEC3SHA1 => 2,
            Algorithm::RSASHA512 => 3,
            Algorithm::ECDSAP256SHA256 => 4,
            Algorithm::ECDSAP384SHA384 => 5,
            Algorithm::ED25519 => 6,
        }
    }

    /// The position of the algorithm in the order of preference.
    pub fn rank(&self) -> (r: u8)
        ensures
            r as nat == self.spec_rank(),
    {
        match self {
            Algorithm::RSASHA1 => 0,
            Algorithm::RSASHA256 => 1,
            Algorithm::RSASHA1NSEC3SHA1 => 2,
            Algorithm::RSASHA512 => 3,
            Algorithm::ECDSAP256SHA256 => 4,
            Algorithm::ECDSAP384SHA384 => 5,
            Algorithm::ED25519 => 6,
        }
    }
}

/// Two algorithms of the same rank are the same algorithm.
pub proof fn lemma_rank_injective(a: Algorithm, b: Algorithm)
    ensures
        a.spec_rank() == b.spec_rank() ==> a == b,
{
}

/// A set of signing algorithms, one bit per algorithm.
#[derive(Clone, Copy, Debug)]
pub struct SupportedAlgorithms {
    bit_map: u8,
}

proof fn lemma_set_bit(m: u8, r: u8, s: u8)
    requires
        r < 8,
        s < 8,
    ensures
        (((m | (1u8 << r)) >> s) & 1u8 == 1u8) == (((m >> s) & 1u8 == 1u8) || r == s),
{
    assert((((m | (1u8 << r)) >> s) & 1u8 == 1u8) == (((m >> s) & 1u8 == 1u8) || r == s))
        by (bit_vector)
        requires
            r < 8,
            s < 8,
    ;
}

proof fn lemma_bits_of_constants(s: u8)
    requires
        s < 8,
    ensures
        ((0u8 >> s) & 1u8) != 1u8,
        ((127u8 >> s) & 1u8 == 1u8) == (s < 7),
{
    assert(((0u8 >> s) & 1u8) != 1u8) by (bit_vector);
    assert(((127u8 >> s) & 1u8 == 1u8) == (s < 7)) by (bit_vector)
        requires
            s < 8,
    ;
}

impl SupportedAlgorithms {
    /// Whether `a` is in the set.
    pub closed spec fn contains(self, a: Algorithm) -> bool {
        ((self.bit_map >> (a.spec_rank() as u8)) & 1u8) == 1u8
    }

    /// The empty set.
    pub fn new() -> (r: SupportedAlgorithms)
        ensures
            forall|a: Algorithm| !r.contains(a),
    {
        let r = SupportedAlgorithms { bit_map: 0 };
        assert forall|a: Algorithm| !r.contains(a) by {
            lemma_bits_of_constants(a.spec_rank() as u8);
        }
        r
    }

    /// The set of every algorithm.
    pub fn all() -> (r: SupportedAlgorithms)
        ensures
            forall|a: Algorithm| r.contains(a),
    {
        let r = SupportedAlgorithms { bit_map: 127 };
        assert forall|a: Algorithm| r.contains(a) by {
            lemma_bits_of_constants(a.spec_rank() as u8);
        }
        r
    }

    /// Adds `a` to the set.
    pub fn set(&mut self, a: Algorithm)
        ensures
            forall|b: Algorithm| final(self).contains(b) == (old(self).contains(b) || b == a),
    {
        let r = a.rank();
        let m = self.bit_map;
        self.bit_map = m | (1u8 << r);
        assert forall|b: Algorithm| self.contains(b) == (old(self).contains(b) || b == a) by {
            lemma_set_bit(m, r, b.spec_rank() as u8);
            lemma_rank_injective(a, b);
        }
    }

    /// Whether `a` is in the set.
    pub fn has(&self, a: Algorithm) -> (r: bool)
        ensures
            r == self.contains(a),
    {
        let r = a.rank();
        ((self.bit_map >> r) & 1u8) == 1u8
    }
}

impl Default for SupportedAlgorithms {
    /// The empty set.
    fn default() -> (r: SupportedAlgorithms)
        ensures
            forall|a: Algorithm| !r.contains(a),
    {
        SupportedAlgorithms::new()
    }
}

/// Whether two byte vectors hold the same bytes.
fn same_bytes(a: &Vec<u8>, b: &Vec<u8>) -> (r: bool)
    ensures
        r == (a@ == b@),
{
    if a.len() != b.len() {
        return false;
    }
    let mut i: usize = 0;
    while i < a.len()
        invariant
            a@.len() == b@.len(),
            0 <= i <= a@.len(),
            forall|j: int| 0 <= j < i ==> a@[j] == b@[j],
        decreases a@.len() - i,
    {
        if a[i] != b[i] {
            return false;
        }
        i = i + 1;
    }
    assert(a@ =~= b@);
    true
}

/// A copy of a byte vector.
fn copy_bytes(a: &Vec<u8>) -> (r: Vec<u8>)
    ensures
        r@ == a@,
{
    let mut r: Vec<u8> = Vec::new();
    let mut i: usize = 0;
    while i < a.len()
        invariant
            0 <= i <= a@.len(),
            r@ == a@.subrange(0, i as int),
        decreases a@.len() - i,
    {
        r.push(a[i]);
        i = i + 1;
        assert(r@ =~= a@.subrange(0, i as int));
    }
    assert(r@ =~= a@);
    r
}

/// What a start-of-authority record holds.
pub struct SOAModel {
    pub mname: Seq<Seq<char>>,
    pub rname: Seq<Seq<char>>,
    pub serial: u32,
    pub refresh: i32,
    pub retry: i32,
    pub expire: i32,
    pub minimum: u32,
}

/// The data of a start-of-authority record.
#[derive(Debug)]
pub struct SOA {
    mname: Name,
    rname: Name,
    serial: u32,
    refresh: i32,
    retry: i32,
    expire: i32,
    minimum: u32,
}

impl View for SOA {
    type V = SOAModel;

    closed spec fn view(&self) -> SOAModel {
        SOAModel {
            mname: self.mname@,
            rname: self.rname@,
            serial: self.serial,
            refresh: self.refresh,
            retry: self.retry,
            expire: self.expire,
            minimum: self.minimum,
        }
    }
}

impl SOA {
    pub fn new(
        mname: Name,
        rname: Name,
        serial: u32,
        refresh: i32,
        retry: i32,
        expire: i32,
        minimum: u32,
    ) -> (r: SOA)
        ensures
            r@ == (SOAModel {
                mname: mname@,
                rname: rname@,
                serial,
                refresh,
                retry,
                expire,
                minimum,
            }),
    {
        SOA { mname, rname, serial, refresh, retry, expire, minimum }
    }

    /// The zone's serial number.
    pub fn get_serial(&self) -> (r: u32)
        ensures
            r == self@.serial,
    {
        self.serial
    }

    /// Whether two start-of-authority records hold the same data.
    pub fn same_as(&self, other: &SOA) -> (r: bool)
        ensures
            r == (self@ == other@),
    {
        self.mname.same_as(&other.mname) && self.rname.same_as(&other.rname) && self.serial
            == other.serial && self.refresh == other.refresh && self.retry == other.retry
            && self.expire == other.expire && self.minimum == other.minimum
    }
}

impl Clone for SOA {
    fn clone(&self) -> (r: SOA)
        ensures
            r@ == self@,
    {
        SOA {
            mname: self.mname.clone(),
            rname: self.rname.clone(),
            serial: self.serial,
            refresh: self.refresh,
            retry: self.retry,
            expire: self.expire,
            minimum: self.minimum,
        }
    }
}

/// What a signature record holds.
pub struct SIGModel {
    pub type_covered: RecordType,
    pub algorithm: Algorithm,
    pub num_labels: u8,
    pub original_ttl: u32,
    pub sig_expiration: u32,
    pub sig_inception: u32,
    pub key_tag: u16,
    pub signer_name: Seq<Seq<char>>,
    pub sig: Seq<u8>,
}

/// The data of a signature record.
#[derive(Debug)]
pub struct SIG {
    type_covered: RecordType,
    algorithm: Algorithm,
    num_labels: u8,
    original_ttl: u32,
    sig_expiration: u32,
    sig_inception: u32,
    key_tag: u16,
    signer_name: Name,
    sig: Vec<u8>,
}

impl View for SIG {
    type V = SIGModel;

    closed spec fn view(&self) -> SIGModel {
        SIGModel {
            type_covered: self.type_covered,
            algorithm: self.algorithm,
            num_labels: self.num_labels,
            original_ttl: self.original_ttl,
            sig_expiration: self.sig_expiration,
            sig_inception: self.sig_inception,
            key_tag: self.key_tag,
            signer_name: self.signer_name@,
            sig: self.sig@,
        }
    }
}

impl SIG {
    pub fn new(
        type_covered: RecordType,
        algorithm: Algorithm,
        num_labels: u8,
        original_ttl: u32,
        sig_expiration: u32,
        sig_inception: u32,
        key_tag: u16,
        signer_name: Name,
        sig: Vec<u8>,
    ) -> (r: SIG)
        ensures
            r@ == (SIGModel {
                type_covered,
                algorithm,
                num_labels,
                original_ttl,
                sig_expiration,
                sig_inception,
                key_tag,
                signer_name: signer_name@,
                sig: sig@,
            }),
    {
        SIG {
            type_covered,
            algorithm,
            num_labels,
            original_ttl,
            sig_expiration,
            sig_inception,
            key_tag,
            signer_name,
            sig,
        }
    }

    /// The algorithm that made the signature.
    pub fn get_algorithm(&self) -> (r: Algorithm)
        ensures
            r == self@.algorithm,
    {
        self.algorithm
    }

    /// Whether two signature records hold the same data.
    pub fn same_as(&self, other: &SIG) -> (r: bool)
        ensures
            r == (self@ == other@),
    {
        self.type_covered == other.type_covered && self.algorithm == other.algorithm
            && self.num_labels == other.num_labels && self.original_ttl == other.original_ttl
            && self.sig_expiration == other.sig_expiration && self.sig_inception
            == other.sig_inception && self.key_tag == other.key_tag
            && self.signer_name.same_as(&other.signer_name) && same_bytes(&self.sig, &other.sig)
    }
}

impl Clone for SIG {
    fn clone(&self) -> (r: SIG)
        ensures
            r@ == self@,
    {
        SIG {
            type_covered: self.type_covered,
            algorithm: self.algorithm,
            num_labels: self.num_labels,
            original_ttl: self.original_ttl,
            sig_expiration: self.sig_expiration,
            sig_inception: self.sig_inception,
            key_tag: self.key_tag,
            signer_name: self.signer_name.clone(),
            sig: copy_bytes(&self.sig),
        }
    }
}

/// What the data of a record holds.
pub enum RDataModel {
    A(u8, u8, u8, u8),
    NS(Seq<Seq<char>>),
    CNAME(Seq<Seq<char>>),
    SOA(SOAModel),
    SIG(SIGModel),
    Unknown(RecordType, Seq<u8>),
}

/// The data of a record: a payload of its own shape for each type that this
/// layer reads, and the raw bytes for any other type.
#[derive(Debug)]
pub enum RData {
    /// An IPv4 address, by its four octets.
    A(u8, u8, u8, u8),
    NS(Name),
    CNAME(Name),
    SOA(SOA),
    SIG(SIG),
    Unknown(RecordType, Vec<u8>),
}

impl View for RData {
    type V = RDataModel;

    open spec fn view(&self) -> RDataModel {
        match self {
            RData::A(a, b, c, d) => RDataModel::A(*a, *b, *c, *d),
            RData::NS(n) => RDataModel::NS(n@),
            RData::CNAME(n) => RDataModel::CNAME(n@),
            RData::SOA(s) => RDataModel::SOA(s@),
            RData::SIG(s) => RDataModel::SIG(s@),
            RData::Unknown(t, b) => RDataModel::Unknown(*t, b@),
        }
    }
}

/// The record type that data of this shape belongs to.
pub open spec fn rdata_type(d: RDataModel) -> RecordType {
    match d {
        RDataModel::A(..) => RecordType::A,
        RDataModel::NS(_) => RecordType::NS,
        RDataModel::CNAME(_) => RecordType::CNAME,
        RDataModel::SOA(_) => RecordType::SOA,
        RDataModel::SIG(_) => RecordType::SIG,
        RDataModel::Unknown(t, _) => t,
    }
}

impl RData {
    /// The record type that this data belongs to.
    pub fn to_record_type(&self) -> (r: RecordType)
        ensures
            r == rdata_type(self@),
    {
        match self {
            RData::A(..) => RecordType::A,
            RData::NS(_) => RecordType::NS,
            RData::CNAME(_) => RecordType::CNAME,
            RData::SOA(_) => RecordType::SOA,
            RData::SIG(_) => RecordType::SIG,
            RData::Unknown(t, _) => *t,
        }
    }

    /// Whether two values hold the same data.
    pub fn same_as(&self, other: &RData) -> (r: bool)
        ensures
            r == (self@ == other@),
    {
        match (self, other) {
            (RData::A(a, b, c, d), RData::A(e, f, g, h)) => *a == *e && *b == *f && *c == *g && *d
                == *h,
            (RData::NS(x), RData::NS(y)) => x.same_as(y),
            (RData::CNAME(x), RData::CNAME(y)) => x.same_as(y),
            (RData::SOA(x), RData::SOA(y)) => x.same_as(y),
            (RData::SIG(x), RData::SIG(y)) => x.same_as(y),
            (RData::Unknown(t, x), RData::Unknown(u, y)) => *t == *u && same_bytes(x, y),
            _ => false,
        }
    }
}

impl Clone for RData {
    fn clone(&self) -> (r: RData)
        ensures
            r@ == self@,
    {
        match self {
            RData::A(a, b, c, d) => RData::A(*a, *b, *c, *d),
            RData::NS(n) => RData::NS(n.clone()),
            RData::CNAME(n) => RData::CNAME(n.clone()),
            RData::SOA(s) => RData::SOA(s.clone()),
            RData::SIG(s) => RData::SIG(s.clone()),
            RData::Unknown(t, b) => RData::Unknown(*t, copy_bytes(b)),
        }
    }
}

impl PartialEq for RData {
    fn eq(&self, other: &RData) -> (r: bool)
        ensures
            r == (self@ == other@),
    {
        self.same_as(other)
    }
}

impl vstd::std_specs::cmp::PartialEqSpecImpl for RData {
    open spec fn obeys_eq_spec() -> bool {
        true
    }

    open spec fn eq_spec(&self, other: &RData) -> bool {
        self@ == other@
    }
}

} // verus!
