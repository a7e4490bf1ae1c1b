//! The authoritative zone: the apex and the wildcard below it carry the host's
//! public addresses, and the apex carries a start-of-authority record.
use vstd::prelude::*;
use vstd::string::*;

use crate::address::IpAddress;

verus! {

/// Time-to-live of the address records, in seconds: short, so that a corrected
/// address spreads quickly.
pub const ADDRESS_TTL: u32 = 60;

/// Serial number of the start-of-authority record.
pub const SOA_SERIAL: u32 = 1;

/// Refresh interval of the start-of-authority record (24 hours); also its TTL.
pub const SOA_REFRESH: u32 = 86400;

/// Retry interval of the start-of-authority record.
pub const SOA_RETRY: i32 = 60;

/// Expiry of the start-of-authority record (30 days).
pub const SOA_EXPIRE: i32 = 2592000;

/// Minimum TTL of the start-of-authority record.
pub const SOA_MINIMUM: u32 = 0;

/// The record types that the zone holds.
#[derive(PartialEq, Eq, Structural, Clone, Copy, Debug)]
pub enum RecordType {
    A,
    Aaaa,
    Soa,
}

/// Start-of-authority data.
#[derive(Clone, Debug)]
pub struct Soa {
    pub mname: String,
    pub rname: String,
    pub serial: u32,
    pub refresh: i32,
    pub retry: i32,
    pub expire: i32,
    pub minimum: u32,
}

/// The data of one record.
#[derive(Clone, Debug)]
pub enum RData {
    A(u32),
    Aaaa(u128),
    Soa(Soa),
}

/// The records of one name and type.
#[derive(Clone, Debug)]
pub struct RecordSet {
    pub name: String,
    pub record_type: RecordType,
    pub ttl: u32,
    pub rdata: RData,
}

/// An authoritative zone for `apex`.
#[derive(Clone, Debug)]
pub struct Zone {
    pub apex: String,
    pub records: Vec<RecordSet>,
}

/// Why no zone could be built: neither address family was discovered.
#[derive(Clone, Debug)]
pub enum ZoneError {
    NoAddress { ipv4_error: String, ipv6_error: String },
}

/// The wildcard name below `apex`.
pub open spec fn wildcard_of(apex: Seq<char>) -> Seq<char> {
    seq!['*', '.'] + apex
}

/// The record type that carries `value`.
pub open spec fn record_type_of(value: IpAddress) -> RecordType {
    match value {
        IpAddress::V4(_) => RecordType::A,
        IpAddress::V6(_) => RecordType::Aaaa,
    }
}

/// `r` publishes `value` under `name` with time-to-live `ttl`.
pub open spec fn is_address_record(r: RecordSet, name: Seq<char>, value: IpAddress, ttl: u32) -> bool {
    &&& r.name@ == name
    &&& r.record_type == record_type_of(value)
    &&& r.ttl == ttl
    &&& match (r.rdata, value) {
        (RData::A(x), IpAddress::V4(y)) => x == y,
        (RData::Aaaa(x), IpAddress::V6(y)) => x == y,
        _ => false,
    }
}

/// `r` is the start-of-authority record of `apex`.
pub open spec fn is_soa_record(r: RecordSet, apex: Seq<char>) -> bool {
    &&& r.name@ == apex
    &&& r.record_type == RecordType::Soa
    &&& r.ttl == SOA_REFRESH
    &&& match r.rdata {
        RData::Soa(s) => {
            &&& s.mname@ == seq!['n', 's', '.'] + apex
            &&& s.rname@ == seq!['a', 'd', 'm', 'i', 'n', '.'] + apex
            &&& s.serial == SOA_SERIAL
            &&& s.refresh == SOA_REFRESH as i32
            &&& s.retry == SOA_RETRY
            &&& s.expire == SOA_EXPIRE
            &&& s.minimum == SOA_MINIMUM
        },
        _ => false,
    }
}

/// The address that a lookup result stands for, if it succeeded.
pub open spec fn discovered<T, E>(r: Result<T, E>) -> Option<T> {
    match r {
        Ok(v) => Some(v),
        Err(_) => None,
    }
}

/// The records of the zone of `apex` in the order they are built: for each
/// discovered family, one record for the apex and one for the wildcard name;
/// then the start-of-authority record.
pub open spec fn zone_records(recs: Seq<RecordSet>, apex: Seq<char>, ipv4: Option<u32>, ipv6: Option<u128>) -> bool {
    let k4: int = if ipv4 is Some { 2 } else { 0 };
    let k6: int = if ipv6 is Some { 2 } else { 0 };
    &&& recs.len() == k4 + k6 + 1
    &&& ipv4 matches Some(x) ==> {
        &&& is_address_record(recs[0], apex, IpAddress::V4(x), ADDRESS_TTL)
        &&& is_address_record(recs[1], wildcard_of(apex), IpAddress::V4(x), ADDRESS_TTL)
    }
    &&& ipv6 matches Some(y) ==> {
        &&& is_address_record(recs[k4], apex, IpAddress::V6(y), ADDRESS_TTL)
        &&& is_address_record(recs[k4 + 1], wildcard_of(apex), IpAddress::V6(y), ADDRESS_TTL)
    }
    &&& is_soa_record(recs[k4 + k6], apex)
}

/// No two record sets of `recs` share both name and type.
pub open spec fn keys_unique(recs: Seq<RecordSet>) -> bool {
    forall|i: int, j: int|
        0 <= i < j < recs.len() ==> !(recs[i].name@ == recs[j].name@ && recs[i].record_type
            == recs[j].record_type)
}

/// A servable zone: record sets keyed uniquely by name and type, and at least
/// one address record among them.
pub open spec fn zone_wf(recs: Seq<RecordSet>) -> bool {
    &&& keys_unique(recs)
    &&& exists|i: int| 0 <= i < recs.len() && recs[i].record_type != RecordType::Soa
}

/// The records of a zone with at least one discovered family are well formed.
proof fn lemma_zone_records_wf(recs: Seq<RecordSet>, apex: Seq<char>, ipv4: Option<u32>, ipv6: Option<u128>)
    requires
        zone_records(recs, apex, ipv4, ipv6),
        ipv4 is Some || ipv6 is Some,
    ensures
        zone_wf(recs),
{
    assert(wildcard_of(apex).len() == apex.len() + 2);
    assert(recs[0].record_type != RecordType::Soa);
    assert forall|i: int, j: int| 0 <= i < j < recs.len() implies !(recs[i].name@ == recs[j].name@
        && recs[i].record_type == recs[j].record_type) by {
        if recs[i].name@ == recs[j].name@ {
            assert(recs[i].name@.len() == recs[j].name@.len());
        }
    }
}

/// A zone built with only the IPv4 address discovered publishes that address
/// for the apex and for the wildcard name, and holds no IPv6 record.
pub proof fn lemma_ipv4_only_zone(recs: Seq<RecordSet>, apex: Seq<char>, ipv4: u32)
    requires
        zone_records(recs, apex, Some(ipv4), None),
    ensures
        exists|i: int| 0 <= i < recs.len() && is_address_record(recs[i], apex, IpAddress::V4(ipv4), ADDRESS_TTL),
        exists|i: int|
            0 <= i < recs.len() && is_address_record(
                recs[i],
                wildcard_of(apex),
                IpAddress::V4(ipv4),
                ADDRESS_TTL,
            ),
        forall|i: int| 0 <= i < recs.len() ==> recs[i].record_type != RecordType::Aaaa,
{
    assert(is_address_record(recs[0], apex, IpAddress::V4(ipv4), ADDRESS_TTL));
    assert(is_address_record(recs[1], wildcard_of(apex), IpAddress::V4(ipv4), ADDRESS_TTL));
}

/// `apex` with `prefix` and a dot in front.
fn prefixed(prefix: &str, apex: &str) -> (r: String)
    ensures
        r@ == prefix@ + seq!['.'] + apex@,
{
    let mut r = String::from_str(prefix);
    r.append(".");
    r.append(apex);
    proof {
        reveal_strlit(".");
    }
    r
}

/// One address record set for each of `names`, all holding `value` with
/// time-to-live `ttl`; the record type follows the address family.
pub fn make_address_records(names: &Vec<String>, value: IpAddress, ttl: u32) -> (r: Vec<RecordSet>)
    ensures
        r@.len() == names@.len(),
        forall|i: int| 0 <= i < names@.len() ==> is_address_record(r@[i], names@[i]@, value, ttl),
{
    let mut records: Vec<RecordSet> = Vec::new();
    let mut i: usize = 0;
    while i < names.len()
        invariant
            i <= names@.len(),
            records@.len() == i,
            forall|k: int| 0 <= k < i ==> is_address_record(records@[k], names@[k]@, value, ttl),
        decreases names@.len() - i,
    {
        let (record_type, rdata) = match value {
            IpAddress::V4(x) => (RecordType::A, RData::A(x)),
            IpAddress::V6(y) => (RecordType::Aaaa, RData::Aaaa(y)),
        };
        records.push(RecordSet { name: names[i].clone(), record_type, ttl, rdata });
        i += 1;
    }
    records
}

/// The start-of-authority record set of `apex`: primary name server `ns.apex`,
/// responsible party `admin.apex`, and the fixed timing policy.
pub fn soa_record_set(apex: &str) -> (r: RecordSet)
    ensures
        is_soa_record(r, apex@),
{
    let mname = prefixed("ns", apex);
    let rname = prefixed("admin", apex);
    proof {
        reveal_strlit("ns");
        reveal_strlit("admin");
        assert(mname@ =~= seq!['n', 's', '.'] + apex@);
        assert(rname@ =~= seq!['a', 'd', 'm', 'i', 'n', '.'] + apex@);
    }
    let soa = Soa {
        mname,
        rname,
        serial: SOA_SERIAL,
        refresh: SOA_REFRESH as i32,
        retry: SOA_RETRY,
        expire: SOA_EXPIRE,
        minimum: SOA_MINIMUM,
    };
    RecordSet {
        name: String::from_str(apex),
        record_type: RecordType::Soa,
        ttl: SOA_REFRESH,
        rdata: RData::Soa(soa),
    }
}

/// Builds the zone of `apex` from the outcomes of the two address lookups.
/// It fails exactly when both failed, and then carries both reasons; when one
/// family failed, its records are left out.
pub fn build_zone(apex: &str, ipv4: Result<u32, String>, ipv6: Result<u128, String>) -> (r: Result<
    Zone,
    ZoneError,
>)
    ensures
        match r {
            Ok(z) => {
                &&& ipv4 is Ok || ipv6 is Ok
                &&& z.apex@ == apex@
                &&& zone_records(z.records@, apex@, discovered(ipv4), discovered(ipv6))
                &&& zone_wf(z.records@)
            },
            Err(ZoneError::NoAddress { ipv4_error, ipv6_error }) => {
                &&& ipv4 == Err::<u32, String>(ipv4_error)
                &&& ipv6 == Err::<u128, String>(ipv6_error)
            },
        },
{
    let (ipv4, ipv6) = match (ipv4, ipv6) {
        (Err(ipv4_error), Err(ipv6_error)) => {
            return Err(ZoneError::NoAddress { ipv4_error, ipv6_error });
        },
        pair => pair,
    };
    let wildcard = prefixed("*", apex);
    proof {
        reveal_strlit("*");
        assert(wildcard@ =~= wildcard_of(apex@));
    }
    let names = vec![String::from_str(apex), wildcard];
    let mut records: Vec<RecordSet> = Vec::new();
    match ipv4 {
        Ok(x) => {
            let mut found = make_address_records(&names, IpAddress::V4(x), ADDRESS_TTL);
            records.append(&mut found);
        },
        Err(_) => {},
    }
    let ghost k4 = records@.len();
    match ipv6 {
        Ok(y) => {
            let mut found = make_address_records(&names, IpAddress::V6(y), ADDRESS_TTL);
            records.append(&mut found);
        },
        Err(_) => {},
    }
    let ghost k6 = records@.len();
    records.push(soa_record_set(apex));
    proof {
        assert(records@[k6 as int] == records@.last());
        lemma_zone_records_wf(records@, apex@, discovered(ipv4), discovered(ipv6));
    }
    Ok(Zone { apex: String::from_str(apex), records })
}

} // verus!
