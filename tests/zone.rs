use oob_logger::address::IpAddress;
use oob_logger::zone::{
    build_zone, make_address_records, soa_record_set, RData, RecordType, ZoneError, ADDRESS_TTL,
};

#[test]
fn address_records_per_name() {
    let names = vec!["example.com.".to_string(), "*.example.com.".to_string()];
    let recs = make_address_records(&names, IpAddress::v4(192, 0, 2, 1), 60);
    assert_eq!(recs.len(), 2);
    assert_eq!(recs[0].name, "example.com.");
    assert_eq!(recs[1].name, "*.example.com.");
    for r in &recs {
        assert_eq!(r.record_type, RecordType::A);
        assert_eq!(r.ttl, 60);
        assert!(matches!(r.rdata, RData::A(0xC000_0201)));
    }
    let recs = make_address_records(&names, IpAddress::V6(7), 30);
    assert_eq!(recs[1].record_type, RecordType::Aaaa);
    assert_eq!(recs[1].ttl, 30);
    assert!(matches!(recs[1].rdata, RData::Aaaa(7)));
}

#[test]
fn soa_policy() {
    let r = soa_record_set("example.com.");
    assert_eq!(r.name, "example.com.");
    assert_eq!(r.record_type, RecordType::Soa);
    assert_eq!(r.ttl, 86400);
    match r.rdata {
        RData::Soa(soa) => {
            assert_eq!(soa.mname, "ns.example.com.");
            assert_eq!(soa.rname, "admin.example.com.");
            assert_eq!(soa.serial, 1);
            assert_eq!(soa.refresh, 86400);
            assert_eq!(soa.retry, 60);
            assert_eq!(soa.expire, 2_592_000);
            assert_eq!(soa.minimum, 0);
        }
        _ => panic!("expected start-of-authority data"),
    }
}

#[test]
fn zone_with_both_families() {
    let zone = build_zone("example.com.", Ok(0xCB00_7105), Ok(1)).unwrap();
    assert_eq!(zone.apex, "example.com.");
    assert_eq!(zone.records.len(), 5);
    assert_eq!(zone.records[0].name, "example.com.");
    assert_eq!(zone.records[0].record_type, RecordType::A);
    assert_eq!(zone.records[1].name, "*.example.com.");
    assert_eq!(zone.records[1].record_type, RecordType::A);
    assert_eq!(zone.records[2].name, "example.com.");
    assert_eq!(zone.records[2].record_type, RecordType::Aaaa);
    assert_eq!(zone.records[3].name, "*.example.com.");
    assert!(matches!(zone.records[3].rdata, RData::Aaaa(1)));
    assert_eq!(zone.records[3].ttl, ADDRESS_TTL);
    assert_eq!(zone.records[4].record_type, RecordType::Soa);
}

#[test]
fn zone_with_only_ipv4() {
    let zone = build_zone("example.com.", Ok(0xCB00_7105), Err("no route".to_string())).unwrap();
    assert_eq!(zone.records.len(), 3);
    assert!(zone.records.iter().all(|r| r.record_type != RecordType::Aaaa));
    assert_eq!(zone.records[0].name, "example.com.");
    assert!(matches!(zone.records[0].rdata, RData::A(0xCB00_7105)));
    assert_eq!(zone.records[1].name, "*.example.com.");
    assert!(matches!(zone.records[1].rdata, RData::A(0xCB00_7105)));
    assert_eq!(zone.records[0].ttl, 60);
    assert_eq!(zone.records[2].record_type, RecordType::Soa);
}

#[test]
fn zone_with_only_ipv6() {
    let zone = build_zone("example.com.", Err("timeout".to_string()), Ok(9)).unwrap();
    assert_eq!(zone.records.len(), 3);
    assert!(zone.records.iter().all(|r| r.record_type != RecordType::A));
    assert_eq!(zone.records[1].name, "*.example.com.");
    assert!(matches!(zone.records[1].rdata, RData::Aaaa(9)));
}

#[test]
fn zone_without_any_address_fails() {
    let r = build_zone("example.com.", Err("v4 down".to_string()), Err("v6 down".to_string()));
    match r {
        Err(ZoneError::NoAddress { ipv4_error, ipv6_error }) => {
            assert_eq!(ipv4_error, "v4 down");
            assert_eq!(ipv6_error, "v6 down");
        }
        Ok(_) => panic!("expected a failure"),
    }
}
