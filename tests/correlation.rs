use oob_logger::address::IpAddress;
use oob_logger::correlation::{dns_events, http_report, strip_apex, Channel};

#[test]
fn v4_from_octets() {
    assert_eq!(IpAddress::v4(203, 0, 113, 5), IpAddress::V4(0xCB00_7105));
    assert_eq!(IpAddress::v4(255, 255, 255, 255), IpAddress::V4(u32::MAX));
    assert_eq!(IpAddress::v4(0, 0, 0, 0), IpAddress::V4(0));
}

#[test]
fn strip_label_below_apex() {
    assert_eq!(strip_apex("token123.example.com", "example.com"), Some("token123".to_string()));
    assert_eq!(strip_apex("a.b.example.com.", "example.com."), Some("a.b".to_string()));
}

#[test]
fn strip_apex_itself_gives_nothing() {
    assert_eq!(strip_apex("example.com", "example.com"), None);
    assert_eq!(strip_apex("example.com.", "example.com."), None);
}

#[test]
fn strip_other_zone_gives_nothing() {
    assert_eq!(strip_apex("token.example.org", "example.com"), None);
    assert_eq!(strip_apex("tokenexample.com", "example.com"), None);
    assert_eq!(strip_apex("com", "example.com"), None);
    assert_eq!(strip_apex("", "example.com"), None);
}

#[test]
fn strip_empty_label() {
    assert_eq!(strip_apex(".example.com", "example.com"), Some(String::new()));
}

#[test]
fn strip_non_ascii_label() {
    assert_eq!(strip_apex("tökén.example.com", "example.com"), Some("tökén".to_string()));
    assert_eq!(strip_apex("x.exämple.com", "exämple.com"), Some("x".to_string()));
}

#[test]
fn dns_query_for_token_gives_one_event() {
    let source = IpAddress::v4(203, 0, 113, 5);
    let events = dns_events(&vec!["token123.example.com".to_string()], "example.com", source);
    assert_eq!(events.len(), 1);
    assert_eq!(events[0].subdomain, "token123");
    assert_eq!(events[0].source, IpAddress::V4(0xCB00_7105));
    assert_eq!(events[0].channel, Channel::Dns);
}

#[test]
fn dns_query_for_apex_gives_no_event() {
    let source = IpAddress::v4(203, 0, 113, 5);
    let events = dns_events(&vec!["example.com.".to_string()], "example.com.", source);
    assert!(events.is_empty());
}

#[test]
fn dns_queries_are_handled_each_in_order() {
    let source = IpAddress::V6(0x2001_0db8_0000_0000_0000_0000_0000_0001);
    let names = vec![
        "first.example.com.".to_string(),
        "example.com.".to_string(),
        "other.example.net.".to_string(),
        "second.example.com.".to_string(),
    ];
    let events = dns_events(&names, "example.com.", source);
    assert_eq!(events.len(), 2);
    assert_eq!(events[0].subdomain, "first");
    assert_eq!(events[1].subdomain, "second");
    assert_eq!(events[1].source, source);
    assert_eq!(events[1].channel, Channel::Dns);
}

#[test]
fn http_report_records_token_and_succeeds() {
    let (event, status) = http_report("token123".to_string(), IpAddress::v4(198, 51, 100, 9));
    assert_eq!(event.subdomain, "token123");
    assert_eq!(event.source, IpAddress::V4(0xC633_6409));
    assert_eq!(event.channel, Channel::Http);
    assert_eq!(status, 200);
}

#[test]
fn http_report_accepts_any_input() {
    let (event, status) = http_report(String::new(), IpAddress::V6(1));
    assert_eq!(event.subdomain, "");
    assert_eq!(status, 200);
    let (event, status) = http_report("not a name!".to_string(), IpAddress::V6(1));
    assert_eq!(event.subdomain, "not a name!");
    assert_eq!(status, 200);
}
