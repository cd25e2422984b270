use dyndns::clone::Clone_;
use dyndns::dns::{Address, DnsContent, DnsRecord, Requests, Zone, AUTOMATIC_TTL};
use dyndns::matcher::get_records;
use dyndns::text::{chars_of, text_contains};

fn record(id: &str, name: &str, content: DnsContent) -> DnsRecord {
    DnsRecord {
        id: id.to_string(),
        name: name.to_string(),
        zone_id: "z1".to_string(),
        ttl: 300,
        proxied: true,
        content,
    }
}

fn zone(id: &str, name: &str) -> Zone {
    Zone { id: id.to_string(), name: name.to_string() }
}

#[test]
fn get_ip_of_address_records() {
    assert_eq!(DnsContent::A { content: 0x01010101 }.get_ip(), Some(Address::V4(0x01010101)));
    assert_eq!(DnsContent::AAAA { content: 1 }.get_ip(), Some(Address::V6(1)));
    assert_eq!(DnsContent::CNAME { content: "x".to_string() }.get_ip(), None);
    assert_eq!(DnsContent::MX { content: "m".to_string(), priority: 10 }.get_ip(), None);
}

#[test]
fn get_type_names_each_kind() {
    assert_eq!(DnsContent::A { content: 0 }.get_type(), "A");
    assert_eq!(DnsContent::AAAA { content: 0 }.get_type(), "AAAA");
    assert_eq!(DnsContent::CNAME { content: String::new() }.get_type(), "CNAME");
    assert_eq!(DnsContent::NS { content: String::new() }.get_type(), "NS");
    assert_eq!(DnsContent::MX { content: String::new(), priority: 1 }.get_type(), "MX");
    assert_eq!(DnsContent::TXT { content: String::new() }.get_type(), "TXT");
    assert_eq!(DnsContent::SRV { content: String::new() }.get_type(), "SRV");
}

#[test]
fn clone_keeps_every_field() {
    let r = record("r1", "home.example.com", DnsContent::MX { content: "mail".to_string(), priority: 5 });
    let c = Clone_::clone(&r);
    assert_eq!(c.id, "r1");
    assert_eq!(c.name, "home.example.com");
    assert_eq!(c.zone_id, "z1");
    assert_eq!(c.ttl, 300);
    assert!(c.proxied);
    assert!(matches!(c.content, DnsContent::MX { ref content, priority: 5 } if content == "mail"));
}

#[test]
fn update_request_skips_equal_address() {
    let r = record("r1", "home.example.com", DnsContent::A { content: 0x01010101 });
    assert!(r.update_request(Address::V4(0x01010101)).is_none());
}

#[test]
fn update_request_rewrites_changed_address() {
    let r = record("r1", "home.example.com", DnsContent::A { content: 0x01010101 });
    let u = r.update_request(Address::V4(0x02020202)).unwrap();
    assert_eq!(u.zone_identifier, "z1");
    assert_eq!(u.identifier, "r1");
    assert_eq!(u.params.name, "home.example.com");
    assert_eq!(u.params.ttl, Some(300));
    assert_eq!(u.params.proxied, Some(true));
    assert!(matches!(u.params.content, DnsContent::A { content: 0x02020202 }));
}

#[test]
fn update_request_refuses_other_family() {
    let r = record("r1", "home.example.com", DnsContent::A { content: 0x01010101 });
    assert!(r.update_request(Address::V6(7)).is_none());
    let c = record("r2", "home.example.com", DnsContent::CNAME { content: "x".to_string() });
    assert!(c.update_request(Address::V4(1)).is_none());
}

#[test]
fn create_request_is_never_proxied() {
    let c = DnsRecord::create_request(Address::V6(42), &"new.example.com".to_string(), &"z9".to_string());
    assert_eq!(c.zone_identifier, "z9");
    assert_eq!(c.params.name, "new.example.com");
    assert_eq!(c.params.ttl, Some(AUTOMATIC_TTL));
    assert_eq!(AUTOMATIC_TTL, 1);
    assert_eq!(c.params.priority, None);
    assert_eq!(c.params.proxied, Some(false));
    assert!(matches!(c.params.content, DnsContent::AAAA { content: 42 }));
}

#[test]
fn delete_request_names_the_record() {
    let r = record("r7", "stale.example.com", DnsContent::AAAA { content: 9 });
    let d = r.delete_request();
    assert_eq!(d.zone_identifier, "z1");
    assert_eq!(d.identifier, "r7");
}

#[test]
fn text_search_finds_inner_and_suffix() {
    let hay = chars_of("home.example.com");
    assert_eq!(hay.len(), 16);
    assert!(text_contains(&hay, &chars_of("example.com")));
    assert!(text_contains(&hay, &chars_of("home")));
    assert!(text_contains(&hay, &chars_of("")));
    assert!(text_contains(&hay, &chars_of("home.example.com")));
    assert!(!text_contains(&hay, &chars_of("example.org")));
    assert!(!text_contains(&hay, &chars_of("xhome.example.com")));
    assert!(!text_contains(&chars_of(""), &chars_of("a")));
}

#[test]
fn get_records_matches_zone_and_first_records() {
    let names = vec!["home.example.com".to_string(), "other.test".to_string()];
    let zones = vec![zone("zo", "example.org"), zone("zc", "example.com"), zone("zc2", "example.com")];
    let records = vec![
        record("c1", "home.example.com", DnsContent::CNAME { content: "x".to_string() }),
        record("a1", "home.example.com", DnsContent::A { content: 1 }),
        record("a2", "home.example.com", DnsContent::A { content: 2 }),
        record("b1", "other.example.com", DnsContent::AAAA { content: 3 }),
        record("q1", "home.example.com", DnsContent::AAAA { content: 4 }),
    ];
    let entries = get_records(&names, &zones, &records);
    assert_eq!(entries.len(), 2);
    assert_eq!(entries[0].name, "home.example.com");
    assert_eq!(entries[0].zone_id.as_deref(), Some("zc"));
    assert_eq!(entries[0].a.as_ref().map(|r| r.id.as_str()), Some("a1"));
    assert_eq!(entries[0].aaaa.as_ref().map(|r| r.id.as_str()), Some("q1"));
    assert_eq!(entries[1].name, "other.test");
    assert!(entries[1].zone_id.is_none());
    assert!(entries[1].a.is_none());
    assert!(entries[1].aaaa.is_none());
}

#[test]
fn get_records_of_no_names_is_empty() {
    let entries = get_records(&Vec::new(), &vec![zone("z", "example.com")], &Vec::new());
    assert!(entries.is_empty());
}

#[test]
fn update_record_follows_public_address() {
    let r = record("r1", "home.example.com", DnsContent::A { content: 1 });
    assert!(dyndns::dns::update_record(&r, Address::V4(1), Address::V4(1)).is_none());
    let u = dyndns::dns::update_record(&r, Address::V4(1), Address::V4(9)).unwrap();
    assert_eq!(u.identifier, "r1");
    assert_eq!(u.zone_identifier, "z1");
    assert_eq!(u.params.name, "home.example.com");
    assert_eq!(u.params.ttl, Some(300));
    assert_eq!(u.params.proxied, Some(true));
    assert!(matches!(u.params.content, DnsContent::A { content: 9 }));
}
