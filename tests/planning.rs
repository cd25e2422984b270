use dyndns::dns::{Address, DnsContent, DnsRecord, Zone};
use dyndns::matcher::{get_records, Entry};
use dyndns::plan::{plan, reconcile, sync_families, Action, DynDns, Warning};

fn record(id: &str, name: &str, content: DnsContent) -> DnsRecord {
    DnsRecord {
        id: id.to_string(),
        name: name.to_string(),
        zone_id: "zc".to_string(),
        ttl: 120,
        proxied: false,
        content,
    }
}

fn entry(name: &str, zone: Option<&str>, a: Option<DnsRecord>, aaaa: Option<DnsRecord>) -> Entry {
    Entry { name: name.to_string(), zone_id: zone.map(|z| z.to_string()), a, aaaa }
}

fn zones() -> Vec<Zone> {
    vec![Zone { id: "zc".to_string(), name: "example.com".to_string() }]
}

#[test]
fn families_default_to_both() {
    assert_eq!(sync_families(false, false), (true, true));
    assert_eq!(sync_families(true, false), (true, false));
    assert_eq!(sync_families(false, true), (false, true));
    assert_eq!(sync_families(true, true), (true, true));
}

#[test]
fn update_skips_equal_address() {
    let r = record("a1", "home.example.com", DnsContent::A { content: 5 });
    let act = Some(Address::V4(5)).update(Some(r), &"home.example.com".to_string(), &"zc".to_string());
    assert!(matches!(act, Some(Action::Skip(ref s)) if s.id == "a1"));
    assert!(!act.unwrap().is_mutating());
}

#[test]
fn update_rewrites_changed_address() {
    let r = record("a1", "home.example.com", DnsContent::A { content: 5 });
    let act = Some(Address::V4(6)).update(Some(r), &"home.example.com".to_string(), &"zc".to_string());
    match act {
        Some(Action::Update(u)) => {
            assert_eq!(u.identifier, "a1");
            assert_eq!(u.params.ttl, Some(120));
            assert_eq!(u.params.proxied, Some(false));
            assert!(matches!(u.params.content, DnsContent::A { content: 6 }));
        }
        other => panic!("expected an update, got {:?}", other),
    }
}

#[test]
fn update_creates_missing_record() {
    let act = Some(Address::V6(77)).update(None, &"new.example.com".to_string(), &"zc".to_string());
    match act {
        Some(Action::Create(c)) => {
            assert_eq!(c.zone_identifier, "zc");
            assert_eq!(c.params.name, "new.example.com");
            assert_eq!(c.params.proxied, Some(false));
            assert!(matches!(c.params.content, DnsContent::AAAA { content: 77 }));
        }
        other => panic!("expected a create, got {:?}", other),
    }
}

#[test]
fn update_deletes_unreachable_family() {
    let r = record("q1", "stale.example.com", DnsContent::AAAA { content: 8 });
    let act = None.update(Some(r), &"stale.example.com".to_string(), &"zc".to_string());
    assert!(matches!(act, Some(Action::Delete(ref d)) if d.identifier == "q1" && d.zone_identifier == "zc"));
    let nothing = None.update(None, &"stale.example.com".to_string(), &"zc".to_string());
    assert!(nothing.is_none());
}

#[test]
fn plan_without_zone_is_empty() {
    let e = entry("lost.example.net", None, Some(record("a", "lost.example.net", DnsContent::A { content: 1 })), None);
    assert!(plan(&e, Some(Address::V4(2)), None, true, true).is_empty());
}

#[test]
fn plan_respects_disabled_family() {
    let e = entry("home.example.com", Some("zc"), None, None);
    let acts = plan(&e, Some(Address::V4(2)), Some(Address::V6(3)), false, true);
    assert_eq!(acts.len(), 1);
    assert!(matches!(acts[0], Action::Create(ref c) if matches!(c.params.content, DnsContent::AAAA { content: 3 })));
}

#[test]
fn scenario_changed_ipv4_updates_only_a() {
    let names = vec!["home.example.com".to_string()];
    let records = vec![record("a1", "home.example.com", DnsContent::A { content: 0x01010101 })];
    let entries = get_records(&names, &zones(), &records);
    let p = reconcile(&entries, Some(0x02020202), None, false, false);
    assert_eq!(p.actions.len(), 1);
    match &p.actions[0] {
        Action::Update(u) => {
            assert_eq!(u.identifier, "a1");
            assert!(matches!(u.params.content, DnsContent::A { content: 0x02020202 }));
        }
        other => panic!("expected an update, got {:?}", other),
    }
    assert!(p.warnings.is_empty());
}

#[test]
fn scenario_new_name_creates_a() {
    let names = vec!["new.example.com".to_string()];
    let p = reconcile(&get_records(&names, &zones(), &Vec::new()), Some(0x03030303), None, false, false);
    assert_eq!(p.actions.len(), 1);
    match &p.actions[0] {
        Action::Create(c) => {
            assert_eq!(c.zone_identifier, "zc");
            assert_eq!(c.params.name, "new.example.com");
            assert_eq!(c.params.proxied, Some(false));
            assert!(matches!(c.params.content, DnsContent::A { content: 0x03030303 }));
        }
        other => panic!("expected a create, got {:?}", other),
    }
}

#[test]
fn scenario_stale_aaaa_is_deleted() {
    let names = vec!["stale.example.com".to_string()];
    let records = vec![record("q1", "stale.example.com", DnsContent::AAAA { content: 0x20010db8 })];
    let p = reconcile(&get_records(&names, &zones(), &records), None, None, false, true);
    assert_eq!(p.actions.len(), 1);
    assert!(matches!(p.actions[0], Action::Delete(ref d) if d.identifier == "q1"));
}

#[test]
fn unserved_name_warns_once() {
    let names = vec!["home.example.org".to_string(), "home.example.com".to_string()];
    let records = vec![record("a1", "home.example.com", DnsContent::A { content: 9 })];
    let p = reconcile(&get_records(&names, &zones(), &records), Some(9), None, false, false);
    assert_eq!(p.warnings.len(), 1);
    assert!(matches!(p.warnings[0], Warning::NoZone(ref n) if n == "home.example.org"));
    assert_eq!(p.actions.len(), 1);
    assert!(matches!(p.actions[0], Action::Skip(ref r) if r.id == "a1"));
}

#[test]
fn two_names_in_one_zone_both_update() {
    let names = vec!["a.example.com".to_string(), "b.example.com".to_string()];
    let records = vec![
        record("ra", "a.example.com", DnsContent::A { content: 1 }),
        record("rb", "b.example.com", DnsContent::A { content: 1 }),
    ];
    let p = reconcile(&get_records(&names, &zones(), &records), Some(2), None, true, false);
    assert_eq!(p.actions.len(), 2);
    assert!(matches!(p.actions[0], Action::Update(ref u) if u.identifier == "ra"));
    assert!(matches!(p.actions[1], Action::Update(ref u) if u.identifier == "rb"));
    assert!(p.actions.iter().all(|a| a.is_mutating()));
}

fn carry_out(records: &mut Vec<DnsRecord>, actions: &[Action], next_id: &mut u32) {
    for a in actions {
        match a {
            Action::Skip(_) => {}
            Action::Update(u) => {
                for r in records.iter_mut() {
                    if r.id == u.identifier {
                        r.name = u.params.name.clone();
                        r.content = match &u.params.content {
                            DnsContent::A { content } => DnsContent::A { content: *content },
                            DnsContent::AAAA { content } => DnsContent::AAAA { content: *content },
                            _ => panic!("an update only writes addresses"),
                        };
                    }
                }
            }
            Action::Create(c) => {
                *next_id += 1;
                records.push(DnsRecord {
                    id: format!("new{}", next_id),
                    name: c.params.name.clone(),
                    zone_id: c.zone_identifier.clone(),
                    ttl: c.params.ttl.unwrap_or(1),
                    proxied: c.params.proxied.unwrap_or(false),
                    content: match &c.params.content {
                        DnsContent::A { content } => DnsContent::A { content: *content },
                        DnsContent::AAAA { content } => DnsContent::AAAA { content: *content },
                        _ => panic!("a create only writes addresses"),
                    },
                });
            }
            Action::Delete(d) => records.retain(|r| r.id != d.identifier),
        }
    }
}

#[test]
fn second_run_only_skips() {
    let names = vec![
        "home.example.com".to_string(),
        "new.example.com".to_string(),
        "stale.example.com".to_string(),
        "far.example.org".to_string(),
    ];
    let mut records = vec![
        record("a1", "home.example.com", DnsContent::A { content: 1 }),
        record("q1", "stale.example.com", DnsContent::AAAA { content: 5 }),
        record("q2", "home.example.com", DnsContent::AAAA { content: 6 }),
    ];
    let first = reconcile(&get_records(&names, &zones(), &records), Some(2), None, false, false);
    assert_eq!(first.actions.iter().filter(|a| a.is_mutating()).count(), 5);
    let mut next_id = 0;
    carry_out(&mut records, &first.actions, &mut next_id);
    let second = reconcile(&get_records(&names, &zones(), &records), Some(2), None, false, false);
    assert_eq!(second.actions.len(), 3);
    assert!(second.actions.iter().all(|a| !a.is_mutating()));
}
