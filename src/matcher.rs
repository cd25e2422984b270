//! Joining the configured names with the provider's zones and records.

use vstd::prelude::*;
use crate::clone::Clone_;
use crate::dns::{DnsContent, DnsRecord, Family, Zone};
use crate::text::{chars_of, contains_text, text_contains};

verus! {

/// The position of the first element of `s` that satisfies `p`, or -1.
pub open spec fn first_index<T>(s: Seq<T>, p: spec_fn(T) -> bool) -> int
    decreases s.len(),
{
    if s.len() == 0 {
        -1
    } else if p(s[0]) {
        0
    } else {
        let k = first_index(s.drop_first(), p);
        if k < 0 {
            -1
        } else {
            k + 1
        }
    }
}

/// The first element of `s` that satisfies `p`.
pub open spec fn first_of<T>(s: Seq<T>, p: spec_fn(T) -> bool) -> Option<T> {
    let k = first_index(s, p);
    if 0 <= k {
        Some(s[k])
    } else {
        None
    }
}

/// `first_index` is the least position whose element satisfies `p`.
pub proof fn lemma_first_index<T>(s: Seq<T>, p: spec_fn(T) -> bool)
    ensures
        -1 <= first_index(s, p) < s.len(),
        first_index(s, p) == -1 <==> forall|j: int| 0 <= j < s.len() ==> !p(#[trigger] s[j]),
        0 <= first_index(s, p) ==> p(s[first_index(s, p)]),
        forall|j: int| 0 <= j < first_index(s, p) ==> !p(#[trigger] s[j]),
    decreases s.len(),
{
    if s.len() > 0 {
        let t = s.drop_first();
        lemma_first_index(t, p);
        assert forall|j: int| 0 < j < s.len() implies s[j] == t[j - 1] by {}
        if !p(s[0]) && first_index(t, p) == -1 {
            assert forall|j: int| 0 <= j < s.len() implies !p(#[trigger] s[j]) by {
                if j > 0 {
                    assert(s[j] == t[j - 1]);
                }
            }
        }
    }
}

/// Two positions that are both least for `p` are the same.
pub proof fn lemma_first_index_at<T>(s: Seq<T>, p: spec_fn(T) -> bool, k: int)
    requires
        0 <= k < s.len(),
        p(s[k]),
        forall|j: int| 0 <= j < k ==> !p(#[trigger] s[j]),
    ensures
        first_index(s, p) == k,
{
    lemma_first_index(s, p);
}

/// A zone serves `name` when the zone's name occurs in it.
pub open spec fn serves(name: Seq<char>) -> spec_fn(Zone) -> bool {
    |z: Zone| contains_text(name, z.name@)
}

/// A record is tracked for `name` and `family` when it has that name and
/// holds an address of that family.
pub open spec fn tracks(name: Seq<char>, family: Family) -> spec_fn(DnsRecord) -> bool {
    |r: DnsRecord| r.name@ == name && r.content.family() == Some(family)
}

/// The first zone that serves `name`.
pub open spec fn zone_for(zones: Seq<Zone>, name: Seq<char>) -> Option<Zone> {
    first_of(zones, serves(name))
}

/// The first record tracked for `name` and `family`.
pub open spec fn record_for(records: Seq<DnsRecord>, name: Seq<char>, family: Family) -> Option<
    DnsRecord,
> {
    first_of(records, tracks(name, family))
}

/// One configured name with what the provider holds for it: the zone that
/// serves it, and its A and AAAA records.
#[derive(Debug)]
pub struct Entry {
    pub name: String,
    pub zone_id: Option<String>,
    pub a: Option<DnsRecord>,
    pub aaaa: Option<DnsRecord>,
}

/// The entry for `name` against the snapshots `zones` and `records`.
pub open spec fn entry_for(name: String, zones: Seq<Zone>, records: Seq<DnsRecord>) -> Entry {
    Entry {
        name: name,
        zone_id: match zone_for(zones, name@) {
            Some(z) => Some(z.id),
            None => None,
        },
        a: record_for(records, name@, Family::V4),
        aaaa: record_for(records, name@, Family::V6),
    }
}

/// The entries for `names`, in order.
pub open spec fn entries_for(names: Seq<String>, zones: Seq<Zone>, records: Seq<DnsRecord>) -> Seq<
    Entry,
> {
    names.map_values(|n: String| entry_for(n, zones, records))
}

/// The identifier of the first zone that serves `name`.
fn find_zone(zones: &Vec<Zone>, name: &Vec<char>) -> (r: Option<String>)
    ensures
        r == match zone_for(zones@, name@) {
            Some(z) => Some(z.id),
            None => None,
        },
{
    let mut i: usize = 0;
    while i < zones.len()
        invariant
            i <= zones@.len(),
            forall|j: int| 0 <= j < i ==> !serves(name@)(#[trigger] zones@[j]),
        decreases zones@.len() - i,
    {
        let zone_name = chars_of(zones[i].name.as_str());
        if text_contains(name, &zone_name) {
            proof {
                lemma_first_index_at(zones@, serves(name@), i as int);
            }
            return Some(zones[i].id.clone());
        }
        i = i + 1;
    }
    proof {
        lemma_first_index(zones@, serves(name@));
    }
    None
}

fn holds_family(content: &DnsContent, family: Family) -> (r: bool)
    ensures
        r == (content.family() == Some(family)),
{
    match (content, family) {
        (DnsContent::A { .. }, Family::V4) => true,
        (DnsContent::AAAA { .. }, Family::V6) => true,
        _ => false,
    }
}

/// The first record tracked for `name` and `family`.
fn find_record(records: &Vec<DnsRecord>, name: &String, family: Family) -> (r: Option<DnsRecord>)
    ensures
        r == record_for(records@, name@, family),
{
    let mut i: usize = 0;
    while i < records.len()
        invariant
            i <= records@.len(),
            forall|j: int| 0 <= j < i ==> !tracks(name@, family)(#[trigger] records@[j]),
        decreases records@.len() - i,
    {
        if records[i].name == *name && holds_family(&records[i].content, family) {
            proof {
                lemma_first_index_at(records@, tracks(name@, family), i as int);
            }
            return Some(records[i].clone());
        }
        i = i + 1;
    }
    proof {
        lemma_first_index(records@, tracks(name@, family));
    }
    None
}

/// Joins each configured name, in order, with the first zone that serves
/// it and its first A and first AAAA record.
pub fn get_records(names: &Vec<String>, zones: &Vec<Zone>, records: &Vec<DnsRecord>) -> (r: Vec<
    Entry,
>)
    ensures
        r@ == entries_for(names@, zones@, records@),
{
    let mut out: Vec<Entry> = Vec::new();
    let mut i: usize = 0;
    while i < names.len()
        invariant
            i <= names@.len(),
            out@.len() == i,
            forall|k: int|
                0 <= k < i ==> #[trigger] out@[k] == entry_for(names@[k], zones@, records@),
        decreases names@.len() - i,
    {
        let name = &names[i];
        let chars = chars_of(name.as_str());
        let entry = Entry {
            name: name.clone(),
            zone_id: find_zone(zones, &chars),
            a: find_record(records, name, Family::V4),
            aaaa: find_record(records, name, Family::V6),
        };
        out.push(entry);
        i = i + 1;
    }
    assert(out@ =~= entries_for(names@, zones@, records@));
    out
}

} // verus!
