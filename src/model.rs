//! How the provider's records change when it carries out the requests of a
//! run: the state is the set of records filed by identifier, and a snapshot
//! lists that state in whatever order the provider chooses.

use vstd::prelude::*;
use crate::dns::{CreateDnsRecord, DnsRecord, UpdateDnsRecord, AUTOMATIC_TTL};
use crate::plan::Action;

verus! {

/// The provider's records, by identifier.
pub type Records = Map<Seq<char>, DnsRecord>;

/// Record `r` after the provider carries out the rewrite `u` on it.
pub open spec fn rewritten(r: DnsRecord, u: UpdateDnsRecord) -> DnsRecord {
    DnsRecord {
        id: r.id,
        zone_id: r.zone_id,
        name: u.params.name,
        ttl: match u.params.ttl {
            Some(t) => t,
            None => r.ttl,
        },
        proxied: match u.params.proxied {
            Some(p) => p,
            None => r.proxied,
        },
        content: u.params.content,
    }
}

/// The record that the provider adds for `c`, under the identifier `id`.
pub open spec fn created(c: CreateDnsRecord, id: String) -> DnsRecord {
    DnsRecord {
        id: id,
        zone_id: c.zone_identifier,
        name: c.params.name,
        ttl: match c.params.ttl {
            Some(t) => t,
            None => AUTOMATIC_TTL,
        },
        proxied: match c.params.proxied {
            Some(p) => p,
            None => false,
        },
        content: c.params.content,
    }
}

/// The records after the provider carries out `a`; a record that `a` adds
/// gets the identifier `new_id`.
pub open spec fn carried_out(s: Records, a: Action, new_id: String) -> Records {
    match a {
        Action::Skip(_) => s,
        Action::Update(u) => if s.dom().contains(u.identifier@) {
            s.insert(u.identifier@, rewritten(s[u.identifier@], u))
        } else {
            s
        },
        Action::Create(c) => s.insert(new_id@, created(c, new_id)),
        Action::Delete(d) => s.remove(d.identifier@),
    }
}

/// The records after the provider carries out `actions` in order; the
/// action at position `k` that adds a record gives it `new_ids[k]`.
pub open spec fn carried_out_all(s: Records, actions: Seq<Action>, new_ids: Seq<String>) -> Records
    decreases actions.len(),
{
    if actions.len() == 0 {
        s
    } else {
        carried_out(
            carried_out_all(s, actions.drop_last(), new_ids),
            actions.last(),
            new_ids[actions.len() - 1],
        )
    }
}

/// Every record is filed under its own identifier.
pub open spec fn well_keyed(s: Records) -> bool {
    forall|id: Seq<char>| #[trigger] s.dom().contains(id) ==> s[id].id@ == id
}

/// `records` lists the records of `s`, each once, in some order.
pub open spec fn lists(records: Seq<DnsRecord>, s: Records) -> bool {
    &&& forall|k: int|
        0 <= k < records.len() ==> s.dom().contains(#[trigger] records[k].id@) && s[records[k].id@]
            == records[k]
    &&& forall|id: Seq<char>|
        #[trigger] s.dom().contains(id) ==> exists|k: int|
            0 <= k < records.len() && #[trigger] records[k].id@ == id
    &&& forall|a: int, b: int|
        0 <= a < records.len() && 0 <= b < records.len() && #[trigger] records[a].id@
            == #[trigger] records[b].id@ ==> a == b
}

} // verus!
