//! What the planning guarantees, stated over the specifications of the
//! functions that plan.

use vstd::prelude::*;
use crate::dns::{Address, DnsContent, DnsRecord, AUTOMATIC_TTL};
use crate::matcher::Entry;
use crate::plan::{action_for, entry_actions, entry_warnings, Action, Warning};

verus! {

/// A record that already holds the family's public address is skipped, and
/// skipping sends nothing to the provider.
pub proof fn law_equal_address_skips(ip: Address, rec: DnsRecord, name: String, zone_id: String)
    requires
        rec.content.address() == Some(ip),
    ensures
        action_for(Some(ip), Some(rec), name, zone_id) == Some(Action::Skip(rec)),
        !Action::Skip(rec).mutates(),
{
}

/// A record that holds another address of the family is rewritten by exactly
/// one update: to the same record, with the public address as content, its
/// own name, and its time to live and proxying kept.
pub proof fn law_changed_address_updates(
    ip: Address,
    rec: DnsRecord,
    name: String,
    zone_id: String,
)
    requires
        rec.content.family() == Some(ip.family()),
        rec.content.address() != Some(ip),
    ensures
        action_for(Some(ip), Some(rec), name, zone_id) matches Some(Action::Update(u)) && {
            &&& u.zone_identifier == rec.zone_id
            &&& u.identifier == rec.id
            &&& u.params.name == rec.name
            &&& u.params.ttl == Some(rec.ttl)
            &&& u.params.proxied == Some(rec.proxied)
            &&& u.params.content == DnsContent::of_address(ip)
        },
{
}

/// A family with a public address and no record gets exactly one create:
/// the name, in the entry's zone, holding the address, never proxied, with
/// an automatic time to live.
pub proof fn law_missing_record_creates(ip: Address, name: String, zone_id: String)
    ensures
        action_for(Some(ip), None, name, zone_id) matches Some(Action::Create(c)) && {
            &&& c.zone_identifier == zone_id
            &&& c.params.name == name
            &&& c.params.proxied == Some(false)
            &&& c.params.ttl == Some(AUTOMATIC_TTL)
            &&& c.params.content == DnsContent::of_address(ip)
        },
{
}

/// A family without a public address whose record exists gets exactly one
/// delete, of that record.
pub proof fn law_unreachable_family_deletes(rec: DnsRecord, name: String, zone_id: String)
    ensures
        action_for(None, Some(rec), name, zone_id) matches Some(Action::Delete(d)) && {
            &&& d.zone_identifier == rec.zone_id
            &&& d.identifier == rec.id
        },
{
}

/// A name that no zone serves gets no action and exactly one warning, which
/// names it.
pub proof fn law_unserved_name_warns(
    e: Entry,
    ipv4: Option<Address>,
    ipv6: Option<Address>,
    sync_v4: bool,
    sync_v6: bool,
)
    requires
        e.zone_id is None,
    ensures
        entry_actions(e, ipv4, ipv6, sync_v4, sync_v6).len() == 0,
        entry_warnings(e) == seq![Warning::NoZone(e.name)],
{
}

} // verus!
