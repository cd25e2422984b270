//! Deciding, per name and per address family, what the provider must do.

use vstd::prelude::*;
use crate::clone::Clone_;
use crate::dns::{
    Address, CreateDnsRecord, DeleteDnsRecord, DnsRecord, Requests, UpdateDnsRecord,
};
use crate::matcher::Entry;

verus! {

/// One planned step for one name and one family.
#[derive(Debug)]
pub enum Action {
    /// The record already holds the public address: nothing is sent.
    Skip(DnsRecord),
    Update(UpdateDnsRecord),
    Create(CreateDnsRecord),
    Delete(DeleteDnsRecord),
}

impl Action {
    pub open spec fn mutates(self) -> bool {
        !(self is Skip)
    }

    /// Whether carrying out this action sends a request to the provider.
    pub fn is_mutating(&self) -> (r: bool)
        ensures
            r == self.mutates(),
    {
        match self {
            Action::Skip(_) => false,
            _ => true,
        }
    }
}

/// What a configured name leaves for the operator to look at.
#[derive(Debug)]
pub enum Warning {
    /// No zone of the provider serves the name.
    NoZone(String),
}

/// The action for one family: `ip` is the public address of the family, if
/// one was found, and `rec` the record that holds the family's address for
/// `name`, if there is one.
pub open spec fn action_for(
    ip: Option<Address>,
    rec: Option<DnsRecord>,
    name: String,
    zone_id: String,
) -> Option<Action> {
    match ip {
        Some(ip) => match rec {
            Some(rec) => match rec.update_for(ip) {
                Some(u) => Some(Action::Update(u)),
                None => if rec.content.address() == Some(ip) {
                    Some(Action::Skip(rec))
                } else {
                    None
                },
            },
            None => Some(Action::Create(DnsRecord::create_for(ip, name, zone_id))),
        },
        None => match rec {
            Some(rec) => Some(Action::Delete(rec.delete_for())),
            None => None,
        },
    }
}

/// Planning for one family from its public address.
pub trait DynDns: Sized {
    fn update(&self, rec: Option<DnsRecord>, name: &String, id: &String) -> Option<Action>;
}

impl DynDns for Option<Address> {
    fn update(&self, rec: Option<DnsRecord>, name: &String, id: &String) -> (r: Option<Action>)
        ensures
            r == action_for(*self, rec, *name, *id),
    {
        match *self {
            Some(ip) => match rec {
                Some(rec) => match rec.update_request(ip) {
                    Some(u) => Some(Action::Update(u)),
                    None => {
                        let current = rec.content.get_ip();
                        if current == Some(ip) {
                            Some(Action::Skip(rec))
                        } else {
                            None
                        }
                    },
                },
                None => Some(Action::Create(DnsRecord::create_request(ip, name, id))),
            },
            None => match rec {
                Some(rec) => Some(Action::Delete(rec.delete_request())),
                None => None,
            },
        }
    }
}

/// The families to keep in step: those asked for, or both when neither is.
pub open spec fn families(v4: bool, v6: bool) -> (bool, bool) {
    if !v4 && !v6 {
        (true, true)
    } else {
        (v4, v6)
    }
}

pub fn sync_families(v4: bool, v6: bool) -> (r: (bool, bool))
    ensures
        r == families(v4, v6),
{
    if !v4 && !v6 {
        (true, true)
    } else {
        (v4, v6)
    }
}

pub open spec fn option_seq<T>(o: Option<T>) -> Seq<T> {
    match o {
        Some(x) => seq![x],
        None => seq![],
    }
}

/// The actions for one entry: the A family first, then the AAAA family,
/// each only when it is kept in step; none when no zone serves the name.
pub open spec fn entry_actions(
    e: Entry,
    ipv4: Option<Address>,
    ipv6: Option<Address>,
    sync_v4: bool,
    sync_v6: bool,
) -> Seq<Action> {
    match e.zone_id {
        Some(z) => option_seq(
            if sync_v4 {
                action_for(ipv4, e.a, e.name, z)
            } else {
                None
            },
        ) + option_seq(
            if sync_v6 {
                action_for(ipv6, e.aaaa, e.name, z)
            } else {
                None
            },
        ),
        None => seq![],
    }
}

/// The warnings for one entry: one when no zone serves its name.
pub open spec fn entry_warnings(e: Entry) -> Seq<Warning> {
    match e.zone_id {
        Some(_) => seq![],
        None => seq![Warning::NoZone(e.name)],
    }
}

/// The actions for all entries, entry by entry.
pub open spec fn plan_actions(
    entries: Seq<Entry>,
    ipv4: Option<Address>,
    ipv6: Option<Address>,
    sync_v4: bool,
    sync_v6: bool,
) -> Seq<Action>
    decreases entries.len(),
{
    if entries.len() == 0 {
        seq![]
    } else {
        plan_actions(entries.drop_last(), ipv4, ipv6, sync_v4, sync_v6) + entry_actions(
            entries.last(),
            ipv4,
            ipv6,
            sync_v4,
            sync_v6,
        )
    }
}

/// The warnings for all entries, entry by entry.
pub open spec fn plan_warnings(entries: Seq<Entry>) -> Seq<Warning>
    decreases entries.len(),
{
    if entries.len() == 0 {
        seq![]
    } else {
        plan_warnings(entries.drop_last()) + entry_warnings(entries.last())
    }
}

fn clone_record(rec: &Option<DnsRecord>) -> (r: Option<DnsRecord>)
    ensures
        r == *rec,
{
    match rec {
        Some(x) => Some(x.clone()),
        None => None,
    }
}

/// The actions for one entry (see `entry_actions`).
pub fn plan(
    entry: &Entry,
    ipv4: Option<Address>,
    ipv6: Option<Address>,
    sync_v4: bool,
    sync_v6: bool,
) -> (r: Vec<Action>)
    ensures
        r@ == entry_actions(*entry, ipv4, ipv6, sync_v4, sync_v6),
{
    let mut out: Vec<Action> = Vec::new();
    match &entry.zone_id {
        Some(id) => {
            if sync_v4 {
                match ipv4.update(clone_record(&entry.a), &entry.name, id) {
                    Some(a) => out.push(a),
                    None => {},
                }
            }
            let ghost first = out@;
            if sync_v6 {
                match ipv6.update(clone_record(&entry.aaaa), &entry.name, id) {
                    Some(a) => out.push(a),
                    None => {},
                }
            }
            assert(out@ =~= entry_actions(*entry, ipv4, ipv6, sync_v4, sync_v6));
        },
        None => {
            assert(out@ =~= entry_actions(*entry, ipv4, ipv6, sync_v4, sync_v6));
        },
    }
    out
}

/// All that one run decides: the actions to carry out and the warnings to
/// report.
#[derive(Debug)]
pub struct Plan {
    pub actions: Vec<Action>,
    pub warnings: Vec<Warning>,
}

pub open spec fn v4_address(ip: Option<u32>) -> Option<Address> {
    match ip {
        Some(a) => Some(Address::V4(a)),
        None => None,
    }
}

pub open spec fn v6_address(ip: Option<u128>) -> Option<Address> {
    match ip {
        Some(a) => Some(Address::V6(a)),
        None => None,
    }
}

/// Plans every entry against the public addresses found, keeping in step the
/// families that `set_v4` and `set_v6` ask for (both when neither does).
pub fn reconcile(
    entries: &Vec<Entry>,
    ipv4: Option<u32>,
    ipv6: Option<u128>,
    set_v4: bool,
    set_v6: bool,
) -> (r: Plan)
    ensures
        r.actions@ == plan_actions(
            entries@,
            v4_address(ipv4),
            v6_address(ipv6),
            families(set_v4, set_v6).0,
            families(set_v4, set_v6).1,
        ),
        r.warnings@ == plan_warnings(entries@),
{
    let (sync_v4, sync_v6) = sync_families(set_v4, set_v6);
    let v4 = match ipv4 {
        Some(a) => Some(Address::V4(a)),
        None => None,
    };
    let v6 = match ipv6 {
        Some(a) => Some(Address::V6(a)),
        None => None,
    };
    let mut actions: Vec<Action> = Vec::new();
    let mut warnings: Vec<Warning> = Vec::new();
    let mut i: usize = 0;
    while i < entries.len()
        invariant
            i <= entries@.len(),
            actions@ == plan_actions(entries@.take(i as int), v4, v6, sync_v4, sync_v6),
            warnings@ == plan_warnings(entries@.take(i as int)),
        decreases entries@.len() - i,
    {
        let entry = &entries[i];
        let mut step = plan(entry, v4, v6, sync_v4, sync_v6);
        let ghost before = actions@;
        actions.append(&mut step);
        let ghost before_w = warnings@;
        match &entry.zone_id {
            Some(_) => {},
            None => warnings.push(Warning::NoZone(entry.name.clone())),
        }
        proof {
            let t = entries@.take(i + 1);
            assert(t.drop_last() =~= entries@.take(i as int));
            assert(t.last() == entries@[i as int]);
            assert(warnings@ =~= before_w + entry_warnings(entries@[i as int]));
        }
        i = i + 1;
    }
    assert(entries@.take(entries@.len() as int) =~= entries@);
    Plan { actions, warnings }
}

} // verus!
