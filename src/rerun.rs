//! A second run right after the first, with the same public addresses and
//! no other change at the provider, sends nothing.

use vstd::prelude::*;
use crate::dns::{Address, DnsRecord, Family, Zone};
use crate::matcher::{
    entries_for, entry_for, first_index, lemma_first_index, record_for, tracks, zone_for, Entry,
};
use crate::names::texts;
use crate::model::{carried_out, carried_out_all, created, lists, rewritten, well_keyed, Records};
use crate::plan::{
    action_for, entry_actions, families, option_seq, plan_actions, v4_address, v6_address, Action,
};

verus! {

/// The record filed under `id` is tracked for `name` and `family`.
pub open spec fn tracked_at(s: Records, name: Seq<char>, family: Family, id: Seq<char>) -> bool {
    s.dom().contains(id) && tracks(name, family)(s[id])
}

/// At most one record of `s` is tracked for `name` and `family`.
pub open spec fn at_most_one(s: Records, name: Seq<char>, family: Family) -> bool {
    forall|a: Seq<char>, b: Seq<char>|
        #[trigger] tracked_at(s, name, family, a) && #[trigger] tracked_at(s, name, family, b)
            ==> a == b
}

/// The identifiers in `new_ids` are new to `s` and differ from each other.
pub open spec fn fresh(s: Records, new_ids: Seq<String>) -> bool {
    &&& forall|k: int| 0 <= k < new_ids.len() ==> !s.dom().contains(#[trigger] new_ids[k]@)
    &&& forall|a: int, b: int|
        0 <= a < new_ids.len() && 0 <= b < new_ids.len() && a != b ==> #[trigger] new_ids[a]@
            != #[trigger] new_ids[b]@
}

/// The actions that one run plans from the snapshots `zones` and `records`.
pub open spec fn run_plan(
    names: Seq<String>,
    zones: Seq<Zone>,
    records: Seq<DnsRecord>,
    ipv4: Option<u32>,
    ipv6: Option<u128>,
    set_v4: bool,
    set_v6: bool,
) -> Seq<Action> {
    plan_actions(
        entries_for(names, zones, records),
        v4_address(ipv4),
        v6_address(ipv6),
        families(set_v4, set_v6).0,
        families(set_v4, set_v6).1,
    )
}

/// The first record that a listing gives for a name and family is the one
/// record of the state tracked for them, if there is one.
proof fn lemma_listed_record(records: Seq<DnsRecord>, s: Records, name: Seq<char>, family: Family)
    requires
        lists(records, s),
    ensures
        record_for(records, name, family) matches Some(r) ==> tracked_at(s, name, family, r.id@)
            && s[r.id@] == r,
        record_for(records, name, family) is None ==> forall|id: Seq<char>|
            !#[trigger] tracked_at(s, name, family, id),
        at_most_one(s, name, family) ==> forall|id: Seq<char>|
            #[trigger] tracked_at(s, name, family, id) ==> record_for(records, name, family)
                == Some(s[id]),
{
    let p = tracks(name, family);
    lemma_first_index(records, p);
    let k0 = first_index(records, p);
    if k0 >= 0 {
        assert(s.dom().contains(records[k0].id@));
        assert(tracked_at(s, name, family, records[k0].id@));
    } else {
        assert forall|id: Seq<char>| !#[trigger] tracked_at(s, name, family, id) by {
            if tracked_at(s, name, family, id) {
                let k = choose|k: int| 0 <= k < records.len() && #[trigger] records[k].id@ == id;
                assert(s[records[k].id@] == records[k]);
                assert(!p(records[k]));
            }
        }
    }
}

/// Carrying out one more action, if there is one.
pub open spec fn carried_out_opt(s: Records, a: Option<Action>, new_id: String) -> Records {
    match a {
        Some(x) => carried_out(s, x, new_id),
        None => s,
    }
}

proof fn lemma_append_opt(s: Records, p: Seq<Action>, a: Option<Action>, new_ids: Seq<String>)
    ensures
        carried_out_all(s, p + option_seq(a), new_ids) == carried_out_opt(
            carried_out_all(s, p, new_ids),
            a,
            new_ids[p.len() as int],
        ),
{
    match a {
        Some(x) => {
            let q = p + seq![x];
            assert(q.drop_last() =~= p);
            assert(q.last() == x);
        },
        None => {
            assert(p + option_seq(a) =~= p);
        },
    }
}

/// The records tracked for `name` and `family` are the same in `t` as in `s`.
pub open spec fn unchanged_for(t: Records, s: Records, name: Seq<char>, family: Family) -> bool {
    forall|id: Seq<char>|
        #![trigger tracked_at(t, name, family, id)]
        #![trigger tracked_at(s, name, family, id)]
        (tracked_at(t, name, family, id) <==> tracked_at(s, name, family, id)) && (tracked_at(
            s,
            name,
            family,
            id,
        ) ==> t[id] == s[id])
}

/// The one record tracked for `name` and `family` holds the public address
/// `ip`, or, without one, no record is tracked for them.
pub open spec fn settled(t: Records, name: Seq<char>, family: Family, ip: Option<Address>) -> bool {
    &&& at_most_one(t, name, family)
    &&& match ip {
        Some(x) => exists|id: Seq<char>|
            #[trigger] tracked_at(t, name, family, id) && t[id].content.address() == Some(x),
        None => forall|id: Seq<char>| !#[trigger] tracked_at(t, name, family, id),
    }
}

/// A record of `t` filed under an identifier that `s` knows has the name and
/// family of the record of `s` filed there.
pub open spec fn same_keys(t: Records, s: Records) -> bool {
    forall|id: Seq<char>|
        #![trigger t[id], s[id]]
        t.dom().contains(id) && s.dom().contains(id) ==> t[id].name@ == s[id].name@
            && t[id].content.family() == s[id].content.family()
}

/// Carrying out the action planned for one name and family, on a state in
/// which that name and family are as in the snapshot it was planned from.
proof fn lemma_family_step(
    s: Records,
    t: Records,
    u: Records,
    name: String,
    zone_id: String,
    family: Family,
    ip: Option<Address>,
    rec: Option<DnsRecord>,
    new_id: String,
)
    requires
        well_keyed(s),
        well_keyed(t),
        same_keys(t, s),
        at_most_one(s, name@, family),
        unchanged_for(t, s, name@, family),
        match rec {
            Some(r) => tracked_at(s, name@, family, r.id@) && s[r.id@] == r,
            None => forall|id: Seq<char>| !#[trigger] tracked_at(s, name@, family, id),
        },
        ip matches Some(x) ==> x.family() == family,
        !s.dom().contains(new_id@),
        !t.dom().contains(new_id@),
        u == carried_out_opt(t, action_for(ip, rec, name, zone_id), new_id),
    ensures
        well_keyed(u),
        same_keys(u, s),
        settled(u, name@, family, ip),
        forall|n: Seq<char>, f: Family|
            n != name@ || f != family ==> #[trigger] unchanged_for(u, t, n, f),
        forall|id: Seq<char>| #[trigger] u.dom().contains(id) ==> t.dom().contains(id) || id == new_id@,
{
    match rec {
        Some(r) => {
            let rid = r.id@;
            assert(tracked_at(t, name@, family, rid));
            assert(t[rid] == r);
            assert forall|id: Seq<char>| #[trigger] tracked_at(t, name@, family, id) implies id == rid by {
                assert(tracked_at(s, name@, family, id));
            }
            match ip {
                Some(x) => {
                    assert(r.content.family() == Some(family));
                    if r.content.address() == Some(x) {
                        assert(u == t);
                    } else {
                        assert(u == t.insert(rid, rewritten(r, r.update_for(x)->0)));
                        assert(tracked_at(u, name@, family, rid));
                        assert forall|id: Seq<char>| #[trigger] tracked_at(u, name@, family, id) implies id
                            == rid by {
                            if id != rid {
                                assert(tracked_at(t, name@, family, id));
                            }
                        }
                        assert forall|n: Seq<char>, f: Family|
                            n != name@ || f != family implies #[trigger] unchanged_for(u, t, n, f) by {
                            assert(!tracked_at(u, n, f, rid));
                            assert(!tracked_at(t, n, f, rid));
                        }
                    }
                },
                None => {
                    assert(u == t.remove(rid));
                    assert forall|id: Seq<char>| !#[trigger] tracked_at(u, name@, family, id) by {
                        if tracked_at(u, name@, family, id) {
                            assert(tracked_at(t, name@, family, id));
                        }
                    }
                    assert forall|n: Seq<char>, f: Family|
                        n != name@ || f != family implies #[trigger] unchanged_for(u, t, n, f) by {
                        assert(!tracked_at(t, n, f, rid));
                    }
                },
            }
        },
        None => {
            assert forall|id: Seq<char>| !#[trigger] tracked_at(t, name@, family, id) by {
                if tracked_at(t, name@, family, id) {
                    assert(tracked_at(s, name@, family, id));
                }
            }
            match ip {
                Some(x) => {
                    let c = DnsRecord::create_for(x, name, zone_id);
                    assert(u == t.insert(new_id@, created(c, new_id)));
                    assert(tracked_at(u, name@, family, new_id@));
                    assert forall|id: Seq<char>| #[trigger] tracked_at(u, name@, family, id) implies id
                        == new_id@ by {
                        if id != new_id@ {
                            assert(tracked_at(t, name@, family, id));
                        }
                    }
                    assert forall|n: Seq<char>, f: Family|
                        n != name@ || f != family implies #[trigger] unchanged_for(u, t, n, f) by {
                        assert(!tracked_at(u, n, f, new_id@));
                    }
                },
                None => {
                    assert(u == t);
                },
            }
        },
    }
}

proof fn lemma_unchanged_trans(a: Records, b: Records, c: Records, name: Seq<char>, family: Family)
    requires
        unchanged_for(a, b, name, family),
        unchanged_for(b, c, name, family),
    ensures
        unchanged_for(a, c, name, family),
{
    assert forall|id: Seq<char>|
        (tracked_at(a, name, family, id) <==> tracked_at(c, name, family, id)) && (tracked_at(
            c,
            name,
            family,
            id,
        ) ==> a[id] == c[id]) by {
        if tracked_at(c, name, family, id) {
            assert(tracked_at(b, name, family, id));
        }
        if tracked_at(a, name, family, id) {
            assert(tracked_at(b, name, family, id));
        }
    }
}

proof fn lemma_settled_kept(a: Records, b: Records, name: Seq<char>, family: Family, ip: Option<Address>)
    requires
        unchanged_for(a, b, name, family),
        settled(b, name, family, ip),
    ensures
        settled(a, name, family, ip),
{
    assert forall|x: Seq<char>, y: Seq<char>|
        #[trigger] tracked_at(a, name, family, x) && #[trigger] tracked_at(a, name, family, y)
            implies x == y by {
        assert(tracked_at(b, name, family, x));
        assert(tracked_at(b, name, family, y));
    }
    match ip {
        Some(v) => {
            let id = choose|id: Seq<char>|
                #[trigger] tracked_at(b, name, family, id) && b[id].content.address() == Some(v);
            assert(tracked_at(a, name, family, id));
        },
        None => {
            assert forall|id: Seq<char>| !#[trigger] tracked_at(a, name, family, id) by {
                if tracked_at(a, name, family, id) {
                    assert(tracked_at(b, name, family, id));
                }
            }
        },
    }
}

/// The public address of `family`.
pub open spec fn ip_of(family: Family, ipv4: Option<Address>, ipv6: Option<Address>) -> Option<
    Address,
> {
    match family {
        Family::V4 => ipv4,
        Family::V6 => ipv6,
    }
}

pub open spec fn synced(family: Family, sync_v4: bool, sync_v6: bool) -> bool {
    match family {
        Family::V4 => sync_v4,
        Family::V6 => sync_v6,
    }
}

/// The name at `k` is served by a zone and its `family` is kept in step.
pub open spec fn handled(
    names: Seq<String>,
    zones: Seq<Zone>,
    k: int,
    family: Family,
    sync_v4: bool,
    sync_v6: bool,
) -> bool {
    zone_for(zones, names[k]@) is Some && synced(family, sync_v4, sync_v6)
}

/// What holds after the actions of the first `i` entries are carried out.
pub open spec fn progress(
    names: Seq<String>,
    zones: Seq<Zone>,
    s: Records,
    ipv4: Option<Address>,
    ipv6: Option<Address>,
    sync_v4: bool,
    sync_v6: bool,
    new_ids: Seq<String>,
    done: Seq<Action>,
    t: Records,
    i: int,
) -> bool {
    &&& well_keyed(t)
    &&& same_keys(t, s)
    &&& done.len() <= 2 * i
    &&& forall|j: int| done.len() <= j < new_ids.len() ==> !t.dom().contains(#[trigger] new_ids[j]@)
    &&& forall|k: int, f: Family|
        0 <= k < i && handled(names, zones, k, f, sync_v4, sync_v6) ==> #[trigger] settled(
            t,
            names[k]@,
            f,
            ip_of(f, ipv4, ipv6),
        )
    &&& forall|k: int, f: Family|
        0 <= k < names.len() && !(k < i && handled(names, zones, k, f, sync_v4, sync_v6))
            ==> #[trigger] unchanged_for(t, s, names[k]@, f)
}

/// Carrying out the action for one family of the entry at `i` keeps every
/// other name and family as they were, and settles this one.
proof fn lemma_entry_family(
    names: Seq<String>,
    zones: Seq<Zone>,
    records: Seq<DnsRecord>,
    s: Records,
    ipv4: Option<Address>,
    ipv6: Option<Address>,
    sync_v4: bool,
    sync_v6: bool,
    new_ids: Seq<String>,
    t: Records,
    u: Records,
    i: int,
    family: Family,
    used: int,
    a: Option<Action>,
)
    requires
        0 <= i < names.len(),
        texts(names).no_duplicates(),
        lists(records, s),
        well_keyed(s),
        fresh(s, new_ids),
        0 <= used < new_ids.len(),
        !t.dom().contains(new_ids[used]@),
        well_keyed(t),
        same_keys(t, s),
        at_most_one(s, names[i]@, family),
        unchanged_for(t, s, names[i]@, family),
        ipv4 matches Some(x) ==> x.family() == Family::V4,
        ipv6 matches Some(x) ==> x.family() == Family::V6,
        zone_for(zones, names[i]@) matches Some(z) && a == (if synced(family, sync_v4, sync_v6) {
            action_for(
                ip_of(family, ipv4, ipv6),
                record_for(records, names[i]@, family),
                names[i],
                z.id,
            )
        } else {
            None
        }),
        u == carried_out_opt(t, a, new_ids[used]),
    ensures
        well_keyed(u),
        same_keys(u, s),
        synced(family, sync_v4, sync_v6) ==> settled(
            u,
            names[i]@,
            family,
            ip_of(family, ipv4, ipv6),
        ),
        !synced(family, sync_v4, sync_v6) ==> u == t,
        forall|n: Seq<char>, f: Family|
            n != names[i]@ || f != family ==> #[trigger] unchanged_for(u, t, n, f),
        forall|id: Seq<char>|
            #[trigger] u.dom().contains(id) ==> t.dom().contains(id) || id == new_ids[used]@,
{
    if synced(family, sync_v4, sync_v6) {
        lemma_listed_record(records, s, names[i]@, family);
        let z = zone_for(zones, names[i]@)->0;
        lemma_family_step(
            s,
            t,
            u,
            names[i],
            z.id,
            family,
            ip_of(family, ipv4, ipv6),
            record_for(records, names[i]@, family),
            new_ids[used],
        );
    } else {
        assert forall|n: Seq<char>, f: Family|
            n != names[i]@ || f != family implies #[trigger] unchanged_for(u, t, n, f) by {}
    }
}

/// The state after the actions of the first `i` entries.
pub open spec fn state_after(
    names: Seq<String>,
    zones: Seq<Zone>,
    records: Seq<DnsRecord>,
    s: Records,
    ipv4: Option<Address>,
    ipv6: Option<Address>,
    sync_v4: bool,
    sync_v6: bool,
    new_ids: Seq<String>,
    i: int,
) -> Records {
    carried_out_all(
        s,
        plan_actions(entries_for(names, zones, records).take(i), ipv4, ipv6, sync_v4, sync_v6),
        new_ids,
    )
}

proof fn lemma_entry_step(
    names: Seq<String>,
    zones: Seq<Zone>,
    records: Seq<DnsRecord>,
    s: Records,
    ipv4: Option<Address>,
    ipv6: Option<Address>,
    sync_v4: bool,
    sync_v6: bool,
    new_ids: Seq<String>,
    i: int,
)
    requires
        0 <= i < names.len(),
        texts(names).no_duplicates(),
        lists(records, s),
        well_keyed(s),
        fresh(s, new_ids),
        new_ids.len() >= 2 * names.len(),
        forall|k: int, f: Family| 0 <= k < names.len() ==> #[trigger] at_most_one(s, names[k]@, f),
        ipv4 matches Some(x) ==> x.family() == Family::V4,
        ipv6 matches Some(x) ==> x.family() == Family::V6,
        progress(
            names,
            zones,
            s,
            ipv4,
            ipv6,
            sync_v4,
            sync_v6,
            new_ids,
            plan_actions(entries_for(names, zones, records).take(i), ipv4, ipv6, sync_v4, sync_v6),
            state_after(names, zones, records, s, ipv4, ipv6, sync_v4, sync_v6, new_ids, i),
            i,
        ),
    ensures
        progress(
            names,
            zones,
            s,
            ipv4,
            ipv6,
            sync_v4,
            sync_v6,
            new_ids,
            plan_actions(
                entries_for(names, zones, records).take(i + 1),
                ipv4,
                ipv6,
                sync_v4,
                sync_v6,
            ),
            state_after(names, zones, records, s, ipv4, ipv6, sync_v4, sync_v6, new_ids, i + 1),
            i + 1,
        ),
{
    let es = entries_for(names, zones, records);
    let e = es[i];
    assert(es.take(i + 1).drop_last() =~= es.take(i));
    assert(es.take(i + 1).last() == e);
    assert(e == entry_for(names[i], zones, records));
    let done = plan_actions(es.take(i), ipv4, ipv6, sync_v4, sync_v6);
    let t = state_after(names, zones, records, s, ipv4, ipv6, sync_v4, sync_v6, new_ids, i);
    let next = plan_actions(es.take(i + 1), ipv4, ipv6, sync_v4, sync_v6);
    let t2 = state_after(names, zones, records, s, ipv4, ipv6, sync_v4, sync_v6, new_ids, i + 1);
    assert(next == done + entry_actions(e, ipv4, ipv6, sync_v4, sync_v6));
    assert forall|k: int| 0 <= k < names.len() && k != i implies #[trigger] names[k]@ != names[i]@ by {
        assert(texts(names)[k] == names[k]@);
        assert(texts(names)[i] == names[i]@);
    }
    match zone_for(zones, names[i]@) {
        None => {
            assert(next =~= done);
        },
        Some(z) => {
            let a4 = if sync_v4 {
                action_for(ipv4, e.a, e.name, z.id)
            } else {
                None
            };
            let a6 = if sync_v6 {
                action_for(ipv6, e.aaaa, e.name, z.id)
            } else {
                None
            };
            let mid = done + option_seq(a4);
            assert(next =~= mid + option_seq(a6));
            lemma_append_opt(s, done, a4, new_ids);
            lemma_append_opt(s, mid, a6, new_ids);
            let used4 = done.len() as int;
            let used6 = mid.len() as int;
            let tm = carried_out_all(s, mid, new_ids);
            assert(unchanged_for(t, s, names[i]@, Family::V4));
            assert(unchanged_for(t, s, names[i]@, Family::V6));
            assert(at_most_one(s, names[i]@, Family::V4));
            assert(at_most_one(s, names[i]@, Family::V6));
            lemma_entry_family(
                names,
                zones,
                records,
                s,
                ipv4,
                ipv6,
                sync_v4,
                sync_v6,
                new_ids,
                t,
                tm,
                i,
                Family::V4,
                used4,
                a4,
            );
            lemma_unchanged_trans(tm, t, s, names[i]@, Family::V6);
            assert(!tm.dom().contains(new_ids[used6]@)) by {
                if a4 is Some {
                    assert(new_ids[used6]@ != new_ids[used4]@);
                }
            }
            lemma_entry_family(
                names,
                zones,
                records,
                s,
                ipv4,
                ipv6,
                sync_v4,
                sync_v6,
                new_ids,
                tm,
                t2,
                i,
                Family::V6,
                used6,
                a6,
            );
            assert forall|j: int| next.len() <= j < new_ids.len() implies !t2.dom().contains(
                #[trigger] new_ids[j]@,
            ) by {
                if a4 is Some {
                    assert(new_ids[j]@ != new_ids[used4]@);
                } else {
                    assert(tm == t);
                }
                if a6 is Some {
                    assert(new_ids[j]@ != new_ids[used6]@);
                } else {
                    assert(t2 == tm);
                }
            }
            assert forall|k: int, f: Family|
                0 <= k < i + 1 && handled(
                    names,
                    zones,
                    k,
                    f,
                    sync_v4,
                    sync_v6,
                ) implies #[trigger] settled(t2, names[k]@, f, ip_of(f, ipv4, ipv6)) by {
                if k < i {
                    assert(settled(t, names[k]@, f, ip_of(f, ipv4, ipv6)));
                    assert(unchanged_for(tm, t, names[k]@, f));
                    assert(unchanged_for(t2, tm, names[k]@, f));
                    lemma_unchanged_trans(t2, tm, t, names[k]@, f);
                    lemma_settled_kept(t2, t, names[k]@, f, ip_of(f, ipv4, ipv6));
                } else if f == Family::V4 {
                    assert(unchanged_for(t2, tm, names[k]@, f));
                    lemma_settled_kept(t2, tm, names[k]@, f, ip_of(f, ipv4, ipv6));
                }
            }
            assert forall|k: int, f: Family|
                0 <= k < names.len() && !(k < i + 1 && handled(
                    names,
                    zones,
                    k,
                    f,
                    sync_v4,
                    sync_v6,
                )) implies #[trigger] unchanged_for(t2, s, names[k]@, f) by {
                assert(unchanged_for(t, s, names[k]@, f));
                if k == i {
                    if f == Family::V4 {
                        assert(tm == t);
                        assert(unchanged_for(t2, tm, names[k]@, f));
                        lemma_unchanged_trans(t2, tm, s, names[k]@, f);
                    } else {
                        assert(t2 == tm);
                        assert(unchanged_for(tm, s, names[k]@, f));
                    }
                } else {
                    assert(unchanged_for(tm, t, names[k]@, f));
                    assert(unchanged_for(t2, tm, names[k]@, f));
                    lemma_unchanged_trans(tm, t, s, names[k]@, f);
                    lemma_unchanged_trans(t2, tm, s, names[k]@, f);
                }
            }
        },
    }
}

proof fn lemma_progress(
    names: Seq<String>,
    zones: Seq<Zone>,
    records: Seq<DnsRecord>,
    s: Records,
    ipv4: Option<Address>,
    ipv6: Option<Address>,
    sync_v4: bool,
    sync_v6: bool,
    new_ids: Seq<String>,
    i: int,
)
    requires
        0 <= i <= names.len(),
        texts(names).no_duplicates(),
        lists(records, s),
        well_keyed(s),
        fresh(s, new_ids),
        new_ids.len() >= 2 * names.len(),
        forall|k: int, f: Family| 0 <= k < names.len() ==> #[trigger] at_most_one(s, names[k]@, f),
        ipv4 matches Some(x) ==> x.family() == Family::V4,
        ipv6 matches Some(x) ==> x.family() == Family::V6,
    ensures
        progress(
            names,
            zones,
            s,
            ipv4,
            ipv6,
            sync_v4,
            sync_v6,
            new_ids,
            plan_actions(entries_for(names, zones, records).take(i), ipv4, ipv6, sync_v4, sync_v6),
            state_after(names, zones, records, s, ipv4, ipv6, sync_v4, sync_v6, new_ids, i),
            i,
        ),
    decreases i,
{
    if i == 0 {
        let es = entries_for(names, zones, records);
        assert(es.take(0).len() == 0);
        assert forall|k: int, f: Family|
            0 <= k < names.len() implies #[trigger] unchanged_for(s, s, names[k]@, f) by {}
    } else {
        lemma_progress(names, zones, records, s, ipv4, ipv6, sync_v4, sync_v6, new_ids, i - 1);
        lemma_entry_step(names, zones, records, s, ipv4, ipv6, sync_v4, sync_v6, new_ids, i - 1);
    }
}

/// The action is a skip, or there is none.
pub open spec fn quiet(a: Option<Action>) -> bool {
    a matches Some(x) ==> !x.mutates()
}

proof fn lemma_quiet_plan(
    entries: Seq<Entry>,
    ipv4: Option<Address>,
    ipv6: Option<Address>,
    sync_v4: bool,
    sync_v6: bool,
)
    requires
        forall|k: int, j: int|
            0 <= k < entries.len() && 0 <= j < entry_actions(
                entries[k],
                ipv4,
                ipv6,
                sync_v4,
                sync_v6,
            ).len() ==> !(#[trigger] entry_actions(entries[k], ipv4, ipv6, sync_v4, sync_v6)[j]).mutates(),
    ensures
        forall|j: int|
            0 <= j < plan_actions(entries, ipv4, ipv6, sync_v4, sync_v6).len() ==> !(#[trigger] plan_actions(
                entries,
                ipv4,
                ipv6,
                sync_v4,
                sync_v6,
            )[j]).mutates(),
    decreases entries.len(),
{
    if entries.len() > 0 {
        let rest = entries.drop_last();
        assert forall|k: int, j: int|
            0 <= k < rest.len() && 0 <= j < entry_actions(
                rest[k],
                ipv4,
                ipv6,
                sync_v4,
                sync_v6,
            ).len() implies !(#[trigger] entry_actions(rest[k], ipv4, ipv6, sync_v4, sync_v6)[j]).mutates() by {
            assert(rest[k] == entries[k]);
        }
        lemma_quiet_plan(rest, ipv4, ipv6, sync_v4, sync_v6);
        let before = plan_actions(rest, ipv4, ipv6, sync_v4, sync_v6);
        let last = entry_actions(entries.last(), ipv4, ipv6, sync_v4, sync_v6);
        assert forall|j: int|
            0 <= j < plan_actions(entries, ipv4, ipv6, sync_v4, sync_v6).len() implies !(#[trigger] plan_actions(
                entries,
                ipv4,
                ipv6,
                sync_v4,
                sync_v6,
            )[j]).mutates() by {
            if j >= before.len() {
                assert(entry_actions(entries[entries.len() - 1], ipv4, ipv6, sync_v4, sync_v6)[j
                    - before.len()] == last[j - before.len()]);
            }
        }
    }
}

/// A second run right after a first one, with the same names, zones and
/// public addresses and no other change at the provider, plans nothing but
/// skips: the requests of the first run leave each name's A and AAAA records
/// as the second run would make them. `s` is the provider's state before the
/// first run and `records` the snapshot of it that the first run read; the
/// provider files the records that the first run adds under identifiers of
/// `new_ids` that it had not used, and `second` is the snapshot that the
/// second run reads. Shown where the names are distinct and no name has two
/// A or two AAAA records to begin with.
pub proof fn law_second_run_only_skips(
    names: Seq<String>,
    zones: Seq<Zone>,
    s: Records,
    records: Seq<DnsRecord>,
    ipv4: Option<u32>,
    ipv6: Option<u128>,
    set_v4: bool,
    set_v6: bool,
    new_ids: Seq<String>,
    second: Seq<DnsRecord>,
)
    requires
        well_keyed(s),
        lists(records, s),
        texts(names).no_duplicates(),
        forall|k: int, f: Family| 0 <= k < names.len() ==> #[trigger] at_most_one(s, names[k]@, f),
        fresh(s, new_ids),
        new_ids.len() >= 2 * names.len(),
        lists(
            second,
            carried_out_all(
                s,
                run_plan(names, zones, records, ipv4, ipv6, set_v4, set_v6),
                new_ids,
            ),
        ),
    ensures
        forall|j: int|
            0 <= j < run_plan(names, zones, second, ipv4, ipv6, set_v4, set_v6).len() ==> !(
            #[trigger] run_plan(names, zones, second, ipv4, ipv6, set_v4, set_v6)[j]).mutates(),
{
    let p4 = v4_address(ipv4);
    let p6 = v6_address(ipv6);
    let sv4 = families(set_v4, set_v6).0;
    let sv6 = families(set_v4, set_v6).1;
    let n = names.len() as int;
    lemma_progress(names, zones, records, s, p4, p6, sv4, sv6, new_ids, n);
    let es = entries_for(names, zones, records);
    assert(es.take(n) =~= es);
    let t = state_after(names, zones, records, s, p4, p6, sv4, sv6, new_ids, n);
    let es2 = entries_for(names, zones, second);
    assert forall|k: int, j: int|
        0 <= k < es2.len() && 0 <= j < entry_actions(
            es2[k],
            p4,
            p6,
            sv4,
            sv6,
        ).len() implies !(#[trigger] entry_actions(es2[k], p4, p6, sv4, sv6)[j]).mutates() by {
        let e = es2[k];
        assert(e == entry_for(names[k], zones, second));
        if let Some(z) = zone_for(zones, names[k]@) {
            assert forall|f: Family| #[trigger] synced(f, sv4, sv6) implies quiet(
                action_for(ip_of(f, p4, p6), record_for(second, names[k]@, f), names[k], z.id),
            ) by {
                assert(handled(names, zones, k, f, sv4, sv6));
                assert(settled(t, names[k]@, f, ip_of(f, p4, p6)));
                lemma_listed_record(second, t, names[k]@, f);
                if let Some(x) = ip_of(f, p4, p6) {
                    let id = choose|id: Seq<char>|
                        #[trigger] tracked_at(t, names[k]@, f, id) && t[id].content.address() == Some(
                            x,
                        );
                    assert(record_for(second, names[k]@, f) == Some(t[id]));
                }
            }
            assert(synced(Family::V4, sv4, sv6) == sv4);
            assert(synced(Family::V6, sv4, sv6) == sv6);
        }
    }
    lemma_quiet_plan(es2, p4, p6, sv4, sv6);
}

} // verus!
