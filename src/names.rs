//! Choosing which configured names take part in a run.

use vstd::prelude::*;

verus! {

/// Whether `name` parses as a domain name whose suffix is on the public
/// suffix list that the `addr` crate carries.
pub uninterp spec fn known_domain(name: Seq<char>) -> bool;

/// Relies on `addr::parse_domain_name` and `addr::domain::Name::has_known_suffix`:
/// the answer depends on the text of `name` alone.
#[verifier::external_body]
fn is_known_domain(name: &str) -> (r: bool)
    ensures
        r == known_domain(name@),
{
    match addr::parse_domain_name(name) {
        Ok(n) => n.has_known_suffix(),
        Err(_) => false,
    }
}

/// The texts of a sequence of strings.
pub open spec fn texts(s: Seq<String>) -> Seq<Seq<char>> {
    s.map_values(|x: String| x@)
}

/// The names whose flag in `valid` equals `keep`, each text once, in the
/// order of first occurrence.
pub open spec fn pick(names: Seq<String>, valid: Seq<bool>, keep: bool) -> Seq<String>
    decreases names.len(),
{
    if names.len() == 0 {
        seq![]
    } else {
        let before = pick(names.drop_last(), valid.drop_last(), keep);
        if valid.last() == keep && !texts(before).contains(names.last()@) {
            before.push(names.last())
        } else {
            before
        }
    }
}

/// The validity flag of each name: its domain check when `validate`, else true.
pub open spec fn validity(names: Seq<String>, validate: bool) -> Seq<bool> {
    names.map_values(|n: String| !validate || known_domain(n@))
}

/// The names to keep in step, and the names refused as invalid.
#[derive(Debug)]
pub struct Selection {
    pub names: Vec<String>,
    pub invalid: Vec<String>,
}

fn holds_text(v: &Vec<String>, s: &String) -> (r: bool)
    ensures
        r == texts(v@).contains(s@),
{
    let mut i: usize = 0;
    while i < v.len()
        invariant
            i <= v@.len(),
            forall|j: int| 0 <= j < i ==> v@[j]@ != s@,
        decreases v@.len() - i,
    {
        if v[i] == *s {
            assert(texts(v@)[i as int] == s@);
            return true;
        }
        i = i + 1;
    }
    false
}

/// Splits `names` by the flags in `valid`: the flagged names go to `names`,
/// the others to `invalid`, each text once, in the order of first occurrence.
pub fn split_names(names: &Vec<String>, valid: &Vec<bool>) -> (r: Selection)
    requires
        valid@.len() == names@.len(),
    ensures
        r.names@ == pick(names@, valid@, true),
        r.invalid@ == pick(names@, valid@, false),
{
    let mut kept: Vec<String> = Vec::new();
    let mut invalid: Vec<String> = Vec::new();
    let mut i: usize = 0;
    while i < names.len()
        invariant
            i <= names@.len(),
            valid@.len() == names@.len(),
            kept@ == pick(names@.take(i as int), valid@.take(i as int), true),
            invalid@ == pick(names@.take(i as int), valid@.take(i as int), false),
        decreases names@.len() - i,
    {
        proof {
            assert(names@.take(i + 1).drop_last() =~= names@.take(i as int));
            assert(valid@.take(i + 1).drop_last() =~= valid@.take(i as int));
        }
        let name = &names[i];
        if valid[i] {
            if !holds_text(&kept, name) {
                kept.push(name.clone());
            }
        } else {
            if !holds_text(&invalid, name) {
                invalid.push(name.clone());
            }
        }
        i = i + 1;
    }
    proof {
        assert(names@.take(names@.len() as int) =~= names@);
        assert(valid@.take(valid@.len() as int) =~= valid@);
    }
    Selection { names: kept, invalid }
}

/// The distinct names of `names`, in the order of first occurrence; when
/// `validate`, those that are not domain names under a known public suffix
/// are refused and listed in `invalid`.
pub fn select_names(names: &Vec<String>, validate: bool) -> (r: Selection)
    ensures
        r.names@ == pick(names@, validity(names@, validate), true),
        r.invalid@ == pick(names@, validity(names@, validate), false),
{
    let mut valid: Vec<bool> = Vec::new();
    let mut i: usize = 0;
    while i < names.len()
        invariant
            i <= names@.len(),
            valid@ == validity(names@, validate).take(i as int),
        decreases names@.len() - i,
    {
        let ok = if validate {
            is_known_domain(names[i].as_str())
        } else {
            true
        };
        valid.push(ok);
        proof {
            assert(valid@ =~= validity(names@, validate).take(i + 1));
        }
        i = i + 1;
    }
    assert(valid@ =~= validity(names@, validate));
    split_names(names, &valid)
}

} // verus!
