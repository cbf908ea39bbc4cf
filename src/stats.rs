use vstd::prelude::*;

use std::collections::HashMap;

use crate::models::{day_of, Visit, SECONDS_PER_DAY};

verus! {

broadcast use vstd::std_specs::hash::group_hash_axioms;

/// Everything reported about one name: when it was created, how often it was
/// visited in all and per day, and by how many distinct known addresses.
pub struct AggregateStat {
    pub name: String,
    pub created_on: i64,
    pub total_visits: u64,
    pub visits_per_day: HashMap<i64, u64>,
    pub unique_visitors: u64,
}

/// How many of the visits `vs` are of the name `n`.
pub open spec fn visit_count(vs: Seq<Visit>, n: Seq<char>) -> nat
    decreases vs.len(),
{
    if vs.len() == 0 {
        0
    } else {
        visit_count(vs.drop_last(), n) + if vs.last().name@ == n { 1nat } else { 0nat }
    }
}

/// How many of the visits `vs` are of the name `n` and fell on day `d`.
pub open spec fn day_count(vs: Seq<Visit>, n: Seq<char>, d: int) -> nat
    decreases vs.len(),
{
    if vs.len() == 0 {
        0
    } else {
        day_count(vs.drop_last(), n, d) + if vs.last().name@ == n && day_of(vs.last().visit as int) == d {
            1nat
        } else {
            0nat
        }
    }
}

/// The distinct known addresses among the visits `vs` of the name `n`.
pub open spec fn visitor_ips(vs: Seq<Visit>, n: Seq<char>) -> Set<Seq<char>>
    decreases vs.len(),
{
    if vs.len() == 0 {
        Set::empty()
    } else {
        let rest = visitor_ips(vs.drop_last(), n);
        match vs.last().ip_addr {
            Some(ip) => if vs.last().name@ == n {
                rest.insert(ip@)
            } else {
                rest
            },
            None => rest,
        }
    }
}

/// `m` maps each day with at least one visit of `n` among `vs` to that day's count.
pub open spec fn is_daily_histogram(m: Map<i64, u64>, vs: Seq<Visit>, n: Seq<char>) -> bool {
    forall|d: i64|
        (#[trigger] m.contains_key(d) <==> day_count(vs, n, d as int) > 0)
            && (m.contains_key(d) ==> m[d] == day_count(vs, n, d as int))
}

/// The set of distinct visitors is finite, so its size is meaningful.
pub proof fn lemma_visitor_ips_finite(vs: Seq<Visit>, n: Seq<char>)
    ensures
        visitor_ips(vs, n).finite(),
    decreases vs.len(),
{
    if vs.len() > 0 {
        lemma_visitor_ips_finite(vs.drop_last(), n);
    }
}

/// The calendar day, counted from 1970-01-01, on which `timestamp` falls.
pub fn day_number(timestamp: i64) -> (r: i64)
    ensures
        r as int == day_of(timestamp as int),
{
    if timestamp >= 0 {
        let r = timestamp / SECONDS_PER_DAY;
        assert(r as int == day_of(timestamp as int)) by (nonlinear_arith)
            requires timestamp >= 0, r == timestamp / 86400;
        r
    } else {
        let before: i64 = -(timestamp + 1);
        let q = before / SECONDS_PER_DAY;
        assert(-q - 1 == day_of(timestamp as int)) by (nonlinear_arith)
            requires before >= 0, before == -(timestamp + 1), q == before / 86400;
        -q - 1
    }
}

/// The number of visits of `name` among `visits`.
pub fn total_visits(visits: &Vec<Visit>, name: &str) -> (r: u64)
    ensures
        r as nat == visit_count(visits@, name@),
{
    let name = name.to_owned();
    let mut count: usize = 0;
    let mut i: usize = 0;
    while i < visits.len()
        invariant
            i <= visits@.len(),
            count <= i,
            count as nat == visit_count(visits@.subrange(0, i as int), name@),
        decreases visits@.len() - i,
    {
        assert(visits@.subrange(0, i as int + 1).drop_last() == visits@.subrange(0, i as int));
        assert(visits@.subrange(0, i as int + 1).last() == visits@[i as int]);
        if visits[i].name == name {
            count = count + 1;
        }
        i = i + 1;
    }
    assert(visits@.subrange(0, visits@.len() as int) == visits@);
    count as u64
}

/// Visits of `name` among `visits`, counted per calendar day.
pub fn visits_per_day(visits: &Vec<Visit>, name: &str) -> (r: HashMap<i64, u64>)
    ensures
        is_daily_histogram(r@, visits@, name@),
{
    let name = name.to_owned();
    let mut days: HashMap<i64, u64> = HashMap::new();
    let mut i: usize = 0;
    while i < visits.len()
        invariant
            i <= visits@.len(),
            is_daily_histogram(days@, visits@.subrange(0, i as int), name@),
            forall|d: i64| #[trigger] days@.contains_key(d) ==> days@[d] <= i,
        decreases visits@.len() - i,
    {
        let ghost prev = visits@.subrange(0, i as int);
        let ghost next = visits@.subrange(0, i as int + 1);
        assert(next.drop_last() == prev);
        assert(next.last() == visits@[i as int]);
        if visits[i].name == name {
            let day = day_number(visits[i].visit);
            let count: u64 = match days.get(&day) {
                Some(c) => *c + 1,
                None => 1,
            };
            days.insert(day, count);
            assert forall|d: i64|
                (#[trigger] days@.contains_key(d) <==> day_count(next, name@, d as int) > 0)
                && (days@.contains_key(d) ==> days@[d] == day_count(next, name@, d as int)) by {
                assert(day_count(next, name@, d as int) == day_count(prev, name@, d as int) + if d == day { 1nat } else { 0nat });
            }
        } else {
            assert forall|d: i64|
                (#[trigger] days@.contains_key(d) <==> day_count(next, name@, d as int) > 0)
                && (days@.contains_key(d) ==> days@[d] == day_count(next, name@, d as int)) by {
                assert(day_count(next, name@, d as int) == day_count(prev, name@, d as int));
            }
        }
        i = i + 1;
    }
    assert(visits@.subrange(0, visits@.len() as int) == visits@);
    days
}

/// Whether some entry of `seen` equals `x`.
fn contains_string(seen: &Vec<String>, x: &String) -> (r: bool)
    ensures
        r == exists|k: int| 0 <= k < seen@.len() && #[trigger] seen@[k]@ == x@,
{
    let mut k: usize = 0;
    while k < seen.len()
        invariant
            k <= seen@.len(),
            forall|j: int| 0 <= j < k ==> #[trigger] seen@[j]@ != x@,
        decreases seen@.len() - k,
    {
        if seen[k] == *x {
            return true;
        }
        k = k + 1;
    }
    false
}

/// The number of distinct known addresses that visited `name`.
pub fn unique_visitors(visits: &Vec<Visit>, name: &str) -> (r: u64)
    ensures
        r as nat == visitor_ips(visits@, name@).len(),
{
    let name = name.to_owned();
    let mut seen: Vec<String> = Vec::new();
    let mut i: usize = 0;
    while i < visits.len()
        invariant
            i <= visits@.len(),
            seen@.len() <= i,
            visitor_ips(visits@.subrange(0, i as int), name@).finite(),
            seen@.len() == visitor_ips(visits@.subrange(0, i as int), name@).len(),
            forall|k: int| 0 <= k < seen@.len() ==> visitor_ips(visits@.subrange(0, i as int), name@).contains(#[trigger] seen@[k]@),
            forall|ip: Seq<char>| visitor_ips(visits@.subrange(0, i as int), name@).contains(ip)
                ==> exists|k: int| 0 <= k < seen@.len() && #[trigger] seen@[k]@ == ip,
        decreases visits@.len() - i,
    {
        let ghost prev = visits@.subrange(0, i as int);
        let ghost next = visits@.subrange(0, i as int + 1);
        assert(next.drop_last() == prev);
        assert(next.last() == visits@[i as int]);
        proof {
            lemma_visitor_ips_finite(next, name@);
        }
        if visits[i].name == name {
            match &visits[i].ip_addr {
                Some(ip) => {
                    if !contains_string(&seen, ip) {
                        let ghost old_seen = seen@;
                        seen.push(ip.clone());
                        assert(seen@[old_seen.len() as int]@ == ip@);
                        assert forall|k: int| 0 <= k < seen@.len() implies visitor_ips(next, name@).contains(#[trigger] seen@[k]@) by {
                            if k < old_seen.len() {
                                assert(seen@[k] == old_seen[k]);
                            }
                        }
                        assert forall|x: Seq<char>| visitor_ips(next, name@).contains(x)
                            implies exists|k: int| 0 <= k < seen@.len() && #[trigger] seen@[k]@ == x by {
                            if x != ip@ {
                                let k = choose|k: int| 0 <= k < old_seen.len() && #[trigger] old_seen[k]@ == x;
                                assert(seen@[k] == old_seen[k]);
                            }
                        }
                    } else {
                        assert(visitor_ips(next, name@) == visitor_ips(prev, name@));
                    }
                },
                None => {
                    assert(visitor_ips(next, name@) == visitor_ips(prev, name@));
                },
            }
        } else {
            assert(visitor_ips(next, name@) == visitor_ips(prev, name@));
        }
        i = i + 1;
    }
    assert(visits@.subrange(0, visits@.len() as int) == visits@);
    seen.len() as u64
}

} // verus!
