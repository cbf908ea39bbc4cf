use vstd::prelude::*;

use crate::allocation::AllocationError;
use crate::models::{day_of, entry_for_target, has_name, has_target, Shortlink, Visit};
use crate::stats::{day_count, visit_count, visitor_ips};
use crate::store::{canonical_created, custom_created, resolved, StoreView};

verus! {

/// In a valid store the entry for a canonical target is the only one with its name,
/// and looking up that name finds the target.
proof fn lemma_canonical_entry_resolves(s: StoreView, t: Seq<char>)
    requires
        s.wf(),
        has_target(s.canonical, t),
    ensures
        has_name(s.canonical, entry_for_target(s.canonical, t).name@),
        s.lookup(entry_for_target(s.canonical, t).name@) == Some(t),
{
    let i = choose|i: int| 0 <= i < s.canonical.len() && #[trigger] s.canonical[i].target@ == t;
    let n = s.canonical[i].name@;
    assert(has_name(s.canonical, n));
    let k = choose|k: int| 0 <= k < s.canonical.len() && #[trigger] s.canonical[k].name@ == n;
    assert(k == i);
}

/// After an appended entry, the new last entry is the one for its target.
proof fn lemma_appended_target(old: Seq<Shortlink>, new: Seq<Shortlink>, t: Seq<char>)
    requires
        new.len() == old.len() + 1,
        new.drop_last() == old,
        new.last().target@ == t,
        crate::models::targets_unique(new),
    ensures
        has_target(new, t),
        entry_for_target(new, t).name@ == new.last().name@,
        entry_for_target(new, t).target@ == t,
{
    let last = new.len() - 1;
    assert(new[last].target@ == t);
    let k = choose|k: int| 0 <= k < new.len() && #[trigger] new[k].target@ == t;
    assert(k == last);
}

/// After a successful canonical creation, the target has its canonical entry
/// and the returned name is the name of that entry.
proof fn lemma_canonical_created_entry(
    s0: StoreView,
    t: Seq<char>,
    c: i64,
    r: Result<Shortlink, AllocationError>,
    s1: StoreView,
)
    requires
        s0.wf(),
        canonical_created(s0, t, c, r, s1),
        r is Ok,
    ensures
        has_target(s1.canonical, t),
        entry_for_target(s1.canonical, t).name@ == r->Ok_0.name@,
        r->Ok_0.target@ == t,
{
    if !has_target(s0.canonical, t) {
        lemma_appended_target(s0.canonical, s1.canonical, t);
    }
}

/// Canonical creation is idempotent by target: a second creation for the same
/// target returns the name of the first and changes nothing.
pub proof fn lemma_canonical_idempotent(
    s0: StoreView,
    t: Seq<char>,
    c1: i64,
    r1: Result<Shortlink, AllocationError>,
    s1: StoreView,
    c2: i64,
    r2: Result<Shortlink, AllocationError>,
    s2: StoreView,
)
    requires
        s0.wf(),
        canonical_created(s0, t, c1, r1, s1),
        r1 is Ok,
        canonical_created(s1, t, c2, r2, s2),
    ensures
        r2 is Ok,
        r2->Ok_0.name@ == r1->Ok_0.name@,
        r2->Ok_0.target@ == t,
        s2 == s1,
{
    lemma_canonical_created_entry(s0, t, c1, r1, s1);
}

/// Two callers that ask for a canonical name for the same new target, one after
/// the other in either order: exactly one entry is stored, and both receive the
/// same name.
pub proof fn lemma_canonical_race_converges(
    s0: StoreView,
    t: Seq<char>,
    c1: i64,
    r1: Result<Shortlink, AllocationError>,
    s1: StoreView,
    c2: i64,
    r2: Result<Shortlink, AllocationError>,
    s2: StoreView,
)
    requires
        s0.wf(),
        !has_target(s0.canonical, t),
        canonical_created(s0, t, c1, r1, s1),
        r1 is Ok,
        canonical_created(s1, t, c2, r2, s2),
    ensures
        s2.canonical.len() == s0.canonical.len() + 1,
        r2 is Ok,
        r1->Ok_0.name@ == r2->Ok_0.name@,
{
    lemma_canonical_idempotent(s0, t, c1, r1, s1, c2, r2, s2);
}

/// Distinct custom names may point at the same target: both creations succeed
/// and each name resolves to the target.
pub proof fn lemma_custom_same_target(
    s0: StoreView,
    n1: Seq<char>,
    n2: Seq<char>,
    t: Seq<char>,
    c1: i64,
    r1: Option<Shortlink>,
    s1: StoreView,
    c2: i64,
    r2: Option<Shortlink>,
    s2: StoreView,
)
    requires
        s0.wf(),
        n1 != n2,
        !s0.name_taken(n1),
        !s0.name_taken(n2),
        custom_created(s0, n1, t, c1, r1, s1),
        custom_created(s1, n2, t, c2, r2, s2),
    ensures
        r1 is Some,
        r2 is Some,
        s2.lookup(n1) == Some(t),
        s2.lookup(n2) == Some(t),
{
    let a = s1.custom.len() - 1;
    let b = s2.custom.len() - 1;
    assert(s1.custom[a].name@ == n1);
    assert(s2.custom[a] == s1.custom[a]);
    assert(!has_name(s1.canonical, n2)) by {
        assert(s1.canonical == s0.canonical);
    }
    assert(!has_name(s1.custom, n2)) by {
        if has_name(s1.custom, n2) {
            let i = choose|i: int| 0 <= i < s1.custom.len() && #[trigger] s1.custom[i].name@ == n2;
            if i < a {
                assert(s0.custom[i] == s1.custom[i]);
                assert(has_name(s0.custom, n2));
            }
        }
    }
    assert(s2.custom[b].name@ == n2);
    assert(has_name(s2.custom, n1));
    assert(has_name(s2.custom, n2));
    assert(s2.canonical == s0.canonical);
    let k1 = choose|k: int| 0 <= k < s2.custom.len() && #[trigger] s2.custom[k].name@ == n1;
    assert(k1 == a);
    let k2 = choose|k: int| 0 <= k < s2.custom.len() && #[trigger] s2.custom[k].name@ == n2;
    assert(k2 == b);
}

/// A custom name, once given, is never given again, whatever the new target.
pub proof fn lemma_custom_name_taken(
    s0: StoreView,
    n: Seq<char>,
    t1: Seq<char>,
    t2: Seq<char>,
    c1: i64,
    r1: Option<Shortlink>,
    s1: StoreView,
    c2: i64,
    r2: Option<Shortlink>,
    s2: StoreView,
)
    requires
        s0.wf(),
        custom_created(s0, n, t1, c1, r1, s1),
        custom_created(s1, n, t2, c2, r2, s2),
    ensures
        r2 is None,
        s2 == s1,
{
    if !s0.name_taken(n) {
        let a = s1.custom.len() - 1;
        assert(s1.custom[a].name@ == n);
        assert(has_name(s1.custom, n));
    }
}

/// Two callers that ask for the same free custom name, one after the other:
/// exactly one of them gets it, the other is refused.
pub proof fn lemma_custom_race_single_winner(
    s0: StoreView,
    n: Seq<char>,
    t1: Seq<char>,
    t2: Seq<char>,
    c1: i64,
    r1: Option<Shortlink>,
    s1: StoreView,
    c2: i64,
    r2: Option<Shortlink>,
    s2: StoreView,
)
    requires
        s0.wf(),
        !s0.name_taken(n),
        custom_created(s0, n, t1, c1, r1, s1),
        custom_created(s1, n, t2, c2, r2, s2),
    ensures
        r1 is Some,
        r2 is None,
{
    lemma_custom_name_taken(s0, n, t1, t2, c1, r1, s1, c2, r2, s2);
}

/// A name handed out by canonical creation cannot then be taken as a custom name.
pub proof fn lemma_custom_refuses_canonical_name(
    s0: StoreView,
    t: Seq<char>,
    c1: i64,
    r1: Result<Shortlink, AllocationError>,
    s1: StoreView,
    t2: Seq<char>,
    c2: i64,
    r2: Option<Shortlink>,
    s2: StoreView,
)
    requires
        s0.wf(),
        canonical_created(s0, t, c1, r1, s1),
        r1 is Ok,
        custom_created(s1, r1->Ok_0.name@, t2, c2, r2, s2),
    ensures
        r2 is None,
        s2 == s1,
{
    lemma_canonical_created_entry(s0, t, c1, r1, s1);
    lemma_canonical_entry_resolves(s1, t);
}

/// Resolving an unknown name finds nothing and records no visit.
pub proof fn lemma_resolve_unknown(
    s0: StoreView,
    n: Seq<char>,
    ip: Option<Seq<char>>,
    now: i64,
    r: Option<Seq<char>>,
    s1: StoreView,
)
    requires
        s0.wf(),
        !s0.name_taken(n),
        resolved(s0, n, ip, now, r, s1),
    ensures
        r is None,
        s1.visits == s0.visits,
{
}

/// Resolving a known name adds exactly one visit to its total and exactly one
/// to the count of the day on which it happened, and leaves other days alone.
pub proof fn lemma_resolve_known_counts(
    s0: StoreView,
    n: Seq<char>,
    ip: Option<Seq<char>>,
    now: i64,
    r: Option<Seq<char>>,
    s1: StoreView,
)
    requires
        s0.wf(),
        s0.name_taken(n),
        resolved(s0, n, ip, now, r, s1),
    ensures
        r is Some,
        visit_count(s1.visits, n) == visit_count(s0.visits, n) + 1,
        day_count(s1.visits, n, day_of(now as int)) == day_count(s0.visits, n, day_of(now as int)) + 1,
        forall|d: int| d != day_of(now as int) ==> #[trigger] day_count(s1.visits, n, d) == day_count(s0.visits, n, d),
{
    assert(s1.visits.drop_last() == s0.visits);
}

/// A further visit from an address that has already visited a name leaves the
/// name's set of distinct visitors, and so its count, as it was.
pub proof fn lemma_repeat_visitor_not_counted(vs: Seq<Visit>, v: Visit, n: Seq<char>)
    requires
        v.name@ == n,
        v.ip_addr is Some,
        visitor_ips(vs, n).contains(v.ip_addr->Some_0@),
    ensures
        visitor_ips(vs.push(v), n) == visitor_ips(vs, n),
        visitor_ips(vs.push(v), n).len() == visitor_ips(vs, n).len(),
{
    assert(vs.push(v).drop_last() == vs);
    assert(visitor_ips(vs, n).insert(v.ip_addr->Some_0@) == visitor_ips(vs, n));
}

/// A visit without a known address never changes the set of distinct visitors.
pub proof fn lemma_anonymous_visit_not_counted(vs: Seq<Visit>, v: Visit, n: Seq<char>)
    requires
        v.ip_addr is None,
    ensures
        visitor_ips(vs.push(v), n) == visitor_ips(vs, n),
{
    assert(vs.push(v).drop_last() == vs);
}

} // verus!
