use vstd::prelude::*;

use crate::allocation::{next_canonical_step, AllocationError, CanonicalStep, MAX_ATTEMPTS};
use crate::stats::{
    is_daily_histogram, total_visits, unique_visitors, visit_count, visitor_ips, visits_per_day,
    AggregateStat,
};
use crate::names::{is_generated_name, random_name};
use crate::models::{
    entry_for_target, entry_named, has_name, has_target, names_unique, targets_unique,
    CanonicalShortlink, CustomShortlink, Shortlink, Stat, Visit,
};

verus! {

/// What the store holds, as plain sequences.
pub struct StoreView {
    pub canonical: Seq<Shortlink>,
    pub custom: Seq<Shortlink>,
    pub stats: Seq<Stat>,
    pub visits: Seq<Visit>,
}

/// Some stat row carries the name `n`.
pub open spec fn has_stat(s: Seq<Stat>, n: Seq<char>) -> bool {
    exists|i: int| 0 <= i < s.len() && #[trigger] s[i].name@ == n
}

/// The stat row that carries the name `n` (meaningful when `has_stat(s, n)`).
pub open spec fn stat_named(s: Seq<Stat>, n: Seq<char>) -> Stat {
    s[choose|i: int| 0 <= i < s.len() && #[trigger] s[i].name@ == n]
}

impl StoreView {
    /// The name `n` is in use in either namespace.
    pub open spec fn name_taken(self, n: Seq<char>) -> bool {
        has_name(self.canonical, n) || has_name(self.custom, n)
    }

    /// The store's invariant: names are unique across both namespaces,
    /// canonical targets are unique, and every name has exactly one stat row.
    pub open spec fn wf(self) -> bool {
        &&& names_unique(self.canonical)
        &&& names_unique(self.custom)
        &&& targets_unique(self.canonical)
        &&& forall|n: Seq<char>| !(#[trigger] has_name(self.canonical, n) && has_name(self.custom, n))
        &&& forall|i: int, j: int|
            0 <= i < self.stats.len() && 0 <= j < self.stats.len() && i != j
                ==> #[trigger] self.stats[i].name@ != #[trigger] self.stats[j].name@
        &&& forall|n: Seq<char>| #[trigger] has_stat(self.stats, n) <==> self.name_taken(n)
    }

    /// No name of the generated shape is in use, so any candidate is free.
    pub open spec fn generated_names_free(self) -> bool {
        forall|m: Seq<char>| #[trigger] is_generated_name(m) ==> !self.name_taken(m)
    }

    /// The target that `n` resolves to: the canonical namespace is consulted first.
    pub open spec fn lookup(self, n: Seq<char>) -> Option<Seq<char>> {
        if has_name(self.canonical, n) {
            Some(entry_named(self.canonical, n).target@)
        } else if has_name(self.custom, n) {
            Some(entry_named(self.custom, n).target@)
        } else {
            None
        }
    }
}

/// The shortlink store: canonical and custom namespaces, creation times and visits.
pub struct ShortlinkStore {
    canonical: Vec<Shortlink>,
    custom: Vec<Shortlink>,
    stats: Vec<Stat>,
    visits: Vec<Visit>,
}

impl View for ShortlinkStore {
    type V = StoreView;

    closed spec fn view(&self) -> StoreView {
        StoreView {
            canonical: self.canonical@,
            custom: self.custom@,
            stats: self.stats@,
            visits: self.visits@,
        }
    }
}

/// The outcome of an attempt to insert a canonical entry.
pub enum InsertOutcome {
    /// The entry was stored.
    Inserted,
    /// The target already has a canonical entry, which is handed back.
    TargetAlreadyExists(Shortlink),
    /// The name is already in use; nothing was stored.
    NameAlreadyExists,
}

/// Where a name resolved to, and whether that resolution counts as a visit.
pub struct Resolution {
    pub target: Option<String>,
    pub record_visit: bool,
}

/// Decides a resolution from what each namespace holds under the name: the
/// canonical entry wins, and only a hit is recorded as a visit.
pub fn resolve_from(canonical_hit: Option<String>, custom_hit: Option<String>) -> (r: Resolution)
    ensures
        opt_view(r.target) == if canonical_hit is Some { opt_view(canonical_hit) } else { opt_view(custom_hit) },
        r.record_visit == r.target is Some,
{
    let target = match canonical_hit {
        Some(t) => Some(t),
        None => custom_hit,
    };
    let record_visit = target.is_some();
    Resolution { target, record_visit }
}

/// The view of an optional string.
pub open spec fn opt_view(o: Option<String>) -> Option<Seq<char>> {
    match o {
        Some(s) => Some(s@),
        None => None,
    }
}

/// `new` is `old` with one more entry, named `n` and pointing at `t`.
pub open spec fn link_appended(old: Seq<Shortlink>, new: Seq<Shortlink>, n: Seq<char>, t: Seq<char>) -> bool {
    &&& new.len() == old.len() + 1
    &&& new.drop_last() == old
    &&& new.last().name@ == n
    &&& new.last().target@ == t
}

/// `new` is `old` with one more stat row, for `n` created at `created_on`.
pub open spec fn stat_appended(old: Seq<Stat>, new: Seq<Stat>, n: Seq<char>, created_on: i64) -> bool {
    &&& new.len() == old.len() + 1
    &&& new.drop_last() == old
    &&& new.last().name@ == n
    &&& new.last().created_on == created_on
}

/// `new` is `old` with one more visit of `n`, at `time`, from `ip`.
pub open spec fn visit_appended(old: Seq<Visit>, new: Seq<Visit>, n: Seq<char>, time: i64, ip: Option<Seq<char>>) -> bool {
    &&& new.len() == old.len() + 1
    &&& new.drop_last() == old
    &&& new.last().name@ == n
    &&& new.last().visit == time
    &&& opt_view(new.last().ip_addr) == ip
}

/// What canonical creation of `t` at `created_on` does to a valid store `old`,
/// returning `r` and leaving `new`: a target that already has a canonical entry
/// gets that entry and nothing changes; otherwise either a fresh generated name
/// is stored for it, or nothing changes and the attempt gives up. Giving up is
/// only possible while some name of the generated shape is in use.
pub open spec fn canonical_created(
    old: StoreView,
    t: Seq<char>,
    created_on: i64,
    r: Result<Shortlink, AllocationError>,
    new: StoreView,
) -> bool {
    &&& new.wf()
    &&& has_target(old.canonical, t) ==> ({
        let e = entry_for_target(old.canonical, t);
        &&& r matches Ok(l)
        &&& l.name@ == e.name@
        &&& l.target@ == e.target@
        &&& new == old
    })
    &&& !has_target(old.canonical, t) ==> match r {
        Ok(l) => {
            &&& l.target@ == t
            &&& is_generated_name(l.name@)
            &&& !old.name_taken(l.name@)
            &&& link_appended(old.canonical, new.canonical, l.name@, t)
            &&& new.custom == old.custom
            &&& stat_appended(old.stats, new.stats, l.name@, created_on)
            &&& new.visits == old.visits
        },
        Err(_) => new == old,
    }
    &&& !has_target(old.canonical, t) && old.generated_names_free() ==> r is Ok
}

/// What custom creation of `n` pointing at `t` at `created_on` does to a valid
/// store `old`: a name in use in either namespace is refused and nothing
/// changes; otherwise the entry is stored.
pub open spec fn custom_created(
    old: StoreView,
    n: Seq<char>,
    t: Seq<char>,
    created_on: i64,
    r: Option<Shortlink>,
    new: StoreView,
) -> bool {
    &&& new.wf()
    &&& old.name_taken(n) ==> r is None && new == old
    &&& !old.name_taken(n) ==> {
        &&& r matches Some(l)
        &&& l.name@ == n
        &&& l.target@ == t
        &&& new.canonical == old.canonical
        &&& link_appended(old.custom, new.custom, n, t)
        &&& stat_appended(old.stats, new.stats, n, created_on)
        &&& new.visits == old.visits
    }
}

/// What resolving `n` at `now` from `ip` does to a valid store `old`: the
/// result is the lookup of `n`; a hit records exactly one visit, a miss nothing.
pub open spec fn resolved(
    old: StoreView,
    n: Seq<char>,
    ip: Option<Seq<char>>,
    now: i64,
    r: Option<Seq<char>>,
    new: StoreView,
) -> bool {
    &&& new.wf()
    &&& r == old.lookup(n)
    &&& r is None ==> new == old
    &&& r is Some ==> {
        &&& new.canonical == old.canonical
        &&& new.custom == old.custom
        &&& new.stats == old.stats
        &&& visit_appended(old.visits, new.visits, n, now, ip)
    }
}

proof fn lemma_push_link(s: Seq<Shortlink>, l: Shortlink)
    ensures
        forall|m: Seq<char>| #[trigger] has_name(s.push(l), m) <==> (has_name(s, m) || l.name@ == m),
        forall|m: Seq<char>| #[trigger] has_target(s.push(l), m) <==> (has_target(s, m) || l.target@ == m),
{
    let s2 = s.push(l);
    assert forall|m: Seq<char>| #[trigger] has_name(s2, m) <==> (has_name(s, m) || l.name@ == m) by {
        if has_name(s, m) {
            let i = choose|i: int| 0 <= i < s.len() && #[trigger] s[i].name@ == m;
            assert(s2[i].name@ == m);
        }
        if l.name@ == m {
            assert(s2[s.len() as int].name@ == m);
        }
        if has_name(s2, m) {
            let i = choose|i: int| 0 <= i < s2.len() && #[trigger] s2[i].name@ == m;
            if i < s.len() {
                assert(s[i].name@ == m);
            }
        }
    }
    assert forall|m: Seq<char>| #[trigger] has_target(s2, m) <==> (has_target(s, m) || l.target@ == m) by {
        if has_target(s, m) {
            let i = choose|i: int| 0 <= i < s.len() && #[trigger] s[i].target@ == m;
            assert(s2[i].target@ == m);
        }
        if l.target@ == m {
            assert(s2[s.len() as int].target@ == m);
        }
        if has_target(s2, m) {
            let i = choose|i: int| 0 <= i < s2.len() && #[trigger] s2[i].target@ == m;
            if i < s.len() {
                assert(s[i].target@ == m);
            }
        }
    }
}

proof fn lemma_push_stat(s: Seq<Stat>, st: Stat)
    ensures
        forall|m: Seq<char>| #[trigger] has_stat(s.push(st), m) <==> (has_stat(s, m) || st.name@ == m),
{
    let s2 = s.push(st);
    assert forall|m: Seq<char>| #[trigger] has_stat(s2, m) <==> (has_stat(s, m) || st.name@ == m) by {
        if has_stat(s, m) {
            let i = choose|i: int| 0 <= i < s.len() && #[trigger] s[i].name@ == m;
            assert(s2[i].name@ == m);
        }
        if st.name@ == m {
            assert(s2[s.len() as int].name@ == m);
        }
        if has_stat(s2, m) {
            let i = choose|i: int| 0 <= i < s2.len() && #[trigger] s2[i].name@ == m;
            if i < s.len() {
                assert(s[i].name@ == m);
            }
        }
    }
}

fn copy_link(l: &Shortlink) -> (r: Shortlink)
    ensures
        r.name@ == l.name@,
        r.target@ == l.target@,
{
    Shortlink { name: l.name.clone(), target: l.target.clone() }
}

/// Finds the position of the entry named `name`, if any.
fn position_of_name(s: &Vec<Shortlink>, name: &String) -> (r: Option<usize>)
    ensures
        match r {
            Some(i) => i < s@.len() && s@[i as int].name@ == name@,
            None => !has_name(s@, name@),
        },
{
    let mut i: usize = 0;
    while i < s.len()
        invariant
            i <= s@.len(),
            forall|j: int| 0 <= j < i ==> #[trigger] s@[j].name@ != name@,
        decreases s@.len() - i,
    {
        if s[i].name == *name {
            return Some(i);
        }
        i = i + 1;
    }
    None
}

/// Finds the position of the entry that points at `target`, if any.
fn position_of_target(s: &Vec<Shortlink>, target: &String) -> (r: Option<usize>)
    ensures
        match r {
            Some(i) => i < s@.len() && s@[i as int].target@ == target@,
            None => !has_target(s@, target@),
        },
{
    let mut i: usize = 0;
    while i < s.len()
        invariant
            i <= s@.len(),
            forall|j: int| 0 <= j < i ==> #[trigger] s@[j].target@ != target@,
        decreases s@.len() - i,
    {
        if s[i].target == *target {
            return Some(i);
        }
        i = i + 1;
    }
    None
}

/// Finds the position of the stat row named `name`, if any.
fn position_of_stat(s: &Vec<Stat>, name: &String) -> (r: Option<usize>)
    ensures
        match r {
            Some(i) => i < s@.len() && s@[i as int].name@ == name@,
            None => !has_stat(s@, name@),
        },
{
    let mut i: usize = 0;
    while i < s.len()
        invariant
            i <= s@.len(),
            forall|j: int| 0 <= j < i ==> #[trigger] s@[j].name@ != name@,
        decreases s@.len() - i,
    {
        if s[i].name == *name {
            return Some(i);
        }
        i = i + 1;
    }
    None
}

impl ShortlinkStore {
    /// An empty store.
    pub fn new() -> (r: ShortlinkStore)
        ensures
            r@.wf(),
            r@.generated_names_free(),
            r@.canonical.len() == 0,
            r@.custom.len() == 0,
            r@.stats.len() == 0,
            r@.visits.len() == 0,
    {
        ShortlinkStore { canonical: Vec::new(), custom: Vec::new(), stats: Vec::new(), visits: Vec::new() }
    }

    /// The target that `name` resolves to, canonical namespace first; records nothing.
    pub fn lookup(&self, name: &str) -> (r: Option<String>)
        requires
            self@.wf(),
        ensures
            match r {
                Some(t) => self@.lookup(name@) == Some(t@),
                None => self@.lookup(name@) is None,
            },
    {
        let name = name.to_owned();
        match position_of_name(&self.canonical, &name) {
            Some(i) => {
                proof {
                    let k = choose|k: int| 0 <= k < self.canonical@.len() && #[trigger] self.canonical@[k].name@ == name@;
                    assert(k == i as int);
                }
                Some(self.canonical[i].target.clone())
            },
            None => match position_of_name(&self.custom, &name) {
                Some(i) => {
                    proof {
                        let k = choose|k: int| 0 <= k < self.custom@.len() && #[trigger] self.custom@[k].name@ == name@;
                        assert(k == i as int);
                    }
                    Some(self.custom[i].target.clone())
                },
                None => None,
            },
        }
    }

    /// Stores a canonical entry unless its target already has one (handed back)
    /// or its name is in use in either namespace.
    pub fn insert_canonical(&mut self, entry: CanonicalShortlink, created_on: i64) -> (r: InsertOutcome)
        requires
            old(self)@.wf(),
        ensures
            final(self)@.wf(),
            has_target(old(self)@.canonical, entry.target@) ==> ({
                let e = entry_for_target(old(self)@.canonical, entry.target@);
                &&& r matches InsertOutcome::TargetAlreadyExists(l)
                &&& l.name@ == e.name@
                &&& l.target@ == e.target@
                &&& final(self)@ == old(self)@
            }),
            !has_target(old(self)@.canonical, entry.target@) && old(self)@.name_taken(entry.name@) ==> {
                &&& r is NameAlreadyExists
                &&& final(self)@ == old(self)@
            },
            !has_target(old(self)@.canonical, entry.target@) && !old(self)@.name_taken(entry.name@) ==> {
                &&& r is Inserted
                &&& link_appended(old(self)@.canonical, final(self)@.canonical, entry.name@, entry.target@)
                &&& final(self)@.custom == old(self)@.custom
                &&& stat_appended(old(self)@.stats, final(self)@.stats, entry.name@, created_on)
                &&& final(self)@.visits == old(self)@.visits
            },
    {
        if let Some(i) = position_of_target(&self.canonical, &entry.target) {
            proof {
                let k = choose|k: int| 0 <= k < self.canonical@.len() && #[trigger] self.canonical@[k].target@ == entry.target@;
                assert(k == i as int);
            }
            return InsertOutcome::TargetAlreadyExists(copy_link(&self.canonical[i]));
        }
        if position_of_name(&self.canonical, &entry.name).is_some()
            || position_of_name(&self.custom, &entry.name).is_some() {
            return InsertOutcome::NameAlreadyExists;
        }
        let ghost old_view = self@;
        let stat = Stat { name: entry.name.clone(), created_on };
        let link = Shortlink { name: entry.name, target: entry.target };
        proof {
            lemma_push_link(old_view.canonical, link);
            lemma_push_stat(old_view.stats, stat);
        }
        self.canonical.push(link);
        self.stats.push(stat);
        proof {
            assert(self@.canonical.drop_last() == old_view.canonical);
            assert(self@.stats.drop_last() == old_view.stats);
            assert(!has_stat(old_view.stats, stat.name@));
            assert forall|i: int, j: int|
                0 <= i < self@.stats.len() && 0 <= j < self@.stats.len() && i != j
                implies #[trigger] self@.stats[i].name@ != #[trigger] self@.stats[j].name@ by {
                if i < old_view.stats.len() {
                    assert(self@.stats[i] == old_view.stats[i]);
                }
                if j < old_view.stats.len() {
                    assert(self@.stats[j] == old_view.stats[j]);
                }
            }
            assert forall|n: Seq<char>| #[trigger] has_stat(self@.stats, n) <==> self@.name_taken(n) by {
                assert(has_stat(self@.stats, n) <==> has_stat(old_view.stats, n) || stat.name@ == n);
                assert(has_name(self@.canonical, n) <==> has_name(old_view.canonical, n) || link.name@ == n);
            }
            assert forall|n: Seq<char>| !(#[trigger] has_name(self@.canonical, n) && has_name(self@.custom, n)) by {
                assert(has_name(self@.canonical, n) <==> has_name(old_view.canonical, n) || link.name@ == n);
            }
        }
        InsertOutcome::Inserted
    }

    /// Gives `target` its canonical name. A target that already has one gets the
    /// same entry back and nothing changes. Otherwise random candidate names are
    /// tried until one is free in both namespaces, at most `MAX_ATTEMPTS` times.
    pub fn create_shortlink(&mut self, target: &str, created_on: i64) -> (r: Result<Shortlink, AllocationError>)
        requires
            old(self)@.wf(),
        ensures
            canonical_created(old(self)@, target@, created_on, r, final(self)@),
    {
        let target_text = target.to_owned();
        let ghost old_view = self@;
        let mut attempt: u32 = 0;
        loop
            invariant
                attempt < MAX_ATTEMPTS,
                self@ == old_view,
                old_view == old(self)@,
                old_view.wf(),
                target_text@ == target@,
            decreases MAX_ATTEMPTS - attempt,
        {
            let candidate = random_name();
            let entry = CanonicalShortlink { name: candidate.clone(), target: target_text.clone() };
            let outcome = self.insert_canonical(entry, created_on);
            match next_canonical_step(attempt, outcome, &candidate, &target_text) {
                CanonicalStep::Done(l) => return Ok(l),
                CanonicalStep::Retry => {
                    attempt = attempt + 1;
                },
                CanonicalStep::GiveUp => return Err(AllocationError::NamesExhausted),
            }
        }
    }

    /// The statistics of `name`, in either namespace; `None` for an unknown name.
    pub fn get_stats(&self, name: &str) -> (r: Option<AggregateStat>)
        requires
            self@.wf(),
        ensures
            !self@.name_taken(name@) ==> r is None,
            self@.name_taken(name@) ==> {
                &&& r matches Some(a)
                &&& a.name@ == name@
                &&& a.created_on == stat_named(self@.stats, name@).created_on
                &&& a.total_visits as nat == visit_count(self@.visits, name@)
                &&& is_daily_histogram(a.visits_per_day@, self@.visits, name@)
                &&& a.unique_visitors as nat == visitor_ips(self@.visits, name@).len()
            },
    {
        let key = name.to_owned();
        match position_of_stat(&self.stats, &key) {
            None => {
                assert(!has_stat(self@.stats, key@));
                None
            },
            Some(i) => {
                proof {
                    assert(self@.stats[i as int].name@ == key@);
                    assert(has_stat(self@.stats, key@));
                    let k = choose|k: int| 0 <= k < self@.stats.len() && #[trigger] self@.stats[k].name@ == key@;
                    assert(k == i as int);
                }
                Some(AggregateStat {
                    name: key,
                    created_on: self.stats[i].created_on,
                    total_visits: total_visits(&self.visits, name),
                    visits_per_day: visits_per_day(&self.visits, name),
                    unique_visitors: unique_visitors(&self.visits, name),
                })
            },
        }
    }

    /// Stores a custom entry created at `created_on` unless `name` is in use in
    /// either namespace, in which case nothing changes and `None` comes back.
    pub fn create_custom_shortlink(&mut self, name: &str, target: &str, created_on: i64) -> (r: Option<Shortlink>)
        requires
            old(self)@.wf(),
        ensures
            custom_created(old(self)@, name@, target@, created_on, r, final(self)@),
    {
        let entry = CustomShortlink { name: name.to_owned(), target: target.to_owned() };
        if position_of_name(&self.canonical, &entry.name).is_some()
            || position_of_name(&self.custom, &entry.name).is_some() {
            return None;
        }
        let ghost old_view = self@;
        let stat = Stat { name: entry.name.clone(), created_on };
        let link = Shortlink { name: entry.name, target: entry.target };
        let result = copy_link(&link);
        proof {
            lemma_push_link(old_view.custom, link);
            lemma_push_stat(old_view.stats, stat);
        }
        self.custom.push(link);
        self.stats.push(stat);
        proof {
            assert(self@.custom.drop_last() == old_view.custom);
            assert(self@.stats.drop_last() == old_view.stats);
            assert(!has_stat(old_view.stats, stat.name@));
            assert forall|i: int, j: int|
                0 <= i < self@.stats.len() && 0 <= j < self@.stats.len() && i != j
                implies #[trigger] self@.stats[i].name@ != #[trigger] self@.stats[j].name@ by {
                if i < old_view.stats.len() {
                    assert(self@.stats[i] == old_view.stats[i]);
                }
                if j < old_view.stats.len() {
                    assert(self@.stats[j] == old_view.stats[j]);
                }
            }
            assert forall|n: Seq<char>| #[trigger] has_stat(self@.stats, n) <==> self@.name_taken(n) by {
                assert(has_stat(self@.stats, n) <==> has_stat(old_view.stats, n) || stat.name@ == n);
                assert(has_name(self@.custom, n) <==> has_name(old_view.custom, n) || link.name@ == n);
            }
            assert forall|n: Seq<char>| !(#[trigger] has_name(self@.canonical, n) && has_name(self@.custom, n)) by {
                assert(has_name(self@.custom, n) <==> has_name(old_view.custom, n) || link.name@ == n);
            }
        }
        Some(result)
    }

    /// Resolves `name` and, when it is known, records one visit at `now` from `ip_addr`.
    pub fn find_target(&mut self, name: &str, ip_addr: Option<String>, now: i64) -> (r: Option<String>)
        requires
            old(self)@.wf(),
        ensures
            resolved(old(self)@, name@, opt_view(ip_addr), now, opt_view(r), final(self)@),
    {
        let target = self.lookup(name);
        if target.is_some() {
            let ghost old_view = self@;
            self.visits.push(Visit { name: name.to_owned(), visit: now, ip_addr });
            proof {
                assert(self@.visits.drop_last() == old_view.visits);
                assert(self@.stats == old_view.stats);
                assert(self@.canonical == old_view.canonical);
                assert(self@.custom == old_view.custom);
            }
        }
        target
    }
}

} // verus!
