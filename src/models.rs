use vstd::prelude::*;

verus! {

/// A short name together with the URL it redirects to.
pub struct Shortlink {
    pub name: String,
    pub target: String,
}

/// A canonical entry to insert: the name is chosen by the library.
pub struct CanonicalShortlink {
    pub name: String,
    pub target: String,
}

/// A custom entry to insert: the name is chosen by the caller.
pub struct CustomShortlink {
    pub name: String,
    pub target: String,
}

/// When a shortlink was created, in seconds since the Unix epoch.
pub struct Stat {
    pub name: String,
    pub created_on: i64,
}

/// One successful resolution of a name: when, and from which address if known.
pub struct Visit {
    pub name: String,
    pub visit: i64,
    pub ip_addr: Option<String>,
}

/// Seconds in a calendar day.
pub const SECONDS_PER_DAY: i64 = 86400;

/// The calendar day, counted from 1970-01-01, on which a timestamp falls.
pub open spec fn day_of(timestamp: int) -> int {
    timestamp / (SECONDS_PER_DAY as int)
}

/// Some entry of `s` carries the name `n`.
pub open spec fn has_name(s: Seq<Shortlink>, n: Seq<char>) -> bool {
    exists|i: int| 0 <= i < s.len() && #[trigger] s[i].name@ == n
}

/// Some entry of `s` points at the target `t`.
pub open spec fn has_target(s: Seq<Shortlink>, t: Seq<char>) -> bool {
    exists|i: int| 0 <= i < s.len() && #[trigger] s[i].target@ == t
}

/// No two entries of `s` share a name.
pub open spec fn names_unique(s: Seq<Shortlink>) -> bool {
    forall|i: int, j: int|
        0 <= i < s.len() && 0 <= j < s.len() && i != j ==> #[trigger] s[i].name@ != #[trigger] s[j].name@
}

/// No two entries of `s` share a target.
pub open spec fn targets_unique(s: Seq<Shortlink>) -> bool {
    forall|i: int, j: int|
        0 <= i < s.len() && 0 <= j < s.len() && i != j ==> #[trigger] s[i].target@ != #[trigger] s[j].target@
}

/// The entry of `s` that carries the name `n` (meaningful when `has_name(s, n)`).
pub open spec fn entry_named(s: Seq<Shortlink>, n: Seq<char>) -> Shortlink {
    s[choose|i: int| 0 <= i < s.len() && #[trigger] s[i].name@ == n]
}

/// The entry of `s` that points at `t` (meaningful when `has_target(s, t)`).
pub open spec fn entry_for_target(s: Seq<Shortlink>, t: Seq<char>) -> Shortlink {
    s[choose|i: int| 0 <= i < s.len() && #[trigger] s[i].target@ == t]
}

} // verus!
