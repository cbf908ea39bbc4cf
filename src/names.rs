use vstd::prelude::*;

use rand::Rng;

verus! {

/// Length of a generated canonical name.
pub const NAME_LENGTH: usize = 7;

/// `c` is an ASCII letter or digit.
pub open spec fn is_alphanumeric(c: char) -> bool {
    ('A' <= c && c <= 'Z') || ('a' <= c && c <= 'z') || ('0' <= c && c <= '9')
}

/// `s` has the shape of a generated name: `NAME_LENGTH` ASCII letters and digits.
pub open spec fn is_generated_name(s: Seq<char>) -> bool {
    &&& s.len() == NAME_LENGTH
    &&& forall|i: int| 0 <= i < s.len() ==> is_alphanumeric(#[trigger] s[i])
}

/// Relies on rand's `Alphanumeric` distribution drawn through `thread_rng`:
/// every sample is one of the 62 ASCII letters and digits, and `take(len)`
/// keeps exactly `len` of them.
#[verifier::external_body]
fn random_alphanumeric(len: usize) -> (r: String)
    ensures
        r@.len() == len,
        forall|i: int| 0 <= i < r@.len() ==> is_alphanumeric(#[trigger] r@[i]),
{
    rand::thread_rng().sample_iter(rand::distributions::Alphanumeric).take(len).collect()
}

/// A fresh random candidate name; two calls may return anything of this shape.
pub fn random_name() -> (r: String)
    ensures
        is_generated_name(r@),
{
    random_alphanumeric(NAME_LENGTH)
}

} // verus!
