use vstd::prelude::*;
use vstd::string::StringExecFns;

use crate::allocation::AllocationError;
use crate::models::{entry_for_target, has_target};
use crate::names::is_generated_name;
use crate::store::{link_appended, opt_view, stat_appended, ShortlinkStore, StoreView};

verus! {

/// A request to create a shortlink: with a name it asks for that custom name,
/// without one for the canonical name of the target.
pub struct CreateRequest {
    pub name: Option<String>,
    pub target: String,
}

/// The name given to a target.
pub struct CreateResponse {
    pub name: String,
    pub target: String,
}

/// Why a creation request was refused.
pub enum CreateError {
    /// The requested custom name is already in use.
    ShortlinkAlreadyExists(String),
    /// The target is not a URL.
    InvalidTarget(String),
    /// No free canonical name was found within the allowed attempts.
    NamesExhausted,
}

/// Whether the url crate accepts `s` as an absolute URL.
pub uninterp spec fn parses_as_url(s: Seq<char>) -> bool;

/// Relies on `url::Url::parse`: whether it succeeds depends on the input alone.
#[verifier::external_body]
fn is_url(s: &str) -> (r: bool)
    ensures
        r == parses_as_url(s@),
{
    url::Url::parse(s).is_ok()
}

/// Checks that `target` is a URL; the error carries the target back.
pub fn check_target(target: &str) -> (r: Result<(), CreateError>)
    ensures
        parses_as_url(target@) ==> r is Ok,
        !parses_as_url(target@) ==> (r matches Err(CreateError::InvalidTarget(t)) && t@ == target@),
{
    if is_url(target) {
        Ok(())
    } else {
        Err(CreateError::InvalidTarget(target.to_owned()))
    }
}

/// `prefix`, then `subject` between double quotes.
pub open spec fn quoted_message(prefix: Seq<char>, subject: Seq<char>) -> Seq<char> {
    prefix + seq!['"'] + subject + seq!['"']
}

/// Appends `subject` between double quotes to `prefix`.
fn quote_after(prefix: &str, subject: &str) -> (r: String)
    ensures
        r@ == quoted_message(prefix@, subject@),
{
    let mut text = prefix.to_owned();
    text.append("\"");
    text.append(subject);
    text.append("\"");
    proof {
        reveal_strlit("\"");
    }
    text
}

impl CreateError {
    /// The human-readable message that reports this error.
    pub fn message(&self) -> (r: String)
        ensures
            r@ == match self {
                CreateError::ShortlinkAlreadyExists(n) => quoted_message("Shortlink already exists: "@, n@),
                CreateError::InvalidTarget(t) => quoted_message("Invalid target: "@, t@),
                CreateError::NamesExhausted => "No free name could be found"@,
            },
    {
        match self {
            CreateError::ShortlinkAlreadyExists(n) => quote_after("Shortlink already exists: ", n.as_str()),
            CreateError::InvalidTarget(t) => quote_after("Invalid target: ", t.as_str()),
            CreateError::NamesExhausted => "No free name could be found".to_owned(),
        }
    }

    /// The HTTP status that reports this error.
    pub fn status_code(&self) -> (r: u16)
        ensures
            r == match self {
                CreateError::ShortlinkAlreadyExists(_) => 409u16,
                CreateError::InvalidTarget(_) => 400u16,
                CreateError::NamesExhausted => 500u16,
            },
    {
        match self {
            CreateError::ShortlinkAlreadyExists(_) => 409,
            CreateError::InvalidTarget(_) => 400,
            CreateError::NamesExhausted => 500,
        }
    }
}

/// What handling a creation request does to a valid store `old`, leaving `new`:
/// `valid` says whether the target is a URL, `req_name` is the requested custom
/// name if any, and `t` the target.
pub open spec fn create_outcome(
    old: StoreView,
    req_name: Option<Seq<char>>,
    t: Seq<char>,
    valid: bool,
    created_on: i64,
    r: Result<CreateResponse, CreateError>,
    new: StoreView,
) -> bool {
    &&& new.wf()
    &&& !valid ==> {
        &&& r matches Err(CreateError::InvalidTarget(x))
        &&& x@ == t
        &&& new == old
    }
    &&& valid ==> match req_name {
        Some(n) => if old.name_taken(n) {
            &&& r matches Err(CreateError::ShortlinkAlreadyExists(x))
            &&& x@ == n
            &&& new == old
        } else {
            &&& r matches Ok(resp)
            &&& resp.name@ == n
            &&& resp.target@ == t
            &&& new.canonical == old.canonical
            &&& link_appended(old.custom, new.custom, n, t)
            &&& stat_appended(old.stats, new.stats, n, created_on)
            &&& new.visits == old.visits
        },
        None => if has_target(old.canonical, t) {
            &&& r matches Ok(resp)
            &&& resp.name@ == entry_for_target(old.canonical, t).name@
            &&& resp.target@ == t
            &&& new == old
        } else {
            match r {
                Ok(resp) => {
                    &&& resp.target@ == t
                    &&& is_generated_name(resp.name@)
                    &&& !old.name_taken(resp.name@)
                    &&& link_appended(old.canonical, new.canonical, resp.name@, t)
                    &&& new.custom == old.custom
                    &&& stat_appended(old.stats, new.stats, resp.name@, created_on)
                    &&& new.visits == old.visits
                },
                Err(e) => e is NamesExhausted && new == old,
            }
        },
    }
    &&& valid && req_name is None && !has_target(old.canonical, t) && old.generated_names_free() ==> r is Ok
}

/// Handles a creation request at `created_on`, given whether its target is a URL.
pub fn create_validated(
    store: &mut ShortlinkStore,
    request: CreateRequest,
    target_is_url: bool,
    created_on: i64,
) -> (r: Result<CreateResponse, CreateError>)
    requires
        old(store)@.wf(),
    ensures
        create_outcome(old(store)@, opt_view(request.name), request.target@, target_is_url, created_on, r, final(store)@),
{
    if !target_is_url {
        return Err(CreateError::InvalidTarget(request.target));
    }
    match request.name {
        Some(name) => match store.create_custom_shortlink(name.as_str(), request.target.as_str(), created_on) {
            Some(link) => Ok(CreateResponse { name: link.name, target: request.target }),
            None => Err(CreateError::ShortlinkAlreadyExists(name)),
        },
        None => match store.create_shortlink(request.target.as_str(), created_on) {
            Ok(link) => Ok(CreateResponse { name: link.name, target: request.target }),
            Err(AllocationError::NamesExhausted) => Err(CreateError::NamesExhausted),
        },
    }
}

/// Handles a creation request at `created_on`; a target that is not a URL is refused.
pub fn create(store: &mut ShortlinkStore, request: CreateRequest, created_on: i64) -> (r: Result<CreateResponse, CreateError>)
    requires
        old(store)@.wf(),
    ensures
        create_outcome(
            old(store)@,
            opt_view(request.name),
            request.target@,
            parses_as_url(request.target@),
            created_on,
            r,
            final(store)@,
        ),
{
    let valid = is_url(request.target.as_str());
    create_validated(store, request, valid, created_on)
}

} // verus!
