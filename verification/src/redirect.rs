//! The redirect path: resolving a short code through the cache and, on a
//! miss, through storage; and what is known of the request that was made.

use crate::cache::LinkCache;
use crate::ip::{split_chars, split_on};
use crate::models::Link;
use crate::text::{chars_of, opt_str, opt_text, same_text, string_of, trim_chars, trimmed};
use vstd::prelude::*;
use woothee::parser::Parser;

verus! {

/// What storage answered when it was asked for the active link of a code.
#[derive(Debug, Clone)]
pub enum StorageLookup {
    /// The active link with that code.
    Found(Link),
    /// No active link has that code.
    Missing,
    /// Storage could not be read.
    Failed,
}

/// How the resolution of a short code ended.
#[derive(Debug, Clone)]
pub enum Resolution {
    /// The URL to redirect to.
    Destination(String),
    /// No active link has the code.
    NotFound,
    /// Storage could not be read; nothing is tried again.
    StorageError,
}

/// What the resolution of a short code does first.
#[derive(Debug, Clone)]
pub enum ResolveStep {
    /// The cache holds the code: this is its URL, and storage is not asked.
    Hit(String),
    /// The cache does not hold the code: storage has to be asked.
    AskStorage,
}

/// `Resolution` over character sequences.
pub enum Outcome {
    Destination(Seq<char>),
    NotFound,
    StorageError,
}

/// `ResolveStep` over character sequences.
pub enum ResolvePlan {
    Hit(Seq<char>),
    AskStorage,
}

impl View for Resolution {
    type V = Outcome;

    open spec fn view(&self) -> Outcome {
        match self {
            Resolution::Destination(url) => Outcome::Destination(url@),
            Resolution::NotFound => Outcome::NotFound,
            Resolution::StorageError => Outcome::StorageError,
        }
    }
}

impl View for ResolveStep {
    type V = ResolvePlan;

    open spec fn view(&self) -> ResolvePlan {
        match self {
            ResolveStep::Hit(url) => ResolvePlan::Hit(url@),
            ResolveStep::AskStorage => ResolvePlan::AskStorage,
        }
    }
}

/// The first step of a resolution: a cached code is answered from the cache,
/// any other goes to storage.
pub open spec fn resolve_plan(code: Seq<char>, cache: Map<Seq<char>, Seq<char>>) -> ResolvePlan {
    if cache.contains_key(code) {
        ResolvePlan::Hit(cache[code])
    } else {
        ResolvePlan::AskStorage
    }
}

/// How a resolution that asked storage ends.
pub open spec fn outcome_of(answer: StorageLookup) -> Outcome {
    match answer {
        StorageLookup::Found(link) => Outcome::Destination(link.original_url@),
        StorageLookup::Missing => Outcome::NotFound,
        StorageLookup::Failed => Outcome::StorageError,
    }
}

/// The cache after a resolution that asked storage: a link that was found is
/// entered under its code, and nothing changes otherwise.
pub open spec fn backfilled(cache: Map<Seq<char>, Seq<char>>, answer: StorageLookup) -> Map<
    Seq<char>,
    Seq<char>,
> {
    match answer {
        StorageLookup::Found(link) => cache.insert(link.short_code@, link.original_url@),
        _ => cache,
    }
}

/// Begins the resolution of a short code, in the cache alone.
pub fn resolve(code: &str, cache: &LinkCache) -> (step: ResolveStep)
    ensures
        step@ == resolve_plan(code@, cache@),
{
    match cache.get(code) {
        Some(url) => ResolveStep::Hit(url),
        None => ResolveStep::AskStorage,
    }
}

/// Ends a resolution that missed the cache, with what storage answered. A
/// link that was found is entered into the cache before its URL is returned.
pub fn resolve_from_storage(answer: &StorageLookup, cache: &mut LinkCache) -> (r: Resolution)
    ensures
        r@ == outcome_of(*answer),
        final(cache)@ == backfilled(old(cache)@, *answer),
{
    match answer {
        StorageLookup::Found(link) => {
            cache.set(link.short_code.as_str(), link.original_url.as_str());
            Resolution::Destination(link.original_url.clone())
        },
        StorageLookup::Missing => Resolution::NotFound,
        StorageLookup::Failed => Resolution::StorageError,
    }
}

/// The status of a redirect to the destination.
pub const STATUS_FOUND: u16 = 302;

/// The status where no active link has the code.
pub const STATUS_NOT_FOUND: u16 = 404;

/// The status where storage could not be read.
pub const STATUS_SERVER_ERROR: u16 = 500;

impl Resolution {
    /// The status of the response: a redirect for a destination, not found
    /// for an unknown code, and a server error where storage failed.
    pub fn status(&self) -> (code: u16)
        ensures
            code == match self@ {
                Outcome::Destination(_) => STATUS_FOUND,
                Outcome::NotFound => STATUS_NOT_FOUND,
                Outcome::StorageError => STATUS_SERVER_ERROR,
            },
    {
        match self {
            Resolution::Destination(_) => STATUS_FOUND,
            Resolution::NotFound => STATUS_NOT_FOUND,
            Resolution::StorageError => STATUS_SERVER_ERROR,
        }
    }

    /// The text shown where there is no destination; it says nothing of what
    /// failed.
    pub fn message(&self) -> (m: Option<String>)
        ensures
            opt_text(m) == match self@ {
                Outcome::Destination(_) => None,
                Outcome::NotFound => Some("Short link not found"@),
                Outcome::StorageError => Some("Internal error"@),
            },
    {
        match self {
            Resolution::Destination(_) => None,
            Resolution::NotFound => Some("Short link not found".to_owned()),
            Resolution::StorageError => Some("Internal error".to_owned()),
        }
    }

    /// Whether a click is to be logged: once for each redirect that found
    /// its destination, and for no other.
    pub fn logs_click(&self) -> (b: bool)
        ensures
            b == (self@ is Destination),
    {
        match self {
            Resolution::Destination(_) => true,
            _ => false,
        }
    }
}

/// A code that was entered into the cache resolves to the URL entered with
/// it, and storage is not asked.
pub proof fn lemma_cached_code_hits(
    cache: Map<Seq<char>, Seq<char>>,
    code: Seq<char>,
    url: Seq<char>,
)
    ensures
        resolve_plan(code, cache.insert(code, url)) == ResolvePlan::Hit(url),
{
}

/// A code that neither the cache nor storage holds is not found, and the
/// cache has no entry for it afterwards.
pub proof fn lemma_unknown_code_leaves_no_entry(cache: Map<Seq<char>, Seq<char>>, code: Seq<char>)
    requires
        !cache.contains_key(code),
    ensures
        resolve_plan(code, cache) == ResolvePlan::AskStorage,
        outcome_of(StorageLookup::Missing) == Outcome::NotFound,
        backfilled(cache, StorageLookup::Missing) == cache,
        !backfilled(cache, StorageLookup::Missing).contains_key(code),
{
}

/// A code that only storage holds resolves to the stored URL, and resolves
/// from the cache from then on.
pub proof fn lemma_found_code_is_backfilled(cache: Map<Seq<char>, Seq<char>>, link: Link)
    ensures
        outcome_of(StorageLookup::Found(link)) == Outcome::Destination(link.original_url@),
        resolve_plan(link.short_code@, backfilled(cache, StorageLookup::Found(link)))
            == ResolvePlan::Hit(link.original_url@),
{
}

/// What the user-agent parser makes of an agent string: the names of the
/// browser, of the operating system and of the device category, or nothing.
pub uninterp spec fn agent_profile(agent: Seq<char>) -> Option<(Seq<char>, Seq<char>, Seq<char>)>;

/// The three names of a profile as character sequences.
pub open spec fn profile_texts(p: Option<(String, String, String)>) -> Option<
    (Seq<char>, Seq<char>, Seq<char>),
> {
    match p {
        Some((name, os, category)) => Some((name@, os@, category@)),
        None => None,
    }
}

/// `woothee::parser::Parser::parse` on a new parser: the fields `name`, `os`
/// and `category` of its result, which depends on the agent string alone.
#[verifier::external_body]
fn parse_agent(agent: &str) -> (p: Option<(String, String, String)>)
    ensures
        profile_texts(p) == agent_profile(agent@),
{
    Parser::new().parse(agent).map(|w| (w.name.to_owned(), w.os.to_owned(), w.category.to_owned()))
}

/// A name that the parser gave, unless it is blank or `UNKNOWN`.
pub open spec fn known_name(name: Seq<char>) -> Option<Seq<char>> {
    if name.len() == 0 || name == "UNKNOWN"@ {
        None
    } else {
        Some(name)
    }
}

/// Browser, operating system and device category of a parsed agent string:
/// each is absent where the parser gave nothing, a blank or `UNKNOWN`.
pub open spec fn agent_names(profile: Option<(Seq<char>, Seq<char>, Seq<char>)>) -> (
    Option<Seq<char>>,
    Option<Seq<char>>,
    Option<Seq<char>>,
) {
    match profile {
        Some((name, os, category)) => (known_name(name), known_name(os), known_name(category)),
        None => (None, None, None),
    }
}

fn known(name: String) -> (r: Option<String>)
    ensures
        opt_text(r) == known_name(name@),
{
    if name.as_str().is_empty() || same_text(name.as_str(), "UNKNOWN") {
        None
    } else {
        Some(name)
    }
}

/// Browser, operating system and device category of what the parser gave.
pub fn agent_fields(profile: Option<(String, String, String)>) -> (r: (
    Option<String>,
    Option<String>,
    Option<String>,
))
    ensures
        (opt_text(r.0), opt_text(r.1), opt_text(r.2)) == agent_names(profile_texts(profile)),
{
    match profile {
        Some((name, os, category)) => (known(name), known(os), known(category)),
        None => (None, None, None),
    }
}

/// Browser, operating system and device category of a user agent. A missing
/// or empty agent string gives nothing, without the parser being asked.
pub fn parse_user_agent(ua: Option<&str>) -> (r: (Option<String>, Option<String>, Option<String>))
    ensures
        (opt_text(r.0), opt_text(r.1), opt_text(r.2)) == match ua {
            Some(s) => if s@.len() == 0 {
                (None, None, None)
            } else {
                agent_names(agent_profile(s@))
            },
            None => (None, None, None),
        },
{
    match ua {
        Some(s) => {
            if s.is_empty() {
                (None, None, None)
            } else {
                agent_fields(parse_agent(s))
            }
        },
        None => (None, None, None),
    }
}

/// The first entry of a comma-separated list, without the white space
/// around it.
pub open spec fn first_entry(list: Seq<char>) -> Seq<char> {
    trimmed(split_on(list, ',')[0])
}

/// The address of the client: the first entry of `X-Forwarded-For` if the
/// header is there and that entry is not blank, else `X-Real-IP` if that
/// header is there and not empty, else the address of the peer.
pub open spec fn client_ip(
    forwarded_for: Option<Seq<char>>,
    real_ip: Option<Seq<char>>,
    peer: Seq<char>,
) -> Seq<char> {
    if forwarded_for is Some && first_entry(forwarded_for.unwrap()).len() > 0 {
        first_entry(forwarded_for.unwrap())
    } else if real_ip is Some && real_ip.unwrap().len() > 0 {
        real_ip.unwrap()
    } else {
        peer
    }
}

/// Determines the address of the client from the two proxy headers and the
/// peer's address. It always gives one.
pub fn extract_ip(forwarded_for: Option<&str>, real_ip: Option<&str>, peer: &str) -> (r: Option<
    String,
>)
    ensures
        opt_text(r) == Some(client_ip(opt_str(forwarded_for), opt_str(real_ip), peer@)),
{
    if let Some(list) = forwarded_for {
        let pieces: Vec<Vec<char>> = split_chars(&chars_of(list), ',');
        assert(split_on(list@, ',').len() >= 1);
        let first: Vec<char> = trim_chars(&pieces[0]);
        if first.len() > 0 {
            return Some(string_of(&first));
        }
    }
    if let Some(ip) = real_ip {
        if !ip.is_empty() {
            return Some(ip.to_owned());
        }
    }
    Some(peer.to_owned())
}

} // verus!
