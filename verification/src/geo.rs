//! Geolocation of client addresses: which addresses are never looked up, the
//! cache that remembers both answers and failures, and the steps of a lookup
//! around the one network request that it may need.

use crate::ip::{ip_numbers, parse_ip, IpAddress, IpNumbers};
use crate::text::{chars_of, copy_range, has_prefix, same_text, string_of};
use dashmap::DashMap;
use std::collections::hash_map::RandomState;
use vstd::prelude::*;
use vstd::string::StringExecFns;

verus! {

/// Geolocation data for a single IP address.
#[derive(Debug, Clone)]
pub struct GeoInfo {
    pub country: String,
    pub region: String,
    pub city: String,
}

/// What a `GeoInfo` says, as character sequences.
pub struct GeoPlace {
    pub country: Seq<char>,
    pub region: Seq<char>,
    pub city: Seq<char>,
}

impl View for GeoInfo {
    type V = GeoPlace;

    open spec fn view(&self) -> GeoPlace {
        GeoPlace { country: self.country@, region: self.region@, city: self.city@ }
    }
}

/// What an optional `GeoInfo` says.
pub open spec fn place_of(info: Option<GeoInfo>) -> Option<GeoPlace> {
    match info {
        Some(g) => Some(g@),
        None => None,
    }
}

impl GeoInfo {
    /// A copy with the same three texts.
    pub fn duplicate(&self) -> (r: GeoInfo)
        ensures
            r@ == self@,
    {
        GeoInfo {
            country: self.country.clone(),
            region: self.region.clone(),
            city: self.city.clone(),
        }
    }
}

/// A copy of an optional `GeoInfo`.
pub fn duplicate_info(info: &Option<GeoInfo>) -> (r: Option<GeoInfo>)
    ensures
        place_of(r) == place_of(*info),
{
    match info {
        Some(g) => Some(g.duplicate()),
        None => None,
    }
}

/// The entries that a map of looked-up addresses holds: each address with
/// the place found for it, or with `None` where the lookup gave nothing.
pub uninterp spec fn geo_entries(m: DashMap<String, Option<GeoInfo>, RandomState>) -> Map<
    Seq<char>,
    Option<GeoPlace>,
>;

/// `DashMap::new`: a map without entries.
#[verifier::external_body]
fn geo_map_new() -> (m: DashMap<String, Option<GeoInfo>, RandomState>)
    ensures
        geo_entries(m) =~= map![],
{
    DashMap::new()
}

/// `DashMap::get`, with the entry cloned out of the guard: what is stored
/// under the key, if anything is.
#[verifier::external_body]
fn geo_map_get(m: &DashMap<String, Option<GeoInfo>, RandomState>, key: &str) -> (r: Option<
    Option<GeoInfo>,
>)
    ensures
        r is Some == geo_entries(*m).contains_key(key@),
        r is Some ==> place_of(r.unwrap()) == geo_entries(*m)[key@],
{
    m.get(key).map(|e| e.clone())
}

/// `DashMap::insert`: the key maps to the value afterwards, whether or not it
/// was present, and no other key changes.
#[verifier::external_body]
fn geo_map_insert(
    m: &mut DashMap<String, Option<GeoInfo>, RandomState>,
    key: String,
    value: Option<GeoInfo>,
)
    ensures
        geo_entries(*final(m)) == geo_entries(*old(m)).insert(key@, place_of(value)),
{
    m.insert(key, value);
}

/// In-memory cache from IP address to what a lookup gave for it. An entry
/// with `None` records a lookup that failed or gave no data; an address
/// without an entry was never looked up.
#[derive(Debug)]
pub struct GeoCache {
    inner: DashMap<String, Option<GeoInfo>, RandomState>,
}

impl View for GeoCache {
    type V = Map<Seq<char>, Option<GeoPlace>>;

    closed spec fn view(&self) -> Map<Seq<char>, Option<GeoPlace>> {
        geo_entries(self.inner)
    }
}

impl GeoCache {
    /// A cache in which no address was looked up yet.
    pub fn new() -> (c: Self)
        ensures
            c@ == Map::<Seq<char>, Option<GeoPlace>>::empty(),
    {
        GeoCache { inner: geo_map_new() }
    }

    /// The entry of an address: `None` if it was never looked up,
    /// `Some(None)` if its lookup gave nothing.
    pub fn get(&self, ip: &str) -> (r: Option<Option<GeoInfo>>)
        ensures
            r is Some == self@.contains_key(ip@),
            r is Some ==> place_of(r.unwrap()) == self@[ip@],
    {
        geo_map_get(&self.inner, ip)
    }

    /// Records what a lookup gave, replacing an earlier entry.
    pub fn set(&mut self, ip: &str, info: Option<GeoInfo>)
        ensures
            final(self)@ == old(self)@.insert(ip@, place_of(info)),
    {
        geo_map_insert(&mut self.inner, ip.to_owned(), info);
    }
}

impl Default for GeoCache {
    fn default() -> (c: Self)
        ensures
            c@ == Map::<Seq<char>, Option<GeoPlace>>::empty(),
    {
        GeoCache::new()
    }
}

/// Seconds after which a lookup request is given up.
pub const LOOKUP_TIMEOUT_SECS: u64 = 3;

/// The prefix `::ffff:` by which an IPv4 address is written as an IPv6 one.
pub open spec fn mapped_prefix() -> Seq<char> {
    seq![':', ':', 'f', 'f', 'f', 'f', ':']
}

/// The address without the prefix `::ffff:`, if it has one.
pub open spec fn normalized(ip: Seq<char>) -> Seq<char> {
    if has_prefix(ip, mapped_prefix()) {
        ip.skip(7)
    } else {
        ip
    }
}

/// IPv4 addresses that are never looked up: loopback (127.0.0.0/8),
/// link-local (169.254.0.0/16), the unspecified and the broadcast address,
/// and the private ranges 10.0.0.0/8, 172.16.0.0/12 and 192.168.0.0/16.
pub open spec fn private_v4(o: Seq<u8>) -> bool {
    o[0] == 127 || (o[0] == 169 && o[1] == 254) || (o[0] == 0 && o[1] == 0 && o[2] == 0 && o[3]
        == 0) || (o[0] == 255 && o[1] == 255 && o[2] == 255 && o[3] == 255) || o[0] == 10 || (o[0]
        == 172 && 16 <= o[1] <= 31) || (o[0] == 192 && o[1] == 168)
}

/// IPv6 addresses that are never looked up: loopback (`::1`), the unspecified
/// address (`::`), link-local (fe80::/10) and unique-local (fc00::/7).
pub open spec fn private_v6(g: Seq<u16>) -> bool {
    g == seq![0u16, 0u16, 0u16, 0u16, 0u16, 0u16, 0u16, 1u16] || g == seq![
        0u16,
        0u16,
        0u16,
        0u16,
        0u16,
        0u16,
        0u16,
        0u16,
    ] || 0xfe80 <= g[0] <= 0xfebf || 0xfc00 <= g[0] <= 0xfdff
}

/// Whether an address in text is never sent to the geolocation service:
/// after the prefix `::ffff:` is taken off, it is no IP address at all, or
/// one of a private, loopback, link-local or otherwise reserved range.
pub open spec fn private_address(ip: Seq<char>) -> bool {
    match ip_numbers(normalized(ip)) {
        Some(IpNumbers::V4(o)) => private_v4(o),
        Some(IpNumbers::V6(g)) => private_v6(g),
        None => true,
    }
}

/// The address as it is looked up and cached: without the prefix `::ffff:`.
pub fn normalize(ip: &str) -> (r: Vec<char>)
    ensures
        r@ == normalized(ip@),
{
    let v: Vec<char> = chars_of(ip);
    let n: usize = v.len();
    if n >= 7 && v[0] == ':' && v[1] == ':' && v[2] == 'f' && v[3] == 'f' && v[4] == 'f' && v[5]
        == 'f' && v[6] == ':' {
        assert(v@.take(7) =~= mapped_prefix());
        assert(v@.subrange(7, n as int) =~= v@.skip(7));
        copy_range(&v, 7, n)
    } else {
        assert(!has_prefix(v@, mapped_prefix())) by {
            if has_prefix(v@, mapped_prefix()) {
                let p = v@.take(7);
                assert(p[0] == v@[0] && p[1] == v@[1] && p[2] == v@[2] && p[3] == v@[3] && p[4]
                    == v@[4] && p[5] == v@[5] && p[6] == v@[6]);
            }
        }
        v
    }
}

fn is_private_v4(o: &Vec<u8>) -> (r: bool)
    requires
        o@.len() == 4,
    ensures
        r == private_v4(o@),
{
    o[0] == 127 || (o[0] == 169 && o[1] == 254) || (o[0] == 0 && o[1] == 0 && o[2] == 0 && o[3]
        == 0) || (o[0] == 255 && o[1] == 255 && o[2] == 255 && o[3] == 255) || o[0] == 10 || (o[0]
        == 172 && o[1] >= 16 && o[1] <= 31) || (o[0] == 192 && o[1] == 168)
}

fn is_private_v6(g: &Vec<u16>) -> (r: bool)
    requires
        g@.len() == 8,
    ensures
        r == private_v6(g@),
{
    let first: u16 = g[0];
    let zeros: bool = g[0] == 0 && g[1] == 0 && g[2] == 0 && g[3] == 0 && g[4] == 0 && g[5] == 0
        && g[6] == 0;
    assert((first & 0xffc0 == 0xfe80) == (0xfe80 <= first <= 0xfebf)) by (bit_vector);
    assert((first & 0xfe00 == 0xfc00) == (0xfc00 <= first <= 0xfdff)) by (bit_vector);
    proof {
        let one = seq![0u16, 0u16, 0u16, 0u16, 0u16, 0u16, 0u16, 1u16];
        let none = seq![0u16, 0u16, 0u16, 0u16, 0u16, 0u16, 0u16, 0u16];
        if zeros && g[7] == 1 {
            assert(g@ =~= one);
        }
        if zeros && g[7] == 0 {
            assert(g@ =~= none);
        }
        if g@ == one {
            assert(one[0] == 0 && one[1] == 0 && one[2] == 0 && one[3] == 0 && one[4] == 0
                && one[5] == 0 && one[6] == 0 && one[7] == 1);
        }
        if g@ == none {
            assert(none[0] == 0 && none[1] == 0 && none[2] == 0 && none[3] == 0 && none[4] == 0
                && none[5] == 0 && none[6] == 0 && none[7] == 0);
        }
    }
    (zeros && g[7] == 1) || (zeros && g[7] == 0) || (first & 0xffc0) == 0xfe80 || (first & 0xfe00)
        == 0xfc00
}

/// Whether the address should never be sent to the geolocation service.
pub fn is_private(ip_str: &str) -> (r: bool)
    ensures
        r == private_address(ip_str@),
{
    let v: Vec<char> = normalize(ip_str);
    match parse_ip(&v) {
        Some(IpAddress::V4(o)) => is_private_v4(&o),
        Some(IpAddress::V6(g)) => is_private_v6(&g),
        None => true,
    }
}

/// The answer of the geolocation service to one request, as its JSON body
/// gives it.
#[derive(Debug, Clone)]
pub struct IpApiResponse {
    pub status: String,
    pub country: Option<String>,
    pub region_name: Option<String>,
    pub city: Option<String>,
}

/// How a request to the geolocation service ended.
#[derive(Debug, Clone)]
pub enum GeoReply {
    /// The request failed or timed out, or its body could not be read.
    Unavailable,
    /// The service answered.
    Answer(IpApiResponse),
}

/// The text of an optional field, empty where the field is missing.
pub open spec fn text_or_empty(field: Option<String>) -> Seq<char> {
    match field {
        Some(s) => s@,
        None => Seq::<char>::empty(),
    }
}

/// What an answer says: nothing unless its status is `success` and one of
/// country, region and city is not blank; a missing field counts as blank.
pub open spec fn answer_place(a: IpApiResponse) -> Option<GeoPlace> {
    let country = text_or_empty(a.country);
    let region = text_or_empty(a.region_name);
    let city = text_or_empty(a.city);
    if a.status@ != "success"@ || (country.len() == 0 && region.len() == 0 && city.len() == 0) {
        None
    } else {
        Some(GeoPlace { country, region, city })
    }
}

/// What a reply says: nothing where the request failed.
pub open spec fn reply_place(reply: GeoReply) -> Option<GeoPlace> {
    match reply {
        GeoReply::Unavailable => None,
        GeoReply::Answer(a) => answer_place(a),
    }
}

fn field_text(field: &Option<String>) -> (r: String)
    ensures
        r@ == text_or_empty(*field),
{
    match field {
        Some(s) => s.clone(),
        None => String::new(),
    }
}

/// Reads a reply of the geolocation service. A failed request, a status
/// other than `success` and an answer whose three fields are all blank give
/// `None`.
pub fn interpret_reply(reply: &GeoReply) -> (r: Option<GeoInfo>)
    ensures
        place_of(r) == reply_place(*reply),
{
    match reply {
        GeoReply::Unavailable => None,
        GeoReply::Answer(a) => {
            if !same_text(a.status.as_str(), "success") {
                return None;
            }
            let country: String = field_text(&a.country);
            let region: String = field_text(&a.region_name);
            let city: String = field_text(&a.city);
            if country.as_str().is_empty() && region.as_str().is_empty()
                && city.as_str().is_empty() {
                return None;
            }
            Some(GeoInfo { country, region, city })
        },
    }
}

/// The address to request for an IP address: the service's JSON endpoint
/// with the address in its path, asking for the four fields that are read.
pub open spec fn request_url(ip: Seq<char>) -> Seq<char> {
    "http://ip-api.com/json/"@ + ip + "?fields=status,country,regionName,city"@
}

/// The URL of the one request that a lookup of `ip` makes.
pub fn lookup_url(ip: &str) -> (url: String)
    ensures
        url@ == request_url(ip@),
{
    let mut url: String = String::from_str("http://ip-api.com/json/");
    url.append(ip);
    url.append("?fields=status,country,regionName,city");
    url
}

/// What a lookup does next.
pub enum LookupStep {
    /// The result is known without a request.
    Done(Option<GeoInfo>),
    /// The address, as it is cached, has to be asked of the service.
    Fetch(String),
}

/// What a lookup does next, over character sequences.
pub enum LookupPlan {
    Done(Option<GeoPlace>),
    Fetch(Seq<char>),
}

impl View for LookupStep {
    type V = LookupPlan;

    open spec fn view(&self) -> LookupPlan {
        match self {
            LookupStep::Done(info) => LookupPlan::Done(place_of(*info)),
            LookupStep::Fetch(ip) => LookupPlan::Fetch(ip@),
        }
    }
}

/// The first step of a lookup. An address that is never looked up gives no
/// result, whatever the cache holds. Any other address is cached without the
/// prefix `::ffff:`: its entry, be it a place or a recorded failure, is the
/// result, and only an address without an entry is asked of the service.
pub open spec fn lookup_plan(ip: Seq<char>, cache: Map<Seq<char>, Option<GeoPlace>>) -> LookupPlan {
    if private_address(ip) {
        LookupPlan::Done(None)
    } else if cache.contains_key(normalized(ip)) {
        LookupPlan::Done(cache[normalized(ip)])
    } else {
        LookupPlan::Fetch(normalized(ip))
    }
}

/// Begins the lookup of `ip`: the result, or the address to ask the service
/// for. The caller makes the request to `lookup_url` of that address, and
/// hands its reply to `complete_lookup`.
pub fn lookup(ip: &str, cache: &GeoCache) -> (step: LookupStep)
    ensures
        step@ == lookup_plan(ip@, cache@),
{
    if is_private(ip) {
        return LookupStep::Done(None);
    }
    let key: String = string_of(&normalize(ip));
    match cache.get(key.as_str()) {
        Some(entry) => LookupStep::Done(entry),
        None => LookupStep::Fetch(key),
    }
}

/// Ends a lookup that made a request: whatever the reply says, a place or
/// nothing, is recorded under the address before it is returned, so that the
/// address is not asked for again.
pub fn complete_lookup(key: &str, reply: &GeoReply, cache: &mut GeoCache) -> (r: Option<GeoInfo>)
    ensures
        place_of(r) == reply_place(*reply),
        final(cache)@ == old(cache)@.insert(key@, reply_place(*reply)),
{
    let result: Option<GeoInfo> = interpret_reply(reply);
    cache.set(key, duplicate_info(&result));
    result
}

/// The addresses named as never looked up: 10.0.0.0/8, 172.16.0.0/12,
/// 192.168.0.0/16, 127.0.0.0/8, 169.254.0.0/16, `::1`, `::`, fe80::/10 and
/// fc00::/7.
pub open spec fn in_reserved_range(a: IpNumbers) -> bool {
    match a {
        IpNumbers::V4(o) => o[0] == 10 || (o[0] == 172 && 16 <= o[1] <= 31) || (o[0] == 192
            && o[1] == 168) || o[0] == 127 || (o[0] == 169 && o[1] == 254),
        IpNumbers::V6(g) => g == seq![0u16, 0u16, 0u16, 0u16, 0u16, 0u16, 0u16, 1u16] || g
            == seq![0u16, 0u16, 0u16, 0u16, 0u16, 0u16, 0u16, 0u16] || 0xfe80 <= g[0] <= 0xfebf
            || 0xfc00 <= g[0] <= 0xfdff,
    }
}

/// An address of a private, loopback or link-local range gives no result and
/// no request, whatever the cache holds; so does text that is no address.
pub proof fn lemma_reserved_addresses_are_not_fetched(
    ip: Seq<char>,
    cache: Map<Seq<char>, Option<GeoPlace>>,
)
    requires
        match ip_numbers(normalized(ip)) {
            Some(a) => in_reserved_range(a),
            None => true,
        },
    ensures
        lookup_plan(ip, cache) == LookupPlan::Done(None),
{
}

/// What a lookup gives in the end: what the cache held, or what the reply
/// to its request says.
pub open spec fn lookup_result(
    ip: Seq<char>,
    cache: Map<Seq<char>, Option<GeoPlace>>,
    reply: GeoReply,
) -> Option<GeoPlace> {
    match lookup_plan(ip, cache) {
        LookupPlan::Done(found) => found,
        LookupPlan::Fetch(_) => reply_place(reply),
    }
}

/// The cache when a lookup has ended: as it was where no request was made,
/// and with the reply entered under the address where one was.
pub open spec fn cache_after_lookup(
    ip: Seq<char>,
    cache: Map<Seq<char>, Option<GeoPlace>>,
    reply: GeoReply,
) -> Map<Seq<char>, Option<GeoPlace>> {
    match lookup_plan(ip, cache) {
        LookupPlan::Done(_) => cache,
        LookupPlan::Fetch(key) => cache.insert(key, reply_place(reply)),
    }
}

/// Once a lookup of an address has ended, with a place or with nothing, a
/// second lookup of the same address makes no request and gives the same
/// result, whatever came of the first request.
pub proof fn lemma_lookup_fetches_at_most_once(
    ip: Seq<char>,
    cache: Map<Seq<char>, Option<GeoPlace>>,
    reply: GeoReply,
)
    ensures
        lookup_plan(ip, cache_after_lookup(ip, cache, reply)) == LookupPlan::Done(
            lookup_result(ip, cache, reply),
        ),
{
}

} // verus!
