use linkly::geo::{
    complete_lookup, interpret_reply, lookup, lookup_url, normalize, GeoCache, GeoInfo, GeoReply,
    IpApiResponse, LookupStep, LOOKUP_TIMEOUT_SECS,
};

fn answer(status: &str, country: Option<&str>, region: Option<&str>, city: Option<&str>) -> GeoReply {
    GeoReply::Answer(IpApiResponse {
        status: status.to_string(),
        country: country.map(str::to_string),
        region_name: region.map(str::to_string),
        city: city.map(str::to_string),
    })
}

fn place(country: &str, region: &str, city: &str) -> GeoInfo {
    GeoInfo { country: country.to_string(), region: region.to_string(), city: city.to_string() }
}

fn same(a: &Option<GeoInfo>, b: &Option<GeoInfo>) -> bool {
    match (a, b) {
        (None, None) => true,
        (Some(x), Some(y)) => x.country == y.country && x.region == y.region && x.city == y.city,
        _ => false,
    }
}

#[test]
fn lookup_timeout_is_three_seconds() {
    assert_eq!(LOOKUP_TIMEOUT_SECS, 3);
}

#[test]
fn request_url_names_the_address_and_the_fields() {
    assert_eq!(
        lookup_url("8.8.8.8"),
        "http://ip-api.com/json/8.8.8.8?fields=status,country,regionName,city"
    );
    assert_eq!(
        lookup_url("2001:db8::1"),
        "http://ip-api.com/json/2001:db8::1?fields=status,country,regionName,city"
    );
}

#[test]
fn normalize_takes_the_mapped_prefix_off() {
    let text = |s: &str| normalize(s).into_iter().collect::<String>();
    assert_eq!(text("::ffff:1.2.3.4"), "1.2.3.4");
    assert_eq!(text("1.2.3.4"), "1.2.3.4");
    assert_eq!(text("::ffff:"), "");
    assert_eq!(text("::fff:1.2.3.4"), "::fff:1.2.3.4");
    assert_eq!(text("::FFFF:1.2.3.4"), "::FFFF:1.2.3.4");
    assert_eq!(text(""), "");
}

#[test]
fn successful_answer_gives_a_place() {
    let r = interpret_reply(&answer("success", Some("Germany"), Some("Berlin"), Some("Berlin")));
    assert!(same(&r, &Some(place("Germany", "Berlin", "Berlin"))));
}

#[test]
fn missing_fields_are_blank() {
    let r = interpret_reply(&answer("success", Some("Iceland"), None, Some("")));
    assert!(same(&r, &Some(place("Iceland", "", ""))));
    let r = interpret_reply(&answer("success", None, None, Some("Oslo")));
    assert!(same(&r, &Some(place("", "", "Oslo"))));
}

#[test]
fn answer_without_any_field_gives_nothing() {
    assert!(interpret_reply(&answer("success", None, None, None)).is_none());
    assert!(interpret_reply(&answer("success", Some(""), Some(""), Some(""))).is_none());
}

#[test]
fn other_status_gives_nothing() {
    assert!(interpret_reply(&answer("fail", Some("Germany"), Some("Berlin"), Some("Berlin"))).is_none());
    assert!(interpret_reply(&answer("", Some("Germany"), None, None)).is_none());
    assert!(interpret_reply(&answer("Success", Some("Germany"), None, None)).is_none());
    assert!(interpret_reply(&answer("success ", Some("Germany"), None, None)).is_none());
}

#[test]
fn failed_request_gives_nothing() {
    assert!(interpret_reply(&GeoReply::Unavailable).is_none());
}

#[test]
fn private_addresses_are_never_fetched() {
    let cache = GeoCache::new();
    for ip in [
        "10.0.0.1", "172.16.0.1", "172.31.255.255", "192.168.1.5", "127.0.0.1", "169.254.10.10",
        "::1", "::", "fe80::1", "fc00::1", "fdff::1", "::ffff:192.168.1.5", "garbage", "",
    ] {
        match lookup(ip, &cache) {
            LookupStep::Done(None) => {}
            LookupStep::Done(Some(_)) => panic!("{:?} has a place", ip),
            LookupStep::Fetch(key) => panic!("{:?} is fetched as {:?}", ip, key),
        }
    }
}

#[test]
fn private_address_ignores_the_cache() {
    let mut cache = GeoCache::new();
    cache.set("192.168.1.5", Some(place("Nowhere", "", "")));
    assert!(matches!(lookup("192.168.1.5", &cache), LookupStep::Done(None)));
}

#[test]
fn public_address_is_fetched_once() {
    let mut cache = GeoCache::new();
    let key = match lookup("8.8.8.8", &cache) {
        LookupStep::Fetch(key) => key,
        LookupStep::Done(_) => panic!("nothing was fetched"),
    };
    assert_eq!(key, "8.8.8.8");
    let reply = answer("success", Some("United States"), Some("California"), Some("Mountain View"));
    let first = complete_lookup(&key, &reply, &mut cache);
    assert!(same(&first, &Some(place("United States", "California", "Mountain View"))));
    match lookup("8.8.8.8", &cache) {
        LookupStep::Done(second) => assert!(same(&second, &first)),
        LookupStep::Fetch(_) => panic!("the address was fetched twice"),
    }
}

#[test]
fn failed_lookup_is_remembered() {
    let mut cache = GeoCache::new();
    let key = match lookup("1.1.1.1", &cache) {
        LookupStep::Fetch(key) => key,
        LookupStep::Done(_) => panic!("nothing was fetched"),
    };
    assert!(complete_lookup(&key, &GeoReply::Unavailable, &mut cache).is_none());
    assert!(matches!(cache.get("1.1.1.1"), Some(None)));
    assert!(matches!(lookup("1.1.1.1", &cache), LookupStep::Done(None)));
}

#[test]
fn empty_answer_is_remembered() {
    let mut cache = GeoCache::new();
    let reply = answer("fail", None, None, None);
    assert!(complete_lookup("9.9.9.9", &reply, &mut cache).is_none());
    assert!(matches!(lookup("9.9.9.9", &cache), LookupStep::Done(None)));
}

#[test]
fn mapped_address_is_cached_without_its_prefix() {
    let mut cache = GeoCache::new();
    let key = match lookup("::ffff:8.8.4.4", &cache) {
        LookupStep::Fetch(key) => key,
        LookupStep::Done(_) => panic!("nothing was fetched"),
    };
    assert_eq!(key, "8.8.4.4");
    let reply = answer("success", Some("United States"), None, None);
    complete_lookup(&key, &reply, &mut cache);
    assert!(matches!(lookup("8.8.4.4", &cache), LookupStep::Done(Some(_))));
    assert!(matches!(lookup("::ffff:8.8.4.4", &cache), LookupStep::Done(Some(_))));
}

#[test]
fn other_addresses_are_still_fetched() {
    let mut cache = GeoCache::new();
    complete_lookup("8.8.8.8", &GeoReply::Unavailable, &mut cache);
    assert!(matches!(lookup("8.8.4.4", &cache), LookupStep::Fetch(_)));
}

#[test]
fn geo_cache_tells_unknown_from_empty() {
    let mut cache = GeoCache::default();
    assert!(cache.get("8.8.8.8").is_none());
    cache.set("8.8.8.8", None);
    assert!(matches!(cache.get("8.8.8.8"), Some(None)));
    cache.set("8.8.8.8", Some(place("United States", "", "")));
    match cache.get("8.8.8.8") {
        Some(Some(g)) => assert_eq!(g.country, "United States"),
        _ => panic!("the entry was not replaced"),
    }
}

#[test]
fn duplicate_keeps_the_texts() {
    let g = place("France", "Normandy", "Caen");
    let d = g.duplicate();
    assert_eq!((d.country, d.region, d.city), (g.country, g.region, g.city));
}
