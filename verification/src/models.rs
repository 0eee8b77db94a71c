//! The records of the service as they come from and go to storage.

use chrono::NaiveDateTime;
use vstd::prelude::*;

verus! {

/// `chrono::NaiveDateTime`, a date and time without a time zone. It is
/// carried through unread.
#[verifier::external_type_specification]
#[verifier::external_body]
pub struct ExNaiveDateTime(NaiveDateTime);

/// `NaiveDateTime::clone`, which the type derives together with `Copy`: the
/// same date and time.
pub assume_specification[ <NaiveDateTime as Clone>::clone ](t: &NaiveDateTime) -> (r:
    NaiveDateTime)
    ensures
        r == *t,
;

/// A shortened link.
#[derive(Debug, Clone)]
pub struct Link {
    pub id: i64,
    pub short_code: String,
    pub original_url: String,
    pub title: Option<String>,
    pub description: Option<String>,
    pub created_at: NaiveDateTime,
    pub is_active: bool,
}

/// A single recorded click.
#[derive(Debug, Clone)]
pub struct Click {
    pub id: i64,
    pub link_id: i64,
    pub clicked_at: NaiveDateTime,
    pub ip_address: Option<String>,
    pub user_agent: Option<String>,
    pub referer: Option<String>,
    pub browser: Option<String>,
    pub os: Option<String>,
    pub device_type: Option<String>,
    pub country: Option<String>,
    pub region: Option<String>,
    pub city: Option<String>,
}

/// A link with the number of its clicks.
#[derive(Debug, Clone)]
pub struct LinkWithStats {
    pub id: i64,
    pub short_code: String,
    pub original_url: String,
    pub title: Option<String>,
    pub description: Option<String>,
    pub created_at: NaiveDateTime,
    pub is_active: bool,
    pub click_count: i64,
}

/// What the analytics page of one link shows.
#[derive(Debug, Clone)]
pub struct AnalyticsSummary {
    pub link: Link,
    pub total_clicks: i64,
    pub unique_ips: i64,
    pub clicks: Vec<Click>,
}

} // verus!
