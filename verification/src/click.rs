//! The click-logging pipeline: what is recorded of a redirect, after the
//! response has gone out.
//!
//! The pipeline waits in turn for storage to give the link of the code, for
//! the geolocation service where the address was not looked up before, and
//! for storage to write the record. Each of the three is work of the caller:
//! `advance` takes what came back and says what to do next. A failure ends
//! the pipeline with a report and is never handed on.

use crate::geo::{
    complete_lookup, lookup, lookup_plan, place_of, private_address, reply_place, GeoCache,
    GeoInfo, GeoPlace, GeoReply, LookupPlan, LookupStep,
};
use crate::models::Link;
use crate::redirect::{agent_names, agent_profile, parse_user_agent, StorageLookup};
use crate::text::{copy_opt, opt_str, opt_text};
use vstd::prelude::*;

verus! {

/// What is known of a redirect when its response goes out.
#[derive(Debug, Clone)]
pub struct ClickRequest {
    pub short_code: String,
    pub ip: Option<String>,
    pub user_agent: Option<String>,
    pub referer: Option<String>,
    pub browser: Option<String>,
    pub os: Option<String>,
    pub device_type: Option<String>,
}

/// A click as it is written to storage.
#[derive(Debug, Clone)]
pub struct NewClick {
    pub link_id: i64,
    pub ip_address: Option<String>,
    pub user_agent: Option<String>,
    pub referer: Option<String>,
    pub browser: Option<String>,
    pub os: Option<String>,
    pub device_type: Option<String>,
    pub country: Option<String>,
    pub region: Option<String>,
    pub city: Option<String>,
}

/// `ClickRequest` over character sequences.
pub struct RequestFacts {
    pub short_code: Seq<char>,
    pub ip: Option<Seq<char>>,
    pub user_agent: Option<Seq<char>>,
    pub referer: Option<Seq<char>>,
    pub browser: Option<Seq<char>>,
    pub os: Option<Seq<char>>,
    pub device_type: Option<Seq<char>>,
}

/// `NewClick` over character sequences.
pub struct ClickFacts {
    pub link_id: i64,
    pub ip_address: Option<Seq<char>>,
    pub user_agent: Option<Seq<char>>,
    pub referer: Option<Seq<char>>,
    pub browser: Option<Seq<char>>,
    pub os: Option<Seq<char>>,
    pub device_type: Option<Seq<char>>,
    pub country: Option<Seq<char>>,
    pub region: Option<Seq<char>>,
    pub city: Option<Seq<char>>,
}

impl View for ClickRequest {
    type V = RequestFacts;

    open spec fn view(&self) -> RequestFacts {
        RequestFacts {
            short_code: self.short_code@,
            ip: opt_text(self.ip),
            user_agent: opt_text(self.user_agent),
            referer: opt_text(self.referer),
            browser: opt_text(self.browser),
            os: opt_text(self.os),
            device_type: opt_text(self.device_type),
        }
    }
}

impl View for NewClick {
    type V = ClickFacts;

    open spec fn view(&self) -> ClickFacts {
        ClickFacts {
            link_id: self.link_id,
            ip_address: opt_text(self.ip_address),
            user_agent: opt_text(self.user_agent),
            referer: opt_text(self.referer),
            browser: opt_text(self.browser),
            os: opt_text(self.os),
            device_type: opt_text(self.device_type),
            country: opt_text(self.country),
            region: opt_text(self.region),
            city: opt_text(self.city),
        }
    }
}

/// Why a pipeline ended without a record.
#[derive(Debug, Clone, Copy, PartialEq, Eq, Structural)]
pub enum ClickFailure {
    /// The link was gone when the pipeline asked for it.
    LinkGone,
    /// Storage could not be read.
    StorageFailed,
    /// The record could not be written.
    WriteFailed,
}

/// What a pipeline waits for.
#[derive(Debug, Clone)]
pub enum ClickState {
    /// For storage to give the link of the code.
    AwaitingLink(ClickRequest),
    /// For the geolocation service to answer for the address `key`.
    AwaitingGeo { key: String, click: NewClick },
    /// For storage to write the record.
    AwaitingWrite,
    /// For nothing: the pipeline has ended.
    Finished,
}

/// What came back from the work that a pipeline asked for.
#[derive(Debug, Clone)]
pub enum ClickEvent {
    /// Storage answered for the code.
    Link(StorageLookup),
    /// The geolocation service answered, or the request failed.
    Geo(GeoReply),
    /// Storage wrote the record, or failed to.
    Written(bool),
}

/// What the caller of a pipeline has to do next.
#[derive(Debug, Clone)]
pub enum ClickAction {
    /// Ask storage for the active link of this code.
    FindLink(String),
    /// Ask the geolocation service for this address.
    FetchGeo(String),
    /// Write this record.
    Write(NewClick),
    /// Report the failure; the pipeline has ended.
    Report(ClickFailure),
    /// Nothing.
    Stop,
}

/// `ClickState` over character sequences.
pub enum StateFacts {
    AwaitingLink(RequestFacts),
    AwaitingGeo { key: Seq<char>, click: ClickFacts },
    AwaitingWrite,
    Finished,
}

/// `ClickAction` over character sequences.
pub enum ActionFacts {
    FindLink(Seq<char>),
    FetchGeo(Seq<char>),
    Write(ClickFacts),
    Report(ClickFailure),
    Stop,
}

impl View for ClickState {
    type V = StateFacts;

    open spec fn view(&self) -> StateFacts {
        match self {
            ClickState::AwaitingLink(request) => StateFacts::AwaitingLink(request@),
            ClickState::AwaitingGeo { key, click } => StateFacts::AwaitingGeo {
                key: key@,
                click: click@,
            },
            ClickState::AwaitingWrite => StateFacts::AwaitingWrite,
            ClickState::Finished => StateFacts::Finished,
        }
    }
}

impl View for ClickAction {
    type V = ActionFacts;

    open spec fn view(&self) -> ActionFacts {
        match self {
            ClickAction::FindLink(code) => ActionFacts::FindLink(code@),
            ClickAction::FetchGeo(key) => ActionFacts::FetchGeo(key@),
            ClickAction::Write(click) => ActionFacts::Write(click@),
            ClickAction::Report(failure) => ActionFacts::Report(*failure),
            ClickAction::Stop => ActionFacts::Stop,
        }
    }
}

/// The record of a request for the link with the given id, before anything
/// is known of the place.
pub open spec fn drafted(request: RequestFacts, link_id: i64) -> ClickFacts {
    ClickFacts {
        link_id,
        ip_address: request.ip,
        user_agent: request.user_agent,
        referer: request.referer,
        browser: request.browser,
        os: request.os,
        device_type: request.device_type,
        country: None,
        region: None,
        city: None,
    }
}

/// The record with what a lookup gave: country, region and city of the place,
/// or none of the three where it gave nothing.
pub open spec fn located(click: ClickFacts, place: Option<GeoPlace>) -> ClickFacts {
    match place {
        Some(p) => ClickFacts {
            country: Some(p.country),
            region: Some(p.region),
            city: Some(p.city),
            ..click
        },
        None => ClickFacts { country: None, region: None, city: None, ..click },
    }
}

/// One step of the pipeline: the state and the action that follow when
/// `event` comes back in `state`, and what the geolocation cache holds then.
///
/// When the link is found, the record is drafted and the address, if there
/// is one, is looked up in the cache; a request is made only for an address
/// that has to be fetched. When the link is gone or storage failed, the
/// pipeline ends with a report. The answer of the geolocation service is
/// entered into the cache, whatever it says, and the record is written with
/// it. When the write has ended, the pipeline ends, with a report if it
/// failed. An event that the state does not wait for changes nothing.
pub open spec fn click_step(
    state: StateFacts,
    event: ClickEvent,
    geo: Map<Seq<char>, Option<GeoPlace>>,
) -> (StateFacts, ActionFacts, Map<Seq<char>, Option<GeoPlace>>) {
    match (state, event) {
        (StateFacts::AwaitingLink(request), ClickEvent::Link(StorageLookup::Found(link))) => {
            let click = drafted(request, link.id);
            match request.ip {
                Some(ip) => match lookup_plan(ip, geo) {
                    LookupPlan::Done(place) => (
                        StateFacts::AwaitingWrite,
                        ActionFacts::Write(located(click, place)),
                        geo,
                    ),
                    LookupPlan::Fetch(key) => (
                        StateFacts::AwaitingGeo { key, click },
                        ActionFacts::FetchGeo(key),
                        geo,
                    ),
                },
                None => (StateFacts::AwaitingWrite, ActionFacts::Write(click), geo),
            }
        },
        (StateFacts::AwaitingLink(_), ClickEvent::Link(StorageLookup::Missing)) => (
            StateFacts::Finished,
            ActionFacts::Report(ClickFailure::LinkGone),
            geo,
        ),
        (StateFacts::AwaitingLink(_), ClickEvent::Link(StorageLookup::Failed)) => (
            StateFacts::Finished,
            ActionFacts::Report(ClickFailure::StorageFailed),
            geo,
        ),
        (StateFacts::AwaitingGeo { key, click }, ClickEvent::Geo(reply)) => (
            StateFacts::AwaitingWrite,
            ActionFacts::Write(located(click, reply_place(reply))),
            geo.insert(key, reply_place(reply)),
        ),
        (StateFacts::AwaitingWrite, ClickEvent::Written(done)) => (
            StateFacts::Finished,
            if done {
                ActionFacts::Stop
            } else {
                ActionFacts::Report(ClickFailure::WriteFailed)
            },
            geo,
        ),
        (other, _) => (other, ActionFacts::Stop, geo),
    }
}

impl ClickRequest {
    /// What is known of a redirect of `short_code`: the client's address,
    /// user agent and referer as the request gave them, and browser,
    /// operating system and device category as the user agent tells them.
    pub fn new(
        short_code: &str,
        ip: Option<&str>,
        user_agent: Option<&str>,
        referer: Option<&str>,
    ) -> (request: ClickRequest)
        ensures
            request@.short_code == short_code@,
            request@.ip == opt_str(ip),
            request@.user_agent == opt_str(user_agent),
            request@.referer == opt_str(referer),
            (request@.browser, request@.os, request@.device_type) == match user_agent {
                Some(s) => if s@.len() == 0 {
                    (None, None, None)
                } else {
                    agent_names(agent_profile(s@))
                },
                None => (None, None, None),
            },
    {
        let (browser, os, device_type) = parse_user_agent(user_agent);
        ClickRequest {
            short_code: short_code.to_owned(),
            ip: own_opt(ip),
            user_agent: own_opt(user_agent),
            referer: own_opt(referer),
            browser,
            os,
            device_type,
        }
    }
}

fn own_opt(o: Option<&str>) -> (r: Option<String>)
    ensures
        opt_text(r) == opt_str(o),
{
    match o {
        Some(s) => Some(s.to_owned()),
        None => None,
    }
}

fn draft(request: ClickRequest, link_id: i64) -> (click: NewClick)
    ensures
        click@ == drafted(request@, link_id),
{
    NewClick {
        link_id,
        ip_address: request.ip,
        user_agent: request.user_agent,
        referer: request.referer,
        browser: request.browser,
        os: request.os,
        device_type: request.device_type,
        country: None,
        region: None,
        city: None,
    }
}

fn locate(click: NewClick, info: Option<GeoInfo>) -> (r: NewClick)
    ensures
        r@ == located(click@, place_of(info)),
{
    let mut r: NewClick = click;
    match info {
        Some(g) => {
            r.country = Some(g.country);
            r.region = Some(g.region);
            r.city = Some(g.city);
        },
        None => {
            r.country = None;
            r.region = None;
            r.city = None;
        },
    }
    r
}

/// Starts the pipeline for a redirect: it waits for the link of the code,
/// which the caller asks of storage, not of the cache.
pub fn begin(request: ClickRequest) -> (r: (ClickState, ClickAction))
    ensures
        r.0@ == StateFacts::AwaitingLink(request@),
        r.1@ == ActionFacts::FindLink(request@.short_code),
{
    let code: String = request.short_code.clone();
    (ClickState::AwaitingLink(request), ClickAction::FindLink(code))
}

/// Takes the pipeline one step on, with what came back from the work that it
/// asked for.
pub fn advance(state: ClickState, event: ClickEvent, geo: &mut GeoCache) -> (r: (
    ClickState,
    ClickAction,
))
    ensures
        (r.0@, r.1@, final(geo)@) == click_step(state@, event, old(geo)@),
{
    match state {
        ClickState::AwaitingLink(request) => match event {
            ClickEvent::Link(StorageLookup::Found(link)) => {
                let address: Option<String> = copy_opt(&request.ip);
                let click: NewClick = draft(request, link.id);
                match address {
                    Some(ip) => match lookup(ip.as_str(), geo) {
                        LookupStep::Done(info) => (
                            ClickState::AwaitingWrite,
                            ClickAction::Write(locate(click, info)),
                        ),
                        LookupStep::Fetch(key) => {
                            let asked: String = key.clone();
                            (ClickState::AwaitingGeo { key, click }, ClickAction::FetchGeo(asked))
                        },
                    },
                    None => (ClickState::AwaitingWrite, ClickAction::Write(click)),
                }
            },
            ClickEvent::Link(StorageLookup::Missing) => (
                ClickState::Finished,
                ClickAction::Report(ClickFailure::LinkGone),
            ),
            ClickEvent::Link(StorageLookup::Failed) => (
                ClickState::Finished,
                ClickAction::Report(ClickFailure::StorageFailed),
            ),
            _ => (ClickState::AwaitingLink(request), ClickAction::Stop),
        },
        ClickState::AwaitingGeo { key, click } => match event {
            ClickEvent::Geo(reply) => {
                let info: Option<GeoInfo> = complete_lookup(key.as_str(), &reply, geo);
                (ClickState::AwaitingWrite, ClickAction::Write(locate(click, info)))
            },
            _ => (ClickState::AwaitingGeo { key, click }, ClickAction::Stop),
        },
        ClickState::AwaitingWrite => match event {
            ClickEvent::Written(done) => {
                if done {
                    (ClickState::Finished, ClickAction::Stop)
                } else {
                    (ClickState::Finished, ClickAction::Report(ClickFailure::WriteFailed))
                }
            },
            _ => (ClickState::AwaitingWrite, ClickAction::Stop),
        },
        ClickState::Finished => (ClickState::Finished, ClickAction::Stop),
    }
}

/// A click from an address that is never looked up is written without
/// country, region and city, and without a request to the geolocation
/// service; the cache stays as it is.
pub proof fn lemma_private_click_has_no_place(
    request: RequestFacts,
    link: Link,
    geo: Map<Seq<char>, Option<GeoPlace>>,
)
    requires
        request.ip is Some,
        private_address(request.ip.unwrap()),
    ensures
        click_step(
            StateFacts::AwaitingLink(request),
            ClickEvent::Link(StorageLookup::Found(link)),
            geo,
        ) == (
            StateFacts::AwaitingWrite,
            ActionFacts::Write(drafted(request, link.id)),
            geo,
        ),
{
}

} // verus!
