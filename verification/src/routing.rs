//! Trunk and route configuration, and the small decisions made on it: which
//! call directions a trunk or route admits, and what a route action does.

use crate::policy::{PolicySpec, RecordingPolicy};
use crate::sorted_map::SortedMap;
use crate::text::{str_eq, to_owned};
use vstd::prelude::*;

verus! {

/// Where a piece of configuration came from.
#[derive(Clone, Debug)]
pub enum ConfigOrigin {
    Embedded,
    File(String),
}

impl Default for ConfigOrigin {
    fn default() -> (r: Self)
        ensures
            r is Embedded,
    {
        ConfigOrigin::Embedded
    }
}

impl ConfigOrigin {
    /// Configuration built into the binary.
    pub fn embedded() -> (r: Self)
        ensures
            r is Embedded,
    {
        ConfigOrigin::Embedded
    }

    /// Configuration read from the file at `path`.
    pub fn from_file(path: &str) -> (r: Self)
        ensures
            r matches ConfigOrigin::File(p) && p@ == path@,
    {
        ConfigOrigin::File(to_owned(path))
    }
}

/// The direction of a call.
#[derive(Clone, Copy, PartialEq, Eq, Structural, Debug)]
pub enum DialDirection {
    Outbound,
    Inbound,
    Internal,
}

/// The text of a call direction.
pub open spec fn dial_direction_text(d: DialDirection) -> Seq<char> {
    match d {
        DialDirection::Outbound => "outbound"@,
        DialDirection::Inbound => "inbound"@,
        DialDirection::Internal => "internal"@,
    }
}

impl DialDirection {
    /// The lower-case name of the direction.
    pub fn as_str(&self) -> (r: &'static str)
        ensures
            r@ == dial_direction_text(*self),
    {
        match self {
            DialDirection::Outbound => "outbound",
            DialDirection::Inbound => "inbound",
            DialDirection::Internal => "internal",
        }
    }
}

/// The directions a trunk carries.
#[derive(Clone, Copy, PartialEq, Eq, Structural, Debug)]
pub enum TrunkDirection {
    Inbound,
    Outbound,
    Bidirectional,
}

/// Whether a trunk of direction `t` carries a call going `d`.
pub open spec fn trunk_allows(t: TrunkDirection, d: DialDirection) -> bool {
    match t {
        TrunkDirection::Inbound => d == DialDirection::Inbound,
        TrunkDirection::Outbound => d == DialDirection::Outbound,
        TrunkDirection::Bidirectional => true,
    }
}

/// An inbound or outbound trunk carries exactly one call direction, the one
/// of its own name, and a bidirectional trunk carries every direction: each
/// direction is carried by the bidirectional trunk and by the one-way trunk of
/// its name, and by no other.
pub proof fn law_trunk_carries_own_direction(t: TrunkDirection, d: DialDirection, d2: DialDirection)
    ensures
        t != TrunkDirection::Bidirectional && trunk_allows(t, d) && trunk_allows(t, d2) ==> d == d2,
        trunk_allows(TrunkDirection::Inbound, DialDirection::Inbound),
        trunk_allows(TrunkDirection::Outbound, DialDirection::Outbound),
        trunk_allows(TrunkDirection::Bidirectional, d),
        trunk_allows(t, DialDirection::Inbound) ==> t != TrunkDirection::Outbound,
        trunk_allows(t, DialDirection::Outbound) ==> t != TrunkDirection::Inbound,
        trunk_allows(t, DialDirection::Internal) ==> t == TrunkDirection::Bidirectional,
{
}

impl TrunkDirection {
    /// Whether this trunk carries a call going `direction`: an inbound or
    /// outbound trunk only its own direction, a bidirectional trunk any.
    pub fn allows(&self, direction: &DialDirection) -> (b: bool)
        ensures
            b == trunk_allows(*self, *direction),
            *self == TrunkDirection::Outbound ==> (b <==> *direction == DialDirection::Outbound),
            *self == TrunkDirection::Inbound ==> (b <==> *direction == DialDirection::Inbound),
            *self == TrunkDirection::Bidirectional ==> b,
    {
        match self {
            TrunkDirection::Inbound => match direction {
                DialDirection::Inbound => true,
                _ => false,
            },
            TrunkDirection::Outbound => match direction {
                DialDirection::Outbound => true,
                _ => false,
            },
            TrunkDirection::Bidirectional => true,
        }
    }
}

/// The trunk a call came in on.
#[derive(Clone, Debug)]
pub struct SourceTrunk {
    pub name: String,
    pub id: Option<i64>,
    pub direction: Option<TrunkDirection>,
}

/// What to do with calls over a trunk's capacity.
#[derive(Clone, Copy, PartialEq, Eq, Structural, Debug)]
pub enum CacPolicy {
    Lossy,
    Reject,
    Overflow,
}

/// How media is handled (`NoMedia` is the mode written `none` in configuration).
#[derive(Clone, Copy, PartialEq, Eq, Structural, Debug)]
pub enum MediaMode {
    NoMedia,
    Bypass,
    Auto,
    ForceTranscode,
}

/// What happens to video.
#[derive(Clone, Copy, PartialEq, Eq, Structural, Debug)]
pub enum VideoPolicy {
    PassThrough,
    Strip,
    Transcode,
}

/// A SIP header manipulation rule.
#[derive(Clone, Debug)]
pub struct HeaderRule {
    pub action: HeaderAction,
    pub name: String,
    pub value: Option<String>,
    pub match_caller_prefix: Option<String>,
    pub match_callee_prefix: Option<String>,
}

/// The kind of header manipulation (`SetValue` is the action written `set`).
#[derive(Clone, Copy, PartialEq, Eq, Structural, Debug)]
pub enum HeaderAction {
    Add,
    Remove,
    SetValue,
    Rename,
}

/// Whether the Call-ID passes through or is rewritten.
#[derive(Clone, Copy, PartialEq, Eq, Structural, Debug)]
pub enum CallIdMode {
    Transparent,
    Rewrite,
}

/// A SIP trunk's configuration.
#[derive(Debug)]
pub struct TrunkConfig {
    pub dest: String,
    pub backup_dest: Option<String>,
    pub username: Option<String>,
    pub password: Option<String>,
    pub codec: Vec<String>,
    pub disabled: Option<bool>,
    pub max_calls: Option<u32>,
    pub max_cps: Option<u32>,
    pub weight: Option<u32>,
    pub transport: Option<String>,
    pub id: Option<i64>,
    pub direction: Option<TrunkDirection>,
    pub inbound_hosts: Vec<String>,
    pub recording: Option<RecordingPolicy>,
    pub incoming_from_user_prefix: Option<String>,
    pub incoming_to_user_prefix: Option<String>,
    pub country: Option<String>,
    pub policy: Option<PolicySpec>,
    pub register_enabled: Option<bool>,
    pub register_expires: Option<u32>,
    pub register_extra_headers: Option<SortedMap<String>>,
    pub rewrite_hostport: bool,
    pub call_id_mode: Option<CallIdMode>,
    pub health_check_enabled: Option<bool>,
    pub health_check_per_ip: Option<bool>,
    pub health_check_interval_secs: Option<u64>,
    pub health_check_probe_count: Option<u32>,
    pub health_check_fallback_trunk: Option<String>,
    pub cac_policy: Option<CacPolicy>,
    pub overflow_threshold: Option<u32>,
    pub header_rules: Option<Vec<HeaderRule>>,
    pub media_mode: Option<MediaMode>,
    pub video_policy: Option<VideoPolicy>,
    pub origin: ConfigOrigin,
    pub did_numbers: Vec<String>,
}

impl Default for TrunkConfig {
    /// An empty trunk: nothing set, host and port rewriting on, built in.
    fn default() -> (r: Self)
        ensures
            r.dest@ == Seq::<char>::empty(),
            r.backup_dest is None && r.username is None && r.password is None,
            r.codec@.len() == 0 && r.inbound_hosts@.len() == 0 && r.did_numbers@.len() == 0,
            r.disabled is None && r.max_calls is None && r.max_cps is None && r.weight is None,
            r.transport is None && r.id is None && r.direction is None && r.recording is None,
            r.incoming_from_user_prefix is None && r.incoming_to_user_prefix is None,
            r.country is None && r.policy is None && r.register_enabled is None,
            r.register_expires is None && r.register_extra_headers is None,
            r.rewrite_hostport,
            r.call_id_mode is None && r.health_check_enabled is None && r.health_check_per_ip is None,
            r.health_check_interval_secs is None && r.health_check_probe_count is None,
            r.health_check_fallback_trunk is None && r.cac_policy is None && r.overflow_threshold is None,
            r.header_rules is None && r.media_mode is None && r.video_policy is None,
            r.origin is Embedded,
    {
        TrunkConfig {
            dest: String::new(),
            backup_dest: None,
            username: None,
            password: None,
            codec: Vec::new(),
            disabled: None,
            max_calls: None,
            max_cps: None,
            weight: None,
            transport: None,
            id: None,
            direction: None,
            inbound_hosts: Vec::new(),
            recording: None,
            incoming_from_user_prefix: None,
            incoming_to_user_prefix: None,
            country: None,
            policy: None,
            register_enabled: None,
            register_expires: None,
            register_extra_headers: None,
            rewrite_hostport: true,
            call_id_mode: None,
            health_check_enabled: None,
            health_check_per_ip: None,
            health_check_interval_secs: None,
            health_check_probe_count: None,
            health_check_fallback_trunk: None,
            cac_policy: None,
            overflow_threshold: None,
            header_rules: None,
            media_mode: None,
            video_policy: None,
            did_numbers: Vec::new(),
            origin: ConfigOrigin::embedded(),
        }
    }
}

/// The call directions a route applies to.
#[derive(Clone, Copy, PartialEq, Eq, Structural, Debug)]
pub enum RouteDirection {
    Any,
    Inbound,
    Outbound,
}

impl Default for RouteDirection {
    fn default() -> (r: Self)
        ensures
            r == RouteDirection::Any,
    {
        RouteDirection::Any
    }
}

/// Whether a route of direction `r` applies to a call going `d`.
pub open spec fn route_applies(r: RouteDirection, d: DialDirection) -> bool {
    match r {
        RouteDirection::Any => true,
        RouteDirection::Inbound => d == DialDirection::Inbound,
        RouteDirection::Outbound => d == DialDirection::Outbound,
    }
}

impl RouteDirection {
    /// Whether this route applies to a call going `direction`.
    pub fn matches(&self, direction: &DialDirection) -> (b: bool)
        ensures
            b == route_applies(*self, *direction),
    {
        match self {
            RouteDirection::Any => true,
            RouteDirection::Inbound => match direction {
                DialDirection::Inbound => true,
                _ => false,
            },
            RouteDirection::Outbound => match direction {
                DialDirection::Outbound => true,
                _ => false,
            },
        }
    }
}

/// What a route matches on (unset fields match anything).
#[derive(Debug, Default)]
pub struct MatchConditions {
    pub from_user: Option<String>,
    pub from_host: Option<String>,
    pub to_user: Option<String>,
    pub to_host: Option<String>,
    pub to_port: Option<String>,
    pub request_uri_user: Option<String>,
    pub request_uri_host: Option<String>,
    pub request_uri_port: Option<String>,
    pub headers: SortedMap<String>,
    pub from: Option<String>,
    pub to: Option<String>,
    pub caller: Option<String>,
    pub callee: Option<String>,
}

/// What a route rewrites.
#[derive(Debug, Default)]
pub struct RewriteRules {
    pub from_user: Option<String>,
    pub from_host: Option<String>,
    pub to_user: Option<String>,
    pub to_host: Option<String>,
    pub to_port: Option<String>,
    pub request_uri_user: Option<String>,
    pub request_uri_host: Option<String>,
    pub request_uri_port: Option<String>,
    pub headers: SortedMap<String>,
}

/// What a matched route does. `app_params` holds JSON text.
#[derive(Debug)]
pub struct RouteAction {
    pub action: Option<String>,
    pub dest: Option<DestConfig>,
    pub select: String,
    pub hash_key: Option<String>,
    pub reject: Option<RejectConfig>,
    pub queue: Option<String>,
    pub app: Option<String>,
    pub app_params: Option<String>,
    pub auto_answer: bool,
}

impl Default for RouteAction {
    /// Forward with round-robin selection and auto-answer on.
    fn default() -> (r: Self)
        ensures
            r.action is None && r.dest is None && r.hash_key is None && r.reject is None,
            r.queue is None && r.app is None && r.app_params is None,
            r.select@ == "rr"@,
            r.auto_answer,
    {
        RouteAction {
            action: None,
            dest: None,
            select: "rr".to_string(),
            hash_key: None,
            reject: None,
            queue: None,
            app: None,
            app_params: None,
            auto_answer: true,
        }
    }
}

/// The kind of action a route takes.
#[derive(Clone, Copy, PartialEq, Eq, Structural, Debug)]
pub enum ActionType {
    Forward,
    Reject,
    Busy,
    Queue,
    Application,
}

/// The action named by an explicit action string: the four known names, else forward.
pub open spec fn action_named(a: Seq<char>) -> ActionType {
    if a == "reject"@ {
        ActionType::Reject
    } else if a == "busy"@ {
        ActionType::Busy
    } else if a == "queue"@ {
        ActionType::Queue
    } else if a == "application"@ {
        ActionType::Application
    } else {
        ActionType::Forward
    }
}

/// The action a route takes: the explicit action when set, else inferred from
/// which of application, queue and reject is configured (in that order), else forward.
pub open spec fn action_type_of(r: RouteAction) -> ActionType {
    match r.action {
        Some(a) => action_named(a@),
        None => if r.app is Some {
            ActionType::Application
        } else if r.queue is Some {
            ActionType::Queue
        } else if r.reject is Some {
            ActionType::Reject
        } else {
            ActionType::Forward
        },
    }
}

impl RouteAction {
    pub fn get_action_type(&self) -> (r: ActionType)
        ensures
            r == action_type_of(*self),
    {
        match &self.action {
            Some(action) => {
                let a = action.as_str();
                if str_eq(a, "reject") {
                    ActionType::Reject
                } else if str_eq(a, "busy") {
                    ActionType::Busy
                } else if str_eq(a, "queue") {
                    ActionType::Queue
                } else if str_eq(a, "application") {
                    ActionType::Application
                } else {
                    ActionType::Forward
                }
            },
            None => {
                if self.app.is_some() {
                    ActionType::Application
                } else if self.queue.is_some() {
                    ActionType::Queue
                } else if self.reject.is_some() {
                    ActionType::Reject
                } else {
                    ActionType::Forward
                }
            },
        }
    }
}

/// How a route rejects a call.
#[derive(Debug, Default)]
pub struct RejectConfig {
    pub code: u16,
    pub reason: Option<String>,
    pub headers: SortedMap<String>,
}

/// One destination or several.
#[derive(Clone, Debug)]
pub enum DestConfig {
    Single(String),
    Multiple(Vec<String>),
}

/// A routing rule: what it matches, how it rewrites, and what it does.
#[derive(Debug)]
pub struct RouteRule {
    pub name: String,
    pub description: Option<String>,
    pub priority: i32,
    pub direction: RouteDirection,
    pub source_trunks: Vec<String>,
    pub source_trunk_ids: Vec<i64>,
    pub match_conditions: MatchConditions,
    pub rewrite: Option<RewriteRules>,
    pub action: RouteAction,
    pub codecs: Vec<String>,
    pub disable_ice_servers: Option<bool>,
    pub disabled: Option<bool>,
    pub policy: Option<PolicySpec>,
    pub origin: ConfigOrigin,
}

} // verus!
