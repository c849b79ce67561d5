//! Policy and recording configuration: pure data, plus which call directions
//! a recording rule covers.

use crate::routing::DialDirection;
use crate::sorted_map::SortedMap;
use vstd::prelude::*;

verus! {

/// Object-storage vendors for recordings.
#[derive(Clone, Copy, PartialEq, Eq, Structural, Debug)]
pub enum S3Vendor {
    AWS,
    GCP,
    Azure,
    Aliyun,
    Tencent,
    Minio,
    DigitalOcean,
}

impl Default for S3Vendor {
    fn default() -> (r: Self)
        ensures
            r == S3Vendor::AWS,
    {
        S3Vendor::AWS
    }
}

/// Call policy: destination, time window and rate limits.
#[derive(Clone, Debug, Default)]
pub struct PolicySpec {
    pub called_prefix: Option<String>,
    pub trunk_country: Option<String>,
    pub allowed_destination_countries: Vec<String>,
    pub time_window: Option<TimeWindow>,
    pub deny_regions: Vec<String>,
    pub allow_landline: Option<bool>,
    pub frequency_limit: Option<FrequencyLimit>,
    pub daily_limit: Option<DailyLimit>,
    pub concurrency: Option<ConcurrencyLimit>,
    pub tags: Vec<String>,
}

/// A daily calling window in a time zone.
#[derive(Clone, Debug)]
pub struct TimeWindow {
    pub start: String,
    pub end: String,
    pub timezone: String,
}

/// At most `count` calls per `window_hours`.
#[derive(Clone, Copy, PartialEq, Eq, Structural, Debug)]
pub struct FrequencyLimit {
    pub count: u32,
    pub window_hours: u32,
}

/// At most `count` calls per day.
#[derive(Clone, Copy, PartialEq, Eq, Structural, Debug)]
pub struct DailyLimit {
    pub count: u32,
}

/// Concurrent-call caps, overall and per account.
#[derive(Clone, Debug)]
pub struct ConcurrencyLimit {
    pub max_total: u32,
    pub max_per_account: SortedMap<u32>,
}

/// Call directions a recording rule can cover.
#[derive(Clone, Copy, PartialEq, Eq, Structural, Debug)]
pub enum RecordingDirection {
    Inbound,
    Outbound,
    Internal,
}

/// Whether a recording direction names the given call direction.
pub open spec fn recording_covers(r: RecordingDirection, d: DialDirection) -> bool {
    match (r, d) {
        (RecordingDirection::Inbound, DialDirection::Inbound) => true,
        (RecordingDirection::Outbound, DialDirection::Outbound) => true,
        (RecordingDirection::Internal, DialDirection::Internal) => true,
        _ => false,
    }
}

/// A recording direction covers exactly one call direction, the one of the
/// same name, and no two recording directions cover the same call direction.
pub proof fn law_recording_covers_same_name(r: RecordingDirection, r2: RecordingDirection, d: DialDirection, d2: DialDirection)
    ensures
        recording_covers(r, d) && recording_covers(r, d2) ==> d == d2,
        recording_covers(r, d) && recording_covers(r2, d) ==> r == r2,
        recording_covers(RecordingDirection::Inbound, DialDirection::Inbound),
        recording_covers(RecordingDirection::Outbound, DialDirection::Outbound),
        recording_covers(RecordingDirection::Internal, DialDirection::Internal),
{
}

impl RecordingDirection {
    /// Whether this rule direction covers a call going `direction`.
    pub fn matches(&self, direction: &DialDirection) -> (b: bool)
        ensures
            b == recording_covers(*self, *direction),
            *self == RecordingDirection::Inbound ==> (b <==> *direction == DialDirection::Inbound),
            *self == RecordingDirection::Outbound ==> (b <==> *direction == DialDirection::Outbound),
            *self == RecordingDirection::Internal ==> (b <==> *direction == DialDirection::Internal),
    {
        match (self, direction) {
            (RecordingDirection::Inbound, DialDirection::Inbound) => true,
            (RecordingDirection::Outbound, DialDirection::Outbound) => true,
            (RecordingDirection::Internal, DialDirection::Internal) => true,
            _ => false,
        }
    }
}

/// Where recordings go.
#[derive(Clone, Copy, PartialEq, Eq, Structural, Debug)]
pub enum RecordingType {
    Local,
    Http,
    S3,
}

impl Default for RecordingType {
    fn default() -> (r: Self)
        ensures
            r == RecordingType::Local,
    {
        RecordingType::Local
    }
}

/// Recording configuration of a trunk or route.
#[derive(Debug)]
pub struct RecordingPolicy {
    pub enabled: bool,
    pub recording_type: RecordingType,
    pub directions: Vec<RecordingDirection>,
    pub caller_allow: Vec<String>,
    pub caller_deny: Vec<String>,
    pub callee_allow: Vec<String>,
    pub callee_deny: Vec<String>,
    pub auto_start: Option<bool>,
    pub filename_pattern: Option<String>,
    pub samplerate: Option<u32>,
    pub ptime: Option<u32>,
    pub path: Option<String>,
    pub url: Option<String>,
    pub headers: Option<SortedMap<String>>,
    pub vendor: Option<S3Vendor>,
    pub bucket: Option<String>,
    pub region: Option<String>,
    pub access_key: Option<String>,
    pub secret_key: Option<String>,
    pub endpoint: Option<String>,
    pub root: Option<String>,
}

/// Whether the recording type is the one left out when serialized.
pub fn is_default_recording_type(recording_type: &RecordingType) -> (b: bool)
    ensures
        b == (*recording_type == RecordingType::Local),
{
    match recording_type {
        RecordingType::Local => true,
        _ => false,
    }
}

} // verus!
