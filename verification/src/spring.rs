use vstd::prelude::*;
use vstd::string::{StringExecFns, StrSliceExecFns};

verus! {

/// The config-server endpoint for an application, profile and optional
/// label: `base/application/profile` with `/label` appended when a label
/// is set.
pub fn spring_config_url(base: &str, application: &str, profile: &str, label: Option<&str>) -> (r:
    String)
    ensures
        match label {
            Some(l) => r@ == base@ + "/"@ + application@ + "/"@ + profile@ + "/"@ + l@,
            None => r@ == base@ + "/"@ + application@ + "/"@ + profile@,
        },
{
    let mut url = String::from_str(base);
    url.append("/");
    url.append(application);
    url.append("/");
    url.append(profile);
    match label {
        Some(l) => {
            url.append("/");
            url.append(l);
        },
        None => {},
    }
    url
}

/// The cache key of a fetched route set: `application:profile`, with
/// `:label` appended when a label is set.
pub fn spring_cache_key(application: &str, profile: &str, label: Option<&str>) -> (r: String)
    ensures
        match label {
            Some(l) => r@ == application@ + ":"@ + profile@ + ":"@ + l@,
            None => r@ == application@ + ":"@ + profile@,
        },
{
    let mut key = String::from_str(application);
    key.append(":");
    key.append(profile);
    match label {
        Some(l) => {
            key.append(":");
            key.append(l);
        },
        None => {},
    }
    key
}

/// How one fetch attempt of the config server ended, and what the retry
/// loop around it must do next.
#[derive(Clone, Copy, Debug, PartialEq, Eq, Structural)]
pub enum FetchClass {
    /// The response carries the configuration; stop retrying.
    Success,
    /// A server-side failure; the attempt may be retried with backoff.
    Transient,
    /// Any other status; retrying cannot help, give up at once.
    Permanent,
}

/// The retry decision for one HTTP status: 200 succeeds, the 5xx range is
/// transient, everything else is permanent.
pub open spec fn spec_classify_fetch_status(status: u16) -> FetchClass {
    if status == 200 {
        FetchClass::Success
    } else if 500 <= status && status <= 599 {
        FetchClass::Transient
    } else {
        FetchClass::Permanent
    }
}

/// Classifies the HTTP status of one config-server fetch attempt.
pub fn classify_fetch_status(status: u16) -> (r: FetchClass)
    ensures
        r == spec_classify_fetch_status(status),
{
    if status == 200 {
        FetchClass::Success
    } else if 500 <= status && status <= 599 {
        FetchClass::Transient
    } else {
        FetchClass::Permanent
    }
}

/// Whether a cached route set may still be served: its age has not yet
/// reached the configured time-to-live.
pub fn cache_is_fresh(age_millis: u64, ttl_millis: u64) -> (r: bool)
    ensures
        r == (age_millis < ttl_millis),
{
    age_millis < ttl_millis
}

} // verus!
