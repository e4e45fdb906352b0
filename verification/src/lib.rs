//! A client for the course-selection site of NTUST: logging in with the
//! single-sign-on secret, selecting a course, and reading the pages that the
//! site answers with.

pub mod client;
pub mod html;
pub mod login;
pub mod number;
pub mod page;
pub mod text;
pub mod blocking;

pub use client::ClientBuilder;

use vstd::prelude::*;

verus! {

pub const DEFAULT_USER_AGENT: &'static str = "Mozilla/5.0 (Macintosh; Intel Mac OS X 10_15_7) AppleWebKit/537.36 (KHTML, like Gecko) Chrome/121.0.0.0 Safari/537.36";

/// The default timeout of a request, in seconds.
pub const DEFAULT_TIMEOUT_SECS: u64 = 10;

/// The most redirects that a request follows.
pub const MAX_REDIRECTS: usize = 10;

pub const DEFAULT_CHOOSE_LIST_URL: &'static str =
    "https://courseselection.ntust.edu.tw/ChooseList/D01/D01";

pub const SELECT_COURSE_PAGE_URL_PRE: &'static str =
    "https://courseselection.ntust.edu.tw/First/A06/A06";

pub const SELECT_COURSE_PAGE_URL_STARTED: &'static str =
    "https://courseselection.ntust.edu.tw/AddAndSub/B01/B01";

pub const SELECT_COURSE_API_URL_PRE: &'static str =
    "https://courseselection.ntust.edu.tw/First/A06/ExtraJoin";

pub const SELECT_COURSE_API_URL_STARTED: &'static str =
    "https://courseselection.ntust.edu.tw/AddAndSub/B01/ExtraJoin";

pub const DEFAULT_LOGIN_PAGE_URL: &'static str =
    "https://courseselection.ntust.edu.tw/Account/SingleSignOnLogin";

/// The duration of `secs` seconds, as `Duration::from_secs` gives it.
pub uninterp spec fn spec_duration_from_secs(secs: u64) -> std::time::Duration;

/// `std::time::Duration::from_secs`. Claimed: the result is
/// `spec_duration_from_secs(secs)`, a function of `secs` alone.
#[verifier::external_body]
fn duration_from_secs(secs: u64) -> (d: std::time::Duration)
    ensures
        d == spec_duration_from_secs(secs),
{
    std::time::Duration::from_secs(secs)
}

/// The default timeout of a request: `DEFAULT_TIMEOUT_SECS` seconds.
pub fn default_timeout() -> (d: std::time::Duration)
    ensures
        d == spec_duration_from_secs(DEFAULT_TIMEOUT_SECS),
{
    duration_from_secs(DEFAULT_TIMEOUT_SECS)
}

} // verus!
