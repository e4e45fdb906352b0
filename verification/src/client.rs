//! The settings of the client (user agent, timeout, the site's addresses)
//! and the decisions of a course selection: which addresses it goes to and
//! which form it sends.

use vstd::prelude::*;

use crate::{
    default_timeout, spec_duration_from_secs, DEFAULT_CHOOSE_LIST_URL, DEFAULT_TIMEOUT_SECS,
    DEFAULT_USER_AGENT, MAX_REDIRECTS, SELECT_COURSE_API_URL_PRE, SELECT_COURSE_API_URL_STARTED,
    SELECT_COURSE_PAGE_URL_PRE, SELECT_COURSE_PAGE_URL_STARTED,
};

verus! {

broadcast use vstd::string::group_string_axioms;

/// A local IP address to send requests from.
#[derive(Clone, Copy, Debug)]
pub enum IpAddress {
    V4([u8; 4]),
    V6([u8; 16]),
}

/// Which pages and form endpoint a course selection uses.
pub enum SelectMode<'a> {
    /// The selection before the term starts.
    Pre,
    /// The adding and dropping once the term has started.
    Started,
    /// Any other page and endpoint: the page's address, then the endpoint's.
    Custom(&'a str, &'a str),
}

/// The addresses of the site that the client goes to.
pub struct Endpoints {
    pub choose_list_url: String,
    pub select_course_page_url_pre: String,
    pub select_course_page_url_started: String,
    pub select_course_api_url_pre: String,
    pub select_course_api_url_started: String,
}

impl Endpoints {
    /// The page to read the answer from and the endpoint to send the form
    /// to, for a course selection in `mode`.
    pub fn select_urls<'b>(&'b self, mode: &SelectMode<'b>) -> (r: (&'b str, &'b str))
        ensures
            match mode {
                SelectMode::Pre => r.0@ == self.select_course_page_url_pre@ && r.1@
                    == self.select_course_api_url_pre@,
                SelectMode::Started => r.0@ == self.select_course_page_url_started@ && r.1@
                    == self.select_course_api_url_started@,
                SelectMode::Custom(page, api) => r.0@ == page@ && r.1@ == api@,
            },
    {
        match mode {
            SelectMode::Pre => (
                self.select_course_page_url_pre.as_str(),
                self.select_course_api_url_pre.as_str(),
            ),
            SelectMode::Started => (
                self.select_course_page_url_started.as_str(),
                self.select_course_api_url_started.as_str(),
            ),
            SelectMode::Custom(page_url, api_url) => (*page_url, *api_url),
        }
    }
}

/// The form that selects the course `course_no`: its fields, in order.
pub open spec fn spec_select_course_form(course_no: Seq<char>) -> Seq<(Seq<char>, Seq<char>)> {
    seq![("CourseNo"@, course_no), ("type"@, "1"@)]
}

/// The form fields that select the course `course_no`.
pub fn select_course_form(course_no: &str) -> (form: Vec<(String, String)>)
    ensures
        form.deep_view() == spec_select_course_form(course_no@),
{
    let mut form: Vec<(String, String)> = Vec::new();
    form.push(("CourseNo".to_string(), course_no.to_string()));
    form.push(("type".to_string(), "1".to_string()));
    assert(form.deep_view() =~= spec_select_course_form(course_no@));
    form
}

/// All that the client is built from, with its texts as characters.
pub struct SpecClientSettings {
    pub user_agent: Seq<char>,
    pub timeout: std::time::Duration,
    pub choose_list_url: Seq<char>,
    pub select_course_page_url_pre: Seq<char>,
    pub select_course_page_url_started: Seq<char>,
    pub select_course_api_url_pre: Seq<char>,
    pub select_course_api_url_started: Seq<char>,
    pub local_address: Option<IpAddress>,
}

/// Collects the settings of a client; `settings` hands them over.
pub struct ClientBuilder<'a> {
    user_agent: &'a str,
    timeout: std::time::Duration,
    choose_list_url: &'a str,
    select_course_page_url_pre: &'a str,
    select_course_page_url_started: &'a str,
    select_course_api_url_pre: &'a str,
    select_course_api_url_started: &'a str,
    local_address: Option<IpAddress>,
}

impl<'a> View for ClientBuilder<'a> {
    type V = SpecClientSettings;

    closed spec fn view(&self) -> SpecClientSettings {
        SpecClientSettings {
            user_agent: self.user_agent@,
            timeout: self.timeout,
            choose_list_url: self.choose_list_url@,
            select_course_page_url_pre: self.select_course_page_url_pre@,
            select_course_page_url_started: self.select_course_page_url_started@,
            select_course_api_url_pre: self.select_course_api_url_pre@,
            select_course_api_url_started: self.select_course_api_url_started@,
            local_address: self.local_address,
        }
    }
}

/// What the client is built from: the settings of a `ClientBuilder`.
pub struct ClientSettings {
    pub user_agent: String,
    pub timeout: std::time::Duration,
    pub max_redirects: usize,
    pub local_address: Option<IpAddress>,
    pub endpoints: Endpoints,
}

impl<'a> ClientBuilder<'a> {
    /// The default settings: the default user agent and timeout, the site's
    /// own addresses, and no local address.
    pub fn new() -> (b: Self)
        ensures
            b@ == (SpecClientSettings {
                user_agent: DEFAULT_USER_AGENT@,
                timeout: spec_duration_from_secs(DEFAULT_TIMEOUT_SECS),
                choose_list_url: DEFAULT_CHOOSE_LIST_URL@,
                select_course_page_url_pre: SELECT_COURSE_PAGE_URL_PRE@,
                select_course_page_url_started: SELECT_COURSE_PAGE_URL_STARTED@,
                select_course_api_url_pre: SELECT_COURSE_API_URL_PRE@,
                select_course_api_url_started: SELECT_COURSE_API_URL_STARTED@,
                local_address: None,
            }),
    {
        ClientBuilder {
            user_agent: DEFAULT_USER_AGENT,
            timeout: default_timeout(),
            choose_list_url: DEFAULT_CHOOSE_LIST_URL,
            select_course_page_url_pre: SELECT_COURSE_PAGE_URL_PRE,
            select_course_page_url_started: SELECT_COURSE_PAGE_URL_STARTED,
            select_course_api_url_pre: SELECT_COURSE_API_URL_PRE,
            select_course_api_url_started: SELECT_COURSE_API_URL_STARTED,
            local_address: None,
        }
    }

    pub fn user_agent(self, user_agent: &'a str) -> (b: Self)
        ensures
            b@ == (SpecClientSettings { user_agent: user_agent@, ..self@ }),
    {
        ClientBuilder { user_agent, ..self }
    }

    pub fn timeout(self, timeout: std::time::Duration) -> (b: Self)
        ensures
            b@ == (SpecClientSettings { timeout, ..self@ }),
    {
        ClientBuilder { timeout, ..self }
    }

    pub fn choose_list_url(self, url: &'a str) -> (b: Self)
        ensures
            b@ == (SpecClientSettings { choose_list_url: url@, ..self@ }),
    {
        ClientBuilder { choose_list_url: url, ..self }
    }

    pub fn select_course_page_url_pre(self, url: &'a str) -> (b: Self)
        ensures
            b@ == (SpecClientSettings { select_course_page_url_pre: url@, ..self@ }),
    {
        ClientBuilder { select_course_page_url_pre: url, ..self }
    }

    pub fn select_course_page_url_started(self, url: &'a str) -> (b: Self)
        ensures
            b@ == (SpecClientSettings { select_course_page_url_started: url@, ..self@ }),
    {
        ClientBuilder { select_course_page_url_started: url, ..self }
    }

    pub fn select_course_api_url_pre(self, url: &'a str) -> (b: Self)
        ensures
            b@ == (SpecClientSettings { select_course_api_url_pre: url@, ..self@ }),
    {
        ClientBuilder { select_course_api_url_pre: url, ..self }
    }

    pub fn select_course_api_url_started(self, url: &'a str) -> (b: Self)
        ensures
            b@ == (SpecClientSettings { select_course_api_url_started: url@, ..self@ }),
    {
        ClientBuilder { select_course_api_url_started: url, ..self }
    }

    /// Sends the requests from the local address `addr`.
    pub fn local_address(self, addr: IpAddress) -> (b: Self)
        ensures
            b@ == (SpecClientSettings { local_address: Some(addr), ..self@ }),
    {
        ClientBuilder { local_address: Some(addr), ..self }
    }

    /// Hands over the settings that the client is built from, the
    /// addresses as owned texts, and the limit on redirects.
    pub fn settings(self) -> (s: ClientSettings)
        ensures
            s.user_agent@ == self@.user_agent,
            s.timeout == self@.timeout,
            s.max_redirects == MAX_REDIRECTS,
            s.local_address == self@.local_address,
            s.endpoints.choose_list_url@ == self@.choose_list_url,
            s.endpoints.select_course_page_url_pre@ == self@.select_course_page_url_pre,
            s.endpoints.select_course_page_url_started@ == self@.select_course_page_url_started,
            s.endpoints.select_course_api_url_pre@ == self@.select_course_api_url_pre,
            s.endpoints.select_course_api_url_started@ == self@.select_course_api_url_started,
    {
        ClientSettings {
            user_agent: self.user_agent.to_string(),
            timeout: self.timeout,
            max_redirects: MAX_REDIRECTS,
            local_address: self.local_address,
            endpoints: Endpoints {
                choose_list_url: self.choose_list_url.to_string(),
                select_course_page_url_pre: self.select_course_page_url_pre.to_string(),
                select_course_page_url_started: self.select_course_page_url_started.to_string(),
                select_course_api_url_pre: self.select_course_api_url_pre.to_string(),
                select_course_api_url_started: self.select_course_api_url_started.to_string(),
            },
        }
    }
}

} // verus!
