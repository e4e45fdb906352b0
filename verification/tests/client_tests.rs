use std::time::Duration;

use cslt::client::{select_course_form, IpAddress, SelectMode};
use cslt::login::{LoginBySecret, LoginError};
use cslt::{
    default_timeout, ClientBuilder, DEFAULT_CHOOSE_LIST_URL, DEFAULT_LOGIN_PAGE_URL,
    DEFAULT_USER_AGENT, MAX_REDIRECTS, SELECT_COURSE_API_URL_PRE, SELECT_COURSE_API_URL_STARTED,
    SELECT_COURSE_PAGE_URL_PRE, SELECT_COURSE_PAGE_URL_STARTED,
};

#[test]
fn default_timeout_is_ten_seconds() {
    assert_eq!(default_timeout(), Duration::from_secs(10));
}

#[test]
fn builder_defaults() {
    let s = ClientBuilder::new().settings();
    assert_eq!(s.user_agent, DEFAULT_USER_AGENT);
    assert_eq!(s.timeout, Duration::from_secs(10));
    assert_eq!(s.max_redirects, MAX_REDIRECTS);
    assert!(s.local_address.is_none());
    assert_eq!(s.endpoints.choose_list_url, DEFAULT_CHOOSE_LIST_URL);
    assert_eq!(s.endpoints.select_course_page_url_pre, SELECT_COURSE_PAGE_URL_PRE);
    assert_eq!(s.endpoints.select_course_page_url_started, SELECT_COURSE_PAGE_URL_STARTED);
    assert_eq!(s.endpoints.select_course_api_url_pre, SELECT_COURSE_API_URL_PRE);
    assert_eq!(s.endpoints.select_course_api_url_started, SELECT_COURSE_API_URL_STARTED);
}

#[test]
fn builder_setters_change_one_setting_each() {
    let s = ClientBuilder::new()
        .user_agent("agent")
        .timeout(Duration::from_millis(1500))
        .choose_list_url("http://a/list")
        .select_course_page_url_pre("http://a/pre")
        .select_course_page_url_started("http://a/started")
        .select_course_api_url_pre("http://a/api-pre")
        .local_address(IpAddress::V4([127, 0, 0, 1]))
        .settings();
    assert_eq!(s.user_agent, "agent");
    assert_eq!(s.timeout, Duration::from_millis(1500));
    assert_eq!(s.endpoints.choose_list_url, "http://a/list");
    assert_eq!(s.endpoints.select_course_page_url_pre, "http://a/pre");
    assert_eq!(s.endpoints.select_course_page_url_started, "http://a/started");
    assert_eq!(s.endpoints.select_course_api_url_pre, "http://a/api-pre");
    assert_eq!(s.endpoints.select_course_api_url_started, SELECT_COURSE_API_URL_STARTED);
    assert!(matches!(s.local_address, Some(IpAddress::V4([127, 0, 0, 1]))));
}

#[test]
fn select_urls_by_mode() {
    let s = ClientBuilder::new().select_course_api_url_started("http://x/api").settings();
    let e = &s.endpoints;
    assert_eq!(e.select_urls(&SelectMode::Pre), (SELECT_COURSE_PAGE_URL_PRE, SELECT_COURSE_API_URL_PRE));
    assert_eq!(e.select_urls(&SelectMode::Started), (SELECT_COURSE_PAGE_URL_STARTED, "http://x/api"));
    assert_eq!(e.select_urls(&SelectMode::Custom("p", "a")), ("p", "a"));
}

#[test]
fn select_course_form_fields() {
    assert_eq!(
        select_course_form("AT2003301"),
        vec![
            ("CourseNo".to_string(), "AT2003301".to_string()),
            ("type".to_string(), "1".to_string())
        ]
    );
}

#[test]
fn login_by_secret_cookie() {
    let login = LoginBySecret::new("s3cr3t");
    assert_eq!(
        login.secret_cookie(),
        "ntustsecret=s3cr3t; domain=.ntust.edu.tw; expires=Tue, 19 Jan 2038 04:14:07 GMT; path=/; secure; HttpOnly"
    );
    assert_eq!(login.login_page_url(), DEFAULT_LOGIN_PAGE_URL);
    let header = login.cookie_header().ok().unwrap();
    assert_eq!(header.to_str().unwrap(), login.secret_cookie());
    let url = login.login_url().ok().unwrap();
    assert_eq!(url.as_str(), DEFAULT_LOGIN_PAGE_URL);
    assert_eq!(url.host_str(), Some("courseselection.ntust.edu.tw"));
}

#[test]
fn login_by_secret_refuses_control_characters() {
    assert!(matches!(LoginBySecret::new("a\nb").cookie_header(), Err(LoginError::InvalidCookie)));
    assert!(matches!(LoginBySecret::new("a\u{7f}").cookie_header(), Err(LoginError::InvalidCookie)));
    assert!(LoginBySecret::new("tab\there").cookie_header().is_ok());
    assert!(LoginBySecret::new("祕密").cookie_header().is_ok());
    assert_eq!(LoginError::InvalidCookie.message(), "failed to parse header value");
}

#[test]
fn blocking_login_by_secret() {
    let login = cslt::blocking::login::LoginBySecret::new("abc");
    assert_eq!(login.login_page_url(), DEFAULT_LOGIN_PAGE_URL);
    assert!(login.secret_cookie().starts_with("ntustsecret=abc; "));
    assert!(login.cookie_header().is_ok());
    assert!(login.login_url().is_ok());
    assert!(cslt::blocking::login::LoginBySecret::new("\r").cookie_header().is_err());
}
