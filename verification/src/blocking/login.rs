//! Logging in with the single-sign-on secret, for the blocking client.

use vstd::prelude::*;

use crate::login::{
    all_header_value_chars, cookie_header_for, lemma_cookie_header_chars, login_url_for,
    secret_cookie, spec_header_value, spec_parse_url, spec_secret_cookie, LoginError, SpecLogin,
};

verus! {

broadcast use vstd::string::group_string_axioms;

/// The page that takes the cookie.
const DEFAULT_LOGIN_PAGE_URL: &'static str =
    "https://courseselection.ntust.edu.tw/Account/SingleSignOnLogin";

/// Logs in with the secret of the single sign-on, set as a cookie.
pub struct LoginBySecret {
    secret: String,
    login_page_url: String,
}

impl View for LoginBySecret {
    type V = SpecLogin;

    closed spec fn view(&self) -> SpecLogin {
        SpecLogin { secret: self.secret@, login_page_url: self.login_page_url@ }
    }
}

/// The address of the page that takes the cookie.
pub open spec fn spec_default_login_page_url() -> Seq<char> {
    "https://courseselection.ntust.edu.tw/Account/SingleSignOnLogin"@
}

impl LoginBySecret {
    pub fn new(secret: &str) -> (l: Self)
        ensures
            l@ == (SpecLogin { secret: secret@, login_page_url: spec_default_login_page_url() }),
    {
        LoginBySecret {
            secret: secret.to_string(),
            login_page_url: DEFAULT_LOGIN_PAGE_URL.to_string(),
        }
    }

    /// The cookie that carries the secret.
    pub fn secret_cookie(&self) -> (c: String)
        ensures
            c@ == spec_secret_cookie(self@.secret),
            c@.subrange(12, 12 + self@.secret.len() as int) == self@.secret,
    {
        secret_cookie(self.secret.as_str())
    }

    /// The cookie that carries the secret, as a header value; refused
    /// exactly when the secret holds a character that a header value cannot.
    pub fn cookie_header(&self) -> (h: Result<reqwest::header::HeaderValue, LoginError>)
        ensures
            h is Ok <==> all_header_value_chars(self@.secret),
            match h {
                Ok(v) => spec_header_value(spec_secret_cookie(self@.secret)) == Some(v),
                Err(e) => e is InvalidCookie && spec_header_value(
                    spec_secret_cookie(self@.secret),
                ) is None,
            },
    {
        proof {
            lemma_cookie_header_chars(self.secret@);
        }
        cookie_header_for(self.secret.as_str())
    }

    /// The address of the page that takes the cookie.
    pub fn login_page_url(&self) -> (u: &str)
        ensures
            u@ == self@.login_page_url,
    {
        self.login_page_url.as_str()
    }

    /// The address of the page that takes the cookie, parsed; the cookie is
    /// set for it.
    pub fn login_url(&self) -> (u: Result<reqwest::Url, LoginError>)
        ensures
            match u {
                Ok(v) => spec_parse_url(self@.login_page_url) == Some(v),
                Err(e) => e is InvalidUrl && spec_parse_url(self@.login_page_url) is None,
            },
    {
        login_url_for(self.login_page_url.as_str())
    }
}

} // verus!
