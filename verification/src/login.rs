//! Logging in with the single-sign-on secret: the cookie that carries the
//! secret, the header value it goes in, and the page that takes it.

use vstd::prelude::*;

use crate::DEFAULT_LOGIN_PAGE_URL;

verus! {

broadcast use vstd::string::group_string_axioms;

#[verifier::external_type_specification]
#[verifier::external_body]
pub struct ExHeaderValue(reqwest::header::HeaderValue);

#[verifier::external_type_specification]
#[verifier::external_body]
pub struct ExUrl(reqwest::Url);

/// What the cookie says after the secret: its domain, expiry, path and flags.
pub const COOKIE_ATTRIBUTES: &'static str =
    "; domain=.ntust.edu.tw; expires=Tue, 19 Jan 2038 04:14:07 GMT; path=/; secure; HttpOnly";

/// The name of the cookie that carries the secret, and its `=`.
pub const COOKIE_NAME: &'static str = "ntustsecret=";

/// The cookie that carries `secret`.
pub open spec fn spec_secret_cookie(secret: Seq<char>) -> Seq<char> {
    COOKIE_NAME@ + secret + COOKIE_ATTRIBUTES@
}

/// The cookie carries the secret verbatim: `ntustsecret=`, then the secret
/// character for character, then the fixed attributes.
pub proof fn cookie_carries_secret_verbatim(secret: Seq<char>)
    ensures
        spec_secret_cookie(secret).len() == 12 + secret.len() + COOKIE_ATTRIBUTES@.len(),
        spec_secret_cookie(secret).subrange(0, 12) == "ntustsecret="@,
        spec_secret_cookie(secret).subrange(12, 12 + secret.len() as int) == secret,
        spec_secret_cookie(secret).skip(12 + secret.len() as int) == COOKIE_ATTRIBUTES@,
{
    reveal_strlit("ntustsecret=");
    let c = spec_secret_cookie(secret);
    assert(c.subrange(0, 12) =~= "ntustsecret="@);
    assert(c.subrange(12, 12 + secret.len() as int) =~= secret);
    assert(c.skip(12 + secret.len() as int) =~= COOKIE_ATTRIBUTES@);
}

/// The cookie that carries `secret`, with its domain, expiry, path and flags.
pub fn secret_cookie(secret: &str) -> (cookie: String)
    ensures
        cookie@ == spec_secret_cookie(secret@),
        cookie@.subrange(0, 12) == "ntustsecret="@,
        cookie@.subrange(12, 12 + secret@.len() as int) == secret@,
        cookie@.skip(12 + secret@.len() as int) == COOKIE_ATTRIBUTES@,
{
    proof {
        cookie_carries_secret_verbatim(secret@);
    }
    COOKIE_NAME.to_string().concat(secret).concat(COOKIE_ATTRIBUTES)
}

/// A character whose UTF-8 bytes may all stand in an HTTP header value:
/// a visible ASCII character, a space, a tab, or any non-ASCII character.
pub open spec fn is_header_value_char(c: char) -> bool {
    let u = c as u32;
    (u >= 32 && u != 127) || u == 9
}

/// The header value that `HeaderValue::from_str` makes of `s` where it
/// accepts `s`.
pub uninterp spec fn spec_header_value(s: Seq<char>) -> Option<reqwest::header::HeaderValue>;

/// `reqwest::header::HeaderValue::from_str` (of the `http` crate). Claimed,
/// as its source shows: it accepts `s` exactly when every byte `b` of `s`
/// has `b >= 32 && b != 127 || b == b'\t'`, which on characters is
/// `is_header_value_char`; and what it gives is `spec_header_value(s)`.
#[verifier::external_body]
fn header_value_from_str(s: &str) -> (h: Option<reqwest::header::HeaderValue>)
    ensures
        h is Some <==> forall|i: int| 0 <= i < s@.len() ==> is_header_value_char(#[trigger] s@[i]),
        h == spec_header_value(s@),
{
    reqwest::header::HeaderValue::from_str(s).ok()
}

/// The URL that `Url::parse` makes of `s`; `None` where it refuses `s`.
pub uninterp spec fn spec_parse_url(s: Seq<char>) -> Option<reqwest::Url>;

/// `reqwest::Url::parse` (of the `url` crate). Claimed: the result is
/// `spec_parse_url(s)`, a function of `s` alone.
#[verifier::external_body]
fn parse_url(s: &str) -> (u: Option<reqwest::Url>)
    ensures
        u == spec_parse_url(s@),
{
    reqwest::Url::parse(s).ok()
}

/// Every character of `s` may stand in a header value.
pub open spec fn all_header_value_chars(s: Seq<char>) -> bool {
    forall|i: int| 0 <= i < s.len() ==> is_header_value_char(#[trigger] s[i])
}

/// The cookie's own parts may all stand in a header value, so the cookie
/// may exactly when the secret may.
pub proof fn lemma_cookie_header_chars(secret: Seq<char>)
    ensures
        all_header_value_chars(spec_secret_cookie(secret)) <==> all_header_value_chars(secret),
{
    reveal_strlit("ntustsecret=");
    reveal_strlit(
        "; domain=.ntust.edu.tw; expires=Tue, 19 Jan 2038 04:14:07 GMT; path=/; secure; HttpOnly",
    );
    let name = COOKIE_NAME@;
    let attrs = COOKIE_ATTRIBUTES@;
    let c = spec_secret_cookie(secret);
    assert(all_header_value_chars(name));
    assert(all_header_value_chars(attrs));
    if all_header_value_chars(secret) {
        assert forall|i: int| 0 <= i < c.len() implies is_header_value_char(#[trigger] c[i]) by {
            if i < name.len() {
                assert(c[i] == name[i]);
            } else if i < name.len() + secret.len() {
                assert(c[i] == secret[i - name.len()]);
            } else {
                assert(c[i] == attrs[i - name.len() - secret.len()]);
            }
        }
    }
    if all_header_value_chars(c) {
        assert forall|i: int| 0 <= i < secret.len() implies is_header_value_char(
            #[trigger] secret[i],
        ) by {
            assert(c[i + name.len()] == secret[i]);
        }
    }
}

/// Why the cookie could not be set.
#[derive(Debug)]
pub enum LoginError {
    /// The cookie holds a character that a header value cannot.
    InvalidCookie,
    /// The login page's address is not a URL.
    InvalidUrl,
}

impl LoginError {
    /// What went wrong, in words.
    pub fn message(&self) -> (m: &'static str)
        ensures
            m@ == match self {
                LoginError::InvalidCookie => "failed to parse header value"@,
                LoginError::InvalidUrl => "invalid login page URL"@,
            },
    {
        match self {
            LoginError::InvalidCookie => "failed to parse header value",
            LoginError::InvalidUrl => "invalid login page URL",
        }
    }
}

/// The cookie header value that carries `secret`.
pub fn cookie_header_for(secret: &str) -> (h: Result<reqwest::header::HeaderValue, LoginError>)
    ensures
        match h {
            Ok(v) => spec_header_value(spec_secret_cookie(secret@)) == Some(v),
            Err(e) => e is InvalidCookie && spec_header_value(spec_secret_cookie(secret@)) is None,
        },
        h is Ok <==> forall|i: int|
            0 <= i < spec_secret_cookie(secret@).len() ==> is_header_value_char(
                #[trigger] spec_secret_cookie(secret@)[i],
            ),
{
    let cookie = secret_cookie(secret);
    match header_value_from_str(cookie.as_str()) {
        Some(v) => Ok(v),
        None => Err(LoginError::InvalidCookie),
    }
}

/// The address of the login page, parsed.
pub fn login_url_for(url: &str) -> (u: Result<reqwest::Url, LoginError>)
    ensures
        match u {
            Ok(v) => spec_parse_url(url@) == Some(v),
            Err(e) => e is InvalidUrl && spec_parse_url(url@) is None,
        },
{
    match parse_url(url) {
        Some(v) => Ok(v),
        None => Err(LoginError::InvalidUrl),
    }
}

/// A login secret and the page that takes it.
pub struct SpecLogin {
    pub secret: Seq<char>,
    pub login_page_url: Seq<char>,
}

/// Logs in with the secret of the single sign-on, set as a cookie.
pub struct LoginBySecret {
    secret: String,
    login_page_url: String,
}

impl View for LoginBySecret {
    type V = SpecLogin;

    closed spec fn view(&self) -> SpecLogin {
        SpecLogin { secret: self.secret@, login_page_url: self.login_page_url@ }
    }
}

impl LoginBySecret {
    pub fn new(secret: &str) -> (l: Self)
        ensures
            l@ == (SpecLogin { secret: secret@, login_page_url: DEFAULT_LOGIN_PAGE_URL@ }),
    {
        LoginBySecret {
            secret: secret.to_string(),
            login_page_url: DEFAULT_LOGIN_PAGE_URL.to_string(),
        }
    }

    /// The cookie that carries the secret.
    pub fn secret_cookie(&self) -> (c: String)
        ensures
            c@ == spec_secret_cookie(self@.secret),
            c@.subrange(12, 12 + self@.secret.len() as int) == self@.secret,
    {
        secret_cookie(self.secret.as_str())
    }

    /// The cookie that carries the secret, as a header value; refused
    /// exactly when the secret holds a character that a header value cannot.
    pub fn cookie_header(&self) -> (h: Result<reqwest::header::HeaderValue, LoginError>)
        ensures
            h is Ok <==> all_header_value_chars(self@.secret),
            match h {
                Ok(v) => spec_header_value(spec_secret_cookie(self@.secret)) == Some(v),
                Err(e) => e is InvalidCookie && spec_header_value(
                    spec_secret_cookie(self@.secret),
                ) is None,
            },
    {
        proof {
            lemma_cookie_header_chars(self.secret@);
        }
        cookie_header_for(self.secret.as_str())
    }

    /// The address of the page that takes the cookie.
    pub fn login_page_url(&self) -> (u: &str)
        ensures
            u@ == self@.login_page_url,
    {
        self.login_page_url.as_str()
    }

    /// The address of the page that takes the cookie, parsed; the cookie is
    /// set for it.
    pub fn login_url(&self) -> (u: Result<reqwest::Url, LoginError>)
        ensures
            match u {
                Ok(v) => spec_parse_url(self@.login_page_url) == Some(v),
                Err(e) => e is InvalidUrl && spec_parse_url(self@.login_page_url) is None,
            },
    {
        login_url_for(self.login_page_url.as_str())
    }
}

} // verus!
