//! The cookie record that travels between the cookie jar, the normaliser and
//! the session calls.

use vstd::prelude::*;

verus! {

/// One cookie as the rest of the client sees it.
///
/// A cookie is identified by `(domain, path, name)`; its value may change.
#[derive(Debug)]
pub struct CookieMessage {
    pub name: String,
    pub value: String,
    pub domain: String,
    pub path: String,
    pub secure: bool,
    pub http_only: bool,
}

/// Mathematical value of a [`CookieMessage`].
pub struct CookieView {
    pub name: Seq<char>,
    pub value: Seq<char>,
    pub domain: Seq<char>,
    pub path: Seq<char>,
    pub secure: bool,
    pub http_only: bool,
}

impl View for CookieMessage {
    type V = CookieView;

    open spec fn view(&self) -> CookieView {
        CookieView {
            name: self.name@,
            value: self.value@,
            domain: self.domain@,
            path: self.path@,
            secure: self.secure,
            http_only: self.http_only,
        }
    }
}

impl Clone for CookieMessage {
    fn clone(&self) -> (copy: Self)
        ensures
            copy@ == self@,
    {
        CookieMessage {
            name: self.name.clone(),
            value: self.value.clone(),
            domain: self.domain.clone(),
            path: self.path.clone(),
            secure: self.secure,
            http_only: self.http_only,
        }
    }
}

impl PartialEq for CookieMessage {
    fn eq(&self, other: &Self) -> (equal: bool) {
        self.name == other.name && self.value == other.value && self.domain == other.domain
            && self.path == other.path && self.secure == other.secure && self.http_only
            == other.http_only
    }
}

impl vstd::std_specs::cmp::PartialEqSpecImpl for CookieMessage {
    open spec fn obeys_eq_spec() -> bool {
        true
    }

    open spec fn eq_spec(&self, other: &Self) -> bool {
        self.name@ == other.name@ && self.value@ == other.value@ && self.domain@ == other.domain@
            && self.path@ == other.path@ && self.secure == other.secure && self.http_only
            == other.http_only
    }
}

/// The views of a sequence of cookies, element by element.
pub open spec fn cookie_views(cookies: Seq<CookieMessage>) -> Seq<CookieView> {
    cookies.map_values(|c: CookieMessage| c@)
}

/// A cookie as the embedded browser's jar reports it: every attribute but the
/// name and the value may be absent.
#[derive(Debug)]
pub struct JarCookie {
    pub name: String,
    pub value: String,
    pub domain: Option<String>,
    pub path: Option<String>,
    pub secure: Option<bool>,
    pub http_only: Option<bool>,
}

/// Mathematical value of a [`JarCookie`].
pub struct JarCookieView {
    pub name: Seq<char>,
    pub value: Seq<char>,
    pub domain: Option<Seq<char>>,
    pub path: Option<Seq<char>>,
    pub secure: Option<bool>,
    pub http_only: Option<bool>,
}

/// The view of an optional string.
pub open spec fn opt_text(s: Option<String>) -> Option<Seq<char>> {
    match s {
        Some(t) => Some(t@),
        None => None,
    }
}

impl View for JarCookie {
    type V = JarCookieView;

    open spec fn view(&self) -> JarCookieView {
        JarCookieView {
            name: self.name@,
            value: self.value@,
            domain: opt_text(self.domain),
            path: opt_text(self.path),
            secure: self.secure,
            http_only: self.http_only,
        }
    }
}

/// The views of a sequence of jar cookies, element by element.
pub open spec fn jar_cookie_views(cookies: Seq<JarCookie>) -> Seq<JarCookieView> {
    cookies.map_values(|c: JarCookie| c@)
}

} // verus!
