//! The user's preferences for the web terminal.

use vstd::prelude::*;
use vstd::string::StringExecFns;
use crate::service::user::SessionView;

verus! {

/// The preference call for one site and one set of cookies.
pub struct SettingService {
    origin: String,
    cookie_header: String,
}

impl View for SettingService {
    type V = SessionView;

    closed spec fn view(&self) -> SessionView {
        SessionView { origin: self.origin@, cookie_header: self.cookie_header@ }
    }
}

impl SettingService {
    pub fn new(origin: String, cookie_header: String) -> (service: Self)
        ensures
            service@ == (SessionView { origin: origin@, cookie_header: cookie_header@ }),
    {
        Self { origin, cookie_header }
    }

    /// The `Cookie` header that the call carries.
    pub fn cookie_header(&self) -> (header: &str)
        ensures
            header@ == self@.cookie_header,
    {
        self.cookie_header.as_str()
    }

    /// Address of the preference call.
    pub fn setting_url(&self) -> (url: String)
        ensures
            url@ == self@.origin + "/api/v1/users/preference/?category=luna"@,
    {
        let mut url = self.origin.clone();
        url.append("/api/v1/users/preference/?category=luna");
        url
    }
}

} // verus!
