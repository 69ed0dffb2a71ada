//! The details of one asset.

use vstd::prelude::*;
use vstd::string::StringExecFns;

verus! {

/// The detail call for one site, one set of cookies and one asset.
pub struct DetailService {
    origin: String,
    cookie_header: String,
    asset_id: String,
}

/// Mathematical value of a service that is bound to one asset.
pub struct AssetCallView {
    pub origin: Seq<char>,
    pub cookie_header: Seq<char>,
    pub asset_id: Seq<char>,
}

impl View for DetailService {
    type V = AssetCallView;

    closed spec fn view(&self) -> AssetCallView {
        AssetCallView {
            origin: self.origin@,
            cookie_header: self.cookie_header@,
            asset_id: self.asset_id@,
        }
    }
}

impl DetailService {
    pub fn new(origin: String, cookie_header: String, asset_id: String) -> (service: Self)
        ensures
            service@ == (AssetCallView {
                origin: origin@,
                cookie_header: cookie_header@,
                asset_id: asset_id@,
            }),
    {
        Self { origin, cookie_header, asset_id }
    }

    /// The `Cookie` header that the call carries.
    pub fn cookie_header(&self) -> (header: &str)
        ensures
            header@ == self@.cookie_header,
    {
        self.cookie_header.as_str()
    }

    /// Address of the asset's details.
    pub fn asset_detail_url(&self) -> (url: String)
        ensures
            url@ == self@.origin + "/api/v1/perms/users/self/assets/"@ + self@.asset_id,
    {
        let mut url = self.origin.clone();
        url.append("/api/v1/perms/users/self/assets/");
        url.append(self.asset_id.as_str());
        url
    }
}

} // verus!
