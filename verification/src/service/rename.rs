//! Giving an asset a name of the user's own.

use vstd::prelude::*;
use vstd::string::StringExecFns;
use crate::service::asset::HasOrg;

verus! {

/// Body of the rename call. An empty organisation is left out when the
/// body is written.
#[derive(Debug)]
pub struct RenameBody {
    pub asset: String,
    pub name: String,
    pub oid: String,
}

/// Mathematical value of a [`RenameBody`].
pub struct RenameBodyView {
    pub asset: Seq<char>,
    pub name: Seq<char>,
    pub oid: Seq<char>,
}

impl View for RenameBody {
    type V = RenameBodyView;

    open spec fn view(&self) -> RenameBodyView {
        RenameBodyView { asset: self.asset@, name: self.name@, oid: self.oid@ }
    }
}

impl HasOrg for RenameBody {
    open spec fn org_text(&self) -> Seq<char> {
        self.oid@
    }

    fn org(&self) -> (org: &str) {
        self.oid.as_str()
    }
}

/// The rename call for one site, one set of cookies and one asset.
pub struct RenameService {
    origin: String,
    asset_id: String,
    name: String,
    cookie_header: String,
    oid: String,
}

/// Mathematical value of a [`RenameService`].
pub struct RenameServiceView {
    pub origin: Seq<char>,
    pub cookie_header: Seq<char>,
    pub asset_id: Seq<char>,
    pub name: Seq<char>,
    pub oid: Seq<char>,
}

impl View for RenameService {
    type V = RenameServiceView;

    closed spec fn view(&self) -> RenameServiceView {
        RenameServiceView {
            origin: self.origin@,
            cookie_header: self.cookie_header@,
            asset_id: self.asset_id@,
            name: self.name@,
            oid: self.oid@,
        }
    }
}

impl RenameService {
    pub fn new(
        origin: String,
        cookie_header: String,
        asset_id: String,
        name: String,
        oid: String,
    ) -> (service: Self)
        ensures
            service@ == (RenameServiceView {
                origin: origin@,
                cookie_header: cookie_header@,
                asset_id: asset_id@,
                name: name@,
                oid: oid@,
            }),
    {
        Self { origin, cookie_header, asset_id, name, oid }
    }

    /// The `Cookie` header that the call carries.
    pub fn cookie_header(&self) -> (header: &str)
        ensures
            header@ == self@.cookie_header,
    {
        self.cookie_header.as_str()
    }

    /// Address of the rename call.
    pub fn rename_url(&self) -> (url: String)
        ensures
            url@ == self@.origin + "/api/v1/assets/my-asset/"@,
    {
        let mut url = self.origin.clone();
        url.append("/api/v1/assets/my-asset/");
        url
    }

    /// Body of the rename call.
    pub fn rename_body(&self) -> (body: RenameBody)
        ensures
            body@ == (RenameBodyView {
                asset: self@.asset_id,
                name: self@.name,
                oid: self@.oid,
            }),
    {
        RenameBody {
            asset: self.asset_id.clone(),
            name: self.name.clone(),
            oid: self.oid.clone(),
        }
    }
}

} // verus!
