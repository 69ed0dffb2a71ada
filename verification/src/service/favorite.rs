//! Marking an asset as a favourite, and taking the mark away.

use vstd::prelude::*;
use vstd::string::StringExecFns;
use crate::service::detail::AssetCallView;

verus! {

/// The favourite calls for one site, one set of cookies and one asset.
pub struct FavoriteService {
    origin: String,
    asset_id: String,
    cookie_header: String,
}

impl View for FavoriteService {
    type V = AssetCallView;

    closed spec fn view(&self) -> AssetCallView {
        AssetCallView {
            origin: self.origin@,
            cookie_header: self.cookie_header@,
            asset_id: self.asset_id@,
        }
    }
}

/// Body of the call that marks an asset as a favourite.
#[derive(Debug)]
pub struct FavoriteAssetBody {
    pub asset: String,
}

impl FavoriteService {
    pub fn new(origin: String, cookie_header: String, asset_id: String) -> (service: Self)
        ensures
            service@ == (AssetCallView {
                origin: origin@,
                cookie_header: cookie_header@,
                asset_id: asset_id@,
            }),
    {
        Self { origin, cookie_header, asset_id }
    }

    /// The `Cookie` header that the calls carry.
    pub fn cookie_header(&self) -> (header: &str)
        ensures
            header@ == self@.cookie_header,
    {
        self.cookie_header.as_str()
    }

    /// Address of the call that marks the asset.
    pub fn favorite_url(&self) -> (url: String)
        ensures
            url@ == self@.origin + "/api/v1/assets/favorite-assets/"@,
    {
        let mut url = self.origin.clone();
        url.append("/api/v1/assets/favorite-assets/");
        url
    }

    /// Body of the call that marks the asset.
    pub fn favorite_body(&self) -> (body: FavoriteAssetBody)
        ensures
            body.asset@ == self@.asset_id,
    {
        FavoriteAssetBody { asset: self.asset_id.clone() }
    }

    /// Address of the call that takes the mark away. The asset is named in
    /// the query, as it stands.
    pub fn unfavorite_url(&self) -> (url: String)
        ensures
            url@ == self@.origin + "/api/v1/assets/favorite-assets/?asset="@ + self@.asset_id,
    {
        let mut url = self.origin.clone();
        url.append("/api/v1/assets/favorite-assets/?asset=");
        url.append(self.asset_id.as_str());
        url
    }
}

} // verus!
