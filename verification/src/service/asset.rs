//! Listing the assets that the user may reach.

use vstd::prelude::*;
use vstd::string::StringExecFns;

verus! {

/// The kinds of asset that the client lists.
#[derive(Clone, Copy, Debug, PartialEq, Eq, Structural)]
pub enum Category {
    Linux,
    Windows,
    Database,
    Device,
}

impl Default for Category {
    fn default() -> (category: Self)
        ensures
            category == Category::Linux,
    {
        Category::Linux
    }
}

/// The query of an asset listing. Linux and Windows assets are asked for by
/// type, databases and devices by category.
#[derive(Debug)]
pub struct AssetQuery {
    pub asset_type: Option<Category>,
    pub category: Option<Category>,
    pub offset: Option<u32>,
    pub limit: Option<u32>,
    pub search: Option<String>,
    pub order: Option<String>,
    /// The organisation that is asked.
    pub oid: String,
}

/// Mathematical value of an [`AssetQuery`].
pub struct AssetQueryView {
    pub asset_type: Option<Category>,
    pub category: Option<Category>,
    pub offset: Option<u32>,
    pub limit: Option<u32>,
    pub search: Option<Seq<char>>,
    pub order: Option<Seq<char>>,
    pub oid: Seq<char>,
}

impl View for AssetQuery {
    type V = AssetQueryView;

    open spec fn view(&self) -> AssetQueryView {
        AssetQueryView {
            asset_type: self.asset_type,
            category: self.category,
            offset: self.offset,
            limit: self.limit,
            search: crate::models::opt_text(self.search),
            order: crate::models::opt_text(self.order),
            oid: self.oid@,
        }
    }
}

/// Whether assets of this kind are asked for by type rather than by
/// category.
pub open spec fn listed_by_type(kind: Category) -> bool {
    kind is Linux || kind is Windows
}

/// The query for all assets of one kind in the organisation `org`.
pub open spec fn query_for(kind: Category, org: Seq<char>) -> AssetQueryView {
    AssetQueryView {
        asset_type: if listed_by_type(kind) {
            Some(kind)
        } else {
            None
        },
        category: if listed_by_type(kind) {
            None
        } else {
            Some(kind)
        },
        offset: None,
        limit: None,
        search: None,
        order: None,
        oid: org,
    }
}

/// The kind of asset that a query asks for: its category, else its type,
/// else Linux.
pub open spec fn category_of(query: AssetQueryView) -> Category {
    match query.category {
        Some(kind) => kind,
        None => match query.asset_type {
            Some(kind) => kind,
            None => Category::Linux,
        },
    }
}

/// The query as it is sent. The favourites are listed without regard to
/// kind; any other listing names its kind. A window that is not given
/// starts at 0 and holds 20 assets; a search or an order that is not given
/// is sent empty.
pub open spec fn sent_query(query: AssetQueryView, favorite: bool) -> AssetQueryView {
    let kind = category_of(query);
    AssetQueryView {
        asset_type: if !favorite && listed_by_type(kind) {
            Some(kind)
        } else {
            None
        },
        category: if !favorite && !listed_by_type(kind) {
            Some(kind)
        } else {
            None
        },
        offset: Some(
            match query.offset {
                Some(n) => n,
                None => 0,
            },
        ),
        limit: Some(
            match query.limit {
                Some(n) => n,
                None => 20,
            },
        ),
        search: Some(
            match query.search {
                Some(text) => text,
                None => Seq::empty(),
            },
        ),
        order: Some(
            match query.order {
                Some(text) => text,
                None => Seq::empty(),
            },
        ),
        oid: query.oid,
    }
}

impl AssetQuery {
    pub fn new(asset_type: Category, org: String) -> (query: Self)
        ensures
            query@ == query_for(asset_type, org@),
    {
        let (by_type, by_category) = match asset_type {
            Category::Database | Category::Device => (None, Some(asset_type)),
            Category::Linux | Category::Windows => (Some(asset_type), None),
        };
        Self {
            asset_type: by_type,
            category: by_category,
            offset: None,
            limit: None,
            search: None,
            order: None,
            oid: org,
        }
    }

    pub fn get_category(&self) -> (kind: Category)
        ensures
            kind == category_of(self@),
    {
        match self.category {
            Some(kind) => kind,
            None => match self.asset_type {
                Some(kind) => kind,
                None => Category::Linux,
            },
        }
    }
}

/// What is sent on behalf of an organisation.
pub trait HasOrg {
    /// The organisation, as the view of what `org` returns.
    spec fn org_text(&self) -> Seq<char>;

    /// The organisation that goes into the `X-JMS-ORG` header.
    fn org(&self) -> (org: &str)
        ensures
            org@ == self.org_text(),
    ;
}

impl HasOrg for AssetQuery {
    open spec fn org_text(&self) -> Seq<char> {
        self.oid@
    }

    fn org(&self) -> (org: &str) {
        self.oid.as_str()
    }
}

/// The asset listings for one site, one set of cookies and one query.
pub struct AssetService {
    origin: String,
    cookie_header: String,
    query: AssetQuery,
}

/// Mathematical value of an [`AssetService`].
pub struct AssetServiceView {
    pub origin: Seq<char>,
    pub cookie_header: Seq<char>,
    pub query: AssetQueryView,
}

impl View for AssetService {
    type V = AssetServiceView;

    closed spec fn view(&self) -> AssetServiceView {
        AssetServiceView {
            origin: self.origin@,
            cookie_header: self.cookie_header@,
            query: self.query@,
        }
    }
}

fn text_or_empty(text: &Option<String>) -> (r: String)
    ensures
        r@ == match crate::models::opt_text(*text) {
            Some(t) => t,
            None => Seq::empty(),
        },
{
    match text {
        Some(t) => t.clone(),
        None => String::new(),
    }
}

impl AssetService {
    pub fn new(origin: String, cookie_header: String, query: AssetQuery) -> (service: Self)
        ensures
            service@ == (AssetServiceView {
                origin: origin@,
                cookie_header: cookie_header@,
                query: query@,
            }),
    {
        Self { origin, cookie_header, query }
    }

    /// The `Cookie` header that the calls carry.
    pub fn cookie_header(&self) -> (header: &str)
        ensures
            header@ == self@.cookie_header,
    {
        self.cookie_header.as_str()
    }

    /// The query that the service was made with.
    pub fn query(&self) -> (query: &AssetQuery)
        ensures
            query@ == self@.query,
    {
        &self.query
    }

    /// Address of the listing: that of the favourites, or that of all
    /// assets the user may reach.
    pub fn category_assets_url(&self, favorite: bool) -> (url: String)
        ensures
            url@ == self@.origin + if favorite {
                "/api/v1/perms/users/self/nodes/favorite/assets/"@
            } else {
                "/api/v1/perms/users/self/assets/"@
            },
    {
        let mut url = self.origin.clone();
        if favorite {
            url.append("/api/v1/perms/users/self/nodes/favorite/assets/");
        } else {
            url.append("/api/v1/perms/users/self/assets/");
        }
        url
    }

    /// The query that goes with the listing.
    pub fn category_assets_query(&self, favorite: bool) -> (query: AssetQuery)
        ensures
            query@ == sent_query(self@.query, favorite),
    {
        let kind = self.query.get_category();
        let (by_type, by_category) = if favorite {
            (None, None)
        } else {
            match kind {
                Category::Linux => (Some(Category::Linux), None),
                Category::Windows => (Some(Category::Windows), None),
                Category::Database => (None, Some(Category::Database)),
                Category::Device => (None, Some(Category::Device)),
            }
        };
        AssetQuery {
            asset_type: by_type,
            category: by_category,
            offset: Some(
                match self.query.offset {
                    Some(n) => n,
                    None => 0,
                },
            ),
            limit: Some(
                match self.query.limit {
                    Some(n) => n,
                    None => 20,
                },
            ),
            search: Some(text_or_empty(&self.query.search)),
            order: Some(text_or_empty(&self.query.order)),
            oid: self.query.oid.clone(),
        }
    }

    /// Address of the list of the user's favourite assets.
    pub fn favorite_assets_url(&self) -> (url: String)
        ensures
            url@ == self@.origin + "/api/v1/assets/favorite-assets/"@,
    {
        let mut url = self.origin.clone();
        url.append("/api/v1/assets/favorite-assets/");
        url
    }
}

} // verus!
