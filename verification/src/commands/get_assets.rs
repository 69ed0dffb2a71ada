//! The listing of assets: the shape of one asset, and what the client adds
//! to a listing before it shows it.

use vstd::prelude::*;
use crate::json::{item_views, member, with_member, Json, JsonView};

verus! {

/// A value of the service together with the label it is shown under.
#[derive(Debug)]
pub struct Category {
    pub label: String,
    pub value: String,
}

/// Whether the asset can be reached, with its label.
#[derive(Debug)]
pub struct Connectivity {
    pub label: String,
    pub value: String,
}

/// A node of the asset tree.
#[derive(Debug)]
pub struct Node {
    pub id: String,
    pub name: String,
}

/// The platform that an asset runs on.
#[derive(Debug)]
pub struct Platform {
    pub id: i32,
    pub name: String,
}

/// The type of an asset, with its label.
#[derive(Debug)]
pub struct AssetType {
    pub label: String,
    pub value: String,
}

/// The network zone of an asset.
#[derive(Debug)]
pub struct Zone {
    pub id: String,
    pub name: String,
}

/// One asset as the listing returns it.
#[derive(Debug)]
pub struct AssetResult {
    pub address: String,
    pub category: Category,
    pub comment: String,
    pub connectivity: Connectivity,
    pub created_by: String,
    pub date_created: String,
    pub date_verified: String,
    pub id: String,
    pub is_active: bool,
    pub labels: Vec<String>,
    pub name: String,
    pub nodes: Vec<Node>,
    pub org_id: String,
    pub org_name: String,
    pub platform: Platform,
    pub asset_type: AssetType,
    pub zone: Zone,
}


/// An asset of a listing with the two lists that the front end fills in
/// later, both empty. A value that is no object stays as it is.
pub open spec fn with_permissions(item: JsonView) -> JsonView {
    if item is Object {
        with_member(
            with_member(item, "permedAccounts"@, JsonView::Array(Seq::empty())),
            "permedProtocols"@,
            JsonView::Array(Seq::empty()),
        )
    } else {
        item
    }
}

/// A listing in which every asset under `results` has the two lists. A
/// listing without a list of results stays as it is.
pub open spec fn with_empty_permissions(listing: JsonView) -> JsonView {
    match member(listing, "results"@) {
        Some(JsonView::Array(items)) => with_member(
            listing,
            "results"@,
            JsonView::Array(items.map_values(|item: JsonView| with_permissions(item))),
        ),
        _ => listing,
    }
}

fn empty_list() -> (list: Json)
    ensures
        list@ == JsonView::Array(Seq::empty()),
{
    let list = Json::array(Vec::new());
    assert(item_views(Seq::<Json>::empty()) =~= Seq::<JsonView>::empty());
    list
}

/// Gives every asset of the listing its two empty lists.
pub fn add_empty_permissions(listing: &Json) -> (r: Json)
    ensures
        r@ == with_empty_permissions(listing@),
{
    let items = match listing.get("results") {
        Some(results) => match results.as_array() {
            Some(items) => items,
            None => {
                return listing.clone();
            },
        },
        None => {
            return listing.clone();
        },
    };
    let mut filled: Vec<Json> = Vec::new();
    let mut i: usize = 0;
    while i < items.len()
        invariant
            i <= items.len(),
            filled.len() == i,
            forall|j: int| 0 <= j < i ==> filled[j]@ == with_permissions(items[j]@),
        decreases items.len() - i,
    {
        let item = items[i].clone();
        let next = if item.is_object() {
            item.insert("permedAccounts", empty_list()).insert("permedProtocols", empty_list())
        } else {
            item
        };
        filled.push(next);
        i += 1;
    }
    assert(item_views(filled@) =~= item_views(items@).map_values(
        |item: JsonView| with_permissions(item),
    ));
    let results = Json::array(filled);
    listing.clone().insert("results", results)
}

} // verus!
