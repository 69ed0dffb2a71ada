//! The settings that the client keeps for its helper programs: how a newer
//! template takes over what the user chose, and how a choice of the user
//! is written into the settings.

use vstd::prelude::*;
use vstd::string::StringExecFns;
use crate::json::{
    item_views, items_of, member, text_of, with_member, Json, JsonView,
};
use crate::text::{from_chars, same_text, to_chars, trim_chars, trimmed};

verus! {

/// The client's settings: one section per operating system, and in each
/// section one list of helper programs per kind of connection.
pub struct ConfigService;

/// The version of settings that do not state one.
pub const DEFAULT_CONFIG_VERSION: i64 = 1;

/// The version that settings state: the integer under `version`, else 1.
pub open spec fn version_of(config: JsonView) -> i64 {
    match member(config, "version"@) {
        Some(JsonView::Integer(n)) => n,
        _ => DEFAULT_CONFIG_VERSION,
    }
}

/// The name of an entry, where it has one that is a string.
pub open spec fn name_of(entry: JsonView) -> Option<Seq<char>> {
    text_of(member(entry, "name"@))
}

/// The text of a value that is a string, and the empty text for any other
/// value or none.
pub open spec fn text_or_empty(v: Option<JsonView>) -> Seq<char> {
    match v {
        Some(JsonView::Text(t)) => t,
        _ => Seq::empty(),
    }
}

/// An entry of the template with what the user chose for it: the user's
/// `match_first` and `is_set` where the user has them, and the user's
/// `path` where it is a non-empty string other than the entry's own.
pub open spec fn keep_user_choices(entry: JsonView, user: JsonView) -> JsonView {
    let first = match member(user, "match_first"@) {
        Some(m) => with_member(entry, "match_first"@, m),
        None => entry,
    };
    let second = match member(user, "path"@) {
        Some(JsonView::Text(p)) => if p.len() > 0 && p != text_or_empty(member(first, "path"@)) {
            with_member(first, "path"@, JsonView::Text(p))
        } else {
            first
        },
        _ => first,
    };
    match member(user, "is_set"@) {
        Some(s) => with_member(second, "is_set"@, s),
        None => second,
    }
}

/// Position of the first entry with the name `name`, or the number of
/// entries where none has it.
pub open spec fn named_index(entries: Seq<JsonView>, name: Seq<char>) -> int
    decreases entries.len(),
{
    if entries.len() == 0 {
        0
    } else if name_of(entries[0]) == Some(name) {
        0
    } else {
        1 + named_index(entries.drop_first(), name)
    }
}

proof fn lemma_named_index(entries: Seq<JsonView>, name: Seq<char>)
    ensures
        0 <= named_index(entries, name) <= entries.len(),
        forall|i: int|
            0 <= i < named_index(entries, name) ==> name_of(#[trigger] entries[i]) != Some(name),
        named_index(entries, name) < entries.len() ==> name_of(
            entries[named_index(entries, name)],
        ) == Some(name),
    decreases entries.len(),
{
    if entries.len() > 0 && name_of(entries[0]) != Some(name) {
        let rest = entries.drop_first();
        lemma_named_index(rest, name);
        assert forall|i: int| 0 <= i < named_index(entries, name) implies name_of(
            #[trigger] entries[i],
        ) != Some(name) by {
            if i > 0 {
                assert(rest[i - 1] == entries[i]);
            }
        }
    }
}

proof fn lemma_named_index_is(entries: Seq<JsonView>, name: Seq<char>, n: int)
    requires
        0 <= n <= entries.len(),
        forall|i: int| 0 <= i < n ==> name_of(#[trigger] entries[i]) != Some(name),
        n < entries.len() ==> name_of(entries[n]) == Some(name),
    ensures
        named_index(entries, name) == n,
{
    lemma_named_index(entries, name);
}

/// The entries after one entry of the user has been taken into account:
/// the first entry with the user's name keeps the user's choices.
pub open spec fn apply_user_item(entries: Seq<JsonView>, user: JsonView) -> Seq<JsonView> {
    match name_of(user) {
        Some(name) => {
            let i = named_index(entries, name);
            if 0 <= i < entries.len() {
                entries.update(i, keep_user_choices(entries[i], user))
            } else {
                entries
            }
        },
        None => entries,
    }
}

/// The entries after the user's entries have been taken into account, one
/// after the other.
pub open spec fn apply_user_items(entries: Seq<JsonView>, users: Seq<JsonView>) -> Seq<JsonView>
    decreases users.len(),
{
    if users.len() == 0 {
        entries
    } else {
        apply_user_items(apply_user_item(entries, users[0]), users.drop_first())
    }
}

/// One list of helper programs after an upgrade: the entries of the
/// template, each with what the user chose for the entry of that name. The
/// template's list as it is where one of the two is no list.
pub open spec fn merged_items(user_items: JsonView, default_items: JsonView) -> JsonView {
    match (user_items, default_items) {
        (JsonView::Array(users), JsonView::Array(entries)) => JsonView::Array(
            apply_user_items(entries, users),
        ),
        _ => default_items,
    }
}

/// A section with one of its lists merged, where both the user and the
/// template have that list.
pub open spec fn with_merged_group(
    section: JsonView,
    user_os: JsonView,
    default_os: JsonView,
    group: Seq<char>,
) -> JsonView {
    match (member(user_os, group), member(default_os, group)) {
        (Some(user_items), Some(default_items)) => with_member(
            section,
            group,
            merged_items(user_items, default_items),
        ),
        _ => section,
    }
}

/// The section of one operating system after an upgrade: the template's
/// section with its four lists merged. The template's section as it is
/// where one of the two is no object.
pub open spec fn merged_os(user_os: JsonView, default_os: JsonView) -> JsonView {
    if user_os is Object && default_os is Object {
        with_merged_group(
            with_merged_group(
                with_merged_group(
                    with_merged_group(default_os, user_os, default_os, "terminal"@),
                    user_os,
                    default_os,
                    "remotedesktop"@,
                ),
                user_os,
                default_os,
                "filetransfer"@,
            ),
            user_os,
            default_os,
            "databases"@,
        )
    } else {
        default_os
    }
}

/// Settings with the section of one operating system merged, where both
/// the user and the template have that section.
pub open spec fn with_merged_os(
    merged: JsonView,
    user: JsonView,
    template: JsonView,
    os: Seq<char>,
) -> JsonView {
    match (member(user, os), member(template, os)) {
        (Some(user_os), Some(default_os)) => with_member(merged, os, merged_os(user_os, default_os)),
        _ => merged,
    }
}

/// The settings after an upgrade: the template, with its version stated,
/// and with the sections of the three operating systems merged.
pub open spec fn merged_configs(user: JsonView, template: JsonView) -> JsonView {
    let versioned = with_member(template, "version"@, JsonView::Integer(version_of(template)));
    with_merged_os(
        with_merged_os(
            with_merged_os(versioned, user, template, "windows"@),
            user,
            template,
            "macos"@,
        ),
        user,
        template,
        "linux"@,
    )
}

fn keep_choices(entry: Json, user: &Json) -> (r: Json)
    ensures
        r@ == keep_user_choices(entry@, user@),
{
    let mut kept = entry;
    if let Some(match_first) = user.get("match_first") {
        kept = kept.insert("match_first", match_first.clone());
    }
    if let Some(user_path) = user.get("path") {
        if let Some(text) = user_path.as_str() {
            if !text.is_empty() {
                let differs = match kept.get_str("path") {
                    Some(own) => !same_text(text, own),
                    None => true,
                };
                if differs {
                    kept = kept.insert("path", user_path.clone());
                }
            }
        }
    }
    if let Some(is_set) = user.get("is_set") {
        kept = kept.insert("is_set", is_set.clone());
    }
    kept
}

fn find_named(entries: &Vec<Json>, name: &str) -> (n: usize)
    ensures
        n == named_index(item_views(entries@), name@),
        n <= entries.len(),
{
    let mut n: usize = 0;
    while n < entries.len() && !has_name(&entries[n], name)
        invariant
            n <= entries.len(),
            forall|i: int| 0 <= i < n ==> name_of(#[trigger] item_views(entries@)[i]) != Some(name@),
        decreases entries.len() - n,
    {
        n += 1;
    }
    proof {
        lemma_named_index_is(item_views(entries@), name@, n as int);
    }
    n
}

fn has_name(entry: &Json, name: &str) -> (r: bool)
    ensures
        r == (name_of(entry@) == Some(name@)),
{
    match entry.get_str("name") {
        Some(own) => same_text(own, name),
        None => false,
    }
}

impl ConfigService {
    /// The version that settings state.
    pub fn get_config_version(config: &Json) -> (version: i64)
        ensures
            version == version_of(config@),
    {
        match config.get("version") {
            Some(Json::Integer(n)) => *n,
            _ => DEFAULT_CONFIG_VERSION,
        }
    }

    /// Whether the template, of version `default_version`, is merged into
    /// the user's settings of version `user_version`: only a later version
    /// is.
    pub fn needs_upgrade(user_version: i64, default_version: i64) -> (upgrade: bool)
        ensures
            upgrade == (default_version > user_version),
    {
        default_version > user_version
    }

    /// Merges one list of helper programs.
    pub fn merge_app_items(user_items: &Json, default_items: &Json) -> (merged: Json)
        ensures
            merged@ == merged_items(user_items@, default_items@),
    {
        let (users, entries) = match (user_items.as_array(), default_items.as_array()) {
            (Some(users), Some(entries)) => (users, entries),
            _ => {
                return default_items.clone();
            },
        };
        let ghost user_views = item_views(users@);
        let mut result: Vec<Json> = Vec::new();
        let mut k: usize = 0;
        while k < entries.len()
            invariant
                k <= entries.len(),
                result.len() == k,
                forall|j: int| 0 <= j < k ==> result[j]@ == entries[j]@,
            decreases entries.len() - k,
        {
            result.push(entries[k].clone());
            k += 1;
        }
        assert(item_views(result@) =~= item_views(entries@));
        let mut i: usize = 0;
        assert(user_views.skip(0) =~= user_views);
        while i < users.len()
            invariant
                i <= users.len(),
                user_views == item_views(users@),
                apply_user_items(item_views(result@), user_views.skip(i as int))
                    == apply_user_items(item_views(entries@), user_views),
            decreases users.len() - i,
        {
            let user = &users[i];
            let ghost before = item_views(result@);
            proof {
                let rest = user_views.skip(i as int);
                assert(rest[0] == user@);
                assert(rest.drop_first() =~= user_views.skip(i + 1));
            }
            if let Some(name) = user.get_str("name") {
                let n = find_named(&result, name);
                if n < result.len() {
                    let kept = keep_choices(result[n].clone(), user);
                    result.set(n, kept);
                    assert(item_views(result@) =~= before.update(n as int, kept@));
                }
            }
            assert(item_views(result@) == apply_user_item(before, user@));
            i += 1;
        }
        Json::array(result)
    }

    fn merge_group(section: Json, user_os: &Json, default_os: &Json, group: &str) -> (r: Json)
        ensures
            r@ == with_merged_group(section@, user_os@, default_os@, group@),
    {
        match (user_os.get(group), default_os.get(group)) {
            (Some(user_items), Some(default_items)) => {
                let merged = Self::merge_app_items(user_items, default_items);
                section.insert(group, merged)
            },
            _ => section,
        }
    }

    /// Merges the section of one operating system.
    pub fn merge_os_config(user_os: &Json, default_os: &Json) -> (merged: Json)
        ensures
            merged@ == merged_os(user_os@, default_os@),
    {
        if !user_os.is_object() || !default_os.is_object() {
            return default_os.clone();
        }
        let mut result = default_os.clone();
        result = Self::merge_group(result, user_os, default_os, "terminal");
        result = Self::merge_group(result, user_os, default_os, "remotedesktop");
        result = Self::merge_group(result, user_os, default_os, "filetransfer");
        result = Self::merge_group(result, user_os, default_os, "databases");
        result
    }

    fn merge_os(merged: Json, user: &Json, template: &Json, os: &str) -> (r: Json)
        ensures
            r@ == with_merged_os(merged@, user@, template@, os@),
    {
        match (user.get(os), template.get(os)) {
            (Some(user_os), Some(default_os)) => {
                let section = Self::merge_os_config(user_os, default_os);
                merged.insert(os, section)
            },
            _ => merged,
        }
    }

    /// Merges the user's settings into a newer template. What the template
    /// holds outside the three sections, it keeps.
    pub fn merge_configs(user_config: &Json, default_config: &Json) -> (merged: Json)
        requires
            default_config@ is Object,
        ensures
            merged@ == merged_configs(user_config@, default_config@),
    {
        let version = Self::get_config_version(default_config);
        let mut merged = default_config.clone().insert("version", Json::Integer(version));
        merged = Self::merge_os(merged, user_config, default_config, "windows");
        merged = Self::merge_os(merged, user_config, default_config, "macos");
        merged = Self::merge_os(merged, user_config, default_config, "linux");
        merged
    }
}


/// The name of an entry, and the empty text for an entry without one.
pub open spec fn item_name(entry: JsonView) -> Seq<char> {
    text_or_empty(member(entry, "name"@))
}

/// Position of the first entry whose name is `name`, or the number of
/// entries where none has that name.
pub open spec fn selected_index(entries: Seq<JsonView>, name: Seq<char>) -> int
    decreases entries.len(),
{
    if entries.len() == 0 {
        0
    } else if item_name(entries[0]) == name {
        0
    } else {
        1 + selected_index(entries.drop_first(), name)
    }
}

proof fn lemma_selected_index(entries: Seq<JsonView>, name: Seq<char>)
    ensures
        0 <= selected_index(entries, name) <= entries.len(),
        forall|i: int|
            0 <= i < selected_index(entries, name) ==> item_name(#[trigger] entries[i]) != name,
        selected_index(entries, name) < entries.len() ==> item_name(
            entries[selected_index(entries, name)],
        ) == name,
    decreases entries.len(),
{
    if entries.len() > 0 && item_name(entries[0]) != name {
        let rest = entries.drop_first();
        lemma_selected_index(rest, name);
        assert forall|i: int| 0 <= i < selected_index(entries, name) implies item_name(
            #[trigger] entries[i],
        ) != name by {
            if i > 0 {
                assert(rest[i - 1] == entries[i]);
            }
        }
    }
}

proof fn lemma_selected_index_is(entries: Seq<JsonView>, name: Seq<char>, n: int)
    requires
        0 <= n <= entries.len(),
        forall|i: int| 0 <= i < n ==> item_name(#[trigger] entries[i]) != name,
        n < entries.len() ==> item_name(entries[n]) == name,
    ensures
        selected_index(entries, name) == n,
{
    lemma_selected_index(entries, name);
}

/// The list of helper programs for one kind of connection on one
/// operating system, where the settings hold such a list.
pub open spec fn entries_of(config: JsonView, os: Seq<char>, category: Seq<char>) -> Option<
    Seq<JsonView>,
> {
    match member(config, os) {
        Some(section) => items_of(member(section, category)),
        None => None,
    }
}

/// The settings with that list replaced.
pub open spec fn with_entries(
    config: JsonView,
    os: Seq<char>,
    category: Seq<char>,
    entries: Seq<JsonView>,
) -> JsonView {
    match member(config, os) {
        Some(section) => with_member(
            config,
            os,
            with_member(section, category, JsonView::Array(entries)),
        ),
        None => config,
    }
}

/// An entry with the path of the user's own, marked as set.
pub open spec fn with_path(entry: JsonView, path: Seq<char>) -> JsonView {
    with_member(
        with_member(entry, "path"@, JsonView::Text(path)),
        "is_set"@,
        JsonView::Bool(true),
    )
}

/// A list without the strings that spell `text`.
pub open spec fn without_text(list: Seq<JsonView>, text: Seq<char>) -> Seq<JsonView>
    decreases list.len(),
{
    if list.len() == 0 {
        Seq::empty()
    } else if list.last() == JsonView::Text(text) {
        without_text(list.drop_last(), text)
    } else {
        without_text(list.drop_last(), text).push(list.last())
    }
}

/// An entry that is no longer the first choice for `protocol`.
pub open spec fn without_protocol(entry: JsonView, protocol: Seq<char>) -> JsonView {
    match member(entry, "match_first"@) {
        Some(JsonView::Array(list)) => with_member(
            entry,
            "match_first"@,
            JsonView::Array(without_text(list, protocol)),
        ),
        _ => entry,
    }
}

/// An entry that is the first choice for `protocol`: the protocol is put
/// at the end of its `match_first`, which is made if it is missing.
pub open spec fn as_first_choice(entry: JsonView, protocol: Seq<char>) -> JsonView {
    let listed = if member(entry, "match_first"@) is None {
        with_member(entry, "match_first"@, JsonView::Array(Seq::empty()))
    } else {
        entry
    };
    match member(listed, "match_first"@) {
        Some(JsonView::Array(list)) => with_member(
            listed,
            "match_first"@,
            JsonView::Array(list.push(JsonView::Text(protocol))),
        ),
        _ => listed,
    }
}

/// The path that a selection sets: the given one without the white space
/// around it, unless that leaves nothing.
pub open spec fn path_chosen(new_path: Option<Seq<char>>) -> Option<Seq<char>> {
    match new_path {
        Some(p) => if trimmed(p).len() > 0 {
            Some(trimmed(p))
        } else {
            None
        },
        None => None,
    }
}

/// The message for settings that hold no list for the kind of connection.
pub open spec fn invalid_path_message(os: Seq<char>, category: Seq<char>) -> Seq<char> {
    "invalid config path: "@ + os + seq!['.'] + category
}

/// The message for a list that holds no entry of the name.
pub open spec fn not_found_message(name: Seq<char>, os: Seq<char>, category: Seq<char>) -> Seq<
    char,
> {
    "selected item '"@ + name + "' not found under "@ + os + seq!['.'] + category
}

/// The entries after the selection of the entry at `index`. With a path,
/// that entry gets the path. Without one, it becomes the first choice for
/// the protocol, which every other entry ceases to be.
pub open spec fn selected_entries(
    entries: Seq<JsonView>,
    index: int,
    protocol: Seq<char>,
    path: Option<Seq<char>>,
) -> Seq<JsonView> {
    match path {
        Some(p) => entries.update(index, with_path(entries[index], p)),
        None => {
            let others = entries.map_values(|e: JsonView| without_protocol(e, protocol));
            others.update(index, as_first_choice(others[index], protocol))
        },
    }
}

/// The settings after the user has selected the helper program `name` for
/// the connections of kind `category`: the new settings, or the message
/// that says why there are none.
pub open spec fn selection_of(
    config: JsonView,
    os: Seq<char>,
    category: Seq<char>,
    protocol: Seq<char>,
    name: Seq<char>,
    new_path: Option<Seq<char>>,
) -> Result<JsonView, Seq<char>> {
    match entries_of(config, os, category) {
        None => Err(invalid_path_message(os, category)),
        Some(entries) => {
            let index = selected_index(entries, name);
            if 0 <= index < entries.len() {
                Ok(
                    with_entries(
                        config,
                        os,
                        category,
                        selected_entries(entries, index, protocol, path_chosen(new_path)),
                    ),
                )
            } else {
                Err(not_found_message(name, os, category))
            }
        },
    }
}

/// The entry that a selection of `name` would change is an object. An
/// entry that is none has no name, so a selection by a name is always safe.
pub open spec fn selection_is_safe(
    config: JsonView,
    os: Seq<char>,
    category: Seq<char>,
    name: Seq<char>,
) -> bool {
    match entries_of(config, os, category) {
        Some(entries) => {
            let index = selected_index(entries, name);
            0 <= index < entries.len() ==> entries[index] is Object
        },
        None => true,
    }
}

fn entry_name_is(entry: &Json, name: &str) -> (r: bool)
    ensures
        r == (item_name(entry@) == name@),
{
    match entry.get_str("name") {
        Some(own) => same_text(own, name),
        None => {
            assert(name@.len() == 0 ==> name@ =~= Seq::<char>::empty());
            name.is_empty()
        },
    }
}

fn find_selected(entries: &Vec<Json>, name: &str) -> (n: usize)
    ensures
        n == selected_index(item_views(entries@), name@),
        n <= entries.len(),
{
    let mut n: usize = 0;
    while n < entries.len() && !entry_name_is(&entries[n], name)
        invariant
            n <= entries.len(),
            forall|i: int| 0 <= i < n ==> item_name(#[trigger] item_views(entries@)[i]) != name@,
        decreases entries.len() - n,
    {
        n += 1;
    }
    proof {
        lemma_selected_index_is(item_views(entries@), name@, n as int);
    }
    n
}

fn drop_text(list: &Vec<Json>, text: &str) -> (r: Vec<Json>)
    ensures
        item_views(r@) == without_text(item_views(list@), text@),
{
    let ghost all = item_views(list@);
    let mut kept: Vec<Json> = Vec::new();
    let mut i: usize = 0;
    while i < list.len()
        invariant
            i <= list.len(),
            all == item_views(list@),
            item_views(kept@) == without_text(all.take(i as int), text@),
        decreases list.len() - i,
    {
        proof {
            let next = all.take(i + 1);
            assert(next.drop_last() =~= all.take(i as int));
            assert(next.last() == list@[i as int]@);
        }
        let same = match &list[i] {
            Json::Text(t) => same_text(t.as_str(), text),
            _ => false,
        };
        if !same {
            let ghost before = item_views(kept@);
            let copy = list[i].clone();
            kept.push(copy);
            assert(item_views(kept@) =~= before.push(copy@));
        }
        i += 1;
    }
    assert(all.take(i as int) =~= all);
    kept
}

fn drop_protocol(entry: &Json, protocol: &str) -> (r: Json)
    ensures
        r@ == without_protocol(entry@, protocol@),
{
    match entry.get("match_first") {
        Some(value) => match value.as_array() {
            Some(list) => {
                let kept = drop_text(list, protocol);
                entry.clone().insert("match_first", Json::array(kept))
            },
            None => entry.clone(),
        },
        None => entry.clone(),
    }
}

fn make_first_choice(entry: Json, protocol: &str) -> (r: Json)
    ensures
        r@ == as_first_choice(entry@, protocol@),
{
    let listed = if entry.get("match_first").is_none() {
        let r = entry.insert("match_first", Json::array(Vec::new()));
        assert(item_views(Seq::<Json>::empty()) =~= Seq::<JsonView>::empty());
        r
    } else {
        entry
    };
    let grown = match listed.get("match_first") {
        Some(value) => match value.as_array() {
            Some(list) => {
                let mut copy: Vec<Json> = Vec::new();
                let mut i: usize = 0;
                while i < list.len()
                    invariant
                        i <= list.len(),
                        copy.len() == i,
                        forall|j: int| 0 <= j < i ==> copy[j]@ == list[j]@,
                    decreases list.len() - i,
                {
                    copy.push(list[i].clone());
                    i += 1;
                }
                let added = Json::Text(String::from_str(protocol));
                copy.push(added);
                assert(item_views(copy@) =~= item_views(list@).push(JsonView::Text(protocol@)));
                Some(copy)
            },
            None => None,
        },
        None => None,
    };
    match grown {
        Some(list) => listed.insert("match_first", Json::array(list)),
        None => listed,
    }
}

impl ConfigService {
    /// Whether a selection of `name` is safe to make: the entry that it
    /// would change is an object.
    pub fn selection_is_safe(config: &Json, os: &str, category: &str, name: &str) -> (safe: bool)
        ensures
            safe == selection_is_safe(config@, os@, category@, name@),
    {
        let entries = match config.get(os) {
            Some(section) => match section.get(category) {
                Some(list) => list.as_array(),
                None => None,
            },
            None => None,
        };
        match entries {
            Some(list) => {
                let n = find_selected(list, name);
                n >= list.len() || list[n].is_object()
            },
            None => true,
        }
    }

    /// Writes a selection of the user into the settings: the helper program
    /// `name` is to serve the connections of kind `category`, either from
    /// the path `new_path` or as the first choice for `protocol`.
    pub fn update_selection(
        config: &Json,
        os: &str,
        category: &str,
        protocol: &str,
        name: &str,
        new_path: Option<&str>,
    ) -> (r: Result<Json, String>)
        requires
            selection_is_safe(config@, os@, category@, name@),
        ensures
            match r {
                Ok(updated) => selection_of(
                    config@,
                    os@,
                    category@,
                    protocol@,
                    name@,
                    match new_path {
                        Some(p) => Some(p@),
                        None => None,
                    },
                ) == Ok::<JsonView, Seq<char>>(updated@),
                Err(message) => selection_of(
                    config@,
                    os@,
                    category@,
                    protocol@,
                    name@,
                    match new_path {
                        Some(p) => Some(p@),
                        None => None,
                    },
                ) == Err::<JsonView, Seq<char>>(message@),
            },
    {
        let found = match config.get(os) {
            Some(section) => match section.get(category) {
                Some(list) => match list.as_array() {
                    Some(entries) => Some((section, entries)),
                    None => None,
                },
                None => None,
            },
            None => None,
        };
        let (section, entries) = match found {
            Some(pair) => pair,
            None => {
                let mut message = String::from_str("invalid config path: ");
                message.append(os);
                message.push('.');
                message.append(category);
                assert(message@ =~= invalid_path_message(os@, category@));
                return Err(message);
            },
        };
        let ghost old_entries = item_views(entries@);
        let index = find_selected(entries, name);
        if index >= entries.len() {
            let mut message = String::from_str("selected item '");
            message.append(name);
            message.append("' not found under ");
            message.append(os);
            message.push('.');
            message.append(category);
            assert(message@ =~= not_found_message(name@, os@, category@));
            return Err(message);
        }
        let path: Option<String> = match new_path {
            Some(p) => {
                let kept = trim_chars(&to_chars(p));
                if kept.len() > 0 {
                    Some(from_chars(&kept))
                } else {
                    None
                }
            },
            None => None,
        };
        let mut updated: Vec<Json> = Vec::new();
        let mut i: usize = 0;
        while i < entries.len()
            invariant
                i <= entries.len(),
                updated.len() == i,
                old_entries == item_views(entries@),
                index < entries.len(),
                forall|j: int|
                    0 <= j < i ==> updated[j]@ == selected_entries(
                        old_entries,
                        index as int,
                        protocol@,
                        crate::models::opt_text(path),
                    )[j],
            decreases entries.len() - i,
        {
            let entry = &entries[i];
            assert(old_entries[i as int] == entry@);
            let next = match &path {
                Some(p) => {
                    if i == index {
                        entry.clone().insert("path", Json::Text(p.clone())).insert(
                            "is_set",
                            Json::Bool(true),
                        )
                    } else {
                        entry.clone()
                    }
                },
                None => {
                    let other = drop_protocol(entry, protocol);
                    if i == index {
                        make_first_choice(other, protocol)
                    } else {
                        other
                    }
                },
            };
            updated.push(next);
            i += 1;
        }
        assert(item_views(updated@) =~= selected_entries(
            old_entries,
            index as int,
            protocol@,
            crate::models::opt_text(path),
        ));
        let new_section = section.clone().insert(category, Json::array(updated));
        Ok(config.clone().insert(os, new_section))
    }
}

} // verus!
