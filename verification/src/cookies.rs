//! Cookie normalisation: one cookie per `(domain, path, name)`, the one
//! supplied last, in ascending order of that key.

use vstd::prelude::*;
use vstd::string::StringExecFns;
use crate::models::{
    cookie_views, jar_cookie_views, CookieMessage, CookieView, JarCookie, JarCookieView,
};
use crate::origin::{host_is_ip_literal, is_ip_literal, target_host, target_host_of};
use crate::text::{
    ascii_lowercase, chars_ascii_lowercase, chars_end_with, chars_order, chars_views, ends_with,
    find_char, first_index_of, from_chars, lemma_lex_asymmetric,
    lemma_lex_total, lemma_lex_transitive, lex_lt, skip_leading, slice_chars, split_chars,
    split_on, to_chars, trim_chars, trim_leading, trimmed, TextOrder,
};

verus! {

/// Identity of a cookie: `(domain, path, name)`.
pub type CookieKey = (Seq<char>, Seq<char>, Seq<char>);

/// The identity key of a cookie.
pub open spec fn cookie_key(c: CookieView) -> CookieKey {
    (c.domain, c.path, c.name)
}

/// Strict order of keys: by domain, then path, then name, each in the order
/// of `str`.
pub open spec fn key_lt(a: CookieKey, b: CookieKey) -> bool {
    ||| lex_lt(a.0, b.0)
    ||| (a.0 == b.0 && lex_lt(a.1, b.1))
    ||| (a.0 == b.0 && a.1 == b.1 && lex_lt(a.2, b.2))
}

/// No two keys are below each other, and no key is below itself.
pub proof fn lemma_key_lt_asymmetric(a: CookieKey, b: CookieKey)
    requires
        key_lt(a, b),
    ensures
        !key_lt(b, a),
        a != b,
{
    if lex_lt(a.0, b.0) {
        lemma_lex_asymmetric(a.0, b.0);
    } else if lex_lt(a.1, b.1) {
        lemma_lex_asymmetric(a.1, b.1);
    } else {
        lemma_lex_asymmetric(a.2, b.2);
    }
}

/// The order of keys is transitive.
pub proof fn lemma_key_lt_transitive(a: CookieKey, b: CookieKey, c: CookieKey)
    requires
        key_lt(a, b),
        key_lt(b, c),
    ensures
        key_lt(a, c),
{
    if lex_lt(a.0, b.0) {
        if lex_lt(b.0, c.0) {
            lemma_lex_transitive(a.0, b.0, c.0);
        }
    } else if lex_lt(b.0, c.0) {
    } else if lex_lt(a.1, b.1) {
        if lex_lt(b.1, c.1) {
            lemma_lex_transitive(a.1, b.1, c.1);
        }
    } else if lex_lt(b.1, c.1) {
    } else {
        lemma_lex_transitive(a.2, b.2, c.2);
    }
}

/// Two different keys are ordered one way or the other.
pub proof fn lemma_key_lt_total(a: CookieKey, b: CookieKey)
    requires
        a != b,
    ensures
        key_lt(a, b) || key_lt(b, a),
{
    if a.0 != b.0 {
        lemma_lex_total(a.0, b.0);
    } else if a.1 != b.1 {
        lemma_lex_total(a.1, b.1);
    } else {
        lemma_lex_total(a.2, b.2);
    }
}

/// The cookie jar that a list of cookies describes: each cookie is written
/// under its key, in the order given, so the last write wins.
pub open spec fn jar_of(cookies: Seq<CookieView>) -> Map<CookieKey, CookieView>
    decreases cookies.len(),
{
    if cookies.len() == 0 {
        Map::empty()
    } else {
        jar_of(cookies.drop_last()).insert(cookie_key(cookies.last()), cookies.last())
    }
}

/// The keys ascend strictly from one cookie to the next.
pub open spec fn sorted_by_key(cookies: Seq<CookieView>) -> bool {
    forall|i: int, j: int|
        0 <= i < j < cookies.len() ==> key_lt(
            cookie_key(#[trigger] cookies[i]),
            cookie_key(#[trigger] cookies[j]),
        )
}

/// `out` is the normal form of `input`: the same jar, listed in ascending
/// order of key.
pub open spec fn is_normal_form(input: Seq<CookieView>, out: Seq<CookieView>) -> bool {
    &&& sorted_by_key(out)
    &&& jar_of(out) == jar_of(input)
}

/// No later cookie of the list has the key of the one at `i`.
pub open spec fn is_last_of_key(cookies: Seq<CookieView>, i: int) -> bool {
    &&& 0 <= i < cookies.len()
    &&& forall|j: int| i < j < cookies.len() ==> cookie_key(#[trigger] cookies[j]) != cookie_key(cookies[i])
}

/// The jar holds, under each key, the last cookie of the list with that key.
pub proof fn lemma_jar_holds_last(cookies: Seq<CookieView>, i: int)
    requires
        is_last_of_key(cookies, i),
    ensures
        jar_of(cookies).dom().contains(cookie_key(cookies[i])),
        jar_of(cookies)[cookie_key(cookies[i])] == cookies[i],
    decreases cookies.len(),
{
    if i < cookies.len() - 1 {
        let front = cookies.drop_last();
        assert(cookies.last() == cookies[cookies.len() - 1]);
        assert(is_last_of_key(front, i)) by {
            assert forall|j: int| i < j < front.len() implies cookie_key(#[trigger] front[j])
                != cookie_key(front[i]) by {
                assert(front[j] == cookies[j]);
            }
        }
        lemma_jar_holds_last(front, i);
    }
}

/// Every key of the jar comes from a cookie of the list.
pub proof fn lemma_jar_key_has_source(cookies: Seq<CookieView>, key: CookieKey) -> (i: int)
    requires
        jar_of(cookies).dom().contains(key),
    ensures
        is_last_of_key(cookies, i),
        cookie_key(cookies[i]) == key,
    decreases cookies.len(),
{
    if cookie_key(cookies.last()) == key {
        cookies.len() - 1
    } else {
        let front = cookies.drop_last();
        let i = lemma_jar_key_has_source(front, key);
        assert forall|j: int| i < j < cookies.len() implies cookie_key(#[trigger] cookies[j])
            != cookie_key(cookies[i]) by {
            if j < front.len() {
                assert(front[j] == cookies[j]);
            }
        }
        i
    }
}

/// The key of every cookie of the list is in the jar.
pub proof fn lemma_jar_has_key(cookies: Seq<CookieView>, i: int)
    requires
        0 <= i < cookies.len(),
    ensures
        jar_of(cookies).dom().contains(cookie_key(cookies[i])),
    decreases cookies.len(),
{
    if i < cookies.len() - 1 {
        lemma_jar_has_key(cookies.drop_last(), i);
    }
}


/// In a list sorted by key, every cookie is the last one of its key.
pub proof fn lemma_sorted_all_last(cookies: Seq<CookieView>, i: int)
    requires
        sorted_by_key(cookies),
        0 <= i < cookies.len(),
    ensures
        is_last_of_key(cookies, i),
        jar_of(cookies).dom().contains(cookie_key(cookies[i])),
        jar_of(cookies)[cookie_key(cookies[i])] == cookies[i],
{
    assert forall|j: int| i < j < cookies.len() implies cookie_key(#[trigger] cookies[j])
        != cookie_key(cookies[i]) by {
        lemma_key_lt_asymmetric(cookie_key(cookies[i]), cookie_key(cookies[j]));
    }
    lemma_jar_holds_last(cookies, i);
}

/// Writing a cookie over the one that has its key keeps the order and
/// updates the jar.
proof fn lemma_replace(cookies: Seq<CookieView>, p: int, c: CookieView)
    requires
        sorted_by_key(cookies),
        0 <= p < cookies.len(),
        cookie_key(cookies[p]) == cookie_key(c),
    ensures
        sorted_by_key(cookies.update(p, c)),
        jar_of(cookies.update(p, c)) == jar_of(cookies).insert(cookie_key(c), c),
{
    let after = cookies.update(p, c);
    assert(sorted_by_key(after)) by {
        assert forall|i: int, j: int| 0 <= i < j < after.len() implies key_lt(
            cookie_key(#[trigger] after[i]),
            cookie_key(#[trigger] after[j]),
        ) by {
            assert(cookie_key(after[i]) == cookie_key(cookies[i]));
            assert(cookie_key(after[j]) == cookie_key(cookies[j]));
        }
    }
    let left = jar_of(after);
    let right = jar_of(cookies).insert(cookie_key(c), c);
    assert forall|k: CookieKey| #[trigger] left.dom().contains(k) implies right.dom().contains(k)
        && left[k] == right[k] by {
        let i = lemma_jar_key_has_source(after, k);
        lemma_sorted_all_last(after, i);
        lemma_sorted_all_last(cookies, i);
    }
    assert forall|k: CookieKey| #[trigger] right.dom().contains(k) implies left.dom().contains(k) by {
        if k == cookie_key(c) {
            lemma_jar_has_key(after, p);
        } else {
            let i = lemma_jar_key_has_source(cookies, k);
            lemma_jar_has_key(after, i);
        }
    }
    assert(left =~= right);
}

/// Putting a cookie with a new key at its place in the order keeps the order
/// and adds it to the jar.
proof fn lemma_insert(cookies: Seq<CookieView>, p: int, c: CookieView)
    requires
        sorted_by_key(cookies),
        0 <= p <= cookies.len(),
        forall|i: int| 0 <= i < p ==> key_lt(cookie_key(#[trigger] cookies[i]), cookie_key(c)),
        forall|i: int|
            p <= i < cookies.len() ==> key_lt(cookie_key(c), cookie_key(#[trigger] cookies[i])),
    ensures
        sorted_by_key(cookies.insert(p, c)),
        jar_of(cookies.insert(p, c)) == jar_of(cookies).insert(cookie_key(c), c),
{
    let after = cookies.insert(p, c);
    assert forall|i: int| 0 <= i < after.len() implies #[trigger] after[i] == (if i < p {
        cookies[i]
    } else if i == p {
        c
    } else {
        cookies[i - 1]
    }) by {}
    assert(sorted_by_key(after)) by {
        assert forall|i: int, j: int| 0 <= i < j < after.len() implies key_lt(
            cookie_key(#[trigger] after[i]),
            cookie_key(#[trigger] after[j]),
        ) by {
            if i < p && j > p {
                assert(after[j] == cookies[j - 1]);
                if i < j - 1 {
                    assert(key_lt(cookie_key(cookies[i]), cookie_key(cookies[j - 1])));
                }
            } else if i > p {
                assert(key_lt(cookie_key(cookies[i - 1]), cookie_key(cookies[j - 1])));
            } else if j < p {
                assert(key_lt(cookie_key(cookies[i]), cookie_key(cookies[j])));
            }
        }
    }
    let left = jar_of(after);
    let right = jar_of(cookies).insert(cookie_key(c), c);
    assert forall|k: CookieKey| #[trigger] left.dom().contains(k) implies right.dom().contains(k)
        && left[k] == right[k] by {
        let i = lemma_jar_key_has_source(after, k);
        lemma_sorted_all_last(after, i);
        if i < p {
            lemma_sorted_all_last(cookies, i);
            lemma_key_lt_asymmetric(cookie_key(cookies[i]), cookie_key(c));
        } else if i > p {
            lemma_sorted_all_last(cookies, i - 1);
            lemma_key_lt_asymmetric(cookie_key(c), cookie_key(cookies[i - 1]));
        }
    }
    assert forall|k: CookieKey| #[trigger] right.dom().contains(k) implies left.dom().contains(k) by {
        if k == cookie_key(c) {
            lemma_jar_has_key(after, p);
        } else {
            let i = lemma_jar_key_has_source(cookies, k);
            if i < p {
                lemma_jar_has_key(after, i);
            } else {
                assert(after[i + 1] == cookies[i]);
                lemma_jar_has_key(after, i + 1);
            }
        }
    }
    assert(left =~= right);
}

/// The key of a cookie, held as characters so that it can be compared.
struct KeyChars {
    domain: Vec<char>,
    path: Vec<char>,
    name: Vec<char>,
}

impl KeyChars {
    spec fn key(&self) -> CookieKey {
        (self.domain@, self.path@, self.name@)
    }

    fn of(cookie: &CookieMessage) -> (k: KeyChars)
        ensures
            k.key() == cookie_key(cookie@),
    {
        KeyChars {
            domain: to_chars(cookie.domain.as_str()),
            path: to_chars(cookie.path.as_str()),
            name: to_chars(cookie.name.as_str()),
        }
    }

    fn order(&self, other: &KeyChars) -> (r: TextOrder)
        ensures
            r is Less <==> key_lt(self.key(), other.key()),
            r is Equal <==> self.key() == other.key(),
            r is Greater <==> key_lt(other.key(), self.key()),
    {
        proof {
            if self.key() != other.key() {
                lemma_key_lt_total(self.key(), other.key());
            }
            if key_lt(self.key(), other.key()) {
                lemma_key_lt_asymmetric(self.key(), other.key());
            }
            if key_lt(other.key(), self.key()) {
                lemma_key_lt_asymmetric(other.key(), self.key());
            }
        }
        match chars_order(&self.domain, &other.domain) {
            TextOrder::Less => TextOrder::Less,
            TextOrder::Greater => TextOrder::Greater,
            TextOrder::Equal => match chars_order(&self.path, &other.path) {
                TextOrder::Less => TextOrder::Less,
                TextOrder::Greater => TextOrder::Greater,
                TextOrder::Equal => chars_order(&self.name, &other.name),
            },
        }
    }
}

/// `keys` holds the key of each cookie of `cookies`, in the same order.
spec fn keys_match(keys: Seq<KeyChars>, cookies: Seq<CookieMessage>) -> bool {
    &&& keys.len() == cookies.len()
    &&& forall|i: int| 0 <= i < keys.len() ==> (#[trigger] keys[i]).key() == cookie_key(cookies[i]@)
}

/// First position whose key is not below `key`, and whether the key there
/// equals `key`.
fn find_slot(keys: &Vec<KeyChars>, key: &KeyChars) -> (r: (usize, bool))
    ensures
        r.0 <= keys.len(),
        forall|i: int| 0 <= i < r.0 ==> key_lt((#[trigger] keys[i]).key(), key.key()),
        r.1 ==> r.0 < keys.len() && keys[r.0 as int].key() == key.key(),
        !r.1 && r.0 < keys.len() ==> key_lt(key.key(), keys[r.0 as int].key()),
{
    let mut p: usize = 0;
    while p < keys.len()
        invariant
            p <= keys.len(),
            forall|i: int| 0 <= i < p ==> key_lt((#[trigger] keys[i]).key(), key.key()),
        decreases keys.len() - p,
    {
        match keys[p].order(key) {
            TextOrder::Less => {
                p += 1;
            },
            TextOrder::Equal => {
                return (p, true);
            },
            TextOrder::Greater => {
                return (p, false);
            },
        }
    }
    (p, false)
}

/// Writes `cookie` into the sorted list `out`, over the cookie that has its
/// key if there is one.
fn upsert(out: &mut Vec<CookieMessage>, keys: &mut Vec<KeyChars>, cookie: CookieMessage)
    requires
        keys_match(old(keys)@, old(out)@),
        sorted_by_key(cookie_views(old(out)@)),
    ensures
        keys_match(final(keys)@, final(out)@),
        sorted_by_key(cookie_views(final(out)@)),
        jar_of(cookie_views(final(out)@)) == jar_of(cookie_views(old(out)@)).insert(
            cookie_key(cookie@),
            cookie@,
        ),
{
    let key = KeyChars::of(&cookie);
    let (p, found) = find_slot(keys, &key);
    let ghost before = cookie_views(out@);
    let ghost c = cookie@;
    if found {
        out.set(p, cookie);
        proof {
            assert(cookie_views(out@) =~= before.update(p as int, c));
            lemma_replace(before, p as int, c);
        }
    } else {
        proof {
            assert forall|i: int| p <= i < before.len() implies key_lt(
                cookie_key(c),
                cookie_key(#[trigger] before[i]),
            ) by {
                if i > p {
                    assert(key_lt(cookie_key(before[p as int]), cookie_key(before[i])));
                    lemma_key_lt_transitive(
                        cookie_key(c),
                        cookie_key(before[p as int]),
                        cookie_key(before[i]),
                    );
                }
            }
            assert forall|i: int| 0 <= i < p implies key_lt(
                cookie_key(#[trigger] before[i]),
                cookie_key(c),
            ) by {
                assert(keys[i].key() == cookie_key(before[i]));
            }
            lemma_insert(before, p as int, c);
        }
        out.insert(p, cookie);
        keys.insert(p, key);
        assert(cookie_views(out@) =~= before.insert(p as int, c));
    }
}

/// Keeps, for each `(domain, path, name)`, the cookie supplied last, and
/// sorts what is kept by that key.
pub fn dedupe_cookies(cookies: &mut Vec<CookieMessage>)
    ensures
        is_normal_form(cookie_views(old(cookies)@), cookie_views(final(cookies)@)),
        cookie_views(final(cookies)@) == normal_form(cookie_views(old(cookies)@)),
{
    let ghost input = cookie_views(cookies@);
    let mut out: Vec<CookieMessage> = Vec::new();
    let mut keys: Vec<KeyChars> = Vec::new();
    let mut i: usize = 0;
    while i < cookies.len()
        invariant
            i <= cookies.len(),
            input == cookie_views(cookies@),
            keys_match(keys@, out@),
            sorted_by_key(cookie_views(out@)),
            jar_of(cookie_views(out@)) == jar_of(input.take(i as int)),
        decreases cookies.len() - i,
    {
        let cookie = cookies[i].clone();
        proof {
            let next = input.take(i + 1);
            assert(next.drop_last() =~= input.take(i as int));
            assert(next.last() == cookie@);
        }
        upsert(&mut out, &mut keys, cookie);
        i += 1;
    }
    assert(input.take(i as int) =~= input);
    proof {
        lemma_normal_form(input);
        assert(is_normal_form(input, cookie_views(out@)));
    }
    *cookies = out;
}


/// A sorted list without its last cookie describes the jar without that
/// cookie's key.
proof fn lemma_sorted_drop_last(cookies: Seq<CookieView>)
    requires
        sorted_by_key(cookies),
        cookies.len() > 0,
    ensures
        sorted_by_key(cookies.drop_last()),
        jar_of(cookies.drop_last()) == jar_of(cookies).remove(cookie_key(cookies.last())),
{
    let front = cookies.drop_last();
    let key = cookie_key(cookies.last());
    assert forall|i: int, j: int| 0 <= i < j < front.len() implies key_lt(
        cookie_key(#[trigger] front[i]),
        cookie_key(#[trigger] front[j]),
    ) by {
        assert(front[i] == cookies[i] && front[j] == cookies[j]);
    }
    if jar_of(front).dom().contains(key) {
        let i = lemma_jar_key_has_source(front, key);
        assert(front[i] == cookies[i]);
        assert(cookies.last() == cookies[cookies.len() - 1]);
        lemma_key_lt_asymmetric(cookie_key(cookies[i]), key);
    }
    assert(jar_of(front) =~= jar_of(cookies).remove(key));
}

/// One jar has one sorted listing.
pub proof fn lemma_sorted_listing_unique(a: Seq<CookieView>, b: Seq<CookieView>)
    requires
        sorted_by_key(a),
        sorted_by_key(b),
        jar_of(a) == jar_of(b),
    ensures
        a == b,
    decreases a.len(),
{
    if a.len() == 0 {
        if b.len() > 0 {
            lemma_jar_has_key(b, 0);
        }
        assert(a =~= b);
    } else if b.len() == 0 {
        lemma_jar_has_key(a, 0);
    } else {
        let ka = cookie_key(a.last());
        let kb = cookie_key(b.last());
        lemma_sorted_all_last(a, a.len() - 1);
        lemma_sorted_all_last(b, b.len() - 1);
        let j = lemma_jar_key_has_source(b, ka);
        let i = lemma_jar_key_has_source(a, kb);
        if ka != kb {
            assert(key_lt(cookie_key(b[j]), cookie_key(b[b.len() - 1])));
            assert(key_lt(cookie_key(a[i]), cookie_key(a[a.len() - 1])));
            lemma_key_lt_asymmetric(ka, kb);
        }
        lemma_sorted_drop_last(a);
        lemma_sorted_drop_last(b);
        lemma_sorted_listing_unique(a.drop_last(), b.drop_last());
        assert(a =~= a.drop_last().push(a.last()));
        assert(b =~= b.drop_last().push(b.last()));
    }
}

/// Normalising is a function of the input: a list of cookies has exactly one
/// normal form, so normalising it twice gives the same cookies both times.
pub proof fn law_normal_form_is_unique(
    input: Seq<CookieView>,
    first: Seq<CookieView>,
    second: Seq<CookieView>,
)
    requires
        is_normal_form(input, first),
        is_normal_form(input, second),
    ensures
        first == second,
{
    lemma_sorted_listing_unique(first, second);
}

/// Normalising what is already normal changes nothing.
pub proof fn law_normal_form_is_stable(
    input: Seq<CookieView>,
    once: Seq<CookieView>,
    twice: Seq<CookieView>,
)
    requires
        is_normal_form(input, once),
        is_normal_form(once, twice),
    ensures
        twice == once,
{
    lemma_sorted_listing_unique(once, twice);
}

/// Of the cookies that share a key, only the one supplied last survives: the
/// normal form holds it at exactly one position, and holds no other cookie
/// with that key.
pub proof fn law_last_supplied_survives(
    input: Seq<CookieView>,
    out: Seq<CookieView>,
    last: int,
) -> (k: int)
    requires
        is_normal_form(input, out),
        is_last_of_key(input, last),
    ensures
        0 <= k < out.len(),
        out[k] == input[last],
        forall|m: int|
            0 <= m < out.len() && cookie_key(#[trigger] out[m]) == cookie_key(input[last]) ==> m
                == k,
{
    let key = cookie_key(input[last]);
    lemma_jar_holds_last(input, last);
    let k = lemma_jar_key_has_source(out, key);
    lemma_sorted_all_last(out, k);
    assert forall|m: int|
        0 <= m < out.len() && cookie_key(#[trigger] out[m]) == key implies m == k by {
        if m < k {
            lemma_key_lt_asymmetric(cookie_key(out[m]), cookie_key(out[k]));
        } else if k < m {
            lemma_key_lt_asymmetric(cookie_key(out[k]), cookie_key(out[m]));
        }
    }
    k
}

/// Every cookie of the normal form is the last-supplied cookie of its key.
pub proof fn law_survivor_was_supplied_last(
    input: Seq<CookieView>,
    out: Seq<CookieView>,
    k: int,
) -> (last: int)
    requires
        is_normal_form(input, out),
        0 <= k < out.len(),
    ensures
        is_last_of_key(input, last),
        input[last] == out[k],
{
    lemma_sorted_all_last(out, k);
    let last = lemma_jar_key_has_source(input, cookie_key(out[k]));
    lemma_jar_holds_last(input, last);
    last
}


/// Number of cookies at the front of a sorted list whose key is below `key`.
proof fn lemma_slot(cookies: Seq<CookieView>, key: CookieKey) -> (p: int)
    requires
        sorted_by_key(cookies),
    ensures
        0 <= p <= cookies.len(),
        forall|i: int| 0 <= i < p ==> key_lt(cookie_key(#[trigger] cookies[i]), key),
        forall|i: int|
            p <= i < cookies.len() ==> !key_lt(cookie_key(#[trigger] cookies[i]), key),
    decreases cookies.len(),
{
    if cookies.len() == 0 {
        0
    } else if key_lt(cookie_key(cookies.last()), key) {
        assert forall|i: int| 0 <= i < cookies.len() implies key_lt(
            cookie_key(#[trigger] cookies[i]),
            key,
        ) by {
            if i < cookies.len() - 1 {
                lemma_key_lt_transitive(cookie_key(cookies[i]), cookie_key(cookies.last()), key);
            }
        }
        cookies.len() as int
    } else {
        let front = cookies.drop_last();
        assert(sorted_by_key(front)) by {
            assert forall|i: int, j: int| 0 <= i < j < front.len() implies key_lt(
                cookie_key(#[trigger] front[i]),
                cookie_key(#[trigger] front[j]),
            ) by {
                assert(front[i] == cookies[i] && front[j] == cookies[j]);
            }
        }
        let p = lemma_slot(front, key);
        assert forall|i: int| 0 <= i < p implies key_lt(cookie_key(#[trigger] cookies[i]), key) by {
            assert(front[i] == cookies[i]);
        }
        assert forall|i: int| p <= i < cookies.len() implies !key_lt(
            cookie_key(#[trigger] cookies[i]),
            key,
        ) by {
            if i < front.len() {
                assert(front[i] == cookies[i]);
            }
        }
        p
    }
}

/// Every list of cookies has a normal form.
pub proof fn lemma_normal_form_exists(input: Seq<CookieView>) -> (out: Seq<CookieView>)
    ensures
        is_normal_form(input, out),
    decreases input.len(),
{
    if input.len() == 0 {
        Seq::empty()
    } else {
        let before = lemma_normal_form_exists(input.drop_last());
        let c = input.last();
        let p = lemma_slot(before, cookie_key(c));
        if p < before.len() && cookie_key(before[p]) == cookie_key(c) {
            lemma_replace(before, p, c);
            before.update(p, c)
        } else {
            assert forall|i: int| p <= i < before.len() implies key_lt(
                cookie_key(c),
                cookie_key(#[trigger] before[i]),
            ) by {
                if i == p {
                    lemma_key_lt_total(cookie_key(c), cookie_key(before[p]));
                } else {
                    lemma_key_lt_total(cookie_key(c), cookie_key(before[p]));
                    lemma_key_lt_transitive(
                        cookie_key(c),
                        cookie_key(before[p]),
                        cookie_key(before[i]),
                    );
                }
            }
            lemma_insert(before, p, c);
            before.insert(p, c)
        }
    }
}

/// The normal form of a list of cookies: the one list that is sorted by key
/// and describes the same jar.
pub open spec fn normal_form(input: Seq<CookieView>) -> Seq<CookieView> {
    choose|out: Seq<CookieView>| is_normal_form(input, out)
}

/// `normal_form` names the normal form, and nothing else is one.
pub proof fn lemma_normal_form(input: Seq<CookieView>)
    ensures
        is_normal_form(input, normal_form(input)),
        forall|out: Seq<CookieView>| is_normal_form(input, out) ==> out == normal_form(input),
{
    let witness = lemma_normal_form_exists(input);
    assert forall|out: Seq<CookieView>| is_normal_form(input, out) implies out == normal_form(
        input,
    ) by {
        lemma_sorted_listing_unique(out, normal_form(input));
    }
}

/// One cookie as it stands in a `Cookie` header: `name=value`.
pub open spec fn cookie_pair(c: CookieView) -> Seq<char> {
    c.name + seq!['='] + c.value
}

/// The `Cookie` header of a list of cookies: the pairs `name=value` in the
/// order of the list, joined by `"; "`.
pub open spec fn header_of(cookies: Seq<CookieView>) -> Seq<char>
    decreases cookies.len(),
{
    if cookies.len() == 0 {
        Seq::empty()
    } else if cookies.len() == 1 {
        cookie_pair(cookies[0])
    } else {
        header_of(cookies.drop_last()) + seq![';', ' '] + cookie_pair(cookies.last())
    }
}

/// Writes the cookies as the value of a `Cookie` header.
pub fn format_cookies(cookie_list: &Vec<CookieMessage>) -> (header: String)
    ensures
        header@ == header_of(cookie_views(cookie_list@)),
{
    let ghost all = cookie_views(cookie_list@);
    let mut header = String::new();
    let mut i: usize = 0;
    while i < cookie_list.len()
        invariant
            i <= cookie_list.len(),
            all == cookie_views(cookie_list@),
            header@ == header_of(all.take(i as int)),
        decreases cookie_list.len() - i,
    {
        proof {
            let next = all.take(i + 1);
            assert(next.drop_last() =~= all.take(i as int));
            assert(next.last() == cookie_list[i as int]@);
            assert(next[0] == all[0]);
        }
        let ghost before = header@;
        if i > 0 {
            header.push(';');
            header.push(' ');
            assert(header@ =~= before + seq![';', ' ']);
        }
        header.append(cookie_list[i].name.as_str());
        header.push('=');
        header.append(cookie_list[i].value.as_str());
        assert(header@ =~= (if i > 0 {
            before + seq![';', ' ']
        } else {
            before
        }) + cookie_pair(cookie_list[i as int]@));
        i += 1;
    }
    assert(all.take(i as int) =~= all);
    header
}

/// The header depends on the names and values alone.
proof fn lemma_header_by_pairs(a: Seq<CookieView>, b: Seq<CookieView>)
    requires
        a.len() == b.len(),
        forall|i: int|
            0 <= i < a.len() ==> (#[trigger] a[i]).name == b[i].name && a[i].value == b[i].value,
    ensures
        header_of(a) == header_of(b),
    decreases a.len(),
{
    if a.len() > 1 {
        lemma_header_by_pairs(a.drop_last(), b.drop_last());
    }
}

/// All cookies of the list that share a key carry the same value.
pub open spec fn one_value_per_key(cookies: Seq<CookieView>) -> bool {
    forall|i: int, j: int|
        0 <= i < cookies.len() && 0 <= j < cookies.len() && cookie_key(#[trigger] cookies[i])
            == cookie_key(#[trigger] cookies[j]) ==> cookies[i].value == cookies[j].value
}

/// The cookie with attributes that the header does not show set to `false`.
spec fn shown(c: CookieView) -> CookieView {
    CookieView { secure: false, http_only: false, ..c }
}

proof fn lemma_shown_keeps_order(cookies: Seq<CookieView>)
    requires
        sorted_by_key(cookies),
    ensures
        sorted_by_key(cookies.map_values(|c: CookieView| shown(c))),
{
    let mapped = cookies.map_values(|c: CookieView| shown(c));
    assert forall|i: int, j: int| 0 <= i < j < mapped.len() implies key_lt(
        cookie_key(#[trigger] mapped[i]),
        cookie_key(#[trigger] mapped[j]),
    ) by {
        assert(cookie_key(mapped[i]) == cookie_key(cookies[i]));
        assert(cookie_key(mapped[j]) == cookie_key(cookies[j]));
    }
}

/// Two sorted lists that hold the same keys, with the same value under each
/// key, give the same header.
proof fn lemma_header_by_key_and_value(a: Seq<CookieView>, b: Seq<CookieView>)
    requires
        sorted_by_key(a),
        sorted_by_key(b),
        forall|i: int|
            0 <= i < a.len() ==> exists|j: int|
                0 <= j < b.len() && shown(b[j]) == shown(#[trigger] a[i]),
        forall|j: int|
            0 <= j < b.len() ==> exists|i: int|
                0 <= i < a.len() && shown(a[i]) == shown(#[trigger] b[j]),
    ensures
        header_of(a) == header_of(b),
{
    let sa = a.map_values(|c: CookieView| shown(c));
    let sb = b.map_values(|c: CookieView| shown(c));
    lemma_shown_keeps_order(a);
    lemma_shown_keeps_order(b);
    let left = jar_of(sa);
    let right = jar_of(sb);
    assert forall|k: CookieKey| #[trigger] left.dom().contains(k) implies right.dom().contains(k)
        && left[k] == right[k] by {
        let i = lemma_jar_key_has_source(sa, k);
        lemma_sorted_all_last(sa, i);
        let j = choose|j: int| 0 <= j < b.len() && shown(b[j]) == shown(a[i]);
        assert(sb[j] == sa[i]);
        lemma_sorted_all_last(sb, j);
    }
    assert forall|k: CookieKey| #[trigger] right.dom().contains(k) implies left.dom().contains(
        k,
    ) by {
        let j = lemma_jar_key_has_source(sb, k);
        let i = choose|i: int| 0 <= i < a.len() && shown(a[i]) == shown(b[j]);
        assert(sa[i] == sb[j]);
        lemma_jar_has_key(sa, i);
    }
    assert(left =~= right);
    lemma_sorted_listing_unique(sa, sb);
    assert forall|i: int| 0 <= i < a.len() implies (#[trigger] a[i]).name == b[i].name
        && a[i].value == b[i].value by {
        assert(sa[i] == sb[i]);
    }
    assert(sa.len() == sb.len());
    lemma_header_by_pairs(a, b);
}

/// Two lists that hold the same cookies, with one value under each key,
/// normalise to the same header.
proof fn lemma_same_cookies_same_header(
    a: Seq<CookieView>,
    b: Seq<CookieView>,
    out_a: Seq<CookieView>,
    out_b: Seq<CookieView>,
)
    requires
        forall|c: CookieView| a.contains(c) <==> b.contains(c),
        one_value_per_key(a),
        is_normal_form(a, out_a),
        is_normal_form(b, out_b),
    ensures
        header_of(out_a) == header_of(out_b),
{
    assert forall|i: int| 0 <= i < out_a.len() implies exists|j: int|
        0 <= j < out_b.len() && shown(out_b[j]) == shown(#[trigger] out_a[i]) by {
        let x = law_survivor_was_supplied_last(a, out_a, i);
        assert(a.contains(a[x]));
        let y = choose|y: int| 0 <= y < b.len() && b[y] == a[x];
        lemma_jar_has_key(b, y);
        let j = lemma_jar_key_has_source(out_b, cookie_key(b[y]));
        let z = law_survivor_was_supplied_last(b, out_b, j);
        assert(b.contains(b[z]));
        let w = choose|w: int| 0 <= w < a.len() && a[w] == b[z];
        assert(cookie_key(a[w]) == cookie_key(a[x]));
        assert(shown(out_b[j]) =~= shown(out_a[i]));
    }
    assert forall|j: int| 0 <= j < out_b.len() implies exists|i: int|
        0 <= i < out_a.len() && shown(out_a[i]) == shown(#[trigger] out_b[j]) by {
        let z = law_survivor_was_supplied_last(b, out_b, j);
        assert(b.contains(b[z]));
        let w = choose|w: int| 0 <= w < a.len() && a[w] == b[z];
        lemma_jar_has_key(a, w);
        let i = lemma_jar_key_has_source(out_a, cookie_key(a[w]));
        let x = law_survivor_was_supplied_last(a, out_a, i);
        assert(cookie_key(a[x]) == cookie_key(a[w]));
        assert(shown(out_a[i]) =~= shown(out_b[j]));
    }
    lemma_header_by_key_and_value(out_a, out_b);
}

/// The order in which the cookies of a set are supplied does not show in the
/// header: where no two cookies with one key differ in value, a list and any
/// rearrangement of it normalise to the same header.
pub proof fn law_header_ignores_order_of_supply(
    a: Seq<CookieView>,
    b: Seq<CookieView>,
    out_a: Seq<CookieView>,
    out_b: Seq<CookieView>,
)
    requires
        a.to_multiset() == b.to_multiset(),
        one_value_per_key(a),
        is_normal_form(a, out_a),
        is_normal_form(b, out_b),
    ensures
        header_of(out_a) == header_of(out_b),
{
    a.to_multiset_ensures();
    b.to_multiset_ensures();
    assert forall|c: CookieView| a.contains(c) <==> b.contains(c) by {
        assert(a.contains(c) <==> a.to_multiset().count(c) > 0);
        assert(b.contains(c) <==> b.to_multiset().count(c) > 0);
    }
    lemma_same_cookies_same_header(a, b, out_a, out_b);
}

/// A cookie belongs to `host` if its domain, taken without leading dots, is
/// `host` or a parent domain of `host`. A cookie without a domain is bound to
/// the host that set it and belongs to any host that has a name.
pub open spec fn domain_matches(cookie_domain: Option<Seq<char>>, host: Seq<char>) -> bool {
    match cookie_domain {
        Some(domain) => {
            let bare = skip_leading(domain, '.');
            bare.len() > 0 && (bare == host || ends_with(host, seq!['.'] + bare))
        },
        None => host.len() > 0,
    }
}

/// Whether the jar's cookie is passed on for `host`. For a host that is a
/// literal IP address every cookie is: browser engines do not agree on the
/// domain of a cookie set by a bare address.
pub open spec fn cookie_accepted(cookie: JarCookieView, host: Seq<char>) -> bool {
    is_ip_literal(host) || domain_matches(cookie.domain, host)
}

/// The cookie record for a cookie of the jar: an absent domain becomes the
/// empty string, an absent path `/`, an absent flag `false`.
pub open spec fn message_of(cookie: JarCookieView) -> CookieView {
    CookieView {
        name: cookie.name,
        value: cookie.value,
        domain: match cookie.domain {
            Some(d) => d,
            None => Seq::empty(),
        },
        path: match cookie.path {
            Some(p) => p,
            None => seq!['/'],
        },
        secure: match cookie.secure {
            Some(b) => b,
            None => false,
        },
        http_only: match cookie.http_only {
            Some(b) => b,
            None => false,
        },
    }
}

/// The records of the jar's cookies that are accepted for `host`, in the
/// jar's order.
pub open spec fn accepted_cookies(raw: Seq<JarCookieView>, host: Seq<char>) -> Seq<CookieView>
    decreases raw.len(),
{
    if raw.len() == 0 {
        Seq::empty()
    } else if cookie_accepted(raw.last(), host) {
        accepted_cookies(raw.drop_last(), host).push(message_of(raw.last()))
    } else {
        accepted_cookies(raw.drop_last(), host)
    }
}

/// Whether a cookie with this domain belongs to `host`.
pub fn domain_matches_host(cookie_domain: &Option<String>, host: &Vec<char>) -> (r: bool)
    ensures
        r == domain_matches(crate::models::opt_text(*cookie_domain), host@),
{
    match cookie_domain {
        None => host.len() > 0,
        Some(domain) => {
            let chars = to_chars(domain.as_str());
            let bare = trim_leading(&chars, '.');
            if bare.len() == 0 {
                return false;
            }
            if matches!(chars_order(&bare, host), TextOrder::Equal) {
                return true;
            }
            let mut suffix: Vec<char> = Vec::new();
            suffix.push('.');
            let mut i: usize = 0;
            while i < bare.len()
                invariant
                    i <= bare.len(),
                    suffix@ == seq!['.'] + bare@.take(i as int),
                decreases bare.len() - i,
            {
                suffix.push(bare[i]);
                assert(seq!['.'] + bare@.take(i + 1) =~= (seq!['.'] + bare@.take(i as int)).push(
                    bare@[i as int],
                ));
                i += 1;
            }
            assert(bare@.take(i as int) =~= bare@);
            chars_end_with(host, &suffix)
        },
    }
}

/// Copies a cookie of the jar into a cookie record.
pub fn to_message(cookie: &JarCookie) -> (message: CookieMessage)
    ensures
        message@ == message_of(cookie@),
{
    CookieMessage {
        name: cookie.name.clone(),
        value: cookie.value.clone(),
        domain: match &cookie.domain {
            Some(d) => d.clone(),
            None => String::new(),
        },
        path: match &cookie.path {
            Some(p) => p.clone(),
            None => {
                let mut root = String::new();
                root.push('/');
                assert(root@ =~= seq!['/']);
                root
            },
        },
        secure: match cookie.secure {
            Some(b) => b,
            None => false,
        },
        http_only: match cookie.http_only {
            Some(b) => b,
            None => false,
        },
    }
}

/// The cookies of the jar that belong to `host`, normalised.
pub fn select_cookies(raw: &Vec<JarCookie>, host: &str) -> (cookies: Vec<CookieMessage>)
    ensures
        cookie_views(cookies@) == normal_form(accepted_cookies(jar_cookie_views(raw@), host@)),
{
    let ghost jar = jar_cookie_views(raw@);
    let host_chars = to_chars(host);
    let any_cookie = host_is_ip_literal(&host_chars);
    let mut cookies: Vec<CookieMessage> = Vec::new();
    let mut i: usize = 0;
    while i < raw.len()
        invariant
            i <= raw.len(),
            jar == jar_cookie_views(raw@),
            host_chars@ == host@,
            any_cookie == is_ip_literal(host@),
            cookie_views(cookies@) == accepted_cookies(jar.take(i as int), host@),
        decreases raw.len() - i,
    {
        proof {
            let next = jar.take(i + 1);
            assert(next.drop_last() =~= jar.take(i as int));
            assert(next.last() == raw@[i as int]@);
        }
        if any_cookie || domain_matches_host(&raw[i].domain, &host_chars) {
            let ghost before = cookie_views(cookies@);
            let message = to_message(&raw[i]);
            cookies.push(message);
            assert(cookie_views(cookies@) =~= before.push(message@));
        }
        i += 1;
    }
    assert(jar.take(i as int) =~= jar);
    dedupe_cookies(&mut cookies);
    cookies
}

/// The normalised cookies that the window's jar holds for the site `origin`,
/// which may be a URL or a bare host or address. The error is the message of
/// the URL parser where `origin` names no site.
pub fn get_window_cookies(raw: &Vec<JarCookie>, origin: &str) -> (r: Result<
    Vec<CookieMessage>,
    String,
>)
    ensures
        match target_host_of(origin@) {
            Ok(host) => r is Ok && cookie_views(r->Ok_0@) == normal_form(
                accepted_cookies(jar_cookie_views(raw@), host),
            ),
            Err(message) => r is Err && r->Err_0@ == message,
        },
{
    match target_host(origin) {
        Ok(host) => Ok(select_cookies(raw, host.as_str())),
        Err(message) => Err(message),
    }
}

/// The `Cookie` header for `host` from what the jar holds: the accepted
/// cookies in normal form, written as a header.
pub open spec fn normalized_header(raw: Seq<JarCookieView>, host: Seq<char>) -> Seq<char> {
    header_of(normal_form(accepted_cookies(raw, host)))
}

/// Writes the `Cookie` header for `host` from what the jar holds.
pub fn normalize(raw: &Vec<JarCookie>, host: &str) -> (header: String)
    ensures
        header@ == normalized_header(jar_cookie_views(raw@), host@),
{
    let cookies = select_cookies(raw, host);
    format_cookies(&cookies)
}

/// The accepted list holds exactly the records of the accepted cookies of
/// the jar.
proof fn lemma_accepted_holds(raw: Seq<JarCookieView>, host: Seq<char>, c: CookieView)
    ensures
        accepted_cookies(raw, host).contains(c) <==> exists|i: int|
            0 <= i < raw.len() && cookie_accepted(#[trigger] raw[i], host) && message_of(raw[i])
                == c,
    decreases raw.len(),
{
    if raw.len() > 0 {
        let front = raw.drop_last();
        lemma_accepted_holds(front, host, c);
        let list = accepted_cookies(raw, host);
        let before = accepted_cookies(front, host);
        if list.contains(c) {
            let k = choose|k: int| 0 <= k < list.len() && list[k] == c;
            if cookie_accepted(raw.last(), host) && k == list.len() - 1 {
                assert(cookie_accepted(raw[raw.len() - 1], host) && message_of(
                    raw[raw.len() - 1],
                ) == c);
            } else {
                assert(before[k] == c);
                let i = choose|i: int|
                    0 <= i < front.len() && cookie_accepted(#[trigger] front[i], host)
                        && message_of(front[i]) == c;
                assert(raw[i] == front[i]);
            }
        }
        if exists|i: int|
            0 <= i < raw.len() && cookie_accepted(#[trigger] raw[i], host) && message_of(raw[i])
                == c {
            let i = choose|i: int|
                0 <= i < raw.len() && cookie_accepted(#[trigger] raw[i], host) && message_of(
                    raw[i],
                ) == c;
            if i == raw.len() - 1 {
                assert(list.last() == c);
            } else {
                assert(front[i] == raw[i]);
                let k = choose|k: int| 0 <= k < before.len() && before[k] == c;
                assert(list[k] == c);
            }
        }
    }
}

/// Normalising the same jar twice gives the same header: whatever is a
/// header of a normal form of the accepted cookies is the one header that
/// `normalized_header` names.
pub proof fn law_normalizing_twice_gives_one_header(
    raw: Seq<JarCookieView>,
    host: Seq<char>,
    first: Seq<CookieView>,
    second: Seq<CookieView>,
)
    requires
        is_normal_form(accepted_cookies(raw, host), first),
        is_normal_form(accepted_cookies(raw, host), second),
    ensures
        header_of(first) == header_of(second),
        header_of(first) == normalized_header(raw, host),
{
    lemma_normal_form(accepted_cookies(raw, host));
}

/// The order of the jar does not show in the header: where no two accepted
/// cookies with one key differ in value, a jar and any rearrangement of it
/// give the same header.
pub proof fn law_header_ignores_order_of_jar(
    raw: Seq<JarCookieView>,
    shuffled: Seq<JarCookieView>,
    host: Seq<char>,
)
    requires
        raw.to_multiset() == shuffled.to_multiset(),
        one_value_per_key(accepted_cookies(raw, host)),
    ensures
        normalized_header(raw, host) == normalized_header(shuffled, host),
{
    let a = accepted_cookies(raw, host);
    let b = accepted_cookies(shuffled, host);
    raw.to_multiset_ensures();
    shuffled.to_multiset_ensures();
    assert forall|c: CookieView| a.contains(c) <==> b.contains(c) by {
        lemma_accepted_holds(raw, host, c);
        lemma_accepted_holds(shuffled, host, c);
        if a.contains(c) {
            let i = choose|i: int|
                0 <= i < raw.len() && cookie_accepted(#[trigger] raw[i], host) && message_of(
                    raw[i],
                ) == c;
            assert(raw.contains(raw[i]));
            assert(shuffled.to_multiset().count(raw[i]) > 0);
            assert(shuffled.contains(raw[i]));
            let j = choose|j: int| 0 <= j < shuffled.len() && shuffled[j] == raw[i];
            assert(cookie_accepted(shuffled[j], host) && message_of(shuffled[j]) == c);
        }
        if b.contains(c) {
            let i = choose|i: int|
                0 <= i < shuffled.len() && cookie_accepted(#[trigger] shuffled[i], host)
                    && message_of(shuffled[i]) == c;
            assert(shuffled.contains(shuffled[i]));
            assert(raw.to_multiset().count(shuffled[i]) > 0);
            assert(raw.contains(shuffled[i]));
            let j = choose|j: int| 0 <= j < raw.len() && raw[j] == shuffled[i];
            assert(cookie_accepted(raw[j], host) && message_of(raw[j]) == c);
        }
    }
    lemma_normal_form(a);
    lemma_normal_form(b);
    lemma_same_cookies_same_header(a, b, normal_form(a), normal_form(b));
}

/// The pair that one piece of a `Cookie` header holds: the name, trimmed and
/// in lower case, and the trimmed value, cut at the first `=`. A piece
/// without `=` holds none.
pub open spec fn pair_of_piece(piece: Seq<char>) -> Option<(Seq<char>, Seq<char>)> {
    let text = trimmed(piece);
    let n = first_index_of(text, '=');
    if 0 <= n < text.len() {
        Some((ascii_lowercase(trimmed(text.take(n))), trimmed(text.skip(n + 1))))
    } else {
        None
    }
}

/// The value of the first piece whose name is `name`.
pub open spec fn first_value(pieces: Seq<Seq<char>>, name: Seq<char>) -> Option<Seq<char>>
    decreases pieces.len(),
{
    if pieces.len() == 0 {
        None
    } else {
        match pair_of_piece(pieces[0]) {
            Some((k, v)) => if k == name {
                Some(v)
            } else {
                first_value(pieces.drop_first(), name)
            },
            None => first_value(pieces.drop_first(), name),
        }
    }
}

/// The CSRF token that a `Cookie` header carries: the value of
/// `jms_csrftoken`, else that of `csrftoken`, else the empty string. Names
/// are compared without regard to ASCII case.
pub open spec fn csrf_token_of(header: Seq<char>) -> Seq<char> {
    let pieces = split_on(header, ';');
    match first_value(pieces, "jms_csrftoken"@) {
        Some(v) => v,
        None => match first_value(pieces, "csrftoken"@) {
            Some(v) => v,
            None => Seq::empty(),
        },
    }
}

fn piece_pair(piece: &Vec<char>) -> (r: Option<(Vec<char>, Vec<char>)>)
    ensures
        match r {
            Some((k, v)) => pair_of_piece(piece@) == Some((k@, v@)),
            None => pair_of_piece(piece@) is None,
        },
{
    let text = trim_chars(piece);
    let n = find_char(&text, 0, '=');
    assert(text@.skip(0) =~= text@);
    if n < text.len() {
        let raw_name = slice_chars(&text, 0, n);
        let raw_value = slice_chars(&text, n + 1, text.len());
        assert(text@.subrange(0, n as int) =~= text@.take(n as int));
        assert(text@.subrange(n + 1, text.len() as int) =~= text@.skip(n + 1));
        let name = chars_ascii_lowercase(&trim_chars(&raw_name));
        let value = trim_chars(&raw_value);
        Some((name, value))
    } else {
        None
    }
}

fn find_value(pieces: &Vec<Vec<char>>, name: &Vec<char>) -> (r: Option<Vec<char>>)
    ensures
        match r {
            Some(v) => first_value(chars_views(pieces@), name@) == Some(v@),
            None => first_value(chars_views(pieces@), name@) is None,
        },
{
    let ghost all = chars_views(pieces@);
    let mut i: usize = 0;
    assert(all.skip(0) =~= all);
    while i < pieces.len()
        invariant
            i <= pieces.len(),
            all == chars_views(pieces@),
            first_value(all, name@) == first_value(all.skip(i as int), name@),
        decreases pieces.len() - i,
    {
        proof {
            let rest = all.skip(i as int);
            assert(rest[0] == pieces@[i as int]@);
            assert(rest.drop_first() =~= all.skip(i + 1));
        }
        match piece_pair(&pieces[i]) {
            Some((k, v)) => {
                if matches!(chars_order(&k, name), TextOrder::Equal) {
                    return Some(v);
                }
            },
            None => {},
        }
        i += 1;
    }
    None
}

/// Reads the CSRF token out of a `Cookie` header.
pub fn extract_csrf_token(header_cookie: &str) -> (token: String)
    ensures
        token@ == csrf_token_of(header_cookie@),
{
    let chars = to_chars(header_cookie);
    let pieces = split_chars(&chars, ';');
    let first = to_chars("jms_csrftoken");
    let second = to_chars("csrftoken");
    match find_value(&pieces, &first) {
        Some(v) => from_chars(&v),
        None => match find_value(&pieces, &second) {
            Some(v) => from_chars(&v),
            None => String::new(),
        },
    }
}

} // verus!
