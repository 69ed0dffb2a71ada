//! Connection tokens: the ticket that lets the local client open a session
//! to an asset.

use vstd::prelude::*;
use vstd::string::StringExecFns;

verus! {

/// Body of the call that asks for a connection token.
#[derive(Debug)]
pub struct TokenRequestBody {
    pub asset: String,
    pub account: String,
    pub protocol: String,
    pub input_username: String,
    pub input_secret: String,
    pub connect_method: String,
}

/// The token calls for one site, one set of cookies and one request.
pub struct TokenService {
    pub site: String,
    pub cookie_header: String,
    pub request_body: TokenRequestBody,
}

/// The views of a list of name/value pairs.
pub open spec fn pair_views(pairs: Seq<(String, String)>) -> Seq<(Seq<char>, Seq<char>)> {
    pairs.map_values(|p: (String, String)| (p.0@, p.1@))
}

/// Length of a text in bytes, as UTF-8: what `str::len` returns.
pub open spec fn byte_len(text: Seq<char>) -> usize {
    vstd::utf8::encode_utf8(text).len() as usize
}

/// Bytes that a list of pairs takes, counting one more for each pair.
pub open spec fn pairs_size(pairs: Seq<(Seq<char>, Seq<char>)>) -> nat
    decreases pairs.len(),
{
    if pairs.len() == 0 {
        0
    } else {
        pairs_size(pairs.drop_last()) + (byte_len(pairs.last().0) as nat) + (byte_len(
            pairs.last().1,
        ) as nat) + 1
    }
}

/// Most bytes that an address and the pairs for its query may take
/// together. A URL keeps its lengths as 32-bit numbers; below this bound no
/// address with its query comes near them.
pub const QUERY_LIMIT: usize = 0x0100_0000;

/// The address and the pairs are small enough to be put together.
pub open spec fn query_fits(url: Seq<char>, pairs: Seq<(Seq<char>, Seq<char>)>) -> bool {
    byte_len(url) + pairs_size(pairs) <= QUERY_LIMIT
}

/// What `url::Url` makes of the address `url` with `pairs` added to its
/// query: the text of the resulting URL, or `None` where `url` is not an
/// absolute URL.
pub uninterp spec fn url_with_query(url: Seq<char>, pairs: Seq<(Seq<char>, Seq<char>)>) -> Option<
    Seq<char>,
>;

/// Parses `url` with `url::Url::parse`, adds `pairs` to its query in the
/// order given with `Url::query_pairs_mut` and `extend_pairs`, and returns
/// the text of the URL. The contract only names that result. The bound on
/// the sizes keeps the URL's 32-bit lengths from overflowing.
#[verifier::external_body]
fn append_query(url: &str, pairs: &Vec<(String, String)>) -> (r: Option<String>)
    requires
        query_fits(url@, pair_views(pairs@)),
    ensures
        crate::models::opt_text(r) == url_with_query(url@, pair_views(pairs@)),
{
    match url::Url::parse(url) {
        Ok(mut parsed) => {
            parsed.query_pairs_mut().extend_pairs(pairs.iter());
            Some(parsed.to_string())
        },
        Err(_) => None,
    }
}

/// Whether the address and the pairs are small enough to be put together.
pub fn check_query_fits(url: &str, pairs: &Vec<(String, String)>) -> (fits: bool)
    ensures
        fits == query_fits(url@, pair_views(pairs@)),
{
    let ghost all = pair_views(pairs@);
    if url.len() > QUERY_LIMIT {
        return false;
    }
    let mut total: usize = url.len();
    let mut i: usize = 0;
    while i < pairs.len()
        invariant
            i <= pairs.len(),
            all == pair_views(pairs@),
            total == byte_len(url@) + pairs_size(all.take(i as int)),
            total <= QUERY_LIMIT,
        decreases pairs.len() - i,
    {
        proof {
            let next = all.take(i + 1);
            assert(next.drop_last() =~= all.take(i as int));
            assert(next.last() == (pairs@[i as int].0@, pairs@[i as int].1@));
            lemma_pairs_size_grows(all, i + 1);
        }
        let name_len = pairs[i].0.as_str().len();
        let value_len = pairs[i].1.as_str().len();
        if name_len > QUERY_LIMIT || value_len > QUERY_LIMIT {
            return false;
        }
        let next_total = total + name_len + value_len + 1;
        if next_total > QUERY_LIMIT {
            return false;
        }
        total = next_total;
        i += 1;
    }
    assert(all.take(i as int) =~= all);
    true
}

proof fn lemma_pairs_size_grows(pairs: Seq<(Seq<char>, Seq<char>)>, n: int)
    requires
        0 <= n <= pairs.len(),
    ensures
        pairs_size(pairs.take(n)) <= pairs_size(pairs),
    decreases pairs.len() - n,
{
    if n < pairs.len() {
        let next = pairs.take(n + 1);
        assert(next.drop_last() =~= pairs.take(n));
        lemma_pairs_size_grows(pairs, n + 1);
    } else {
        assert(pairs.take(n) =~= pairs);
    }
}

/// Address at which the local client finds how to use the token
/// `token_id`, before any extra parameters.
pub open spec fn client_url_base(site: Seq<char>, token_id: Seq<char>) -> Seq<char> {
    site + "/api/v1/authentication/connection-token/"@ + token_id + "/client-url/"@
}

/// The address with the extra parameters in its query. Without parameters
/// it is the plain address. With parameters, even with an empty list of
/// them, it is the address as a URL writes it; where the address is no URL,
/// or is too large to be put together with the parameters, it stays plain.
pub open spec fn client_url_of(
    site: Seq<char>,
    token_id: Seq<char>,
    extra_params: Option<Seq<(Seq<char>, Seq<char>)>>,
) -> Seq<char> {
    let base = client_url_base(site, token_id);
    match extra_params {
        Some(pairs) => if query_fits(base, pairs) {
            match url_with_query(base, pairs) {
                Some(url) => url,
                None => base,
            }
        } else {
            base
        },
        None => base,
    }
}

impl TokenService {
    pub fn new(site: String, cookie_header: String, request_body: TokenRequestBody) -> (service:
        Self)
        ensures
            service.site@ == site@,
            service.cookie_header@ == cookie_header@,
            service.request_body == request_body,
    {
        Self { site, cookie_header, request_body }
    }

    /// Address of the call that asks for a connection token.
    pub fn connect_token_url(&self) -> (url: String)
        ensures
            url@ == self.site@ + "/api/v1/authentication/connection-token/"@,
    {
        let mut url = self.site.clone();
        url.append("/api/v1/authentication/connection-token/");
        url
    }

    /// Address at which the local client finds how to use the token, with
    /// the extra parameters in its query.
    pub fn local_client_url(&self, token_id: &str, extra_params: Option<&Vec<(String, String)>>) -> (url:
        String)
        ensures
            url@ == client_url_of(
                self.site@,
                token_id@,
                match extra_params {
                    Some(pairs) => Some(pair_views(pairs@)),
                    None => None,
                },
            ),
    {
        let mut url = self.site.clone();
        url.append("/api/v1/authentication/connection-token/");
        url.append(token_id);
        url.append("/client-url/");
        match extra_params {
            Some(pairs) => {
                if check_query_fits(url.as_str(), pairs) {
                    match append_query(url.as_str(), pairs) {
                        Some(with_query) => with_query,
                        None => url,
                    }
                } else {
                    url
                }
            },
            None => url,
        }
    }
}


/// What `serde_json` finds under `key` in the JSON text `body`: the string
/// that the member holds, or `None` where `body` is no JSON text, is no
/// object, has no such member, or holds another kind of value there.
pub uninterp spec fn json_member_text(body: Seq<char>, key: Seq<char>) -> Option<Seq<char>>;

/// Parses `body` with `serde_json::from_str` as a `serde_json::Value` and
/// reads the member `key` with `Value::get` and `Value::as_str`. The
/// contract only names that result.
#[verifier::external_body]
fn read_json_text(body: &str, key: &str) -> (text: Option<String>)
    ensures
        crate::models::opt_text(text) == json_member_text(body@, key@),
{
    match serde_json::from_str::<serde_json::Value>(body) {
        Ok(value) => value.get(key).and_then(serde_json::Value::as_str).map(str::to_string),
        Err(_) => None,
    }
}

/// The identifier of the token that the service created, read from the
/// member `id` of its answer.
pub fn token_id(body: &str) -> (id: Option<String>)
    ensures
        crate::models::opt_text(id) == json_member_text(body@, "id"@),
{
    read_json_text(body, "id")
}

/// The address to launch the local client with, read from the member
/// `url` of the service's answer.
pub fn launch_url(body: &str) -> (url: Option<String>)
    ensures
        crate::models::opt_text(url) == json_member_text(body@, "url"@),
{
    read_json_text(body, "url")
}

} // verus!
