//! Origins and hosts: what the client reads of a URL, which navigations
//! change the site in use, and which host a cookie is matched against.

use vstd::prelude::*;
use vstd::string::StringExecFns;
use crate::text::{
    chars_views, from_chars, push_chars, push_decimal, same_text, skip_leading, split_chars,
    split_on, to_chars, trim_leading, decimal,
};

verus! {

/// The parts of an absolute URL that the client reads.
#[derive(Debug)]
pub struct UrlParts {
    /// The scheme in lower case, without the `:`.
    pub scheme: String,
    /// The host as it stands in the URL, if the URL has one.
    pub host: Option<String>,
    /// The port, unless it is absent or the default of the scheme.
    pub port: Option<u16>,
}

/// Mathematical value of [`UrlParts`].
pub struct UrlPartsView {
    pub scheme: Seq<char>,
    pub host: Option<Seq<char>>,
    pub port: Option<u16>,
}

impl View for UrlParts {
    type V = UrlPartsView;

    open spec fn view(&self) -> UrlPartsView {
        UrlPartsView {
            scheme: self.scheme@,
            host: match self.host {
                Some(h) => Some(h@),
                None => None,
            },
            port: self.port,
        }
    }
}

/// What `url::Url::parse` makes of `input`: the scheme, host and port of the
/// URL, or the message of the parse error.
pub uninterp spec fn parsed_url(input: Seq<char>) -> Result<UrlPartsView, Seq<char>>;

/// Parses `input` with `url::Url::parse`. Of a URL it returns what
/// `Url::scheme`, `Url::host_str` and `Url::port` report; of a failure, the
/// text of the `url::ParseError`. The contract only names that result.
#[verifier::external_body]
fn parse_url(input: &str) -> (r: Result<UrlParts, String>)
    ensures
        match r {
            Ok(parts) => parsed_url(input@) == Ok::<UrlPartsView, Seq<char>>(parts@),
            Err(message) => parsed_url(input@) == Err::<UrlPartsView, Seq<char>>(message@),
        },
{
    match url::Url::parse(input) {
        Ok(url) => Ok(
            UrlParts {
                scheme: url.scheme().to_string(),
                host: url.host_str().map(str::to_string),
                port: url.port(),
            },
        ),
        Err(e) => Err(e.to_string()),
    }
}

/// The origin `scheme://host[:port]` of a URL that is served over HTTP or
/// HTTPS and names a host; `None` for any other URL.
pub open spec fn http_origin(url: UrlPartsView) -> Option<Seq<char>> {
    if url.scheme == "http"@ || url.scheme == "https"@ {
        match url.host {
            Some(host) => Some(
                url.scheme + "://"@ + host + match url.port {
                    Some(port) => seq![':'] + decimal(port as nat),
                    None => Seq::empty(),
                },
            ),
            None => None,
        }
    } else {
        None
    }
}

/// The site that a navigation leads to, if it is one the client can use.
pub fn http_origin_from_url(url: &UrlParts) -> (origin: Option<String>)
    ensures
        match origin {
            Some(o) => http_origin(url@) == Some(o@),
            None => http_origin(url@) is None,
        },
{
    if !same_text(url.scheme.as_str(), "http") && !same_text(url.scheme.as_str(), "https") {
        return None;
    }
    match &url.host {
        None => None,
        Some(host) => {
            let mut origin = url.scheme.clone();
            origin.append("://");
            origin.append(host.as_str());
            if let Some(port) = url.port {
                origin.push(':');
                let mut digits: Vec<char> = Vec::new();
                push_decimal(&mut digits, port as u64);
                push_chars(&mut origin, &digits);
                assert(origin@ =~= url.scheme@ + "://"@ + host@ + (seq![':'] + decimal(
                    port as nat,
                )));
            } else {
                assert(origin@ =~= url.scheme@ + "://"@ + host@ + Seq::<char>::empty());
            }
            Some(origin)
        },
    }
}

/// The host that cookies are matched against: the URL's host without
/// leading dots, or the empty string where the URL has no host.
pub open spec fn host_text(url: UrlPartsView) -> Seq<char> {
    match url.host {
        Some(host) => skip_leading(host, '.'),
        None => Seq::empty(),
    }
}

/// The host of `url` to match cookies against.
pub fn target_host_of_url(url: &UrlParts) -> (host: String)
    ensures
        host@ == host_text(url@),
{
    match &url.host {
        Some(host) => {
            let chars = to_chars(host.as_str());
            let trimmed = trim_leading(&chars, '.');
            from_chars(&trimmed)
        },
        None => String::new(),
    }
}

/// The host that an origin names. An origin that does not parse as a URL is
/// read once more as a bare host, with `https://` put before it; if that
/// fails too, the result is the message of the second failure.
pub open spec fn target_host_of(origin: Seq<char>) -> Result<Seq<char>, Seq<char>> {
    match parsed_url(origin) {
        Ok(url) => Ok(host_text(url)),
        Err(_) => match parsed_url("https://"@ + origin) {
            Ok(url) => Ok(host_text(url)),
            Err(message) => Err(message),
        },
    }
}

/// Reads the target host out of `origin`, which may be a URL or a bare
/// host or address.
pub fn target_host(origin: &str) -> (r: Result<String, String>)
    ensures
        match r {
            Ok(host) => target_host_of(origin@) == Ok::<Seq<char>, Seq<char>>(host@),
            Err(message) => target_host_of(origin@) == Err::<Seq<char>, Seq<char>>(message@),
        },
{
    match parse_url(origin) {
        Ok(url) => Ok(target_host_of_url(&url)),
        Err(_) => {
            let mut with_scheme = String::new();
            with_scheme.append("https://");
            with_scheme.append(origin);
            assert(with_scheme@ =~= "https://"@ + origin@);
            match parse_url(with_scheme.as_str()) {
                Ok(url) => Ok(target_host_of_url(&url)),
                Err(message) => Err(message),
            }
        },
    }
}


/// The number that a run of decimal digits writes.
pub open spec fn digits_value(s: Seq<char>) -> int
    decreases s.len(),
{
    if s.len() == 0 {
        0
    } else {
        digits_value(s.drop_last()) * 10 + (s.last() as int - '0' as int)
    }
}

/// One part of a dotted-decimal address: one to three decimal digits, no
/// leading zero before another digit, and a value of at most 255.
pub open spec fn is_ipv4_octet(s: Seq<char>) -> bool {
    &&& 1 <= s.len() <= 3
    &&& forall|i: int| 0 <= i < s.len() ==> '0' <= #[trigger] s[i] <= '9'
    &&& (s.len() > 1 ==> s[0] != '0')
    &&& digits_value(s) <= 255
}

/// `host` is an IPv4 address in dotted-decimal notation: four octets with a
/// dot between each two.
pub open spec fn is_ipv4_literal(host: Seq<char>) -> bool {
    let parts = split_on(host, '.');
    &&& parts.len() == 4
    &&& forall|i: int| 0 <= i < 4 ==> is_ipv4_octet(#[trigger] parts[i])
}

/// A hexadecimal digit, in either case.
pub open spec fn is_hex_digit(c: char) -> bool {
    '0' <= c <= '9' || 'a' <= c <= 'f' || 'A' <= c <= 'F'
}

/// One 16-bit group of an IPv6 address: one to four hexadecimal digits.
pub open spec fn is_ipv6_group(s: Seq<char>) -> bool {
    &&& 1 <= s.len() <= 4
    &&& forall|i: int| 0 <= i < s.len() ==> is_hex_digit(#[trigger] s[i])
}

/// The first `n` parts are groups.
pub open spec fn all_groups(parts: Seq<Seq<char>>, n: int) -> bool {
    forall|i: int| 0 <= i < n ==> is_ipv6_group(#[trigger] parts[i])
}

/// Number of 16-bit groups that `text` spells as a run of groups with a colon
/// between each two. Where `allow_v4` holds, the last two groups may be
/// written as a dotted-decimal address. `None` where `text` is no such run;
/// the empty text is the run of no groups.
pub open spec fn groups_in(text: Seq<char>, allow_v4: bool) -> Option<int> {
    let parts = split_on(text, ':');
    if text.len() == 0 {
        Some(0)
    } else if all_groups(parts, parts.len() as int) {
        Some(parts.len() as int)
    } else if allow_v4 && all_groups(parts, parts.len() - 1) && is_ipv4_literal(parts.last()) {
        Some(parts.len() as int + 1)
    } else {
        None
    }
}

/// Position of the first `::` in `s`, or the length of `s` where it holds
/// none.
pub open spec fn first_double_colon(s: Seq<char>) -> int
    decreases s.len(),
{
    if s.len() < 2 {
        s.len() as int
    } else if s[0] == ':' && s[1] == ':' {
        0
    } else {
        1 + first_double_colon(s.drop_first())
    }
}

/// `host` is an IPv6 address in text form: eight groups, or fewer around one
/// `::` that stands for the groups left out. The last two groups may be
/// written as a dotted-decimal address, but not before the `::`.
pub open spec fn is_ipv6_literal(host: Seq<char>) -> bool {
    let k = first_double_colon(host);
    if 0 <= k < host.len() {
        match (groups_in(host.take(k), false), groups_in(host.skip(k + 2), true)) {
            (Some(before), Some(after)) => before + after <= 7,
            _ => false,
        }
    } else {
        groups_in(host, true) == Some(8int)
    }
}

/// `host` is a literal IP address, of version 4 or of version 6, written as
/// the standard library reads an address: without brackets or zone.
pub open spec fn is_ip_literal(host: Seq<char>) -> bool {
    is_ipv4_literal(host) || is_ipv6_literal(host)
}

fn octet_is_valid(part: &Vec<char>) -> (r: bool)
    ensures
        r == is_ipv4_octet(part@),
{
    if part.len() < 1 || part.len() > 3 {
        return false;
    }
    if part.len() > 1 && part[0] == '0' {
        return false;
    }
    let mut value: u32 = 0;
    let mut i: usize = 0;
    while i < part.len()
        invariant
            i <= part.len() <= 3,
            forall|j: int| 0 <= j < i ==> '0' <= #[trigger] part@[j] <= '9',
            value == digits_value(part@.take(i as int)),
            value <= 999,
        decreases part.len() - i,
    {
        let c = part[i];
        if c < '0' || c > '9' {
            return false;
        }
        assert(part@.take(i + 1).drop_last() =~= part@.take(i as int));
        assert(digits_value(part@.take(i as int)) < 100) by {
            reveal_with_fuel(digits_value, 4);
        }
        value = value * 10 + (c as u32 - 48);
        i += 1;
    }
    assert(part@.take(i as int) =~= part@);
    value <= 255
}

fn parts_are_ipv4(parts: &Vec<Vec<char>>) -> (r: bool)
    ensures
        r == (parts.len() == 4 && forall|i: int|
            0 <= i < 4 ==> is_ipv4_octet(#[trigger] chars_views(parts@)[i])),
{
    if parts.len() != 4 {
        return false;
    }
    let mut i: usize = 0;
    while i < 4
        invariant
            i <= 4,
            parts.len() == 4,
            forall|j: int| 0 <= j < i ==> is_ipv4_octet(#[trigger] chars_views(parts@)[j]),
        decreases 4 - i,
    {
        assert(chars_views(parts@)[i as int] == parts@[i as int]@);
        if !octet_is_valid(&parts[i]) {
            return false;
        }
        i += 1;
    }
    true
}

/// Whether `host` is an IPv4 address in dotted-decimal notation.
pub fn host_is_ipv4_literal(host: &Vec<char>) -> (r: bool)
    ensures
        r == is_ipv4_literal(host@),
{
    let parts = split_chars(host, '.');
    parts_are_ipv4(&parts)
}

fn group_is_valid(part: &Vec<char>) -> (r: bool)
    ensures
        r == is_ipv6_group(part@),
{
    if part.len() < 1 || part.len() > 4 {
        return false;
    }
    let mut i: usize = 0;
    while i < part.len()
        invariant
            i <= part.len(),
            forall|j: int| 0 <= j < i ==> is_hex_digit(#[trigger] part@[j]),
        decreases part.len() - i,
    {
        let c = part[i];
        let hex = (c >= '0' && c <= '9') || (c >= 'a' && c <= 'f') || (c >= 'A' && c <= 'F');
        if !hex {
            return false;
        }
        i += 1;
    }
    true
}

/// Whether the first `n` parts are groups.
fn parts_are_groups(parts: &Vec<Vec<char>>, n: usize) -> (r: bool)
    requires
        n <= parts.len(),
    ensures
        r == all_groups(chars_views(parts@), n as int),
{
    let mut i: usize = 0;
    while i < n
        invariant
            i <= n <= parts.len(),
            all_groups(chars_views(parts@), i as int),
        decreases n - i,
    {
        assert(chars_views(parts@)[i as int] == parts@[i as int]@);
        if !group_is_valid(&parts[i]) {
            return false;
        }
        i += 1;
    }
    true
}

/// Counts the groups that `text` spells. A count above eight is reported
/// as nine: no address has that many groups.
fn count_groups(text: &Vec<char>, allow_v4: bool) -> (r: Option<usize>)
    ensures
        r is None <==> groups_in(text@, allow_v4) is None,
        groups_in(text@, allow_v4) matches Some(n) ==> r == Some(
            if n <= 8 {
                n as usize
            } else {
                9usize
            },
        ),
{
    if text.len() == 0 {
        return Some(0);
    }
    let parts = split_chars(text, ':');
    let all = parts_are_groups(&parts, parts.len());
    let mut with_v4 = false;
    if !all && allow_v4 && parts.len() >= 1 && parts_are_groups(&parts, parts.len() - 1) {
        let last = &parts[parts.len() - 1];
        assert(chars_views(parts@).last() == last@);
        with_v4 = host_is_ipv4_literal(last);
    }
    if all {
        if parts.len() <= 8 {
            Some(parts.len())
        } else {
            Some(9)
        }
    } else if with_v4 {
        if parts.len() <= 7 {
            Some(parts.len() + 1)
        } else {
            Some(9)
        }
    } else {
        proof {
            if parts.len() == 0 {
                assert(all_groups(chars_views(parts@), 0));
            }
        }
        None
    }
}

proof fn lemma_first_double_colon(s: Seq<char>)
    ensures
        0 <= first_double_colon(s) <= s.len(),
        first_double_colon(s) < s.len() ==> first_double_colon(s) + 1 < s.len()
            && s[first_double_colon(s)] == ':' && s[first_double_colon(s) + 1] == ':',
        forall|i: int|
            0 <= i < first_double_colon(s) && i + 1 < s.len() ==> !(#[trigger] s[i] == ':' && s[i
                + 1] == ':'),
    decreases s.len(),
{
    if s.len() >= 2 && !(s[0] == ':' && s[1] == ':') {
        let rest = s.drop_first();
        lemma_first_double_colon(rest);
        assert forall|i: int|
            0 <= i < first_double_colon(s) && i + 1 < s.len() implies !(#[trigger] s[i] == ':' && s[i
            + 1] == ':') by {
            if i > 0 {
                assert(rest[i - 1] == s[i]);
                assert(rest[i] == s[i + 1]);
            }
        }
    }
}

proof fn lemma_first_double_colon_is(s: Seq<char>, n: int)
    requires
        0 <= n <= s.len(),
        forall|i: int|
            0 <= i < n && i + 1 < s.len() ==> !(#[trigger] s[i] == ':' && s[i + 1] == ':'),
        n < s.len() ==> n + 1 < s.len() && s[n] == ':' && s[n + 1] == ':',
    ensures
        first_double_colon(s) == n,
{
    lemma_first_double_colon(s);
    let k = first_double_colon(s);
    if k < n {
        if k < s.len() {
            assert(!(s[k] == ':' && s[k + 1] == ':'));
        }
    } else if k > n {
        assert(n < s.len());
    }
}

/// Whether `host` is an IPv6 address in text form.
pub fn host_is_ipv6_literal(host: &Vec<char>) -> (r: bool)
    ensures
        r == is_ipv6_literal(host@),
{
    let mut k: usize = 0;
    while host.len() - k >= 2 && !(host[k] == ':' && host[k + 1] == ':')
        invariant
            k <= host.len(),
            forall|i: int|
                0 <= i < k && i + 1 < host.len() ==> !(#[trigger] host@[i] == ':' && host@[i + 1]
                    == ':'),
        decreases host.len() - k,
    {
        k += 1;
    }
    if host.len() - k >= 2 {
        proof {
            lemma_first_double_colon_is(host@, k as int);
        }
        let before = crate::text::slice_chars(host, 0, k);
        let after = crate::text::slice_chars(host, k + 2, host.len());
        assert(host@.subrange(0, k as int) =~= host@.take(k as int));
        assert(host@.subrange(k + 2, host.len() as int) =~= host@.skip(k + 2));
        match (count_groups(&before, false), count_groups(&after, true)) {
            (Some(head), Some(tail)) => head + tail <= 7,
            _ => false,
        }
    } else {
        proof {
            lemma_first_double_colon_is(host@, host.len() as int);
        }
        match count_groups(host, true) {
            Some(n) => n == 8,
            None => false,
        }
    }
}

/// Whether `host` is a literal IP address.
pub fn host_is_ip_literal(host: &Vec<char>) -> (r: bool)
    ensures
        r == is_ip_literal(host@),
{
    host_is_ipv4_literal(host) || host_is_ipv6_literal(host)
}

} // verus!
