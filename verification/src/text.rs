//! Character-level primitives shared by the cookie, origin and request code.
//!
//! Every contract in this crate speaks of strings through their view, a
//! `Seq<char>`. The functions here move between `String` and `Vec<char>`, and
//! give the few string operations the crate needs an exact meaning.

use vstd::prelude::*;

verus! {

/// `String::push` appends exactly one character to the end of the string.
pub assume_specification[ String::push ](s: &mut String, ch: char)
    ensures
        final(s)@ == old(s)@.push(ch),
;

/// Outcome of comparing two character sequences.
#[derive(Clone, Copy, Debug, PartialEq, Eq)]
pub enum TextOrder {
    Less,
    Equal,
    Greater,
}

/// `a` is below `b` because they agree on the first `k` characters and then
/// either `a` ends, or `a` holds the smaller character at position `k`.
pub open spec fn lex_lt_at(a: Seq<char>, b: Seq<char>, k: int) -> bool {
    &&& 0 <= k <= a.len()
    &&& k <= b.len()
    &&& a.take(k) == b.take(k)
    &&& if k == a.len() {
        k < b.len()
    } else {
        k < b.len() && a[k] < b[k]
    }
}

/// Strict lexicographic order by code point: the order of `str`.
pub open spec fn lex_lt(a: Seq<char>, b: Seq<char>) -> bool {
    exists|k: int| lex_lt_at(a, b, k)
}

/// No sequence is below itself.
pub proof fn lemma_lex_irreflexive(a: Seq<char>)
    ensures
        !lex_lt(a, a),
{
}

/// No two sequences are below each other.
pub proof fn lemma_lex_asymmetric(a: Seq<char>, b: Seq<char>)
    requires
        lex_lt(a, b),
    ensures
        !lex_lt(b, a),
        a != b,
{
    let k = choose|k: int| lex_lt_at(a, b, k);
    if lex_lt(b, a) {
        let j = choose|j: int| lex_lt_at(b, a, j);
        if k < j {
            assert(b.take(j)[k] == a.take(j)[k]);
        } else if j < k {
            assert(a.take(k)[j] == b.take(k)[j]);
        }
    }
}

/// The order is transitive.
pub proof fn lemma_lex_transitive(a: Seq<char>, b: Seq<char>, c: Seq<char>)
    requires
        lex_lt(a, b),
        lex_lt(b, c),
    ensures
        lex_lt(a, c),
{
    let k = choose|k: int| lex_lt_at(a, b, k);
    let j = choose|j: int| lex_lt_at(b, c, j);
    let m = if k <= j { k } else { j };
    assert(a.take(m) =~= c.take(m)) by {
        assert forall|i: int| 0 <= i < m implies a.take(m)[i] == c.take(m)[i] by {
            assert(a.take(k)[i] == b.take(k)[i]);
            assert(b.take(j)[i] == c.take(j)[i]);
        }
    }
    if k < j {
        assert(b.take(j)[k] == c.take(j)[k]);
    } else if j < k {
        assert(a.take(k)[j] == b.take(k)[j]);
    }
    assert(lex_lt_at(a, c, m));
}

proof fn lemma_lex_total_from(a: Seq<char>, b: Seq<char>, k: int)
    requires
        0 <= k <= a.len(),
        k <= b.len(),
        a.take(k) == b.take(k),
        a != b,
    ensures
        lex_lt(a, b) || lex_lt(b, a),
    decreases a.len() - k,
{
    if k == a.len() {
        if k == b.len() {
            assert(a =~= a.take(k));
            assert(b =~= b.take(k));
        } else {
            assert(lex_lt_at(a, b, k));
        }
    } else if k == b.len() {
        assert(lex_lt_at(b, a, k));
    } else if a[k] < b[k] {
        assert(lex_lt_at(a, b, k));
    } else if b[k] < a[k] {
        assert(lex_lt_at(b, a, k));
    } else {
        assert(a.take(k + 1) =~= a.take(k).push(a[k]));
        assert(b.take(k + 1) =~= b.take(k).push(b[k]));
        lemma_lex_total_from(a, b, k + 1);
    }
}

/// Two different sequences are ordered one way or the other.
pub proof fn lemma_lex_total(a: Seq<char>, b: Seq<char>)
    requires
        a != b,
    ensures
        lex_lt(a, b) || lex_lt(b, a),
{
    assert(a.take(0) =~= b.take(0));
    lemma_lex_total_from(a, b, 0);
}

/// Compares two character vectors in the order of `str`.
pub fn chars_order(a: &Vec<char>, b: &Vec<char>) -> (r: TextOrder)
    ensures
        r is Less <==> lex_lt(a@, b@),
        r is Equal <==> a@ == b@,
        r is Greater <==> lex_lt(b@, a@),
{
    let mut i: usize = 0;
    while i < a.len() && i < b.len()
        invariant
            i <= a.len(),
            i <= b.len(),
            a@.take(i as int) == b@.take(i as int),
        decreases a.len() - i,
    {
        if a[i] < b[i] {
            assert(lex_lt_at(a@, b@, i as int));
            proof {
                lemma_lex_asymmetric(a@, b@);
            }
            return TextOrder::Less;
        }
        if b[i] < a[i] {
            assert(lex_lt_at(b@, a@, i as int));
            proof {
                lemma_lex_asymmetric(b@, a@);
            }
            return TextOrder::Greater;
        }
        assert(a@.take(i + 1) =~= a@.take(i as int).push(a@[i as int]));
        assert(b@.take(i + 1) =~= b@.take(i as int).push(b@[i as int]));
        i += 1;
    }
    if i < b.len() {
        assert(lex_lt_at(a@, b@, i as int));
        proof {
            lemma_lex_asymmetric(a@, b@);
        }
        TextOrder::Less
    } else if i < a.len() {
        assert(lex_lt_at(b@, a@, i as int));
        proof {
            lemma_lex_asymmetric(b@, a@);
        }
        TextOrder::Greater
    } else {
        assert(a@ =~= a@.take(i as int));
        assert(b@ =~= b@.take(i as int));
        TextOrder::Equal
    }
}

/// The characters of `s`, in order.
pub fn to_chars(s: &str) -> (v: Vec<char>)
    ensures
        v@ == s@,
{
    let mut v: Vec<char> = Vec::new();
    for c in it: s.chars()
        invariant
            v@ == it.seq().take(it.index() as int),
            it.seq() == s@,
    {
        v.push(c);
    }
    v
}

/// Appends the characters of `v` to `s`.
pub fn push_chars(s: &mut String, v: &Vec<char>)
    ensures
        final(s)@ == old(s)@ + v@,
{
    let mut i: usize = 0;
    while i < v.len()
        invariant
            i <= v.len(),
            s@ == old(s)@ + v@.take(i as int),
        decreases v.len() - i,
    {
        assert(v@.take(i + 1) =~= v@.take(i as int).push(v@[i as int]));
        s.push(v[i]);
        i += 1;
    }
    assert(v@.take(v.len() as int) =~= v@);
}

/// The string that holds the characters of `v`.
pub fn from_chars(v: &Vec<char>) -> (s: String)
    ensures
        s@ == v@,
{
    let mut s = String::new();
    push_chars(&mut s, v);
    s
}

/// Whether two strings hold the same characters.
pub fn same_text(a: &str, b: &str) -> (r: bool)
    ensures
        r == (a@ == b@),
{
    let x = to_chars(a);
    let y = to_chars(b);
    matches!(chars_order(&x, &y), TextOrder::Equal)
}


/// The characters of `v` from `from` up to, not including, `to`.
pub fn slice_chars(v: &Vec<char>, from: usize, to: usize) -> (r: Vec<char>)
    requires
        from <= to <= v.len(),
    ensures
        r@ == v@.subrange(from as int, to as int),
{
    let mut r: Vec<char> = Vec::new();
    let mut i: usize = from;
    while i < to
        invariant
            from <= i <= to,
            to <= v.len(),
            r@ == v@.subrange(from as int, i as int),
        decreases to - i,
    {
        r.push(v[i]);
        assert(v@.subrange(from as int, i + 1) =~= v@.subrange(from as int, i as int).push(
            v@[i as int],
        ));
        i += 1;
    }
    r
}

/// `s` without the run of `c` that it starts with.
pub open spec fn skip_leading(s: Seq<char>, c: char) -> Seq<char>
    decreases s.len(),
{
    if s.len() > 0 && s[0] == c {
        skip_leading(s.drop_first(), c)
    } else {
        s
    }
}

proof fn lemma_skip_leading(s: Seq<char>, c: char, n: int)
    requires
        0 <= n <= s.len(),
        forall|i: int| 0 <= i < n ==> s[i] == c,
        n < s.len() ==> s[n] != c,
    ensures
        skip_leading(s, c) == s.skip(n),
    decreases n,
{
    if n == 0 {
        assert(s.skip(0) =~= s);
    } else {
        let rest = s.drop_first();
        assert forall|i: int| 0 <= i < n - 1 implies rest[i] == c by {
            assert(rest[i] == s[i + 1]);
        }
        lemma_skip_leading(rest, c, n - 1);
        assert(rest.skip(n - 1) =~= s.skip(n));
    }
}

/// Removes every `c` that `v` starts with.
pub fn trim_leading(v: &Vec<char>, c: char) -> (r: Vec<char>)
    ensures
        r@ == skip_leading(v@, c),
{
    let mut n: usize = 0;
    while n < v.len() && v[n] == c
        invariant
            n <= v.len(),
            forall|i: int| 0 <= i < n ==> v@[i] == c,
        decreases v.len() - n,
    {
        n += 1;
    }
    proof {
        lemma_skip_leading(v@, c, n as int);
    }
    slice_chars(v, n, v.len())
}

/// `s` ends with `suffix`.
pub open spec fn ends_with(s: Seq<char>, suffix: Seq<char>) -> bool {
    suffix.len() <= s.len() && s.skip(s.len() - suffix.len()) == suffix
}

/// Whether `v` ends with `suffix`.
pub fn chars_end_with(v: &Vec<char>, suffix: &Vec<char>) -> (r: bool)
    ensures
        r == ends_with(v@, suffix@),
{
    if suffix.len() > v.len() {
        return false;
    }
    let start: usize = v.len() - suffix.len();
    let mut i: usize = 0;
    while i < suffix.len()
        invariant
            i <= suffix.len(),
            start + suffix.len() == v.len(),
            forall|j: int| 0 <= j < i ==> v@[start + j] == suffix@[j],
        decreases suffix.len() - i,
    {
        if v[start + i] != suffix[i] {
            assert(v@.skip(start as int)[i as int] == v@[start + i]);
            return false;
        }
        i += 1;
    }
    assert(v@.skip(start as int) =~= suffix@);
    true
}

/// Position of the first `c` in `s`, or the length of `s` where it holds none.
pub open spec fn first_index_of(s: Seq<char>, c: char) -> int
    decreases s.len(),
{
    if s.len() == 0 {
        0
    } else if s[0] == c {
        0
    } else {
        1 + first_index_of(s.drop_first(), c)
    }
}

/// `first_index_of` is the position of the first `c`: no `c` stands before
/// it, and one stands at it unless the sequence holds none.
pub proof fn lemma_first_index_of(s: Seq<char>, c: char)
    ensures
        0 <= first_index_of(s, c) <= s.len(),
        forall|i: int| 0 <= i < first_index_of(s, c) ==> s[i] != c,
        first_index_of(s, c) < s.len() ==> s[first_index_of(s, c)] == c,
    decreases s.len(),
{
    if s.len() > 0 && s[0] != c {
        let rest = s.drop_first();
        lemma_first_index_of(rest, c);
        assert forall|i: int| 0 <= i < first_index_of(s, c) implies s[i] != c by {
            if i > 0 {
                assert(rest[i - 1] == s[i]);
            }
        }
    }
}

proof fn lemma_first_index_is(s: Seq<char>, c: char, n: int)
    requires
        0 <= n <= s.len(),
        forall|i: int| 0 <= i < n ==> s[i] != c,
        n < s.len() ==> s[n] == c,
    ensures
        first_index_of(s, c) == n,
{
    lemma_first_index_of(s, c);
}

/// Finds the first `c` at or after `from`.
pub fn find_char(v: &Vec<char>, from: usize, c: char) -> (r: usize)
    requires
        from <= v.len(),
    ensures
        r == from + first_index_of(v@.skip(from as int), c),
        from <= r <= v.len(),
{
    let mut n: usize = from;
    while n < v.len() && v[n] != c
        invariant
            from <= n <= v.len(),
            forall|i: int| from <= i < n ==> v@[i] != c,
        decreases v.len() - n,
    {
        n += 1;
    }
    proof {
        lemma_first_index_is(v@.skip(from as int), c, n - from);
    }
    n
}

/// The pieces of `s` between the occurrences of `sep`. A sequence without
/// `sep` is one piece; `n` separators give `n + 1` pieces.
pub open spec fn split_on(s: Seq<char>, sep: char) -> Seq<Seq<char>>
    decreases s.len(),
{
    let n = first_index_of(s, sep);
    if 0 <= n < s.len() {
        seq![s.take(n)] + split_on(s.skip(n + 1), sep)
    } else {
        seq![s]
    }
}

/// The views of a list of character vectors.
pub open spec fn chars_views(parts: Seq<Vec<char>>) -> Seq<Seq<char>> {
    parts.map_values(|p: Vec<char>| p@)
}

proof fn lemma_split_tail(s: Seq<char>, sep: char, from: int)
    requires
        0 <= from <= s.len(),
    ensures
        ({
            let n = from + first_index_of(s.skip(from), sep);
            split_on(s.skip(from), sep) == if n < s.len() {
                seq![s.subrange(from, n)] + split_on(s.skip(n + 1), sep)
            } else {
                seq![s.skip(from)]
            }
        }),
{
    let rest = s.skip(from);
    let k = first_index_of(rest, sep);
    lemma_first_index_of(rest, sep);
    if k < rest.len() {
        assert(rest.take(k) =~= s.subrange(from, from + k));
        assert(rest.skip(k + 1) =~= s.skip(from + k + 1));
    }
}

/// Cuts `v` at every `sep`.
pub fn split_chars(v: &Vec<char>, sep: char) -> (parts: Vec<Vec<char>>)
    ensures
        chars_views(parts@) == split_on(v@, sep),
{
    let mut parts: Vec<Vec<char>> = Vec::new();
    let mut from: usize = 0;
    assert(v@.skip(0) =~= v@);
    assert(chars_views(parts@) + split_on(v@, sep) =~= split_on(v@, sep));
    loop
        invariant_except_break
            from <= v.len(),
            chars_views(parts@) + split_on(v@.skip(from as int), sep) == split_on(v@, sep),
        ensures
            chars_views(parts@) == split_on(v@, sep),
        decreases v.len() - from,
    {
        let n = find_char(v, from, sep);
        let piece = slice_chars(v, from, n);
        proof {
            lemma_split_tail(v@, sep, from as int);
        }
        let ghost before = chars_views(parts@);
        parts.push(piece);
        assert(chars_views(parts@) =~= before + seq![piece@]);
        if n >= v.len() {
            assert(v@.subrange(from as int, n as int) =~= v@.skip(from as int));
            break ;
        }
        assert(before + (seq![piece@] + split_on(v@.skip(n + 1), sep)) =~= before + seq![piece@]
            + split_on(v@.skip(n + 1), sep));
        from = n + 1;
    }
    parts
}


/// The characters with the Unicode property `White_Space`: those that
/// `str::trim` removes.
pub open spec fn is_whitespace(c: char) -> bool {
    ||| '\u{9}' <= c <= '\u{d}'
    ||| c == ' '
    ||| c == '\u{85}'
    ||| c == '\u{a0}'
    ||| c == '\u{1680}'
    ||| '\u{2000}' <= c <= '\u{200a}'
    ||| c == '\u{2028}'
    ||| c == '\u{2029}'
    ||| c == '\u{202f}'
    ||| c == '\u{205f}'
    ||| c == '\u{3000}'
}

/// Whether `c` is white space.
pub fn char_is_whitespace(c: char) -> (r: bool)
    ensures
        r == is_whitespace(c),
{
    (c >= '\u{9}' && c <= '\u{d}') || c == ' ' || c == '\u{85}' || c == '\u{a0}' || c
        == '\u{1680}' || (c >= '\u{2000}' && c <= '\u{200a}') || c == '\u{2028}' || c
        == '\u{2029}' || c == '\u{202f}' || c == '\u{205f}' || c == '\u{3000}'
}

/// Number of white-space characters that `s` starts with.
pub open spec fn leading_whitespace(s: Seq<char>) -> int
    decreases s.len(),
{
    if s.len() > 0 && is_whitespace(s[0]) {
        1 + leading_whitespace(s.drop_first())
    } else {
        0
    }
}

/// Number of white-space characters that `s` ends with.
pub open spec fn trailing_whitespace(s: Seq<char>) -> int
    decreases s.len(),
{
    if s.len() > 0 && is_whitespace(s.last()) {
        1 + trailing_whitespace(s.drop_last())
    } else {
        0
    }
}

/// `s` without the white space at either end, as `str::trim` gives it.
pub open spec fn trimmed(s: Seq<char>) -> Seq<char> {
    let start = leading_whitespace(s);
    if start >= s.len() {
        Seq::empty()
    } else {
        s.subrange(start, s.len() - trailing_whitespace(s))
    }
}

proof fn lemma_leading_whitespace(s: Seq<char>, n: int)
    requires
        0 <= n <= s.len(),
        forall|i: int| 0 <= i < n ==> is_whitespace(s[i]),
        n < s.len() ==> !is_whitespace(s[n]),
    ensures
        leading_whitespace(s) == n,
    decreases n,
{
    if n > 0 {
        let rest = s.drop_first();
        assert forall|i: int| 0 <= i < n - 1 implies is_whitespace(rest[i]) by {
            assert(rest[i] == s[i + 1]);
        }
        lemma_leading_whitespace(rest, n - 1);
    }
}

proof fn lemma_trailing_whitespace(s: Seq<char>, n: int)
    requires
        0 <= n <= s.len(),
        forall|i: int| s.len() - n <= i < s.len() ==> is_whitespace(s[i]),
        n < s.len() ==> !is_whitespace(s[s.len() - n - 1]),
    ensures
        trailing_whitespace(s) == n,
    decreases n,
{
    if n > 0 {
        let rest = s.drop_last();
        assert forall|i: int| rest.len() - (n - 1) <= i < rest.len() implies is_whitespace(
            rest[i],
        ) by {
            assert(rest[i] == s[i]);
        }
        lemma_trailing_whitespace(rest, n - 1);
    }
}

/// Removes the white space at both ends of `v`.
pub fn trim_chars(v: &Vec<char>) -> (r: Vec<char>)
    ensures
        r@ == trimmed(v@),
{
    let mut start: usize = 0;
    while start < v.len() && char_is_whitespace(v[start])
        invariant
            start <= v.len(),
            forall|i: int| 0 <= i < start ==> is_whitespace(v@[i]),
        decreases v.len() - start,
    {
        start += 1;
    }
    proof {
        lemma_leading_whitespace(v@, start as int);
    }
    if start == v.len() {
        return Vec::new();
    }
    let mut end: usize = v.len();
    while end > start + 1 && char_is_whitespace(v[end - 1])
        invariant
            start < end <= v.len(),
            !is_whitespace(v@[start as int]),
            forall|i: int| end <= i < v.len() ==> is_whitespace(v@[i]),
        decreases end,
    {
        end -= 1;
    }
    proof {
        lemma_trailing_whitespace(v@, v.len() - end);
    }
    slice_chars(v, start, end)
}

/// The lower-case form of an ASCII capital; any other character unchanged.
pub open spec fn ascii_lower(c: char) -> char {
    if 'A' <= c <= 'Z' {
        ((c as u8) + 32) as char
    } else {
        c
    }
}

/// `s` with every ASCII capital in lower case.
pub open spec fn ascii_lowercase(s: Seq<char>) -> Seq<char> {
    s.map_values(|c: char| ascii_lower(c))
}

/// Lowers one ASCII capital.
pub fn char_ascii_lower(c: char) -> (r: char)
    ensures
        r == ascii_lower(c),
{
    if c >= 'A' && c <= 'Z' {
        ((c as u8) + 32) as char
    } else {
        c
    }
}

/// Puts every ASCII capital of `v` in lower case.
pub fn chars_ascii_lowercase(v: &Vec<char>) -> (r: Vec<char>)
    ensures
        r@ == ascii_lowercase(v@),
{
    let mut r: Vec<char> = Vec::new();
    let mut i: usize = 0;
    while i < v.len()
        invariant
            i <= v.len(),
            r@ == ascii_lowercase(v@.take(i as int)),
        decreases v.len() - i,
    {
        r.push(char_ascii_lower(v[i]));
        assert(ascii_lowercase(v@.take(i + 1)) =~= ascii_lowercase(v@.take(i as int)).push(
            ascii_lower(v@[i as int]),
        ));
        i += 1;
    }
    assert(v@.take(i as int) =~= v@);
    r
}

/// The decimal digit for a value below ten.
pub open spec fn digit_char(d: int) -> char {
    (('0' as u8) + d) as char
}

/// The decimal notation of `n`, without sign or leading zeros.
pub open spec fn decimal(n: nat) -> Seq<char>
    decreases n,
{
    if n < 10 {
        seq![digit_char(n as int)]
    } else {
        decimal(n / 10).push(digit_char((n % 10) as int))
    }
}

/// Appends the decimal notation of `n` to `out`.
pub fn push_decimal(out: &mut Vec<char>, n: u64)
    ensures
        final(out)@ == old(out)@ + decimal(n as nat),
    decreases n,
{
    if n >= 10 {
        push_decimal(out, n / 10);
    }
    let d: u8 = (n % 10) as u8;
    out.push((48u8 + d) as char);
    assert(out@ =~= old(out)@ + decimal(n as nat));
}

} // verus!
