//! Verified text utilities: substring search, header-line extraction,
//! version-token scanning, and decimal formatting. Everything here works on
//! `&str` values and is specified over their `Seq<char>` views.

use vstd::prelude::*;

verus! {

/// `needle` occurs in `hay` starting at index `i`.
pub open spec fn matches_at(hay: Seq<char>, needle: Seq<char>, i: int) -> bool {
    &&& 0 <= i
    &&& i + needle.len() <= hay.len()
    &&& hay.subrange(i, i + needle.len() as int) == needle
}

/// `needle` occurs somewhere in `hay`.
pub open spec fn contains_seq(hay: Seq<char>, needle: Seq<char>) -> bool {
    exists|i: int| matches_at(hay, needle, i)
}

/// `i` is the first index at which `needle` occurs in `hay`.
pub open spec fn is_first_match(hay: Seq<char>, needle: Seq<char>, i: int) -> bool {
    &&& matches_at(hay, needle, i)
    &&& forall|j: int| 0 <= j < i ==> !matches_at(hay, needle, j)
}

/// Does `needle` occur in `hay` at exactly index `i`?
pub fn match_at(hay: &str, needle: &str, i: usize) -> (r: bool)
    ensures
        r == matches_at(hay@, needle@, i as int),
{
    let hlen = hay.unicode_len();
    let nlen = needle.unicode_len();
    if i > hlen || nlen > hlen - i {
        return false;
    }
    let mut j: usize = 0;
    while j < nlen
        invariant
            i + nlen <= hlen,
            j <= nlen,
            hlen == hay@.len(),
            nlen == needle@.len(),
            forall|k: int| 0 <= k < j ==> hay@[i + k] == needle@[k],
        decreases nlen - j,
    {
        if hay.get_char(i + j) != needle.get_char(j) {
            proof {
                assert(hay@.subrange(i as int, i + nlen as int)[j as int] == hay@[i + j]);
            }
            return false;
        }
        j += 1;
    }
    proof {
        assert(hay@.subrange(i as int, i + nlen as int) =~= needle@);
    }
    true
}

/// The index of the first occurrence of `needle` in `hay`, if any.
pub fn find_str(hay: &str, needle: &str) -> (r: Option<usize>)
    ensures
        match r {
            Some(i) => is_first_match(hay@, needle@, i as int),
            None => !contains_seq(hay@, needle@),
        },
{
    let hlen = hay.unicode_len();
    let nlen = needle.unicode_len();
    if nlen > hlen {
        return None;
    }
    if nlen == 0 {
        proof {
            assert(hay@.subrange(0, 0) =~= needle@);
        }
        return Some(0);
    }
    let last = hlen - nlen;
    let mut i: usize = 0;
    while i <= last
        invariant
            hlen == hay@.len(),
            nlen == needle@.len(),
            1 <= nlen <= hlen,
            last == hlen - nlen,
            i <= last + 1,
            forall|j: int| 0 <= j < i ==> !matches_at(hay@, needle@, j),
        decreases last + 1 - i,
    {
        if match_at(hay, needle, i) {
            return Some(i);
        }
        i += 1;
    }
    None
}

/// Does `needle` occur anywhere in `hay`?
pub fn contains_str(hay: &str, needle: &str) -> (r: bool)
    ensures
        r == contains_seq(hay@, needle@),
{
    match find_str(hay, needle) {
        Some(_) => true,
        None => false,
    }
}

/// Does `hay` begin with `needle`?
pub fn starts_with_str(hay: &str, needle: &str) -> (r: bool)
    ensures
        r == matches_at(hay@, needle@, 0),
{
    match_at(hay, needle, 0)
}

/// A carriage return or line feed: the end of a header line.
pub open spec fn is_line_break(c: char) -> bool {
    c == '\r' || c == '\n'
}

/// `e` is where the line that begins at `start` ends: the first line break at
/// or after `start`, or the end of the text.
pub open spec fn is_line_end(s: Seq<char>, start: int, e: int) -> bool {
    &&& start <= e <= s.len()
    &&& forall|k: int| start <= k < e ==> !is_line_break(s[k])
    &&& e < s.len() ==> is_line_break(s[e])
}

fn line_end_from(s: &str, start: usize) -> (e: usize)
    requires
        start <= s@.len(),
    ensures
        is_line_end(s@, start as int, e as int),
{
    let len = s.unicode_len();
    let mut e = start;
    while e < len
        invariant
            start <= e <= len,
            len == s@.len(),
            forall|k: int| start <= k < e ==> !is_line_break(s@[k]),
        decreases len - e,
    {
        let c = s.get_char(e);
        if c == '\r' || c == '\n' {
            return e;
        }
        e += 1;
    }
    e
}

/// What `header_value` returns when it returns something: the text between
/// the first occurrence of `name` and the end of that line.
pub open spec fn is_header_value(resp: Seq<char>, name: Seq<char>, v: Seq<char>) -> bool {
    exists|i: int, e: int|
        {
            &&& #[trigger] is_first_match(resp, name, i)
            &&& #[trigger] is_line_end(resp, i + name.len(), e)
            &&& v == resp.subrange(i + name.len(), e)
        }
}

/// The view of an optional owned string.
pub open spec fn opt_string_view(o: Option<String>) -> Option<Seq<char>> {
    match o {
        Some(s) => Some(s@),
        None => None,
    }
}

/// The value of the header line `name` in `resp` as a function of the two
/// texts: the unique sequence `is_header_value` describes, or `None` when
/// `name` does not occur.
pub open spec fn spec_header_value(resp: Seq<char>, name: Seq<char>) -> Option<Seq<char>> {
    if contains_seq(resp, name) {
        Some(choose|v: Seq<char>| is_header_value(resp, name, v))
    } else {
        None
    }
}

/// Two first-match indices for the same texts are the same index.
proof fn lemma_first_match_unique(hay: Seq<char>, needle: Seq<char>, i1: int, i2: int)
    requires
        is_first_match(hay, needle, i1),
        is_first_match(hay, needle, i2),
    ensures
        i1 == i2,
{
}

/// Two line ends for the same start are the same position.
proof fn lemma_line_end_unique(s: Seq<char>, start: int, e1: int, e2: int)
    requires
        is_line_end(s, start, e1),
        is_line_end(s, start, e2),
    ensures
        e1 == e2,
{
    if e1 < e2 {
        assert(is_line_break(s[e1]));
        assert(!is_line_break(s[e1]));
    }
    if e2 < e1 {
        assert(is_line_break(s[e2]));
        assert(!is_line_break(s[e2]));
    }
}

/// Only one sequence can be the value of a given header line.
pub proof fn lemma_header_value_unique(
    resp: Seq<char>,
    name: Seq<char>,
    v1: Seq<char>,
    v2: Seq<char>,
)
    requires
        is_header_value(resp, name, v1),
        is_header_value(resp, name, v2),
    ensures
        v1 == v2,
{
    let (i1, e1) = choose|i: int, e: int|
        {
            &&& #[trigger] is_first_match(resp, name, i)
            &&& #[trigger] is_line_end(resp, i + name.len(), e)
            &&& v1 == resp.subrange(i + name.len(), e)
        };
    let (i2, e2) = choose|i: int, e: int|
        {
            &&& #[trigger] is_first_match(resp, name, i)
            &&& #[trigger] is_line_end(resp, i + name.len(), e)
            &&& v2 == resp.subrange(i + name.len(), e)
        };
    lemma_first_match_unique(resp, name, i1, i2);
    lemma_line_end_unique(resp, i1 + name.len(), e1, e2);
}

/// The value of a header line: the text after the first occurrence of `name`
/// (for example `"Server: "`) up to the end of that line. `None` exactly when
/// `name` does not occur in `resp`.
pub fn header_value(resp: &str, name: &str) -> (r: Option<String>)
    ensures
        r is Some <==> contains_seq(resp@, name@),
        r matches Some(v) ==> is_header_value(resp@, name@, v@),
        opt_string_view(r) == spec_header_value(resp@, name@),
{
    match find_str(resp, name) {
        Some(i) => {
            let nlen = name.unicode_len();
            let rlen = resp.unicode_len();
            proof {
                assert(matches_at(resp@, name@, i as int));
                assert(i + nlen <= rlen);
            }
            let start = i + nlen;
            let e = line_end_from(resp, start);
            let v = resp.substring_char(start, e).to_owned();
            proof {
                assert(is_header_value(resp@, name@, v@));
                let v0 = choose|w: Seq<char>| is_header_value(resp@, name@, w);
                lemma_header_value_unique(resp@, name@, v0, v@);
            }
            Some(v)
        }
        None => None,
    }
}

/// A decimal digit.
pub open spec fn is_digit_char(c: char) -> bool {
    '0' <= c && c <= '9'
}

/// `s[a..b]` is a version token: runs of digits separated by single dots,
/// beginning and ending with a digit, with at least one dot — the shape of
/// `1.2` or `10.4.7`.
pub open spec fn is_version_at(s: Seq<char>, a: int, b: int) -> bool {
    &&& 0 <= a < b <= s.len()
    &&& is_digit_char(s[a])
    &&& is_digit_char(s[b - 1])
    &&& forall|k: int| a <= k < b ==> is_digit_char(s[k]) || s[k] == '.'
    &&& forall|k: int| a <= k < b - 1 ==> !(#[trigger] s[k] == '.' && s[k + 1] == '.')
    &&& exists|k: int| a < k < b && s[k] == '.'
}

/// The end of the maximal version token starting exactly at `a`, if the text
/// at `a` begins one: first a run of digits, then at least one `.digits`
/// group, extended as far as possible.
fn version_end_at(s: &str, a: usize) -> (r: Option<usize>)
    requires
        a < s@.len(),
        is_digit_char(s@[a as int]),
    ensures
        match r {
            Some(b) => is_version_at(s@, a as int, b as int) && forall|b2: int|
                b < b2 ==> !is_version_at(s@, a as int, b2),
            None => forall|b2: int| !is_version_at(s@, a as int, b2),
        },
{
    let len = s.unicode_len();
    // Consume the leading digit run.
    let mut p = a;
    while p < len && is_digit(s.get_char(p))
        invariant
            a <= p <= len,
            len == s@.len(),
            forall|k: int| a <= k < p ==> is_digit_char(s@[k]),
        decreases len - p,
    {
        p += 1;
    }
    // p is the first index past the digits; a version token needs a dot here.
    proof {
        assert(a < p);
    }
    let mut b = p;
    // Repeatedly extend with `.digits` groups while possible; `b` is always
    // the end of a candidate (digits at b - 1), except before the first
    // extension where no token exists yet.
    let mut extended = false;
    loop
        invariant
            a < b <= len,
            len == s@.len(),
            !extended ==> {
                &&& b <= len
                &&& forall|k: int| a <= k < b ==> is_digit_char(s@[k])
                &&& (b < len ==> !is_digit_char(s@[b as int]))
            },
            extended ==> is_version_at(s@, a as int, b as int) && (b < len
                ==> !is_digit_char(s@[b as int])),
        ensures
            (extended && is_version_at(s@, a as int, b as int) && (b == len || (
            !is_digit_char(s@[b as int]) && (s@[b as int] != '.' || b + 1 == len
                || !is_digit_char(s@[b + 1]))))) || (!extended && (b == len || (
            !is_digit_char(s@[b as int]) && (s@[b as int] != '.' || b + 1 == len
                || !is_digit_char(s@[b + 1])))) && forall|k: int|
                a <= k < b ==> is_digit_char(s@[k])),
        decreases len - b,
    {
        if b < len && s.get_char(b) == '.' && b + 1 < len && is_digit(s.get_char(b + 1)) {
            // Consume the dot and the following digit run.
            let dot = b;
            let mut q = b + 1;
            while q < len && is_digit(s.get_char(q))
                invariant
                    dot + 1 <= q <= len,
                    len == s@.len(),
                    s@[dot as int] == '.',
                    forall|k: int| dot < k < q ==> is_digit_char(s@[k]),
                decreases len - q,
            {
                q += 1;
            }
            proof {
                assert(dot + 1 < q);
            }
            b = q;
            extended = true;
        } else {
            break;
        }
    }
    if extended {
        proof {
            lemma_version_maximal(s@, a as int, b as int);
        }
        Some(b)
    } else {
        proof {
            assert forall|b2: int| !is_version_at(s@, a as int, b2) by {
                if is_version_at(s@, a as int, b2) {
                    let k = choose|k: int| a < k < b2 && s@[k] == '.';
                    if k < b {
                        assert(is_digit_char(s@[k]));
                    } else if k == b {
                        // the dot at b is not followed by a digit, but any
                        // dot inside a token must be (no dot-dot, no end-dot)
                        if k == b2 - 1 {
                            assert(is_digit_char(s@[b2 - 1]));
                        } else {
                            assert(!(s@[k] == '.' && s@[k + 1] == '.'));
                            assert(is_digit_char(s@[k + 1]) || s@[k + 1] == '.');
                        }
                    } else {
                        // b < k: the character at b would have to be a digit
                        // or a dot, and neither holds
                        assert(a <= b < b2 - 1 || b == b2 - 1);
                        if b == b2 - 1 {
                            assert(is_digit_char(s@[b2 - 1]) || s@[b as int] == '.');
                        } else {
                            assert(is_digit_char(s@[b as int]) || s@[b as int] == '.');
                        }
                    }
                }
            }
        }
        None
    }
}

proof fn lemma_version_maximal(s: Seq<char>, a: int, b: int)
    requires
        is_version_at(s, a, b),
        b == s.len() || (!is_digit_char(s[b]) && (s[b] != '.' || b + 1 == s.len()
            || !is_digit_char(s[b + 1]))),
    ensures
        forall|b2: int| b < b2 ==> !is_version_at(s, a, b2),
{
    assert forall|b2: int| b < b2 implies !is_version_at(s, a, b2) by {
        if is_version_at(s, a, b2) {
            // The character at b must be a digit or a dot.
            assert(is_digit_char(s[b]) || s[b] == '.');
            assert(s[b] == '.');
            // A dot inside a token is followed by a digit.
            if b == b2 - 1 {
                assert(is_digit_char(s[b2 - 1]));
            } else {
                assert(!(s[b] == '.' && s[b + 1] == '.'));
                assert(is_digit_char(s[b + 1]) || s[b + 1] == '.');
            }
        }
    }
}

fn is_digit(c: char) -> (r: bool)
    ensures
        r == is_digit_char(c),
{
    c >= '0' && c <= '9'
}

/// `s[a..b]` is the version token every extraction returns: no token starts
/// earlier, and this one cannot be extended.
pub open spec fn is_leftmost_maximal_version(s: Seq<char>, a: int, b: int) -> bool {
    &&& is_version_at(s, a, b)
    &&& forall|a2: int, b2: int| 0 <= a2 < a ==> !is_version_at(s, a2, b2)
    &&& forall|b2: int| b < b2 ==> !is_version_at(s, a, b2)
}

/// The version token in `s` as a function of the text: the unique leftmost
/// maximal token, or `None` when `s` holds no version shape at all.
pub open spec fn spec_version_of(s: Seq<char>) -> Option<Seq<char>> {
    if exists|a: int, b: int| is_leftmost_maximal_version(s, a, b) {
        let (a, b) = choose|a: int, b: int| is_leftmost_maximal_version(s, a, b);
        Some(s.subrange(a, b))
    } else {
        None
    }
}

/// Only one token is leftmost and maximal.
pub proof fn lemma_version_unique(s: Seq<char>, a1: int, b1: int, a2: int, b2: int)
    requires
        is_leftmost_maximal_version(s, a1, b1),
        is_leftmost_maximal_version(s, a2, b2),
    ensures
        a1 == a2,
        b1 == b2,
{
    if a1 < a2 {
        assert(!is_version_at(s, a1, b1));
    }
    if a2 < a1 {
        assert(!is_version_at(s, a2, b2));
    }
    if b1 < b2 {
        assert(!is_version_at(s, a1, b2));
    }
    if b2 < b1 {
        assert(!is_version_at(s, a2, b1));
    }
}

/// The first maximal version token (`digits.digits` with optional further
/// `.digits` groups) in `s`, or `None` when `s` holds none. When a token is
/// returned it starts at the earliest index where any token starts.
pub fn extract_version_str(s: &str) -> (r: Option<String>)
    ensures
        match r {
            Some(v) => exists|a: int, b: int|
                {
                    &&& is_version_at(s@, a, b)
                    &&& v@ == s@.subrange(a, b)
                    &&& forall|a2: int, b2: int| 0 <= a2 < a ==> !is_version_at(s@, a2, b2)
                    &&& forall|b2: int| b < b2 ==> !is_version_at(s@, a, b2)
                },
            None => forall|a: int, b: int| !is_version_at(s@, a, b),
        },
        opt_string_view(r) == spec_version_of(s@),
{
    let len = s.unicode_len();
    let mut a: usize = 0;
    while a < len
        invariant
            a <= len,
            len == s@.len(),
            forall|a2: int, b2: int| 0 <= a2 < a ==> !is_version_at(s@, a2, b2),
        decreases len - a,
    {
        if is_digit(s.get_char(a)) {
            match version_end_at(s, a) {
                Some(b) => {
                    let v = s.substring_char(a, b).to_owned();
                    proof {
                        assert(is_leftmost_maximal_version(s@, a as int, b as int));
                        let (a0, b0) = choose|a0: int, b0: int|
                            is_leftmost_maximal_version(s@, a0, b0);
                        lemma_version_unique(s@, a0, b0, a as int, b as int);
                    }
                    return Some(v);
                }
                None => {}
            }
        } else {
            proof {
                assert forall|b2: int| !is_version_at(s@, a as int, b2) by {}
            }
        }
        a += 1;
    }
    proof {
        if exists|a0: int, b0: int| is_leftmost_maximal_version(s@, a0, b0) {
            let (a0, b0) = choose|a0: int, b0: int| is_leftmost_maximal_version(s@, a0, b0);
            assert(!is_version_at(s@, a0, b0));
        }
    }
    None
}

/// The decimal digits of `n`, most significant first.
pub open spec fn spec_digits(n: nat) -> Seq<char>
    decreases n,
{
    if n < 10 {
        seq![digit_char(n)]
    } else {
        spec_digits(n / 10).push(digit_char(n % 10))
    }
}

/// The character for a single decimal digit.
pub open spec fn digit_char(d: nat) -> char {
    if d == 0 {
        '0'
    } else if d == 1 {
        '1'
    } else if d == 2 {
        '2'
    } else if d == 3 {
        '3'
    } else if d == 4 {
        '4'
    } else if d == 5 {
        '5'
    } else if d == 6 {
        '6'
    } else if d == 7 {
        '7'
    } else if d == 8 {
        '8'
    } else {
        '9'
    }
}

fn digit_str(d: u64) -> (r: &'static str)
    requires
        d < 10,
    ensures
        r@ =~= seq![digit_char(d as nat)],
{
    proof {
        reveal_strlit("0");
        reveal_strlit("1");
        reveal_strlit("2");
        reveal_strlit("3");
        reveal_strlit("4");
        reveal_strlit("5");
        reveal_strlit("6");
        reveal_strlit("7");
        reveal_strlit("8");
        reveal_strlit("9");
    }
    if d == 0 {
        "0"
    } else if d == 1 {
        "1"
    } else if d == 2 {
        "2"
    } else if d == 3 {
        "3"
    } else if d == 4 {
        "4"
    } else if d == 5 {
        "5"
    } else if d == 6 {
        "6"
    } else if d == 7 {
        "7"
    } else if d == 8 {
        "8"
    } else {
        "9"
    }
}

/// `n` written in decimal.
pub fn u64_to_string(n: u64) -> (r: String)
    ensures
        r@ == spec_digits(n as nat),
    decreases n,
{
    if n < 10 {
        digit_str(n).to_owned()
    } else {
        let mut prefix = u64_to_string(n / 10);
        prefix.append(digit_str(n % 10));
        proof {
            assert(spec_digits((n / 10) as nat) + seq![digit_char((n % 10) as nat)] =~= spec_digits(
                (n / 10) as nat,
            ).push(digit_char((n % 10) as nat)));
        }
        prefix
    }
}

/// Does the sequence of strings `fs` hold `f`?
pub open spec fn seq_contains_string(fs: Seq<Seq<char>>, f: Seq<char>) -> bool {
    exists|i: int| 0 <= i < fs.len() && fs[i] == f
}

/// Does the vector hold a string equal to `s`?
pub fn contains_string(v: &Vec<String>, s: &String) -> (r: bool)
    ensures
        r == seq_contains_string(v.deep_view(), s@),
{
    let mut i: usize = 0;
    while i < v.len()
        invariant
            i <= v@.len(),
            forall|j: int| 0 <= j < i ==> v.deep_view()[j] != s@,
        decreases v@.len() - i,
    {
        let eq = v[i] == *s;
        proof {
            assert(v.deep_view()[i as int] == v@[i as int].deep_view());
            assert(v@[i as int].deep_view() == v@[i as int]@);
        }
        if eq {
            assert(v.deep_view()[i as int] == s@);
            return true;
        }
        assert(v.deep_view()[i as int] != s@);
        i += 1;
    }
    false
}

} // verus!
