//! The grammar of reverse-proxy labels on containers: which labels count,
//! how a label value splits into addresses, and which service an address names.
use vstd::prelude::*;

use crate::bindings::opt_text;
use crate::registry::texts;

verus! {

pub const PUBLIC_SERVICE_TLD: &'static str = "public";
pub const PRIVATE_SERVICE_TLD: &'static str = "private";

/// The characters that `char::is_whitespace` accepts (Unicode `White_Space`).
pub open spec fn is_space(c: char) -> bool {
    c == ' ' || ('\t' <= c && c <= '\r') || c == '\u{85}' || c == '\u{A0}' || c == '\u{1680}'
        || ('\u{2000}' <= c && c <= '\u{200A}') || c == '\u{2028}' || c == '\u{2029}'
        || c == '\u{202F}' || c == '\u{205F}' || c == '\u{3000}'
}

/// Whitespace, and commas where `commas` holds.
pub open spec fn is_separator(c: char, commas: bool) -> bool {
    (commas && c == ',') || is_space(c)
}

/// The pieces of `s` that follow the partial piece `cur`: the maximal runs of
/// characters that are no separators.
pub open spec fn split_pieces(s: Seq<char>, cur: Seq<char>, commas: bool) -> Seq<Seq<char>>
    decreases s.len(),
{
    if s.len() == 0 {
        if cur.len() == 0 { Seq::empty() } else { seq![cur] }
    } else if is_separator(s[0], commas) {
        (if cur.len() == 0 { Seq::empty() } else { seq![cur] }) + split_pieces(s.drop_first(), Seq::empty(), commas)
    } else {
        split_pieces(s.drop_first(), cur.push(s[0]), commas)
    }
}

/// The addresses that a label value lists, split on commas and whitespace.
pub open spec fn tokens(s: Seq<char>) -> Seq<Seq<char>> {
    split_pieces(s, Seq::empty(), true)
}

/// The words of `s`, split on whitespace.
pub open spec fn words(s: Seq<char>) -> Seq<Seq<char>> {
    split_pieces(s, Seq::empty(), false)
}

/// A decimal digit of any script: the characters of Unicode's general category
/// `Decimal_Number` (Unicode 16.0), which `\d` stands for in the label grammar.
pub open spec fn is_digit(c: char) -> bool {
    ('\u{30}' <= c && c <= '\u{39}')
        || ('\u{660}' <= c && c <= '\u{669}')
        || ('\u{6F0}' <= c && c <= '\u{6F9}')
        || ('\u{7C0}' <= c && c <= '\u{7C9}')
        || ('\u{966}' <= c && c <= '\u{96F}')
        || ('\u{9E6}' <= c && c <= '\u{9EF}')
        || ('\u{A66}' <= c && c <= '\u{A6F}')
        || ('\u{AE6}' <= c && c <= '\u{AEF}')
        || ('\u{B66}' <= c && c <= '\u{B6F}')
        || ('\u{BE6}' <= c && c <= '\u{BEF}')
        || ('\u{C66}' <= c && c <= '\u{C6F}')
        || ('\u{CE6}' <= c && c <= '\u{CEF}')
        || ('\u{D66}' <= c && c <= '\u{D6F}')
        || ('\u{DE6}' <= c && c <= '\u{DEF}')
        || ('\u{E50}' <= c && c <= '\u{E59}')
        || ('\u{ED0}' <= c && c <= '\u{ED9}')
        || ('\u{F20}' <= c && c <= '\u{F29}')
        || ('\u{1040}' <= c && c <= '\u{1049}')
        || ('\u{1090}' <= c && c <= '\u{1099}')
        || ('\u{17E0}' <= c && c <= '\u{17E9}')
        || ('\u{1810}' <= c && c <= '\u{1819}')
        || ('\u{1946}' <= c && c <= '\u{194F}')
        || ('\u{19D0}' <= c && c <= '\u{19D9}')
        || ('\u{1A80}' <= c && c <= '\u{1A89}')
        || ('\u{1A90}' <= c && c <= '\u{1A99}')
        || ('\u{1B50}' <= c && c <= '\u{1B59}')
        || ('\u{1BB0}' <= c && c <= '\u{1BB9}')
        || ('\u{1C40}' <= c && c <= '\u{1C49}')
        || ('\u{1C50}' <= c && c <= '\u{1C59}')
        || ('\u{A620}' <= c && c <= '\u{A629}')
        || ('\u{A8D0}' <= c && c <= '\u{A8D9}')
        || ('\u{A900}' <= c && c <= '\u{A909}')
        || ('\u{A9D0}' <= c && c <= '\u{A9D9}')
        || ('\u{A9F0}' <= c && c <= '\u{A9F9}')
        || ('\u{AA50}' <= c && c <= '\u{AA59}')
        || ('\u{ABF0}' <= c && c <= '\u{ABF9}')
        || ('\u{FF10}' <= c && c <= '\u{FF19}')
        || ('\u{104A0}' <= c && c <= '\u{104A9}')
        || ('\u{10D30}' <= c && c <= '\u{10D39}')
        || ('\u{10D40}' <= c && c <= '\u{10D49}')
        || ('\u{11066}' <= c && c <= '\u{1106F}')
        || ('\u{110F0}' <= c && c <= '\u{110F9}')
        || ('\u{11136}' <= c && c <= '\u{1113F}')
        || ('\u{111D0}' <= c && c <= '\u{111D9}')
        || ('\u{112F0}' <= c && c <= '\u{112F9}')
        || ('\u{11450}' <= c && c <= '\u{11459}')
        || ('\u{114D0}' <= c && c <= '\u{114D9}')
        || ('\u{11650}' <= c && c <= '\u{11659}')
        || ('\u{116C0}' <= c && c <= '\u{116C9}')
        || ('\u{116D0}' <= c && c <= '\u{116E3}')
        || ('\u{11730}' <= c && c <= '\u{11739}')
        || ('\u{118E0}' <= c && c <= '\u{118E9}')
        || ('\u{11950}' <= c && c <= '\u{11959}')
        || ('\u{11BF0}' <= c && c <= '\u{11BF9}')
        || ('\u{11C50}' <= c && c <= '\u{11C59}')
        || ('\u{11D50}' <= c && c <= '\u{11D59}')
        || ('\u{11DA0}' <= c && c <= '\u{11DA9}')
        || ('\u{11F50}' <= c && c <= '\u{11F59}')
        || ('\u{16130}' <= c && c <= '\u{16139}')
        || ('\u{16A60}' <= c && c <= '\u{16A69}')
        || ('\u{16AC0}' <= c && c <= '\u{16AC9}')
        || ('\u{16B50}' <= c && c <= '\u{16B59}')
        || ('\u{16D70}' <= c && c <= '\u{16D79}')
        || ('\u{1CCF0}' <= c && c <= '\u{1CCF9}')
        || ('\u{1D7CE}' <= c && c <= '\u{1D7FF}')
        || ('\u{1E140}' <= c && c <= '\u{1E149}')
        || ('\u{1E2F0}' <= c && c <= '\u{1E2F9}')
        || ('\u{1E4F0}' <= c && c <= '\u{1E4F9}')
        || ('\u{1E5F1}' <= c && c <= '\u{1E5FA}')
        || ('\u{1E950}' <= c && c <= '\u{1E959}')
        || ('\u{1FBF0}' <= c && c <= '\u{1FBF9}')
}

/// A non-empty run of decimal digits.
pub open spec fn is_number(s: Seq<char>) -> bool {
    s.len() > 0 && forall|i: int| 0 <= i < s.len() ==> is_digit(#[trigger] s[i])
}

/// Whether `s` carries `pat` at position `at`.
pub open spec fn has_at(s: Seq<char>, at: int, pat: Seq<char>) -> bool {
    0 <= at && at + pat.len() <= s.len() && s.subrange(at, at + pat.len()) == pat
}

/// A label key that holds addresses: `caddy`, or `caddy_` and a number.
pub open spec fn is_caddy_key(k: Seq<char>) -> bool {
    k == "caddy"@ || (has_at(k, 0, "caddy_"@) && is_number(k.skip("caddy_"@.len() as int)))
}

/// A label value that defines a snippet: `(`, then anything but a line break, then `)`.
pub open spec fn is_snippet(v: Seq<char>) -> bool {
    v.len() >= 2 && v[0] == '(' && v.last() == ')'
        && forall|i: int| 1 <= i < v.len() - 1 ==> #[trigger] v[i] != '\n'
}

/// How many digits `s` ends with.
pub open spec fn trailing_digits(s: Seq<char>) -> nat
    decreases s.len(),
{
    if s.len() > 0 && is_digit(s.last()) { 1 + trailing_digits(s.drop_last()) } else { 0 }
}

/// `s` without a port suffix `:<number>`, where it has one.
pub open spec fn before_port(s: Seq<char>) -> Seq<char> {
    let n = trailing_digits(s);
    if 0 < n && n < s.len() && s[s.len() - n - 1] == ':' { s.take(s.len() - n - 1) } else { s }
}

/// `s` without an `https://` or `http://` scheme, where something follows it.
pub open spec fn without_scheme(s: Seq<char>) -> Seq<char> {
    if s.len() > "https://"@.len() && has_at(s, 0, "https://"@) {
        s.skip("https://"@.len() as int)
    } else if s.len() > "http://"@.len() && has_at(s, 0, "http://"@) {
        s.skip("http://"@.len() as int)
    } else {
        s
    }
}

/// The service that the address `a` names under the top-level domain `tld`:
/// an optional scheme, a non-empty name, `.`, the domain and an optional port.
pub open spec fn captured_service(a: Seq<char>, tld: Seq<char>) -> Option<Seq<char>> {
    let b = before_port(a);
    let suffix = seq!['.'] + tld;
    if b.len() >= suffix.len() && has_at(b, b.len() - suffix.len(), suffix) {
        let name = without_scheme(b.take(b.len() - suffix.len()));
        if name.len() > 0 { Some(name) } else { None }
    } else {
        None
    }
}

fn is_separator_char(c: char, commas: bool) -> (r: bool)
    ensures
        r == is_separator(c, commas),
{
    (commas && c == ',') || c == ' ' || ('\t' <= c && c <= '\r') || c == '\u{85}' || c == '\u{A0}' || c == '\u{1680}'
        || ('\u{2000}' <= c && c <= '\u{200A}') || c == '\u{2028}' || c == '\u{2029}'
        || c == '\u{202F}' || c == '\u{205F}' || c == '\u{3000}'
}

/// Splits a label value into its addresses: on commas and on whitespace,
/// dropping empty pieces.
pub fn parse_address(address: &str) -> (r: Vec<String>)
    ensures
        texts(r@) == tokens(address@),
{
    split_on(address, true)
}

/// Splits `address` into the maximal runs of characters that are neither
/// whitespace nor, where `commas` holds, commas.
pub(crate) fn split_on(address: &str, commas: bool) -> (r: Vec<String>)
    ensures
        texts(r@) == split_pieces(address@, Seq::empty(), commas),
{
    let n = address.unicode_len();
    let mut list: Vec<String> = Vec::new();
    let mut start: usize = 0;
    let mut i: usize = 0;
    assert(address@.skip(0) =~= address@);
    assert(address@.subrange(0, 0) =~= Seq::<char>::empty());
    assert(texts(list@) + split_pieces(address@, Seq::empty(), commas) =~= split_pieces(address@, Seq::empty(), commas));
    while i < n
        invariant
            n == address@.len(),
            start <= i <= n,
            texts(list@) + split_pieces(address@.skip(i as int), address@.subrange(start as int, i as int), commas)
                == split_pieces(address@, Seq::empty(), commas),
        decreases n - i,
    {
        let c = address.get_char(i);
        let ghost rest = address@.skip(i as int);
        let ghost cur = address@.subrange(start as int, i as int);
        assert(rest[0] == c);
        assert(rest.drop_first() =~= address@.skip(i + 1));
        if is_separator_char(c, commas) {
            let ghost before = list@;
            let ghost tail = split_pieces(address@.skip(i + 1), Seq::empty(), commas);
            if start < i {
                let piece = String::from_str(address.substring_char(start, i));
                list.push(piece);
                assert(texts(list@) =~= texts(before).push(cur));
                assert(texts(before) + (seq![cur] + tail) =~= texts(before).push(cur) + tail);
            } else {
                assert(Seq::<Seq<char>>::empty() + tail =~= tail);
            }
            start = i + 1;
            assert(address@.subrange(start as int, i + 1) =~= Seq::<char>::empty());
        } else {
            assert(cur.push(c) =~= address@.subrange(start as int, i + 1));
        }
        i = i + 1;
    }
    proof {
        assert(address@.skip(n as int) =~= Seq::<char>::empty());
    }
    if start < n {
        let ghost cur = address@.subrange(start as int, n as int);
        let ghost before = list@;
        let piece = String::from_str(address.substring_char(start, n));
        list.push(piece);
        assert(texts(list@) =~= texts(before) + seq![cur]);
    } else {
        assert(texts(list@) + Seq::<Seq<char>>::empty() =~= texts(list@));
    }
    list
}

/// Whether `s` carries `pat` at position `at`.
pub(crate) fn carries_at(s: &str, at: usize, pat: &str) -> (r: bool)
    ensures
        r == has_at(s@, at as int, pat@),
{
    let n = s.unicode_len();
    let m = pat.unicode_len();
    if at > n || m > n - at {
        return false;
    }
    let mut k: usize = 0;
    while k < m
        invariant
            n == s@.len(),
            m == pat@.len(),
            at + m <= n,
            k <= m,
            forall|j: int| 0 <= j < k ==> s@[at + j] == pat@[j],
        decreases m - k,
    {
        if s.get_char(at + k) != pat.get_char(k) {
            assert(s@.subrange(at as int, at + m)[k as int] != pat@[k as int]);
            return false;
        }
        k = k + 1;
    }
    assert(s@.subrange(at as int, at + m) =~= pat@);
    true
}

/// Whether the characters of `s` from `from` on are a number.
fn is_number_from(s: &str, from: usize) -> (r: bool)
    requires
        from <= s@.len(),
    ensures
        r == is_number(s@.skip(from as int)),
{
    let n = s.unicode_len();
    if from == n {
        return false;
    }
    let mut k: usize = from;
    while k < n
        invariant
            n == s@.len(),
            from <= k <= n,
            forall|j: int| from <= j < k ==> is_digit(s@[j]),
        decreases n - k,
    {
        let c = s.get_char(k);
        if !is_digit_char(c) {
            assert(s@.skip(from as int)[k - from] == c);
            return false;
        }
        k = k + 1;
    }
    assert forall|i: int| 0 <= i < s@.skip(from as int).len() implies is_digit(#[trigger] s@.skip(from as int)[i]) by {
        assert(s@.skip(from as int)[i] == s@[from + i]);
    }
    true
}

/// Whether a label with key `key` holds addresses: `caddy`, or `caddy_` and a number.
pub fn is_caddy_label(key: &str) -> (r: bool)
    ensures
        r == is_caddy_key(key@),
{
    let n = key.unicode_len();
    let whole = carries_at(key, 0, "caddy") && n == "caddy".unicode_len();
    if whole {
        assert(key@ =~= key@.subrange(0, n as int));
        return true;
    }
    assert(key@ != "caddy"@) by {
        if key@ == "caddy"@ {
            assert(key@.subrange(0, n as int) =~= key@);
        }
    }
    let prefix = "caddy_";
    let p = prefix.unicode_len();
    if carries_at(key, 0, prefix) {
        is_number_from(key, p)
    } else {
        false
    }
}

/// Whether a label value defines a snippet: `(`, anything but a line break, `)`.
pub fn is_snippet_value(value: &str) -> (r: bool)
    ensures
        r == is_snippet(value@),
{
    let n = value.unicode_len();
    if n < 2 || value.get_char(0) != '(' || value.get_char(n - 1) != ')' {
        return false;
    }
    let mut k: usize = 1;
    while k < n - 1
        invariant
            n == value@.len(),
            n >= 2,
            1 <= k <= n - 1,
            forall|j: int| 1 <= j < k ==> value@[j] != '\n',
        decreases n - 1 - k,
    {
        if value.get_char(k) == '\n' {
            return false;
        }
        k = k + 1;
    }
    true
}

/// The service that an address names under the top-level domain `tld`, as in
/// `billing.public`, `http://billing.public` or `billing.public:8080`.
pub fn capture_service(address: &str, tld: &str) -> (r: Option<String>)
    ensures
        opt_text(r) == captured_service(address@, tld@),
{
    let n = address.unicode_len();
    // the digits at the end
    let mut d: usize = 0;
    assert(address@.take(n as int) =~= address@);
    while d < n && is_digit_char(address.get_char(n - 1 - d))
        invariant
            n == address@.len(),
            d <= n,
            trailing_digits(address@) == d + trailing_digits(address@.take(n - d)),
        decreases n - d,
    {
        proof {
            let t = address@.take(n - d);
            assert(t.drop_last() =~= address@.take(n - d - 1));
        }
        d = d + 1;
    }
    proof {
        let t = address@.take(n - d);
        if d < n {
            assert(!is_digit(t.last()));
        }
        assert(trailing_digits(t) == 0);
    }
    let b: usize = if 0 < d && d < n && address.get_char(n - d - 1) == ':' { n - d - 1 } else { n };
    assert(before_port(address@) =~= address@.take(b as int));
    let tl = tld.unicode_len();
    if b == 0 || tl > b - 1 {
        return None;
    }
    let m = tl + 1;
    let dot_at = b - m;
    if !(address.get_char(dot_at) == '.' && carries_at(address, dot_at + 1, tld)) {
        proof {
            let bp = address@.take(b as int);
            let suffix = seq!['.'] + tld@;
            if has_at(bp, bp.len() - suffix.len(), suffix) {
                assert(bp.subrange(dot_at as int, b as int)[0] == '.');
                assert(address@.subrange(dot_at + 1, b as int) =~= bp.subrange(dot_at as int, b as int).skip(1));
                assert(bp.subrange(dot_at as int, b as int).skip(1) =~= tld@);
            }
        }
        return None;
    }
    proof {
        let bp = address@.take(b as int);
        let suffix = seq!['.'] + tld@;
        assert(bp.subrange(dot_at as int, b as int) =~= suffix);
    }
    // the name, without a scheme
    let mut start: usize = 0;
    if dot_at > "https://".unicode_len() && carries_at(address, 0, "https://") {
        start = "https://".unicode_len();
    } else if dot_at > "http://".unicode_len() && carries_at(address, 0, "http://") {
        start = "http://".unicode_len();
    }
    proof {
        let h = address@.take(dot_at as int);
        assert(address@.take(b as int).take(dot_at as int) =~= h);
        assert((h.len() > "https://"@.len() && has_at(h, 0, "https://"@))
            == (dot_at > "https://"@.len() && has_at(address@, 0, "https://"@))) by {
            if dot_at > "https://"@.len() {
                assert(h.subrange(0, "https://"@.len() as int) =~= address@.subrange(0, "https://"@.len() as int));
            }
        }
        assert((h.len() > "http://"@.len() && has_at(h, 0, "http://"@))
            == (dot_at > "http://"@.len() && has_at(address@, 0, "http://"@))) by {
            if dot_at > "http://"@.len() {
                assert(h.subrange(0, "http://"@.len() as int) =~= address@.subrange(0, "http://"@.len() as int));
            }
        }
        assert(without_scheme(h) =~= address@.subrange(start as int, dot_at as int));
    }
    if start == dot_at {
        return None;
    }
    Some(String::from_str(address.substring_char(start, dot_at)))
}

fn is_digit_char(c: char) -> (r: bool)
    ensures
        r == is_digit(c),
{
    ('\u{30}' <= c && c <= '\u{39}')
        || ('\u{660}' <= c && c <= '\u{669}')
        || ('\u{6F0}' <= c && c <= '\u{6F9}')
        || ('\u{7C0}' <= c && c <= '\u{7C9}')
        || ('\u{966}' <= c && c <= '\u{96F}')
        || ('\u{9E6}' <= c && c <= '\u{9EF}')
        || ('\u{A66}' <= c && c <= '\u{A6F}')
        || ('\u{AE6}' <= c && c <= '\u{AEF}')
        || ('\u{B66}' <= c && c <= '\u{B6F}')
        || ('\u{BE6}' <= c && c <= '\u{BEF}')
        || ('\u{C66}' <= c && c <= '\u{C6F}')
        || ('\u{CE6}' <= c && c <= '\u{CEF}')
        || ('\u{D66}' <= c && c <= '\u{D6F}')
        || ('\u{DE6}' <= c && c <= '\u{DEF}')
        || ('\u{E50}' <= c && c <= '\u{E59}')
        || ('\u{ED0}' <= c && c <= '\u{ED9}')
        || ('\u{F20}' <= c && c <= '\u{F29}')
        || ('\u{1040}' <= c && c <= '\u{1049}')
        || ('\u{1090}' <= c && c <= '\u{1099}')
        || ('\u{17E0}' <= c && c <= '\u{17E9}')
        || ('\u{1810}' <= c && c <= '\u{1819}')
        || ('\u{1946}' <= c && c <= '\u{194F}')
        || ('\u{19D0}' <= c && c <= '\u{19D9}')
        || ('\u{1A80}' <= c && c <= '\u{1A89}')
        || ('\u{1A90}' <= c && c <= '\u{1A99}')
        || ('\u{1B50}' <= c && c <= '\u{1B59}')
        || ('\u{1BB0}' <= c && c <= '\u{1BB9}')
        || ('\u{1C40}' <= c && c <= '\u{1C49}')
        || ('\u{1C50}' <= c && c <= '\u{1C59}')
        || ('\u{A620}' <= c && c <= '\u{A629}')
        || ('\u{A8D0}' <= c && c <= '\u{A8D9}')
        || ('\u{A900}' <= c && c <= '\u{A909}')
        || ('\u{A9D0}' <= c && c <= '\u{A9D9}')
        || ('\u{A9F0}' <= c && c <= '\u{A9F9}')
        || ('\u{AA50}' <= c && c <= '\u{AA59}')
        || ('\u{ABF0}' <= c && c <= '\u{ABF9}')
        || ('\u{FF10}' <= c && c <= '\u{FF19}')
        || ('\u{104A0}' <= c && c <= '\u{104A9}')
        || ('\u{10D30}' <= c && c <= '\u{10D39}')
        || ('\u{10D40}' <= c && c <= '\u{10D49}')
        || ('\u{11066}' <= c && c <= '\u{1106F}')
        || ('\u{110F0}' <= c && c <= '\u{110F9}')
        || ('\u{11136}' <= c && c <= '\u{1113F}')
        || ('\u{111D0}' <= c && c <= '\u{111D9}')
        || ('\u{112F0}' <= c && c <= '\u{112F9}')
        || ('\u{11450}' <= c && c <= '\u{11459}')
        || ('\u{114D0}' <= c && c <= '\u{114D9}')
        || ('\u{11650}' <= c && c <= '\u{11659}')
        || ('\u{116C0}' <= c && c <= '\u{116C9}')
        || ('\u{116D0}' <= c && c <= '\u{116E3}')
        || ('\u{11730}' <= c && c <= '\u{11739}')
        || ('\u{118E0}' <= c && c <= '\u{118E9}')
        || ('\u{11950}' <= c && c <= '\u{11959}')
        || ('\u{11BF0}' <= c && c <= '\u{11BF9}')
        || ('\u{11C50}' <= c && c <= '\u{11C59}')
        || ('\u{11D50}' <= c && c <= '\u{11D59}')
        || ('\u{11DA0}' <= c && c <= '\u{11DA9}')
        || ('\u{11F50}' <= c && c <= '\u{11F59}')
        || ('\u{16130}' <= c && c <= '\u{16139}')
        || ('\u{16A60}' <= c && c <= '\u{16A69}')
        || ('\u{16AC0}' <= c && c <= '\u{16AC9}')
        || ('\u{16B50}' <= c && c <= '\u{16B59}')
        || ('\u{16D70}' <= c && c <= '\u{16D79}')
        || ('\u{1CCF0}' <= c && c <= '\u{1CCF9}')
        || ('\u{1D7CE}' <= c && c <= '\u{1D7FF}')
        || ('\u{1E140}' <= c && c <= '\u{1E149}')
        || ('\u{1E2F0}' <= c && c <= '\u{1E2F9}')
        || ('\u{1E4F0}' <= c && c <= '\u{1E4F9}')
        || ('\u{1E5F1}' <= c && c <= '\u{1E5FA}')
        || ('\u{1E950}' <= c && c <= '\u{1E959}')
        || ('\u{1FBF0}' <= c && c <= '\u{1FBF9}')
}

} // verus!
