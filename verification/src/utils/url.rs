//! A small URL parser for `http` and `https` targets.
//!
//! The parser recognises a scheme, a host (DNS name, IPv4 or IPv6 address),
//! an optional port and a trailing path, and rebuilds the normalised URL.
//! Positions and lengths are counted in characters throughout.

use crate::utils::text::{
    all_dec_digits, dec_str_of, dec_value, find_dot, first_at_or_after, is_dec_digit,
    lemma_first_at_or_after, p_dot, parse_dec_digits, str_eq, u64_to_dec_string,
};
use vstd::prelude::*;

verus! {

/// The scheme of a URL.
#[derive(Debug, Clone, Copy, PartialEq, Eq, Structural)]
pub enum Scheme {
    Http,
    Https,
}

/// The kind of host a URL points at.
#[derive(Debug, Clone, Copy, PartialEq, Eq, Structural)]
pub enum TargetType {
    Dns,
    IPv4,
    IPv6,
}

/// Why a URL was rejected.
#[derive(Debug, Clone, Copy, PartialEq, Eq, Structural)]
pub enum UrlParserErrors {
    UrlEmpty,
    InvalidSize,
    InvalidScheme,
    InvalidTargetType,
    InvalidSchemeSyntax,
    InvalidPort,
}

// ---------------------------------------------------------------------------
// Character classes and finders
// ---------------------------------------------------------------------------

/// Whether `c` is an ASCII letter or digit.
pub open spec fn is_ascii_alnum(c: char) -> bool {
    ||| is_dec_digit(c)
    ||| 'a' as u32 <= c as u32 && c as u32 <= 'z' as u32
    ||| 'A' as u32 <= c as u32 && c as u32 <= 'Z' as u32
}

/// Whether `c` is an ASCII hexadecimal digit.
pub open spec fn is_hex_digit(c: char) -> bool {
    ||| is_dec_digit(c)
    ||| 'a' as u32 <= c as u32 && c as u32 <= 'f' as u32
    ||| 'A' as u32 <= c as u32 && c as u32 <= 'F' as u32
}

/// The predicate picking a colon.
pub open spec fn p_colon() -> spec_fn(char) -> bool {
    |c: char| c == ':'
}

/// The predicate picking a closing bracket.
pub open spec fn p_rbracket() -> spec_fn(char) -> bool {
    |c: char| c == ']'
}

/// The predicate picking the end of a host: a colon or a slash.
pub open spec fn p_host_end() -> spec_fn(char) -> bool {
    |c: char| c == ':' || c == '/'
}

/// The predicate picking a character that is not a decimal digit.
pub open spec fn p_non_digit() -> spec_fn(char) -> bool {
    |c: char| !is_dec_digit(c)
}

/// First colon at or after `from`, or the length.
pub open spec fn find_colon(s: Seq<char>, from: int) -> int {
    first_at_or_after(s, from, p_colon())
}

/// First closing bracket at or after `from`, or the length.
pub open spec fn find_rbracket(s: Seq<char>, from: int) -> int {
    first_at_or_after(s, from, p_rbracket())
}

/// First colon or slash at or after `from`, or the length.
pub open spec fn find_host_end(s: Seq<char>, from: int) -> int {
    first_at_or_after(s, from, p_host_end())
}

/// First non-digit at or after `from`, or the length.
pub open spec fn find_non_digit(s: Seq<char>, from: int) -> int {
    first_at_or_after(s, from, p_non_digit())
}

/// Finds the first character at or after `from` that satisfies the
/// compiled form of `p`; `which` selects the predicate.
pub(crate) fn find_generic(s: &str, from: usize, which: u8) -> (r: usize)
    requires
        from <= s@.len(),
        which < 5,
    ensures
        from <= r <= s@.len(),
        which == 0 ==> r == find_dot(s@, from as int),
        which == 1 ==> r == find_colon(s@, from as int),
        which == 2 ==> r == find_rbracket(s@, from as int),
        which == 3 ==> r == find_host_end(s@, from as int),
        which == 4 ==> r == find_non_digit(s@, from as int),
        forall|j: int|
            from <= j < r ==> !spec_pred_of(which)(#[trigger] s@[j]),
        r < s@.len() ==> spec_pred_of(which)(s@[r as int]),
{
    let n = s.unicode_len();
    let mut i: usize = from;
    while i < n
        invariant
            from <= i <= n,
            n == s@.len(),
            which < 5,
            forall|j: int| from <= j < i ==> !spec_pred_of(which)(#[trigger] s@[j]),
        decreases n - i,
    {
        let c = s.get_char(i);
        let cu = c as u32;
        let hit = match which {
            0 => c == '.',
            1 => c == ':',
            2 => c == ']',
            3 => c == ':' || c == '/',
            _ => !(0x30 <= cu && cu <= 0x39),
        };
        if hit {
            proof {
                lemma_first_at_or_after(s@, from as int, spec_pred_of(which), i as int);
            }
            return i;
        }
        i = i + 1;
    }
    proof {
        lemma_first_at_or_after(s@, from as int, spec_pred_of(which), n as int);
    }
    n
}

/// The predicate that `find_generic` compiles for each selector.
pub open spec fn spec_pred_of(which: u8) -> spec_fn(char) -> bool {
    if which == 0 {
        p_dot()
    } else if which == 1 {
        p_colon()
    } else if which == 2 {
        p_rbracket()
    } else if which == 3 {
        p_host_end()
    } else {
        p_non_digit()
    }
}

// ---------------------------------------------------------------------------
// Host grammars
// ---------------------------------------------------------------------------

/// Whether `p` is one octet of a dotted IPv4 address: decimal digits with
/// no leading zero, at most 255.
pub open spec fn octet_ok(p: Seq<char>) -> bool {
    &&& p.len() >= 1
    &&& all_dec_digits(p)
    &&& dec_value(p) <= 255
    &&& (p.len() > 1 ==> p[0] != '0')
}

/// Whether `t` splits on dots into exactly `count` valid octets.
pub open spec fn ipv4_rest_ok(t: Seq<char>, count: int) -> bool
    decreases t.len(),
    via ipv4_rest_ok_decreases
{
    let j = find_dot(t, 0);
    if j == t.len() {
        count == 1 && octet_ok(t)
    } else {
        count > 1 && octet_ok(t.take(j)) && ipv4_rest_ok(t.skip(j + 1), count - 1)
    }
}

#[via_fn]
proof fn ipv4_rest_ok_decreases(t: Seq<char>, count: int) {
    crate::utils::text::lemma_first_at_or_after_bounds(t, 0, p_dot());
}

/// Whether `s` is a dotted-quad IPv4 address.
pub open spec fn ipv4_ok(s: Seq<char>) -> bool {
    ipv4_rest_ok(s, 4)
}

/// Whether `l` is one label of a DNS name: one to sixty-three characters,
/// letters, digits or hyphens, neither starting nor ending with a hyphen.
pub open spec fn dns_label_ok(l: Seq<char>) -> bool {
    &&& 1 <= l.len() <= 63
    &&& l[0] != '-'
    &&& l.last() != '-'
    &&& forall|i: int| 0 <= i < l.len() ==> is_ascii_alnum(#[trigger] l[i]) || l[i] == '-'
}

/// Whether every dot-separated label of `t` is valid.
pub open spec fn dns_labels_ok(t: Seq<char>) -> bool
    decreases t.len(),
    via dns_labels_ok_decreases
{
    let j = find_dot(t, 0);
    if j == t.len() {
        dns_label_ok(t)
    } else {
        dns_label_ok(t.take(j)) && dns_labels_ok(t.skip(j + 1))
    }
}

#[via_fn]
proof fn dns_labels_ok_decreases(t: Seq<char>) {
    crate::utils::text::lemma_first_at_or_after_bounds(t, 0, p_dot());
}

/// Whether `s` is a valid DNS name: at most 253 characters, every label
/// valid.
pub open spec fn dns_ok(s: Seq<char>) -> bool {
    s.len() <= 253 && dns_labels_ok(s)
}

/// Whether `g` is one hexadecimal group of an IPv6 address.
pub open spec fn hex_group_ok(g: Seq<char>) -> bool {
    1 <= g.len() <= 4 && forall|i: int| 0 <= i < g.len() ==> is_hex_digit(#[trigger] g[i])
}

/// The number of colon-separated groups of `t` when each is a valid
/// hexadecimal group, the last may instead be an embedded IPv4 address
/// (counting as two groups) when `ipv4_last` allows it; `None` when some
/// group is invalid. Counts are capped at nine, beyond which no address
/// can be valid.
pub open spec fn ipv6_groups_of(t: Seq<char>, ipv4_last: bool) -> Option<int>
    decreases t.len(),
    via ipv6_groups_of_decreases
{
    let j = find_colon(t, 0);
    if j == t.len() {
        if hex_group_ok(t) {
            Some(1)
        } else if ipv4_last && ipv4_ok(t) {
            Some(2)
        } else {
            None
        }
    } else {
        if hex_group_ok(t.take(j)) {
            match ipv6_groups_of(t.skip(j + 1), ipv4_last) {
                Some(c) => Some(if c >= 9 { 9int } else { c + 1 }),
                None => None,
            }
        } else {
            None
        }
    }
}

#[via_fn]
proof fn ipv6_groups_of_decreases(t: Seq<char>, ipv4_last: bool) {
    crate::utils::text::lemma_first_at_or_after_bounds(t, 0, p_colon());
}

/// The position of the first double colon in `t` at or after `from`, or
/// `-1` when there is none.
pub open spec fn find_dcolon(t: Seq<char>, from: int) -> int
    decreases t.len() - from when 0 <= from <= t.len()
{
    if from + 1 >= t.len() {
        -1
    } else if t[from] == ':' && t[from + 1] == ':' {
        from
    } else {
        find_dcolon(t, from + 1)
    }
}

/// Whether `t` is a textual IPv6 address: eight hexadecimal groups, or a
/// double colon standing for the elided zero groups with at most seven
/// groups around it; the final group may be an embedded IPv4 address.
pub open spec fn ipv6_ok(t: Seq<char>) -> bool {
    let d = find_dcolon(t, 0);
    if d < 0 {
        ipv6_groups_of(t, true) == Some(8int)
    } else {
        let left = t.take(d);
        let right = t.skip(d + 2);
        let lc: Option<int> = if left.len() == 0 {
            Some(0)
        } else {
            ipv6_groups_of(left, false)
        };
        let rc: Option<int> = if right.len() == 0 {
            Some(0)
        } else {
            ipv6_groups_of(right, true)
        };
        match (lc, rc) {
            (Some(a), Some(b)) => a + b <= 7,
            _ => false,
        }
    }
}

/// `s` with every leading and trailing square bracket removed, as
/// `str::trim_matches` with the two bracket characters removes them.
pub open spec fn strip_brackets_start(s: Seq<char>) -> Seq<char>
    decreases s.len(),
{
    if s.len() > 0 && (s[0] == '[' || s[0] == ']') {
        strip_brackets_start(s.drop_first())
    } else {
        s
    }
}

pub open spec fn strip_brackets_end(s: Seq<char>) -> Seq<char>
    decreases s.len(),
{
    if s.len() > 0 && (s.last() == '[' || s.last() == ']') {
        strip_brackets_end(s.drop_last())
    } else {
        s
    }
}

pub open spec fn strip_brackets(s: Seq<char>) -> Seq<char> {
    strip_brackets_end(strip_brackets_start(s))
}

// ---------------------------------------------------------------------------
// Executable host validators
// ---------------------------------------------------------------------------

/// Checks one octet or label or group within `s` at `[from, to)`.
fn check_octet(s: &str, from: usize, to: usize) -> (r: bool)
    requires
        from <= to <= s@.len(),
    ensures
        r == octet_ok(s@.subrange(from as int, to as int)),
{
    let ghost p = s@.subrange(from as int, to as int);
    if to == from {
        return false;
    }
    if to - from > 1 && s.get_char(from) == '0' {
        return false;
    }
    let mut i: usize = from;
    let mut val: u32 = 0;
    let mut over: bool = false;
    while i < to
        invariant
            from <= i <= to <= s@.len(),
            p == s@.subrange(from as int, to as int),
            all_dec_digits(p.take(i - from)),
            !over ==> val == dec_value(p.take(i - from)) && val <= 255,
            over ==> dec_value(p.take(i - from)) > 255,
        decreases to - i,
    {
        let c = s.get_char(i);
        let cu = c as u32;
        if !(0x30 <= cu && cu <= 0x39) {
            assert(p[i - from] == s@[i as int]);
            return false;
        }
        let d: u32 = cu - 0x30;
        proof {
            assert(p.take(i - from + 1).drop_last() =~= p.take(i - from));
            assert(p.take(i - from + 1).last() == s@[i as int]);
            if over {
                crate::utils::text::lemma_dec_value_nonneg(p.take(i - from));
            }
        }
        if !over {
            let next = val * 10 + d;
            if next > 255 {
                over = true;
            } else {
                val = next;
            }
        }
        i = i + 1;
    }
    proof {
        assert(p.take(to - from) =~= p);
    }
    !over
}

/// Checks a DNS label within `s` at `[from, to)`.
fn check_label(s: &str, from: usize, to: usize) -> (r: bool)
    requires
        from <= to <= s@.len(),
    ensures
        r == dns_label_ok(s@.subrange(from as int, to as int)),
{
    let ghost p = s@.subrange(from as int, to as int);
    if to == from || to - from > 63 {
        return false;
    }
    if s.get_char(from) == '-' {
        assert(p[0] == s@[from as int]);
        return false;
    }
    if s.get_char(to - 1) == '-' {
        assert(p.last() == s@[to - 1]);
        return false;
    }
    let mut i: usize = from;
    while i < to
        invariant
            from <= i <= to <= s@.len(),
            p == s@.subrange(from as int, to as int),
            forall|j: int| 0 <= j < i - from ==> is_ascii_alnum(#[trigger] p[j]) || p[j] == '-',
        decreases to - i,
    {
        let c = s.get_char(i);
        let cu = c as u32;
        let ok = (0x30 <= cu && cu <= 0x39) || (0x61 <= cu && cu <= 0x7A) || (0x41 <= cu && cu
            <= 0x5A) || c == '-';
        if !ok {
            assert(p[i - from] == s@[i as int]);
            return false;
        }
        assert(p[i - from] == s@[i as int]);
        i = i + 1;
    }
    assert(p[0] == s@[from as int]);
    assert(p.last() == s@[to - 1]);
    true
}

/// Checks a hexadecimal IPv6 group within `s` at `[from, to)`.
fn check_hex_group(s: &str, from: usize, to: usize) -> (r: bool)
    requires
        from <= to <= s@.len(),
    ensures
        r == hex_group_ok(s@.subrange(from as int, to as int)),
{
    let ghost p = s@.subrange(from as int, to as int);
    if to == from || to - from > 4 {
        return false;
    }
    let mut i: usize = from;
    while i < to
        invariant
            from <= i <= to <= s@.len(),
            p == s@.subrange(from as int, to as int),
            forall|j: int| 0 <= j < i - from ==> is_hex_digit(#[trigger] p[j]),
        decreases to - i,
    {
        let c = s.get_char(i);
        let cu = c as u32;
        let ok = (0x30 <= cu && cu <= 0x39) || (0x61 <= cu && cu <= 0x66) || (0x41 <= cu && cu
            <= 0x46);
        if !ok {
            assert(p[i - from] == s@[i as int]);
            return false;
        }
        assert(p[i - from] == s@[i as int]);
        i = i + 1;
    }
    true
}

/// Checks that `s` from `from` on splits into exactly `count` octets.
fn ipv4_rest(s: &str, from: usize, count: usize) -> (r: bool)
    requires
        from <= s@.len(),
    ensures
        r == ipv4_rest_ok(s@.skip(from as int), count as int),
    decreases s@.len() - from,
{
    let ghost t = s@.skip(from as int);
    let n = s.unicode_len();
    let j = find_generic(s, from, 0);
    proof {
        assert forall|k: int| 0 <= k < j - from implies !p_dot()(#[trigger] t[k]) by {
            assert(t[k] == s@[from + k]);
        }
        if (j as int) < n {
            assert(t[j - from] == s@[j as int]);
        }
        lemma_first_at_or_after(t, 0, p_dot(), j - from);
        assert(find_dot(t, 0) == j - from);
    }
    if j == n {
        proof {
            assert(s@.subrange(from as int, n as int) =~= t);
        }
        count == 1 && check_octet(s, from, n)
    } else {
        proof {
            assert(s@.subrange(from as int, j as int) =~= t.take(j - from));
            assert(s@.skip(j + 1) =~= t.skip(j - from + 1));
        }
        if count <= 1 {
            return false;
        }
        let head = check_octet(s, from, j);
        if !head {
            return false;
        }
        ipv4_rest(s, j + 1, count - 1)
    }
}

/// Checks every dot-separated label of `s` from `from` on.
fn dns_labels(s: &str, from: usize) -> (r: bool)
    requires
        from <= s@.len(),
    ensures
        r == dns_labels_ok(s@.skip(from as int)),
    decreases s@.len() - from,
{
    let ghost t = s@.skip(from as int);
    let n = s.unicode_len();
    let j = find_generic(s, from, 0);
    proof {
        assert forall|k: int| 0 <= k < j - from implies !p_dot()(#[trigger] t[k]) by {
            assert(t[k] == s@[from + k]);
        }
        if (j as int) < n {
            assert(t[j - from] == s@[j as int]);
        }
        lemma_first_at_or_after(t, 0, p_dot(), j - from);
        assert(find_dot(t, 0) == j - from);
    }
    if j == n {
        proof {
            assert(s@.subrange(from as int, n as int) =~= t);
        }
        check_label(s, from, n)
    } else {
        proof {
            assert(s@.subrange(from as int, j as int) =~= t.take(j - from));
            assert(s@.skip(j + 1) =~= t.skip(j - from + 1));
        }
        if !check_label(s, from, j) {
            return false;
        }
        dns_labels(s, j + 1)
    }
}

proof fn lemma_ipv6_groups_bound(t: Seq<char>, ipv4_last: bool)
    ensures
        ipv6_groups_of(t, ipv4_last) matches Some(c) ==> 0 <= c <= 9,
    decreases t.len(),
{
    let j = find_colon(t, 0);
    crate::utils::text::lemma_first_at_or_after_bounds(t, 0, p_colon());
    if j != t.len() {
        lemma_ipv6_groups_bound(t.skip(j + 1), ipv4_last);
    }
}

/// Counts the colon-separated groups of `s` from `from` on.
fn ipv6_groups(s: &str, from: usize, ipv4_last: bool) -> (r: Option<usize>)
    requires
        from <= s@.len(),
    ensures
        match r {
            Some(c) => ipv6_groups_of(s@.skip(from as int), ipv4_last) == Some(c as int),
            None => ipv6_groups_of(s@.skip(from as int), ipv4_last) is None,
        },
    decreases s@.len() - from,
{
    let ghost t = s@.skip(from as int);
    let n = s.unicode_len();
    let j = find_generic(s, from, 1);
    proof {
        assert forall|k: int| 0 <= k < j - from implies !p_colon()(#[trigger] t[k]) by {
            assert(t[k] == s@[from + k]);
        }
        if (j as int) < n {
            assert(t[j - from] == s@[j as int]);
        }
        lemma_first_at_or_after(t, 0, p_colon(), j - from);
        assert(find_colon(t, 0) == j - from);
    }
    if j == n {
        proof {
            assert(s@.subrange(from as int, n as int) =~= t);
        }
        if check_hex_group(s, from, n) {
            Some(1)
        } else if ipv4_last && ipv4_rest(s, from, 4) {
            Some(2)
        } else {
            None
        }
    } else {
        proof {
            assert(s@.subrange(from as int, j as int) =~= t.take(j - from));
            assert(s@.skip(j + 1) =~= t.skip(j - from + 1));
        }
        if !check_hex_group(s, from, j) {
            return None;
        }
        match ipv6_groups(s, j + 1, ipv4_last) {
            Some(c) => {
                proof {
                    lemma_ipv6_groups_bound(t.skip(j - from + 1), ipv4_last);
                }
                if c >= 9 {
                    Some(9)
                } else {
                    Some(c + 1)
                }
            },
            None => None,
        }
    }
}

/// Finds the first double colon of `s`, or returns `None`.
fn find_dcolon_at(s: &str) -> (r: Option<usize>)
    ensures
        match r {
            Some(d) => find_dcolon(s@, 0) == d as int && d + 1 < s@.len(),
            None => find_dcolon(s@, 0) == -1,
        },
{
    let n = s.unicode_len();
    if n < 2 {
        proof {
            lemma_find_dcolon_none(s@, 0, n as int);
        }
        return None;
    }
    let mut i: usize = 0;
    while i + 1 < n
        invariant
            i + 1 <= n,
            n == s@.len(),
            n >= 2,
            forall|k: int| 0 <= k < i ==> !((#[trigger] s@[k]) == ':' && s@[k + 1] == ':'),
        decreases n - i,
    {
        if s.get_char(i) == ':' && s.get_char(i + 1) == ':' {
            proof {
                lemma_find_dcolon_found(s@, 0, i as int);
            }
            return Some(i);
        }
        i = i + 1;
    }
    proof {
        lemma_find_dcolon_none(s@, 0, i as int);
    }
    None
}

proof fn lemma_find_dcolon_found(t: Seq<char>, from: int, i: int)
    requires
        0 <= from <= i,
        i + 1 < t.len(),
        forall|k: int|
            from <= k < i && k + 1 < t.len() ==> !((#[trigger] t[k]) == ':' && t[k + 1] == ':'),
        t[i] == ':' && t[i + 1] == ':',
    ensures
        find_dcolon(t, from) == i,
    decreases i - from,
{
    if from < i {
        lemma_find_dcolon_found(t, from + 1, i);
    }
}

proof fn lemma_find_dcolon_none(t: Seq<char>, from: int, i: int)
    requires
        0 <= from <= i,
        i + 1 >= t.len(),
        from <= t.len(),
        forall|k: int|
            from <= k < i && k + 1 < t.len() ==> !((#[trigger] t[k]) == ':' && t[k + 1] == ':'),
    ensures
        find_dcolon(t, from) == -1,
    decreases t.len() - from,
{
    if from + 1 < t.len() {
        assert(from < i);
        lemma_find_dcolon_none(t, from + 1, i);
    }
}

/// Checks whether `s` is a textual IPv6 address.
pub(crate) fn ipv6_check(s: &str) -> (r: bool)
    ensures
        r == ipv6_ok(s@),
{
    match find_dcolon_at(s) {
        None => {
            assert(s@.skip(0) =~= s@);
            match ipv6_groups(s, 0, true) {
                Some(c) => c == 8,
                None => false,
            }
        },
        Some(d) => {
            let n = s.unicode_len();
            assert(s@.take(d as int) =~= s@.subrange(0, d as int));
            let lc: Option<usize> = if d == 0 {
                Some(0)
            } else {
                // The groups before the double colon lie in `[0, d)`; check
                // them on the prefix slice so the recursion sees whole text.
                let left = s.substring_char(0, d);
                assert(left@ =~= s@.take(d as int));
                assert(left@.skip(0) =~= left@);
                ipv6_groups(left, 0, false)
            };
            let rc: Option<usize> = if d + 2 >= n {
                proof {
                    if d + 2 == n {
                        assert(s@.skip(d + 2) =~= Seq::<char>::empty());
                    }
                }
                Some(0)
            } else {
                ipv6_groups(s, d + 2, true)
            };
            proof {
                if d + 2 > n {
                    assert(false);
                }
            }
            match (lc, rc) {
                (Some(a), Some(b)) => {
                    proof {
                        if d > 0 {
                            lemma_ipv6_groups_bound(s@.take(d as int), false);
                        }
                        if d + 2 < n {
                            lemma_ipv6_groups_bound(s@.skip(d + 2), true);
                        }
                    }
                    a + b <= 7
                },
                _ => false,
            }
        },
    }
}

impl TargetType {
    /// Decides whether `target` is a valid DNS name: at most 253
    /// characters, each dot-separated label non-empty, at most 63
    /// characters, made of ASCII letters, digits and hyphens, and neither
    /// starting nor ending with a hyphen.
    pub fn is_dns(target: &str) -> (r: Result<TargetType, UrlParserErrors>)
        ensures
            r == if dns_ok(target@) {
                Result::<TargetType, UrlParserErrors>::Ok(TargetType::Dns)
            } else {
                Result::<TargetType, UrlParserErrors>::Err(UrlParserErrors::InvalidTargetType)
            },
    {
        let n = target.unicode_len();
        if n > 253 {
            return Err(UrlParserErrors::InvalidTargetType);
        }
        assert(target@.skip(0) =~= target@);
        if dns_labels(target, 0) {
            Ok(TargetType::Dns)
        } else {
            Err(UrlParserErrors::InvalidTargetType)
        }
    }

    /// Decides whether `target` is a dotted-quad IPv4 address.
    pub fn is_ipv4(target: &str) -> (r: Result<TargetType, UrlParserErrors>)
        ensures
            r == if ipv4_ok(target@) {
                Result::<TargetType, UrlParserErrors>::Ok(TargetType::IPv4)
            } else {
                Result::<TargetType, UrlParserErrors>::Err(UrlParserErrors::InvalidTargetType)
            },
    {
        assert(target@.skip(0) =~= target@);
        if ipv4_rest(target, 0, 4) {
            Ok(TargetType::IPv4)
        } else {
            Err(UrlParserErrors::InvalidTargetType)
        }
    }

    /// Decides whether `target`, with any surrounding square brackets
    /// removed, is a textual IPv6 address.
    pub fn is_ipv6(target: &str) -> (r: Result<TargetType, UrlParserErrors>)
        ensures
            r == if ipv6_ok(strip_brackets(target@)) {
                Result::<TargetType, UrlParserErrors>::Ok(TargetType::IPv6)
            } else {
                Result::<TargetType, UrlParserErrors>::Err(UrlParserErrors::InvalidTargetType)
            },
    {
        let clean = strip_brackets_str(target);
        if ipv6_check(clean.as_str()) {
            Ok(TargetType::IPv6)
        } else {
            Err(UrlParserErrors::InvalidTargetType)
        }
    }

    /// Writes the lower-case name of the host kind.
    pub fn display_name(&self) -> (r: String)
        ensures
            r@ == target_type_name_of(*self),
    {
        match self {
            TargetType::Dns => String::from_str("dns"),
            TargetType::IPv4 => String::from_str("ipv4"),
            TargetType::IPv6 => String::from_str("ipv6"),
        }
    }
}

/// The display name of a host kind.
pub open spec fn target_type_name_of(t: TargetType) -> Seq<char> {
    match t {
        TargetType::Dns => "dns"@,
        TargetType::IPv4 => "ipv4"@,
        TargetType::IPv6 => "ipv6"@,
    }
}

/// Whether `c` is a square bracket.
fn is_bracket_char(c: char) -> (r: bool)
    ensures
        r == (c == '[' || c == ']'),
{
    c == '[' || c == ']'
}

/// Copies `s` without leading and trailing square brackets.
fn strip_brackets_str(s: &str) -> (r: String)
    ensures
        r@ == strip_brackets(s@),
{
    let n = s.unicode_len();
    let mut start: usize = 0;
    while start < n && is_bracket_char(s.get_char(start))
        invariant
            start <= n,
            n == s@.len(),
            forall|j: int| 0 <= j < start ==> s@[j] == '[' || s@[j] == ']',
        decreases n - start,
    {
        start = start + 1;
    }
    proof {
        lemma_strip_start_skip(s@, start as int);
    }
    let ghost t = s@.skip(start as int);
    let mut end: usize = n;
    while end > start && is_bracket_char(s.get_char(end - 1))
        invariant
            start <= end <= n,
            n == s@.len(),
            t == s@.skip(start as int),
            forall|j: int| end - start <= j < t.len() ==> t[j] == '[' || t[j] == ']',
        decreases end,
    {
        assert(t[end - 1 - start] == s@[end - 1]);
        end = end - 1;
    }
    proof {
        if end > start {
            assert(t[end - 1 - start] == s@[end - 1]);
        }
        lemma_strip_end_take(t, end - start);
        assert(t.take(end - start) =~= s@.subrange(start as int, end as int));
    }
    let piece = s.substring_char(start, end);
    String::from_str(piece)
}

proof fn lemma_strip_start_skip(s: Seq<char>, i: int)
    requires
        0 <= i <= s.len(),
        forall|j: int| 0 <= j < i ==> s[j] == '[' || s[j] == ']',
        i < s.len() ==> !(s[i] == '[' || s[i] == ']'),
    ensures
        strip_brackets_start(s) == s.skip(i),
    decreases i,
{
    if i == 0 {
        assert(s.skip(0) =~= s);
    } else {
        lemma_strip_start_skip(s.drop_first(), i - 1);
        assert(s.drop_first().skip(i - 1) =~= s.skip(i));
    }
}

proof fn lemma_strip_end_take(s: Seq<char>, i: int)
    requires
        0 <= i <= s.len(),
        forall|j: int| i <= j < s.len() ==> s[j] == '[' || s[j] == ']',
        i > 0 ==> !(s[i - 1] == '[' || s[i - 1] == ']'),
    ensures
        strip_brackets_end(s) == s.take(i),
    decreases s.len() - i,
{
    if i == s.len() {
        assert(s.take(i) =~= s);
    } else {
        lemma_strip_end_take(s.drop_last(), i);
        assert(s.drop_last().take(i) =~= s.take(i));
    }
}

// ---------------------------------------------------------------------------
// The parser
// ---------------------------------------------------------------------------

/// The abstract value of a parsed URL.
pub struct UrlView {
    pub scheme: Scheme,
    pub target: Seq<char>,
    pub target_type: TargetType,
    pub port: int,
    pub subdirectory: Seq<char>,
    pub full_url: Seq<char>,
}

/// The scheme written alone.
pub open spec fn scheme_name_of(sc: Scheme) -> Seq<char> {
    match sc {
        Scheme::Http => "http"@,
        Scheme::Https => "https"@,
    }
}

/// The scheme with its separator, as it opens a URL.
pub open spec fn scheme_prefix_of(sc: Scheme) -> Seq<char> {
    match sc {
        Scheme::Http => "http://"@,
        Scheme::Https => "https://"@,
    }
}

/// The number of characters the scheme prefix occupies.
pub open spec fn scheme_prefix_len(sc: Scheme) -> int {
    match sc {
        Scheme::Http => 7,
        Scheme::Https => 8,
    }
}

/// `s` from position `n` on; empty when `n` runs past the end.
pub open spec fn safe_skip(s: Seq<char>, n: int) -> Seq<char> {
    if n >= s.len() {
        Seq::empty()
    } else if n < 0 {
        s
    } else {
        s.skip(n)
    }
}

/// The host text of `s` after the scheme prefix of `skip` characters: a
/// bracketed form runs to the first closing bracket (one is appended when
/// missing), any other form runs to the first colon or slash.
pub open spec fn url_target_of(s: Seq<char>, skip: int) -> Seq<char>
    recommends
        0 <= skip <= s.len(),
{
    if skip < s.len() && s[skip] == '[' {
        let j = find_rbracket(s, skip);
        if j < s.len() {
            s.subrange(skip, j + 1)
        } else {
            s.skip(skip).push(']')
        }
    } else {
        s.subrange(skip, find_host_end(s, skip))
    }
}

/// The digit run that follows the colon at `q`.
pub open spec fn url_port_text(s: Seq<char>, q: int) -> Seq<char>
    recommends
        0 <= q < s.len(),
{
    s.subrange(q + 1, find_non_digit(s, q + 1))
}

/// The kind of the host, trying IPv4, then IPv6, then DNS.
pub open spec fn target_type_result(target: Seq<char>) -> Option<TargetType> {
    if ipv4_ok(target) {
        Some(TargetType::IPv4)
    } else if ipv6_ok(strip_brackets(target)) {
        Some(TargetType::IPv6)
    } else if dns_ok(target) {
        Some(TargetType::Dns)
    } else {
        None
    }
}

/// The parsed value assembled from its pieces. The port text of the
/// normalised URL is the port written back in decimal, so leading zeros
/// typed in the input do not survive; a port of zero is left out.
pub open spec fn url_view_of(
    s: Seq<char>,
    scheme: Scheme,
    target: Seq<char>,
    tt: TargetType,
    port: int,
    q: int,
) -> UrlView {
    let ptxt: Seq<char> = if port == 0 {
        Seq::empty()
    } else {
        seq![':'] + dec_str_of(port)
    };
    let subdir = safe_skip(s, q + ptxt.len());
    UrlView {
        scheme,
        target,
        target_type: tt,
        port,
        subdirectory: subdir,
        full_url: scheme_prefix_of(scheme) + target + ptxt + subdir,
    }
}

/// The URL parse after the scheme has been recognised.
pub open spec fn parse_after_scheme(s: Seq<char>, scheme: Scheme) -> Result<
    UrlView,
    UrlParserErrors,
> {
    let skip = scheme_prefix_len(scheme);
    let target = url_target_of(s, skip);
    match target_type_result(target) {
        None => Err(UrlParserErrors::InvalidTargetType),
        Some(tt) => {
            let q = skip + target.len();
            if q >= s.len() {
                Ok(url_view_of(s, scheme, target, tt, 0, q))
            } else if s[q] == ':' {
                let ptxt = url_port_text(s, q);
                if ptxt.len() == 0 || dec_value(ptxt) > 65535 {
                    Err(UrlParserErrors::InvalidPort)
                } else {
                    Ok(url_view_of(s, scheme, target, tt, dec_value(ptxt), q))
                }
            } else {
                Ok(url_view_of(s, scheme, target, tt, 0, q))
            }
        },
    }
}

/// The whole URL parse: scheme, host, optional port, path.
pub open spec fn parse_url_spec(s: Seq<char>) -> Result<UrlView, UrlParserErrors> {
    if s.len() == 0 {
        Err(UrlParserErrors::UrlEmpty)
    } else if s.len() < 7 {
        Err(UrlParserErrors::InvalidSize)
    } else if s.take(7) == "http://"@ {
        parse_after_scheme(s, Scheme::Http)
    } else if s.len() < 8 {
        Err(UrlParserErrors::InvalidSize)
    } else if s.take(8) == "https://"@ {
        parse_after_scheme(s, Scheme::Https)
    } else {
        Err(UrlParserErrors::InvalidSchemeSyntax)
    }
}

/// A parsed URL: scheme, host, host kind, port (zero when none was
/// given), path, and the rebuilt URL text.
pub struct UrlParser {
    pub scheme: Scheme,
    pub target: String,
    pub target_type: TargetType,
    pub port: u16,
    pub subdirectory: String,
    pub full_url: String,
}

impl View for UrlParser {
    type V = UrlView;

    open spec fn view(&self) -> UrlView {
        UrlView {
            scheme: self.scheme,
            target: self.target@,
            target_type: self.target_type,
            port: self.port as int,
            subdirectory: self.subdirectory@,
            full_url: self.full_url@,
        }
    }
}

impl UrlParser {
    /// Parses `input_url`, returning the parsed value or the first error
    /// found, exactly as [`parse_url_spec`] describes.
    #[verifier::rlimit(100)]
    pub fn new(input_url: &str) -> (r: Result<UrlParser, UrlParserErrors>)
        ensures
            r is Ok <==> parse_url_spec(input_url@) is Ok,
            r matches Ok(u) ==> u@ == parse_url_spec(input_url@)->Ok_0,
            r matches Err(e) ==> e == parse_url_spec(input_url@)->Err_0,
    {
        let url = input_url;
        let n = url.unicode_len();
        if n == 0 {
            return Err(UrlParserErrors::UrlEmpty);
        }
        if n < 7 {
            return Err(UrlParserErrors::InvalidSize);
        }
        let scheme: Scheme;
        let skip: usize;
        let head7 = url.substring_char(0, 7);
        assert(head7@ =~= url@.take(7));
        if str_eq(head7, "http://") {
            scheme = Scheme::Http;
            skip = 7;
        } else if n < 8 {
            return Err(UrlParserErrors::InvalidSize);
        } else {
            let head8 = url.substring_char(0, 8);
            assert(head8@ =~= url@.take(8));
            if str_eq(head8, "https://") {
                scheme = Scheme::Https;
                skip = 8;
            } else {
                return Err(UrlParserErrors::InvalidSchemeSyntax);
            }
        }
        // Host text.
        let target: String;
        if skip < n && url.get_char(skip) == '[' {
            let j = find_generic(url, skip, 2);
            if j < n {
                target = String::from_str(url.substring_char(skip, j + 1));
                assert(target@ =~= url_target_of(url@, skip as int));
            } else {
                let mut t = String::from_str(url.substring_char(skip, n));
                crate::utils::text::push_char(&mut t, ']');
                proof {
                    assert(url@.subrange(skip as int, n as int) =~= url@.skip(skip as int));
                }
                assert(t@ =~= url_target_of(url@, skip as int));
                target = t;
            }
        } else {
            let j = find_generic(url, skip, 3);
            target = String::from_str(url.substring_char(skip, j));
            assert(target@ =~= url_target_of(url@, skip as int));
        }
        // Host kind.
        let target_type: TargetType = match TargetType::is_ipv4(target.as_str()) {
            Ok(t) => t,
            Err(_) => match TargetType::is_ipv6(target.as_str()) {
                Ok(t) => t,
                Err(_) => match TargetType::is_dns(target.as_str()) {
                    Ok(t) => t,
                    Err(e) => {
                        return Err(e);
                    },
                },
            },
        };
        // Port.
        let tlen = target.unicode_len();
        let ghost q_spec = skip + target@.len();
        let port: u16;
        let port_given: bool;
        if tlen >= n - skip {
            port = 0;
            port_given = false;
        } else {
            let q = skip + tlen;
            if url.get_char(q) == ':' {
                let e = find_generic(url, q + 1, 4);
                let ptxt = url.substring_char(q + 1, e);
                assert(ptxt@ =~= url_port_text(url@, q as int));
                match crate::utils::text::parse_dec_digits(ptxt, 0, 65535) {
                    Some(v) => {
                        proof {
                            assert(ptxt@.skip(0) =~= ptxt@);
                        }
                        port = v as u16;
                        port_given = true;
                    },
                    None => {
                        proof {
                            assert(ptxt@.skip(0) =~= ptxt@);
                        }
                        return Err(UrlParserErrors::InvalidPort);
                    },
                }
            } else {
                port = 0;
                port_given = false;
            }
        }
        // Path, and the URL rebuilt.
        let cut: usize;
        if port == 0 {
            if tlen >= n - skip {
                cut = n;
            } else {
                cut = skip + tlen;
            }
        } else {
            let q = skip + tlen;
            let e = find_generic(url, q + 1, 4);
            proof {
                let ptxt = url_port_text(url@, q as int);
                crate::utils::text::lemma_dec_value_upper(ptxt);
                crate::utils::text::lemma_dec_bytes_len(dec_value(ptxt), ptxt.len());
            }
            let pstr = crate::utils::text::u64_to_dec_string(port as u64);
            cut = q + 1 + pstr.unicode_len();
            assert(cut <= e);
        }
        let subdirectory = String::from_str(url.substring_char(cut, n));
        let mut full_url = match scheme {
            Scheme::Http => String::from_str("http://"),
            Scheme::Https => String::from_str("https://"),
        };
        full_url.append(target.as_str());
        if port != 0 {
            full_url.append(":");
            let pstr = crate::utils::text::u64_to_dec_string(port as u64);
            full_url.append(pstr.as_str());
            proof {
                reveal_strlit(":");
                assert(":"@ =~= seq![':']);
            }
        }
        full_url.append(subdirectory.as_str());
        let result = UrlParser { scheme, target, target_type, port, subdirectory, full_url };
        proof {
            let s = input_url@;
            let v = parse_after_scheme(s, scheme)->Ok_0;
            assert(result@.subdirectory =~= v.subdirectory);
            assert(result@.full_url =~= v.full_url);
        }
        Ok(result)
    }

    /// Writes the parsed URL as a list of its fields, one per line.
    pub fn describe(&self) -> (r: String)
        ensures
            r@ == describe_of(self@),
    {
        let mut s = String::from_str("Scheme: ");
        let t = self.scheme.display_name();
        s.append(t.as_str());
        s.append("\nTarget: ");
        s.append(self.target.as_str());
        s.append("\nTarget type: ");
        let t2 = self.target_type.display_name();
        s.append(t2.as_str());
        s.append("\nPort: ");
        let t3 = crate::utils::text::u64_to_dec_string(self.port as u64);
        s.append(t3.as_str());
        s.append("\nSub directory: ");
        s.append(self.subdirectory.as_str());
        s.append("\nFull url: ");
        s.append(self.full_url.as_str());
        s
    }
}

/// The lines that [`UrlParser::describe`] writes.
pub open spec fn describe_of(v: UrlView) -> Seq<char> {
    "Scheme: "@ + scheme_name_of(v.scheme) + "\nTarget: "@ + v.target + "\nTarget type: "@
        + target_type_name_of(v.target_type) + "\nPort: "@ + dec_str_of(v.port) + "\nSub directory: "@
        + v.subdirectory + "\nFull url: "@ + v.full_url
}

impl Scheme {
    /// Writes the scheme's name.
    pub fn display_name(&self) -> (r: String)
        ensures
            r@ == scheme_name_of(*self),
    {
        match self {
            Scheme::Http => String::from_str("http"),
            Scheme::Https => String::from_str("https"),
        }
    }
}

impl UrlParserErrors {
    /// Writes the human-readable description of the error.
    pub fn message(&self) -> (r: String)
        ensures
            r@ == url_error_message_of(*self),
    {
        match self {
            UrlParserErrors::UrlEmpty => String::from_str("The url is empty"),
            UrlParserErrors::InvalidSize => String::from_str("Invalid size!"),
            UrlParserErrors::InvalidScheme => String::from_str("Invalid scheme => http or https"),
            UrlParserErrors::InvalidTargetType => String::from_str(
                "Invalid target type => Must be a DNS or IPV4 OR IPV6",
            ),
            UrlParserErrors::InvalidSchemeSyntax => String::from_str(
                "Invalid scheme sintax => http:// or https://",
            ),
            UrlParserErrors::InvalidPort => String::from_str("Invalid port => (1 -> 65,535)"),
        }
    }
}

/// The description of each URL error.
pub open spec fn url_error_message_of(e: UrlParserErrors) -> Seq<char> {
    match e {
        UrlParserErrors::UrlEmpty => "The url is empty"@,
        UrlParserErrors::InvalidSize => "Invalid size!"@,
        UrlParserErrors::InvalidScheme => "Invalid scheme => http or https"@,
        UrlParserErrors::InvalidTargetType => "Invalid target type => Must be a DNS or IPV4 OR IPV6"@,
        UrlParserErrors::InvalidSchemeSyntax => "Invalid scheme sintax => http:// or https://"@,
        UrlParserErrors::InvalidPort => "Invalid port => (1 -> 65,535)"@,
    }
}

impl core::str::FromStr for UrlParser {
    type Err = UrlParserErrors;

    fn from_str(s: &str) -> Result<Self, Self::Err> {
        UrlParser::new(s)
    }
}

impl TryFrom<&str> for UrlParser {
    type Error = UrlParserErrors;

    fn try_from(value: &str) -> Result<Self, Self::Error> {
        UrlParser::new(value)
    }
}

impl vstd::std_specs::convert::TryFromSpecImpl<&str> for UrlParser {
    open spec fn obeys_try_from_spec() -> bool {
        false
    }

    open spec fn try_from_spec(v: &str) -> Result<Self, Self::Error> {
        arbitrary()
    }
}

} // verus!
