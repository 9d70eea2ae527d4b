//! Small text primitives shared by the sanitiser, the URL parser and the
//! scanner: decimal parsing and formatting, whitespace trimming and string
//! comparison, each specified over `Seq<char>`.

use vstd::prelude::*;

verus! {

/// Whether `c` is an ASCII decimal digit.
pub open spec fn is_dec_digit(c: char) -> bool {
    '0' as u32 <= c as u32 && c as u32 <= '9' as u32
}

/// Numeric value of a decimal digit character.
pub open spec fn dec_digit_val(c: char) -> int {
    c as u32 - '0' as u32
}

/// Whether every character of `s` is an ASCII decimal digit.
pub open spec fn all_dec_digits(s: Seq<char>) -> bool {
    forall|i: int| 0 <= i < s.len() ==> is_dec_digit(#[trigger] s[i])
}

/// Value of a digit string read in base ten.
pub open spec fn dec_value(s: Seq<char>) -> int
    decreases s.len(),
{
    if s.len() == 0 {
        0
    } else {
        dec_value(s.drop_last()) * 10 + dec_digit_val(s.last())
    }
}

pub proof fn lemma_dec_value_nonneg(s: Seq<char>)
    requires
        all_dec_digits(s),
    ensures
        dec_value(s) >= 0,
    decreases s.len(),
{
    if s.len() > 0 {
        assert(all_dec_digits(s.drop_last()));
        lemma_dec_value_nonneg(s.drop_last());
    }
}

/// Whether `s` is the text of an integer that `str::parse` accepts for a
/// type whose admissible magnitudes are `pos_max` (for a plus sign or no
/// sign) and `neg_max` (for a minus sign): an optional sign followed by at
/// least one digit, with the value in range.
pub open spec fn int_str_ok(s: Seq<char>, allow_neg: bool, pos_max: int, neg_max: int) -> bool {
    if s.len() == 0 {
        false
    } else if s[0] == '+' {
        s.len() > 1 && all_dec_digits(s.skip(1)) && dec_value(s.skip(1)) <= pos_max
    } else if s[0] == '-' {
        allow_neg && s.len() > 1 && all_dec_digits(s.skip(1)) && dec_value(s.skip(1)) <= neg_max
    } else {
        all_dec_digits(s) && dec_value(s) <= pos_max
    }
}

/// Reads the digits of `s` from position `start` on, in base ten.
/// Returns the value when they are non-empty, all digits and the value is
/// at most `bound`; returns `None` otherwise.
pub fn parse_dec_digits(s: &str, start: usize, bound: u128) -> (r: Option<u128>)
    requires
        start <= s@.len(),
    ensures
        match r {
            Some(v) => {
                &&& s@.len() - start >= 1
                &&& all_dec_digits(s@.skip(start as int))
                &&& v == dec_value(s@.skip(start as int))
                &&& v <= bound
            },
            None => !{
                &&& s@.len() - start >= 1
                &&& all_dec_digits(s@.skip(start as int))
                &&& dec_value(s@.skip(start as int)) <= bound
            },
        },
{
    let n = s.unicode_len();
    if start == n {
        return None;
    }
    let mut acc: u128 = 0;
    let mut over: bool = false;
    let mut i: usize = start;
    while i < n
        invariant
            start <= i <= n,
            n == s@.len(),
            start < n,
            all_dec_digits(s@.subrange(start as int, i as int)),
            !over ==> acc == dec_value(s@.subrange(start as int, i as int)) && acc <= bound,
            over ==> dec_value(s@.subrange(start as int, i as int)) > bound,
        decreases n - i,
    {
        let c = s.get_char(i);
        let cu = c as u32;
        if cu < '0' as u32 || cu > '9' as u32 {
            assert(!is_dec_digit(s@.skip(start as int)[i - start]));
            return None;
        }
        let d: u128 = (cu - '0' as u32) as u128;
        let ghost pre = s@.subrange(start as int, i as int);
        assert(s@.subrange(start as int, i + 1) =~= pre.push(s@[i as int]));
        assert(s@.subrange(start as int, i + 1).drop_last() =~= pre);
        proof {
            if over {
                lemma_dec_value_nonneg(pre);
            }
        }
        if !over {
            let next = match acc.checked_mul(10) {
                Some(m) => m.checked_add(d),
                None => None,
            };
            match next {
                Some(v) => {
                    if v > bound {
                        over = true;
                    } else {
                        acc = v;
                    }
                },
                None => {
                    over = true;
                },
            }
        }
        i = i + 1;
    }
    assert(s@.subrange(start as int, n as int) =~= s@.skip(start as int));
    if over {
        None
    } else {
        Some(acc)
    }
}

/// Parses an optionally signed decimal integer as `str::parse` does, with
/// the magnitude bounds `pos_max` (plus sign or unsigned) and `neg_max`
/// (minus sign). Returns the sign and the magnitude.
pub fn parse_int_str(s: &str, allow_neg: bool, pos_max: u128, neg_max: u128) -> (r: Option<
    (bool, u128),
>)
    ensures
        r is Some <==> int_str_ok(s@, allow_neg, pos_max as int, neg_max as int),
        r matches Some((neg, mag)) ==> {
            if s@[0] == '-' {
                neg && mag == dec_value(s@.skip(1))
            } else if s@[0] == '+' {
                !neg && mag == dec_value(s@.skip(1))
            } else {
                !neg && mag == dec_value(s@)
            }
        },
{
    let n = s.unicode_len();
    if n == 0 {
        return None;
    }
    let c0 = s.get_char(0);
    if c0 == '+' {
        match parse_dec_digits(s, 1, pos_max) {
            Some(v) => Some((false, v)),
            None => None,
        }
    } else if c0 == '-' {
        if !allow_neg {
            return None;
        }
        match parse_dec_digits(s, 1, neg_max) {
            Some(v) => Some((true, v)),
            None => None,
        }
    } else {
        match parse_dec_digits(s, 0, pos_max) {
            Some(v) => {
                assert(s@.skip(0) =~= s@);
                Some((false, v))
            },
            None => {
                assert(s@.skip(0) =~= s@);
                None
            },
        }
    }
}

/// The ASCII byte of a decimal digit.
pub open spec fn dec_byte_of(d: int) -> u8
    recommends
        0 <= d < 10,
{
    (0x30 + d) as u8
}

/// The bytes of `n` written in base ten without leading zeros.
pub open spec fn dec_bytes_of(n: int) -> Seq<u8>
    recommends
        n >= 0,
    decreases n,
{
    if n < 10 {
        seq![dec_byte_of(n)]
    } else {
        dec_bytes_of(n / 10).push(dec_byte_of(n % 10))
    }
}

/// The characters of `n` written in base ten without leading zeros.
pub open spec fn dec_str_of(n: int) -> Seq<char> {
    dec_bytes_of(n).map_values(|b: u8| b as char)
}

proof fn lemma_dec_bytes_ascii(n: int)
    requires
        n >= 0,
    ensures
        forall|i: int|
            0 <= i < dec_bytes_of(n).len() ==> 0x30 <= #[trigger] dec_bytes_of(n)[i] < 0x80,
    decreases n,
{
    if n < 10 {
        assert(dec_bytes_of(n) =~= seq![dec_byte_of(n)]);
    } else {
        lemma_dec_bytes_ascii(n / 10);
        assert(dec_bytes_of(n) =~= dec_bytes_of(n / 10).push(dec_byte_of(n % 10)));
        assert(forall|i: int|
            0 <= i < dec_bytes_of(n).len() ==> 0x30 <= #[trigger] dec_bytes_of(n)[i] < 0x80) by {
            assert(forall|i: int|
                0 <= i < dec_bytes_of(n / 10).len() ==> 0x30 <= #[trigger] dec_bytes_of(n / 10)[i]
                    < 0x80);
        }
    }
}

/// Appends the decimal digits of `n` to `out`.
pub fn push_dec_u64(n: u64, out: &mut Vec<u8>)
    ensures
        final(out)@ == old(out)@ + dec_bytes_of(n as int),
    decreases n,
{
    if n >= 10 {
        push_dec_u64(n / 10, out);
    }
    let d: u8 = 0x30 + (n % 10) as u8;
    out.push(d);
    assert(final(out)@ =~= old(out)@ + dec_bytes_of(n as int));
}

/// Relies on `String::from_utf8`: bytes below 0x80 decode to the characters
/// with the same code points.
#[verifier::external_body]
fn ascii_string(bytes: Vec<u8>) -> (r: String)
    requires
        forall|i: int| 0 <= i < bytes@.len() ==> bytes@[i] < 0x80,
    ensures
        r@ == bytes@.map_values(|b: u8| b as char),
{
    String::from_utf8(bytes).unwrap()
}

/// Writes `n` in base ten.
pub fn u64_to_dec_string(n: u64) -> (r: String)
    ensures
        r@ == dec_str_of(n as int),
{
    let mut out: Vec<u8> = Vec::new();
    push_dec_u64(n, &mut out);
    proof {
        lemma_dec_bytes_ascii(n as int);
        assert(out@ =~= dec_bytes_of(n as int));
    }
    ascii_string(out)
}

/// Ten to the power `k`.
pub open spec fn pow10_of(k: nat) -> int
    decreases k,
{
    if k == 0 {
        1
    } else {
        10 * pow10_of((k - 1) as nat)
    }
}

/// A digit string's value is below ten to its length.
pub proof fn lemma_dec_value_upper(s: Seq<char>)
    requires
        all_dec_digits(s),
    ensures
        dec_value(s) < pow10_of(s.len()),
    decreases s.len(),
{
    if s.len() > 0 {
        assert(all_dec_digits(s.drop_last()));
        lemma_dec_value_upper(s.drop_last());
        assert(is_dec_digit(s.last()));
        assert(dec_digit_val(s.last()) <= 9);
    }
}

/// A number below ten to the `k` prints in at most `k` digits.
pub proof fn lemma_dec_bytes_len(n: int, k: nat)
    requires
        0 <= n,
        n < pow10_of(k),
        1 <= k,
    ensures
        dec_bytes_of(n).len() <= k,
    decreases k,
{
    if n < 10 {
        assert(dec_bytes_of(n).len() == 1);
    } else {
        assert(pow10_of(k) == 10 * pow10_of((k - 1) as nat));
        assert(pow10_of((k - 1) as nat) >= 1) by {
            lemma_pow10_pos((k - 1) as nat);
        }
        assert(k >= 2) by {
            if k == 1 {
                assert(pow10_of(1nat) == 10);
            }
        }
        assert(n / 10 < pow10_of((k - 1) as nat)) by {
            assert(n <= 10 * pow10_of((k - 1) as nat) - 1);
        }
        lemma_dec_bytes_len(n / 10, (k - 1) as nat);
    }
}

/// Ten to any power is positive.
pub proof fn lemma_pow10_pos(k: nat)
    ensures
        pow10_of(k) >= 1,
    decreases k,
{
    if k > 0 {
        lemma_pow10_pos((k - 1) as nat);
    }
}

/// The characters of the integer `n` in base ten, with a leading minus
/// sign when `n` is negative.
pub open spec fn int_dec_str_of(n: int) -> Seq<char> {
    if n < 0 {
        seq!['-'] + dec_str_of(-n)
    } else {
        dec_str_of(n)
    }
}

/// Writes the signed integer `n` in base ten.
pub fn i64_to_dec_string(n: i64) -> (r: String)
    ensures
        r@ == int_dec_str_of(n as int),
{
    if n < 0 {
        let mut s = String::from_str("-");
        let mag = (-(n as i128)) as u64;
        let t = u64_to_dec_string(mag);
        s.append(t.as_str());
        proof {
            reveal_strlit("-");
            assert(s@ =~= int_dec_str_of(n as int));
        }
        s
    } else {
        u64_to_dec_string(n as u64)
    }
}

/// Relies on `char::to_string`: the result is the one character.
#[verifier::external_body]
pub fn char_to_string(c: char) -> (r: String)
    ensures
        r@ == seq![c],
{
    c.to_string()
}

/// Appends one character to a string.
pub fn push_char(s: &mut String, c: char)
    ensures
        final(s)@ == old(s)@.push(c),
{
    let t = char_to_string(c);
    s.append(t.as_str());
    assert(final(s)@ =~= old(s)@.push(c));
}

/// Copies a list of strings element by element.
pub fn clone_string_vec(v: &Vec<String>) -> (r: Vec<String>)
    ensures
        r@ == v@,
{
    let mut out: Vec<String> = Vec::new();
    let n = v.len();
    let mut i: usize = 0;
    while i < n
        invariant
            i <= n,
            n == v@.len(),
            out@ =~= v@.take(i as int),
        decreases n - i,
    {
        out.push(v[i].clone());
        i = i + 1;
    }
    proof {
        assert(out@ =~= v@);
    }
    out
}

/// Whether two string slices hold the same characters.
pub fn str_eq(a: &str, b: &str) -> (r: bool)
    ensures
        r == (a@ == b@),
{
    let na = a.unicode_len();
    let nb = b.unicode_len();
    if na != nb {
        return false;
    }
    let mut i: usize = 0;
    while i < na
        invariant
            i <= na,
            na == a@.len(),
            na == b@.len(),
            forall|j: int| 0 <= j < i ==> a@[j] == b@[j],
        decreases na - i,
    {
        if a.get_char(i) != b.get_char(i) {
            return false;
        }
        i = i + 1;
    }
    proof {
        assert(a@ =~= b@);
    }
    true
}

/// The first position at or after `from` whose character satisfies `p`,
/// or the length of `s` when none does.
pub open spec fn first_at_or_after(s: Seq<char>, from: int, p: spec_fn(char) -> bool) -> int
    decreases s.len() - from when 0 <= from <= s.len()
{
    if from >= s.len() {
        s.len() as int
    } else if p(s[from]) {
        from
    } else {
        first_at_or_after(s, from + 1, p)
    }
}

pub proof fn lemma_first_at_or_after(s: Seq<char>, from: int, p: spec_fn(char) -> bool, i: int)
    requires
        0 <= from <= i <= s.len(),
        forall|j: int| from <= j < i ==> !p(#[trigger] s[j]),
        i < s.len() ==> p(s[i]),
    ensures
        first_at_or_after(s, from, p) == i,
    decreases i - from,
{
    if from < i {
        lemma_first_at_or_after(s, from + 1, p, i);
    }
}

pub broadcast proof fn lemma_first_at_or_after_bounds(s: Seq<char>, from: int, p: spec_fn(char) -> bool)
    requires
        0 <= from <= s.len(),
    ensures
        from <= #[trigger] first_at_or_after(s, from, p) <= s.len(),
    decreases s.len() - from,
{
    if from < s.len() && !p(s[from]) {
        lemma_first_at_or_after_bounds(s, from + 1, p);
    }
}

/// The predicate picking a dot.
pub open spec fn p_dot() -> spec_fn(char) -> bool {
    |c: char| c == '.'
}

/// First dot at or after `from`, or the length.
pub open spec fn find_dot(s: Seq<char>, from: int) -> int {
    first_at_or_after(s, from, p_dot())
}

/// Finds the first dot at or after `from`, or the length.
pub fn find_dot_at(s: &str, from: usize) -> (r: usize)
    requires
        from <= s@.len(),
    ensures
        from <= r <= s@.len(),
        r == find_dot(s@, from as int),
        forall|j: int| from <= j < r ==> (#[trigger] s@[j]) != '.',
        r < s@.len() ==> s@[r as int] == '.',
{
    let n = s.unicode_len();
    let mut i: usize = from;
    while i < n
        invariant
            from <= i <= n,
            n == s@.len(),
            forall|j: int| from <= j < i ==> (#[trigger] s@[j]) != '.',
        decreases n - i,
    {
        if s.get_char(i) == '.' {
            proof {
                lemma_first_at_or_after(s@, from as int, p_dot(), i as int);
            }
            return i;
        }
        i = i + 1;
    }
    proof {
        lemma_first_at_or_after(s@, from as int, p_dot(), n as int);
    }
    n
}

/// Whether `c` counts as whitespace for `str::trim`.
pub uninterp spec fn is_space_char(c: char) -> bool;

/// Relies on `char::is_whitespace`: a property of the character alone.
#[verifier::external_body]
fn char_is_whitespace(c: char) -> (r: bool)
    ensures
        r == is_space_char(c),
{
    c.is_whitespace()
}

/// `s` without its leading whitespace.
pub open spec fn trim_start_of(s: Seq<char>) -> Seq<char>
    decreases s.len(),
{
    if s.len() > 0 && is_space_char(s[0]) {
        trim_start_of(s.drop_first())
    } else {
        s
    }
}

/// `s` without its trailing whitespace.
pub open spec fn trim_end_of(s: Seq<char>) -> Seq<char>
    decreases s.len(),
{
    if s.len() > 0 && is_space_char(s.last()) {
        trim_end_of(s.drop_last())
    } else {
        s
    }
}

/// `s` without leading and trailing whitespace, as `str::trim` returns it.
pub open spec fn trim_of(s: Seq<char>) -> Seq<char> {
    trim_end_of(trim_start_of(s))
}

proof fn lemma_trim_start_skip(s: Seq<char>, i: int)
    requires
        0 <= i <= s.len(),
        forall|j: int| 0 <= j < i ==> is_space_char(#[trigger] s[j]),
        i < s.len() ==> !is_space_char(s[i]),
    ensures
        trim_start_of(s) == s.skip(i),
    decreases i,
{
    if i == 0 {
        assert(s.skip(0) =~= s);
    } else {
        assert(is_space_char(s[0]));
        lemma_trim_start_skip(s.drop_first(), i - 1);
        assert(s.drop_first().skip(i - 1) =~= s.skip(i));
    }
}

proof fn lemma_trim_end_take(s: Seq<char>, i: int)
    requires
        0 <= i <= s.len(),
        forall|j: int| i <= j < s.len() ==> is_space_char(#[trigger] s[j]),
        i > 0 ==> !is_space_char(s[i - 1]),
    ensures
        trim_end_of(s) == s.take(i),
    decreases s.len() - i,
{
    if i == s.len() {
        assert(s.take(i) =~= s);
    } else {
        assert(is_space_char(s.last()));
        lemma_trim_end_take(s.drop_last(), i);
        assert(s.drop_last().take(i) =~= s.take(i));
    }
}

/// Copies `s` without its leading and trailing whitespace.
pub fn trim_str(s: &str) -> (r: String)
    ensures
        r@ == trim_of(s@),
{
    let n = s.unicode_len();
    let mut start: usize = 0;
    while start < n && char_is_whitespace(s.get_char(start))
        invariant
            start <= n,
            n == s@.len(),
            forall|j: int| 0 <= j < start ==> is_space_char(#[trigger] s@[j]),
        decreases n - start,
    {
        start = start + 1;
    }
    proof {
        lemma_trim_start_skip(s@, start as int);
    }
    let ghost t = s@.skip(start as int);
    let mut end: usize = n;
    while end > start && char_is_whitespace(s.get_char(end - 1))
        invariant
            start <= end <= n,
            n == s@.len(),
            t == s@.skip(start as int),
            forall|j: int| end - start <= j < t.len() ==> is_space_char(#[trigger] t[j]),
        decreases end,
    {
        assert(t[end - 1 - start] == s@[end - 1]);
        end = end - 1;
    }
    proof {
        if end > start {
            assert(t[end - 1 - start] == s@[end - 1]);
        }
        lemma_trim_end_take(t, end - start);
        assert(t.take(end - start) =~= s@.subrange(start as int, end as int));
    }
    let piece = s.substring_char(start, end);
    let r = String::from_str(piece);
    r
}

} // verus!
