//! Character classes, trimming and searching over character sequences.
//!
//! The engine parses its input as a sequence of `char`s. The helpers here
//! are stated over `Seq<char>` and run over half-open index ranges of a
//! `Vec<char>`, so sub-expressions never need to be copied.
use vstd::prelude::*;

verus! {

/// Unicode `White_Space`, the property that `char::is_whitespace` tests.
pub open spec fn is_ws(c: char) -> bool {
    let u = c as u32;
    (0x09 <= u && u <= 0x0D) || u == 0x20 || u == 0x85 || u == 0xA0 || u == 0x1680
        || (0x2000 <= u && u <= 0x200A) || u == 0x2028 || u == 0x2029 || u == 0x202F
        || u == 0x205F || u == 0x3000
}

pub fn char_is_whitespace(c: char) -> (b: bool)
    ensures
        b == is_ws(c),
{
    let u = c as u32;
    (0x09 <= u && u <= 0x0D) || u == 0x20 || u == 0x85 || u == 0xA0 || u == 0x1680 || (0x2000
        <= u && u <= 0x200A) || u == 0x2028 || u == 0x2029 || u == 0x202F || u == 0x205F || u
        == 0x3000
}

pub open spec fn is_digit(c: char) -> bool {
    '0' <= c && c <= '9'
}

pub open spec fn is_alpha(c: char) -> bool {
    ('a' <= c && c <= 'z') || ('A' <= c && c <= 'Z')
}

pub open spec fn is_alnum(c: char) -> bool {
    is_digit(c) || is_alpha(c)
}

/// A character that can continue an identifier: ASCII alphanumeric or `_`.
pub open spec fn is_ident_char(c: char) -> bool {
    is_alnum(c) || c == '_'
}

pub open spec fn is_hex_digit(c: char) -> bool {
    is_digit(c) || ('a' <= c && c <= 'f') || ('A' <= c && c <= 'F')
}

pub fn char_is_digit(c: char) -> (b: bool)
    ensures
        b == is_digit(c),
{
    '0' <= c && c <= '9'
}

pub fn char_is_alpha(c: char) -> (b: bool)
    ensures
        b == is_alpha(c),
{
    ('a' <= c && c <= 'z') || ('A' <= c && c <= 'Z')
}

pub fn char_is_ident(c: char) -> (b: bool)
    ensures
        b == is_ident_char(c),
{
    char_is_digit(c) || char_is_alpha(c) || c == '_'
}

pub fn char_is_hex_digit(c: char) -> (b: bool)
    ensures
        b == is_hex_digit(c),
{
    char_is_digit(c) || ('a' <= c && c <= 'f') || ('A' <= c && c <= 'F')
}

/// Number of leading whitespace characters.
pub open spec fn lead_ws(s: Seq<char>) -> nat
    decreases s.len(),
{
    if s.len() > 0 && is_ws(s[0]) {
        1 + lead_ws(s.drop_first())
    } else {
        0
    }
}

/// Number of trailing whitespace characters.
pub open spec fn trail_ws(s: Seq<char>) -> nat
    decreases s.len(),
{
    if s.len() > 0 && is_ws(s.last()) {
        1 + trail_ws(s.drop_last())
    } else {
        0
    }
}

/// `str::trim`: the sequence without leading and trailing whitespace.
#[verifier::opaque]
pub open spec fn trim(s: Seq<char>) -> Seq<char> {
    let t = s.skip(lead_ws(s) as int);
    t.take(t.len() - trail_ws(t))
}

pub proof fn lemma_lead_ws(s: Seq<char>, i: int)
    requires
        0 <= i <= s.len(),
        forall|j: int| 0 <= j < i ==> is_ws(#[trigger] s[j]),
        i == s.len() || !is_ws(s[i]),
    ensures
        lead_ws(s) == i,
    decreases i,
{
    if i > 0 {
        assert(forall|j: int| 0 <= j < i - 1 ==> s.drop_first()[j] == s[j + 1]);
        lemma_lead_ws(s.drop_first(), i - 1);
    }
}

pub proof fn lemma_trail_ws(s: Seq<char>, k: int)
    requires
        0 <= k <= s.len(),
        forall|j: int| s.len() - k <= j < s.len() ==> is_ws(#[trigger] s[j]),
        k == s.len() || !is_ws(s[s.len() - k - 1]),
    ensures
        trail_ws(s) == k,
    decreases k,
{
    if k > 0 {
        let t = s.drop_last();
        assert forall|j: int| t.len() - (k - 1) <= j < t.len() implies is_ws(#[trigger] t[j]) by {
            assert(t[j] == s[j]);
        }
        lemma_trail_ws(t, k - 1);
    }
}

pub proof fn lemma_lead_ws_bound(s: Seq<char>)
    ensures
        lead_ws(s) <= s.len(),
    decreases s.len(),
{
    if s.len() > 0 && is_ws(s[0]) {
        lemma_lead_ws_bound(s.drop_first());
    }
}

pub proof fn lemma_trail_ws_bound(s: Seq<char>)
    ensures
        trail_ws(s) <= s.len(),
    decreases s.len(),
{
    if s.len() > 0 && is_ws(s.last()) {
        lemma_trail_ws_bound(s.drop_last());
    }
}

/// A sequence that neither starts nor ends with whitespace is its own trim.
pub proof fn lemma_trim_unchanged(s: Seq<char>)
    requires
        s.len() > 0,
        !is_ws(s[0]),
        !is_ws(s.last()),
    ensures
        trim(s) == s,
{
    reveal(trim);
    assert(lead_ws(s) == 0);
    assert(s.skip(0) == s);
    assert(trail_ws(s) == 0);
    assert(s.take(s.len() as int) == s);
}

/// The empty sequence trims to itself.
pub proof fn lemma_trim_empty()
    ensures
        trim(Seq::<char>::empty()) == Seq::<char>::empty(),
{
    reveal(trim);
    assert(lead_ws(Seq::<char>::empty()) == 0);
    assert(Seq::<char>::empty().skip(0) == Seq::<char>::empty());
    assert(trail_ws(Seq::<char>::empty()) == 0);
    assert(Seq::<char>::empty().take(0) == Seq::<char>::empty());
}

/// Trims the range `lo..hi` of `v`.
pub fn trim_range(v: &Vec<char>, lo: usize, hi: usize) -> (r: (usize, usize))
    requires
        lo <= hi <= v.len(),
    ensures
        lo <= r.0 <= r.1 <= hi,
        v@.subrange(r.0 as int, r.1 as int) == trim(v@.subrange(lo as int, hi as int)),
{
    let ghost s = v@.subrange(lo as int, hi as int);
    let mut a = lo;
    while a < hi && char_is_whitespace(v[a])
        invariant
            lo <= a <= hi <= v.len(),
            s == v@.subrange(lo as int, hi as int),
            forall|j: int| 0 <= j < a - lo ==> is_ws(#[trigger] s[j]),
        decreases hi - a,
    {
        a = a + 1;
    }
    proof {
        lemma_lead_ws(s, (a - lo) as int);
    }
    let ghost t = s.skip((a - lo) as int);
    assert(t == v@.subrange(a as int, hi as int));
    let mut b = hi;
    while b > a && char_is_whitespace(v[b - 1])
        invariant
            lo <= a <= b <= hi <= v.len(),
            t == v@.subrange(a as int, hi as int),
            forall|j: int| t.len() - (hi - b) <= j < t.len() ==> is_ws(#[trigger] t[j]),
        decreases b - a,
    {
        b = b - 1;
    }
    proof {
        reveal(trim);
        lemma_trail_ws(t, (hi - b) as int);
        assert(v@.subrange(a as int, b as int) == t.take(t.len() - (hi - b)));
    }
    (a, b)
}

/// Index of the first occurrence of `c` in `s`, if any.
pub open spec fn first_index(s: Seq<char>, c: char) -> Option<int> {
    if exists|i: int| 0 <= i < s.len() && s[i] == c {
        Some(choose|i: int| 0 <= i < s.len() && s[i] == c && forall|j: int| 0 <= j < i ==> s[j] != c)
    } else {
        None
    }
}

pub proof fn lemma_first_index(s: Seq<char>, c: char, i: int)
    requires
        0 <= i < s.len(),
        s[i] == c,
        forall|j: int| 0 <= j < i ==> s[j] != c,
    ensures
        first_index(s, c) == Some(i),
{
    assert(exists|k: int| 0 <= k < s.len() && s[k] == c && forall|j: int| 0 <= j < k ==> s[j] != c);
    let k = choose|k: int| 0 <= k < s.len() && s[k] == c && forall|j: int| 0 <= j < k ==> s[j] != c;
    if k < i {
        assert(s[k] != c);
    }
    if i < k {
        assert(s[i] != c);
    }
}

/// A character that occurs has a first occurrence.
proof fn lemma_first_index_exists(s: Seq<char>, c: char, k: int)
    requires
        0 <= k < s.len(),
        s[k] == c,
    ensures
        exists|i: int| 0 <= i < s.len() && s[i] == c && forall|j: int| 0 <= j < i ==> s[j] != c,
    decreases k,
{
    if exists|j: int| 0 <= j < k && s[j] == c {
        let j = choose|j: int| 0 <= j < k && s[j] == c;
        lemma_first_index_exists(s, c, j);
    } else {
        assert(forall|j: int| 0 <= j < k ==> s[j] != c);
    }
}

/// The first index of `c`, when there is one, lies inside `s` and holds `c`.
pub proof fn lemma_first_index_some(s: Seq<char>, c: char)
    ensures
        first_index(s, c) matches Some(i) ==> 0 <= i < s.len() && s[i] == c,
{
    if exists|i: int| 0 <= i < s.len() && s[i] == c {
        let k = choose|i: int| 0 <= i < s.len() && s[i] == c;
        lemma_first_index_exists(s, c, k);
    }
}

/// Finds the first `c` in `v[lo..hi]`, as an absolute index.
pub fn find_char(v: &Vec<char>, lo: usize, hi: usize, c: char) -> (r: Option<usize>)
    requires
        lo <= hi <= v.len(),
    ensures
        match r {
            Some(i) => lo <= i < hi && first_index(v@.subrange(lo as int, hi as int), c) == Some(
                i - lo,
            ),
            None => first_index(v@.subrange(lo as int, hi as int), c) is None,
        },
{
    let ghost s = v@.subrange(lo as int, hi as int);
    let mut i = lo;
    while i < hi
        invariant
            lo <= i <= hi <= v.len(),
            s == v@.subrange(lo as int, hi as int),
            forall|j: int| 0 <= j < i - lo ==> s[j] != c,
        decreases hi - i,
    {
        if v[i] == c {
            proof {
                lemma_first_index(s, c, (i - lo) as int);
            }
            return Some(i);
        }
        i = i + 1;
    }
    None
}

/// Whether `p` occurs in `s` at position `i`.
pub open spec fn occurs_at(s: Seq<char>, p: Seq<char>, i: int) -> bool {
    0 <= i && i + p.len() <= s.len() && s.subrange(i, i + p.len()) == p
}

/// Index of the first occurrence of the pattern `p` in `s`, if any.
pub open spec fn first_occurrence(s: Seq<char>, p: Seq<char>) -> Option<int> {
    if exists|i: int| occurs_at(s, p, i) {
        Some(choose|i: int| occurs_at(s, p, i) && forall|j: int| 0 <= j < i ==> !occurs_at(s, p, j))
    } else {
        None
    }
}

pub proof fn lemma_first_occurrence(s: Seq<char>, p: Seq<char>, i: int)
    requires
        occurs_at(s, p, i),
        forall|j: int| 0 <= j < i ==> !occurs_at(s, p, j),
    ensures
        first_occurrence(s, p) == Some(i),
{
    let k = choose|k: int| occurs_at(s, p, k) && forall|j: int| 0 <= j < k ==> !occurs_at(s, p, j);
    if k < i {
        assert(!occurs_at(s, p, k));
    }
    if i < k {
        assert(!occurs_at(s, p, i));
    }
}

proof fn lemma_first_occurrence_exists(s: Seq<char>, p: Seq<char>, k: int)
    requires
        occurs_at(s, p, k),
    ensures
        exists|i: int| occurs_at(s, p, i) && forall|j: int| 0 <= j < i ==> !occurs_at(s, p, j),
    decreases k,
{
    if exists|j: int| 0 <= j < k && occurs_at(s, p, j) {
        let j = choose|j: int| 0 <= j < k && occurs_at(s, p, j);
        lemma_first_occurrence_exists(s, p, j);
    } else {
        assert(forall|j: int| 0 <= j < k ==> !occurs_at(s, p, j));
    }
}

/// The first occurrence of `p`, when there is one, lies inside `s`.
pub proof fn lemma_first_occurrence_some(s: Seq<char>, p: Seq<char>)
    ensures
        first_occurrence(s, p) matches Some(i) ==> occurs_at(s, p, i),
{
    if exists|i: int| occurs_at(s, p, i) {
        let k = choose|i: int| occurs_at(s, p, i);
        lemma_first_occurrence_exists(s, p, k);
    }
}

/// Whether `v[at..]` starts with `p`.
pub fn matches_at(v: &Vec<char>, hi: usize, at: usize, p: &[char]) -> (b: bool)
    requires
        at <= hi <= v.len(),
    ensures
        b == (at + p@.len() <= hi && v@.subrange(at as int, at + p@.len()) == p@),
{
    if p.len() > hi - at {
        return false;
    }
    let mut k: usize = 0;
    while k < p.len()
        invariant
            at + p@.len() <= hi <= v.len(),
            k <= p@.len(),
            forall|j: int| 0 <= j < k ==> v@[at + j] == p@[j],
        decreases p@.len() - k,
    {
        if v[at + k] != p[k] {
            assert(v@.subrange(at as int, at + p@.len())[k as int] != p@[k as int]);
            return false;
        }
        k = k + 1;
    }
    assert(v@.subrange(at as int, at + p@.len()) == p@);
    true
}

/// Finds the first occurrence of `p` in `v[lo..hi]`, as an absolute index.
pub fn find_pattern(v: &Vec<char>, lo: usize, hi: usize, p: &[char]) -> (r: Option<usize>)
    requires
        lo <= hi <= v.len(),
        p@.len() > 0,
    ensures
        match r {
            Some(i) => lo <= i && i + p@.len() <= hi && first_occurrence(
                v@.subrange(lo as int, hi as int),
                p@,
            ) == Some(i - lo),
            None => first_occurrence(v@.subrange(lo as int, hi as int), p@) is None,
        },
{
    let ghost s = v@.subrange(lo as int, hi as int);
    let mut i = lo;
    while i < hi
        invariant
            lo <= i <= hi <= v.len(),
            s == v@.subrange(lo as int, hi as int),
            forall|j: int| 0 <= j < i - lo ==> !occurs_at(s, p@, j),
        decreases hi - i,
    {
        if matches_at(v, hi, i, p) {
            proof {
                assert(s.subrange(i - lo, i - lo + p@.len()) == v@.subrange(
                    i as int,
                    i + p@.len(),
                ));
                lemma_first_occurrence(s, p@, (i - lo) as int);
            }
            return Some(i);
        }
        proof {
            if occurs_at(s, p@, i - lo) {
                assert(s.subrange(i - lo, i - lo + p@.len()) == v@.subrange(
                    i as int,
                    i + p@.len(),
                ));
            }
        }
        i = i + 1;
    }
    None
}

/// The characters of `s`, in order.
pub fn chars_of(s: &str) -> (r: Vec<char>)
    ensures
        r@ == s@,
{
    let mut r: Vec<char> = Vec::new();
    for c in it: s.chars()
        invariant
            r@ == it.seq().take(it.index() as int),
            it.seq() == s@,
    {
        r.push(c);
    }
    r
}

/// `String::push`: appends one character.
#[verifier::external_body]
pub(crate) fn push_char(s: &mut String, c: char)
    ensures
        final(s)@ == old(s)@.push(c),
{
    s.push(c)
}

/// The string holding the characters of `v[lo..hi]`.
pub fn string_of(v: &Vec<char>, lo: usize, hi: usize) -> (r: String)
    requires
        lo <= hi <= v.len(),
    ensures
        r@ == v@.subrange(lo as int, hi as int),
{
    let mut r = String::new();
    let mut i = lo;
    while i < hi
        invariant
            lo <= i <= hi <= v.len(),
            r@ == v@.subrange(lo as int, i as int),
        decreases hi - i,
    {
        push_char(&mut r, v[i]);
        assert(v@.subrange(lo as int, i + 1) == v@.subrange(lo as int, i as int).push(v@[i as int]));
        i = i + 1;
    }
    r
}

/// A new vector holding `v[lo..hi]`.
pub fn sub_vec(v: &Vec<char>, lo: usize, hi: usize) -> (r: Vec<char>)
    requires
        lo <= hi <= v.len(),
    ensures
        r@ == v@.subrange(lo as int, hi as int),
{
    let mut r: Vec<char> = Vec::new();
    let mut i = lo;
    while i < hi
        invariant
            lo <= i <= hi <= v.len(),
            r@ == v@.subrange(lo as int, i as int),
        decreases hi - i,
    {
        r.push(v[i]);
        assert(v@.subrange(lo as int, i + 1) == v@.subrange(lo as int, i as int).push(v@[i as int]));
        i = i + 1;
    }
    r
}

/// Appends the characters of `t` to `s`.
pub fn push_str(s: &mut String, t: &str)
    ensures
        final(s)@ == old(s)@ + t@,
{
    let v = chars_of(t);
    let mut i: usize = 0;
    while i < v.len()
        invariant
            i <= v@.len(),
            v@ == t@,
            s@ == old(s)@ + v@.take(i as int),
        decreases v@.len() - i,
    {
        push_char(s, v[i]);
        assert(v@.take(i + 1) == v@.take(i as int).push(v@[i as int]));
        i = i + 1;
    }
    assert(v@.take(v@.len() as int) == v@);
}

/// A new string holding the characters of `t`.
pub fn string_from(t: &str) -> (r: String)
    ensures
        r@ == t@,
{
    let mut r = String::new();
    push_str(&mut r, t);
    r
}

/// Whether `v[lo..hi]` holds exactly the characters of `t`.
pub fn range_is(v: &Vec<char>, lo: usize, hi: usize, t: &str) -> (b: bool)
    requires
        lo <= hi <= v.len(),
    ensures
        b == (v@.subrange(lo as int, hi as int) == t@),
{
    let tc = chars_of(t);
    if tc.len() != hi - lo {
        return false;
    }
    let r = matches_at(v, hi, lo, tc.as_slice());
    r
}

/// Whether `a` and `b` hold the same characters.
pub fn str_eq(a: &str, b: &str) -> (r: bool)
    ensures
        r == (a@ == b@),
{
    let av = chars_of(a);
    assert(av@.subrange(0, av@.len() as int) == av@);
    range_is(&av, 0, av.len(), b)
}

/// `p` is a prefix of `s`.
pub open spec fn starts(s: Seq<char>, p: Seq<char>) -> bool {
    p.len() <= s.len() && s.take(p.len() as int) == p
}

/// Whether `v[lo..hi]` starts with the characters of `t`.
pub fn range_starts(v: &Vec<char>, lo: usize, hi: usize, t: &str) -> (b: bool)
    requires
        lo <= hi <= v.len(),
    ensures
        b == starts(v@.subrange(lo as int, hi as int), t@),
{
    let tc = chars_of(t);
    let r = matches_at(v, hi, lo, tc.as_slice());
    proof {
        if tc@.len() <= hi - lo {
            assert(v@.subrange(lo as int, hi as int).take(tc@.len() as int) == v@.subrange(
                lo as int,
                lo + tc@.len(),
            ));
        }
    }
    r
}

/// Whether `v[lo..hi]` ends with the characters of `t`.
pub fn range_ends(v: &Vec<char>, lo: usize, hi: usize, t: &str) -> (b: bool)
    requires
        lo <= hi <= v.len(),
    ensures
        b == (t@.len() <= hi - lo && v@.subrange(hi - t@.len(), hi as int) == t@),
{
    let tc = chars_of(t);
    if tc.len() > hi - lo {
        return false;
    }
    let r = matches_at(v, hi, hi - tc.len(), tc.as_slice());
    r
}

/// Value of a string of decimal digits.
pub open spec fn dec_value(s: Seq<char>) -> int
    decreases s.len(),
{
    if s.len() == 0 {
        0
    } else {
        dec_value(s.drop_last()) * 10 + (s.last() as int - '0' as int)
    }
}

pub open spec fn all_digits(s: Seq<char>) -> bool {
    forall|i: int| 0 <= i < s.len() ==> is_digit(#[trigger] s[i])
}

/// The `FromStr` grammar of Rust's signed integers: an optional `+` or `-`
/// followed by at least one decimal digit; the value is not bounded here.
pub open spec fn parse_int(s: Seq<char>) -> Option<int> {
    if s.len() == 0 || ((s[0] == '+' || s[0] == '-') && s.len() == 1) {
        None
    } else {
        let body = if s[0] == '+' || s[0] == '-' {
            s.drop_first()
        } else {
            s
        };
        if all_digits(body) {
            Some(
                if s[0] == '-' {
                    -dec_value(body)
                } else {
                    dec_value(body)
                },
            )
        } else {
            None
        }
    }
}

/// `str::parse` into an integer type whose range is `min..=max`.
#[verifier::opaque]
pub open spec fn parse_in(s: Seq<char>, min: int, max: int) -> Option<int> {
    match parse_int(s) {
        Some(x) => if min <= x <= max {
            Some(x)
        } else {
            None
        },
        None => None,
    }
}

pub open spec fn saturate(x: int) -> int {
    if x < 0x1_0000_0000 {
        x
    } else {
        0x1_0000_0000
    }
}

proof fn lemma_saturate_step(x: int, d: int)
    requires
        x >= 0,
        0 <= d <= 9,
    ensures
        saturate(saturate(x) * 10 + d) == saturate(x * 10 + d),
{
}

proof fn lemma_dec_value_nonneg(s: Seq<char>)
    requires
        all_digits(s),
    ensures
        dec_value(s) >= 0,
    decreases s.len(),
{
    if s.len() > 0 {
        lemma_dec_value_nonneg(s.drop_last());
    }
}

/// Parses `v[lo..hi]` as a Rust integer of the range `min..=max`.
pub fn parse_in_range(v: &Vec<char>, lo: usize, hi: usize, min: i64, max: i64) -> (r: Option<i64>)
    requires
        lo <= hi <= v.len(),
        -0x8000_0000 <= min <= 0 <= max < 0x8000_0000,
    ensures
        r matches Some(x) ==> parse_in(v@.subrange(lo as int, hi as int), min as int, max as int)
            == Some(x as int),
        r is None ==> parse_in(v@.subrange(lo as int, hi as int), min as int, max as int) is None,
{
    let ghost s = v@.subrange(lo as int, hi as int);
    reveal(parse_in);
    if lo == hi {
        return None;
    }
    let first = v[lo];
    assert(first == s[0]);
    let signed = first == '+' || first == '-';
    if signed && hi - lo == 1 {
        return None;
    }
    let start = if signed {
        lo + 1
    } else {
        lo
    };
    let ghost body = v@.subrange(start as int, hi as int);
    assert(body == (if signed {
        s.drop_first()
    } else {
        s
    }));
    let mut mag: i64 = 0;
    let mut i = start;
    while i < hi
        invariant
            lo <= start <= i <= hi <= v.len(),
            body == v@.subrange(start as int, hi as int),
            s == v@.subrange(lo as int, hi as int),
            s.len() > 0,
            !((s[0] == '+' || s[0] == '-') && s.len() == 1),
            body == (if s[0] == '+' || s[0] == '-' {
                s.drop_first()
            } else {
                s
            }),
            all_digits(body.take(i - start)),
            mag == saturate(dec_value(body.take(i - start))),
            dec_value(body.take(i - start)) >= 0,
        decreases hi - i,
    {
        let c = v[i];
        assert(c == body[i - start]);
        if !char_is_digit(c) {
            assert(!is_digit(body[i - start]));
            assert(!all_digits(body));
            assert(parse_int(s) is None);
            proof {
                reveal(parse_in);
            }
            return None;
        }
        let d = (c as u32 - '0' as u32) as i64;
        let ghost t = body.take(i - start + 1);
        assert(t.drop_last() == body.take(i - start));
        assert(all_digits(t));
        proof {
            lemma_saturate_step(dec_value(body.take(i - start)), d as int);
        }
        let next = mag * 10 + d;
        mag = if next < 0x1_0000_0000 {
            next
        } else {
            0x1_0000_0000
        };
        i = i + 1;
    }
    assert(body.take(hi - start) == body);
    let value = if first == '-' {
        -mag
    } else {
        mag
    };
    if value < min || value > max {
        return None;
    }
    Some(value)
}

/// Bytes of the UTF-8 encoding of `c`.
pub open spec fn char_len(c: char) -> nat {
    if (c as int) < 0x80 {
        1
    } else if (c as int) < 0x800 {
        2
    } else if (c as int) < 0x10000 {
        3
    } else {
        4
    }
}

/// Bytes of the UTF-8 encoding of `s`, the length `str::len` reports.
pub open spec fn byte_len(s: Seq<char>) -> nat {
    vstd::utf8::encode_utf8(s).len()
}

pub proof fn lemma_byte_len_char(c: char)
    ensures
        vstd::utf8::encode_scalar(c as u32).len() == char_len(c),
{
    let u = c as u32;
    vstd::utf8::char_is_scalar(c);
    assert(u as int == c as int);
    if u <= 0x7F {
        assert(vstd::utf8::has_width_1_encoding(u));
    } else if u <= 0x7FF {
        assert(vstd::utf8::has_width_2_encoding(u));
    } else if u <= 0xFFFF {
        assert(vstd::utf8::has_width_3_encoding(u));
    } else {
        assert(vstd::utf8::has_width_4_encoding(u));
    }
}

/// The encoding of a concatenation is the concatenation of the encodings.
pub proof fn lemma_byte_len_concat(a: Seq<char>, b: Seq<char>)
    ensures
        byte_len(a + b) == byte_len(a) + byte_len(b),
    decreases a.len(),
{
    if a.len() == 0 {
        assert(a + b == b);
    } else {
        assert((a + b).drop_first() == a.drop_first() + b);
        lemma_byte_len_concat(a.drop_first(), b);
        lemma_byte_len_char(a[0]);
    }
}

/// One more character adds its encoded length.
pub proof fn lemma_byte_len_push(s: Seq<char>, c: char)
    ensures
        byte_len(s.push(c)) == byte_len(s) + char_len(c),
{
    lemma_byte_len_concat(s, seq![c]);
    assert(seq![c].drop_first() == Seq::<char>::empty());
    assert(vstd::utf8::encode_utf8(Seq::<char>::empty()).len() == 0);
    assert(vstd::utf8::encode_utf8(seq![c]) == vstd::utf8::encode_scalar(c as u32)
        + vstd::utf8::encode_utf8(Seq::<char>::empty()));
    lemma_byte_len_char(c);
    assert(s + seq![c] == s.push(c));
}

/// A part of a sequence encodes in no more bytes than the whole.
pub proof fn lemma_byte_len_subrange(s: Seq<char>, lo: int, hi: int)
    requires
        0 <= lo <= hi <= s.len(),
    ensures
        byte_len(s.subrange(lo, hi)) <= byte_len(s),
{
    assert(s == s.subrange(0, lo) + s.subrange(lo, hi) + s.subrange(hi, s.len() as int));
    lemma_byte_len_concat(s.subrange(0, lo) + s.subrange(lo, hi), s.subrange(hi, s.len() as int));
    lemma_byte_len_concat(s.subrange(0, lo), s.subrange(lo, hi));
}

pub fn char_len_exec(c: char) -> (r: usize)
    ensures
        r == char_len(c),
{
    let x = c as u32;
    if x < 0x80 {
        1
    } else if x < 0x800 {
        2
    } else if x < 0x10000 {
        3
    } else {
        4
    }
}

/// `byte_len` of `v[lo..hi]`, for characters whose whole encoding fits in
/// a `usize`.
pub fn byte_len_range(v: &Vec<char>, lo: usize, hi: usize) -> (r: usize)
    requires
        lo <= hi <= v.len(),
        byte_len(v@) <= usize::MAX,
    ensures
        r == byte_len(v@.subrange(lo as int, hi as int)),
{
    let mut n: usize = 0;
    let mut i = lo;
    proof {
        assert(v@.subrange(lo as int, lo as int) == Seq::<char>::empty());
    }
    while i < hi
        invariant
            lo <= i <= hi <= v.len(),
            byte_len(v@) <= usize::MAX,
            n == byte_len(v@.subrange(lo as int, i as int)),
        decreases hi - i,
    {
        proof {
            assert(v@.subrange(lo as int, i + 1) == v@.subrange(lo as int, i as int).push(v@[i as int]));
            lemma_byte_len_push(v@.subrange(lo as int, i as int), v@[i as int]);
            lemma_byte_len_subrange(v@, lo as int, i + 1);
        }
        n = n + char_len_exec(v[i]);
        i = i + 1;
    }
    n
}

} // verus!
