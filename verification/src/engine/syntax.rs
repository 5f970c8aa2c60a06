//! Splitting an expression into its parts: parentheses, operators, calls.
use vstd::prelude::*;
use crate::text::{char_is_alpha, char_is_ident, find_char, first_index, is_alpha, is_ident_char, trim, trim_range};

verus! {

/// Number of `(` among the first `k` characters.
pub open spec fn opens(s: Seq<char>, k: int) -> nat
    decreases k,
{
    if k <= 0 {
        0
    } else {
        opens(s, k - 1) + if s[k - 1] == '(' {
            1nat
        } else {
            0nat
        }
    }
}

/// Number of `)` among the first `k` characters.
pub open spec fn closes(s: Seq<char>, k: int) -> nat
    decreases k,
{
    if k <= 0 {
        0
    } else {
        closes(s, k - 1) + if s[k - 1] == ')' {
            1nat
        } else {
            0nat
        }
    }
}

/// The first `k` characters hold as many `(` as `)`.
pub open spec fn balanced(s: Seq<char>, k: int) -> bool {
    opens(s, k) == closes(s, k)
}

/// The characters from `k` on hold as many `(` as `)`.
pub open spec fn balanced_from(s: Seq<char>, k: int) -> bool {
    opens(s, s.len() as int) - opens(s, k) == closes(s, s.len() as int) - closes(s, k)
}

/// A `)` at `i` that closes everything opened before it.
pub open spec fn closes_all_at(s: Seq<char>, i: int) -> bool {
    0 <= i < s.len() && s[i] == ')' && balanced(s, i + 1)
}

/// The first `)` that closes everything opened before it.
#[verifier::opaque]
pub open spec fn first_close(s: Seq<char>) -> Option<int> {
    if exists|i: int| closes_all_at(s, i) {
        Some(
            choose|i: int| closes_all_at(s, i) && forall|j: int| 0 <= j < i ==> !closes_all_at(s, j),
        )
    } else {
        None
    }
}

/// `strip_outer`: removes parentheses enclosing the whole expression, as
/// often as they do, then surrounding whitespace.
#[verifier::opaque]
pub open spec fn strip_outer(s: Seq<char>) -> Seq<char>
    decreases s.len(),
{
    if s.len() >= 2 && s[0] == '(' && s.last() == ')' && first_close(s) == Some(s.len() - 1) {
        strip_outer(s.subrange(1, s.len() - 1))
    } else {
        trim(s)
    }
}

/// A `^` at `i` outside every parenthesis.
pub open spec fn power_at(s: Seq<char>, i: int) -> bool {
    0 <= i < s.len() && s[i] == '^' && balanced(s, i)
}

/// `split_power`: the first `^` outside every parenthesis.
pub open spec fn split_power(s: Seq<char>) -> Option<int> {
    if exists|i: int| power_at(s, i) {
        Some(choose|i: int| power_at(s, i) && forall|j: int| 0 <= j < i ==> !power_at(s, j))
    } else {
        None
    }
}

/// A `)` at `i`, before the end, that closes everything opened before it.
pub open spec fn group_end_at(s: Seq<char>, i: int) -> bool {
    closes_all_at(s, i) && i + 1 < s.len()
}

/// `implicit_groups`: for an expression starting with `(`, the end of the
/// first parenthesized group when more follows it.
pub open spec fn implicit_groups(s: Seq<char>) -> Option<int> {
    if s.len() > 0 && s[0] == '(' && exists|i: int| group_end_at(s, i) {
        Some(choose|i: int| group_end_at(s, i) && forall|j: int| 0 <= j < i ==> !group_end_at(s, j))
    } else {
        None
    }
}

/// An operator of `ops` at `i > 0` with balanced parentheses after it.
pub open spec fn operator_at(s: Seq<char>, ops: Seq<char>, i: int) -> bool {
    0 < i < s.len() && ops.contains(s[i]) && balanced_from(s, i)
}

/// `split_operator`: the last operator of `ops` outside every parenthesis,
/// not at the start.
pub open spec fn split_operator(s: Seq<char>, ops: Seq<char>) -> Option<int> {
    if exists|i: int| operator_at(s, ops, i) {
        Some(
            choose|i: int|
                operator_at(s, ops, i) && forall|j: int| i < j < s.len() ==> !operator_at(s, ops, j),
        )
    } else {
        None
    }
}

/// `call`: `name(args)` split at the first `(`, when the rest ends with `)`;
/// gives the position of that `(`.
#[verifier::opaque]
pub open spec fn call_open(s: Seq<char>) -> Option<int> {
    match first_index(s, '(') {
        Some(k) => if k + 1 < s.len() && s.last() == ')' {
            Some(k)
        } else {
            None
        },
        None => None,
    }
}

/// `valid_name`: an ASCII letter followed by ASCII letters, digits and `_`.
pub open spec fn valid_name(s: Seq<char>) -> bool {
    s.len() > 0 && is_alpha(s[0]) && forall|i: int| 0 <= i < s.len() ==> is_ident_char(#[trigger] s[i])
}

pub proof fn lemma_counts_bound(s: Seq<char>, k: int)
    requires
        0 <= k,
    ensures
        opens(s, k) <= k,
        closes(s, k) <= k,
    decreases k,
{
    if k > 0 {
        lemma_counts_bound(s, k - 1);
    }
}

/// Finds the first `)` in `v[lo..hi]` that closes everything opened before
/// it, as an index relative to `lo`.
pub fn find_first_close(v: &Vec<char>, lo: usize, hi: usize) -> (r: Option<usize>)
    requires
        lo <= hi <= v.len(),
    ensures
        r matches Some(i) ==> first_close(v@.subrange(lo as int, hi as int)) == Some(i as int),
        r is None ==> first_close(v@.subrange(lo as int, hi as int)) is None,
        r matches Some(i) ==> i < hi - lo,
{
    reveal(first_close);
    let ghost s = v@.subrange(lo as int, hi as int);
    let mut i: usize = 0;
    let mut o: usize = 0;
    let mut c: usize = 0;
    while i < hi - lo
        invariant
            lo <= hi <= v.len(),
            s == v@.subrange(lo as int, hi as int),
            i <= hi - lo,
            o == opens(s, i as int),
            c == closes(s, i as int),
            o <= i,
            c <= i,
            forall|j: int| 0 <= j < i ==> !closes_all_at(s, j),
        decreases hi - lo - i,
    {
        let ch = v[lo + i];
        assert(ch == s[i as int]);
        if ch == '(' {
            o = o + 1;
        } else if ch == ')' {
            c = c + 1;
            if o == c {
                proof {
                    assert(closes_all_at(s, i as int));
                    reveal(first_close);
                    let k = choose|k: int|
                        closes_all_at(s, k) && forall|j: int| 0 <= j < k ==> !closes_all_at(s, j);
                    if k < i {
                        assert(!closes_all_at(s, k));
                    }
                    if i < k {
                        assert(!closes_all_at(s, i as int));
                    }
                }
                return Some(i);
            }
        }
        i = i + 1;
    }
    proof {
        assert forall|j: int| !closes_all_at(s, j) by {
            if 0 <= j < s.len() {
            }
        }
    }
    None
}

/// The condition under which `strip_outer` removes one pair of parentheses.
pub open spec fn strips(s: Seq<char>) -> bool {
    s.len() >= 2 && s[0] == '(' && s.last() == ')' && first_close(s) == Some(s.len() - 1)
}

pub proof fn lemma_strip_step(s: Seq<char>)
    ensures
        strips(s) ==> strip_outer(s) == strip_outer(s.subrange(1, s.len() - 1)),
        !strips(s) ==> strip_outer(s) == trim(s),
{
    reveal(strip_outer);
}

/// Whether `strip_outer` removes the parentheses around `v[a..b]`.
fn strips_range(v: &Vec<char>, a: usize, b: usize) -> (r: bool)
    requires
        a <= b <= v.len(),
    ensures
        r == strips(v@.subrange(a as int, b as int)),
{
    let ghost s = v@.subrange(a as int, b as int);
    if b - a < 2 || v[a] != '(' || v[b - 1] != ')' {
        assert(b - a >= 2 ==> s[0] == v@[a as int] && s.last() == v@[b - 1]);
        return false;
    }
    assert(s[0] == v@[a as int]);
    assert(s.last() == v@[b - 1]);
    match find_first_close(v, a, b) {
        Some(i) => i == b - a - 1,
        None => false,
    }
}

/// `strip_outer` over `v[lo..hi]`.
pub fn strip_outer_range(v: &Vec<char>, lo: usize, hi: usize) -> (r: (usize, usize))
    requires
        lo <= hi <= v.len(),
    ensures
        lo <= r.0 <= r.1 <= hi,
        v@.subrange(r.0 as int, r.1 as int) == strip_outer(v@.subrange(lo as int, hi as int)),
{
    let mut a = lo;
    let mut b = hi;
    while strips_range(v, a, b)
        invariant
            lo <= a <= b <= hi <= v.len(),
            strip_outer(v@.subrange(a as int, b as int)) == strip_outer(
                v@.subrange(lo as int, hi as int),
            ),
        decreases b - a,
    {
        let ghost s = v@.subrange(a as int, b as int);
        proof {
            lemma_strip_step(s);
        }
        assert(s.subrange(1, s.len() - 1) == v@.subrange(a + 1, b - 1));
        a = a + 1;
        b = b - 1;
    }
    proof {
        lemma_strip_step(v@.subrange(a as int, b as int));
    }
    trim_range(v, a, b)
}

/// `split_power` over `v[lo..hi]`, as an index relative to `lo`.
pub fn find_power(v: &Vec<char>, lo: usize, hi: usize) -> (r: Option<usize>)
    requires
        lo <= hi <= v.len(),
    ensures
        r matches Some(i) ==> split_power(v@.subrange(lo as int, hi as int)) == Some(i as int),
        r is None ==> split_power(v@.subrange(lo as int, hi as int)) is None,
        r matches Some(i) ==> i < hi - lo,
{
    let ghost s = v@.subrange(lo as int, hi as int);
    let mut i: usize = 0;
    let mut o: usize = 0;
    let mut c: usize = 0;
    while i < hi - lo
        invariant
            lo <= hi <= v.len(),
            s == v@.subrange(lo as int, hi as int),
            i <= hi - lo,
            o == opens(s, i as int),
            c == closes(s, i as int),
            o <= i,
            c <= i,
            forall|j: int| 0 <= j < i ==> !power_at(s, j),
        decreases hi - lo - i,
    {
        let ch = v[lo + i];
        assert(ch == s[i as int]);
        if ch == '(' {
            o = o + 1;
        } else if ch == ')' {
            c = c + 1;
        } else if ch == '^' && o == c {
            proof {
                assert(power_at(s, i as int));
                let k = choose|k: int| power_at(s, k) && forall|j: int| 0 <= j < k ==> !power_at(s, j);
                if k < i {
                    assert(!power_at(s, k));
                }
                if i < k {
                    assert(!power_at(s, i as int));
                }
            }
            return Some(i);
        }
        i = i + 1;
    }
    proof {
        assert forall|j: int| !power_at(s, j) by {
            if 0 <= j < s.len() {
            }
        }
    }
    None
}

/// `implicit_groups` over `v[lo..hi]`, as an index relative to `lo`.
pub fn find_group_end(v: &Vec<char>, lo: usize, hi: usize) -> (r: Option<usize>)
    requires
        lo <= hi <= v.len(),
    ensures
        r matches Some(i) ==> implicit_groups(v@.subrange(lo as int, hi as int)) == Some(i as int),
        r is None ==> implicit_groups(v@.subrange(lo as int, hi as int)) is None,
        r matches Some(i) ==> i + 1 < hi - lo,
{
    let ghost s = v@.subrange(lo as int, hi as int);
    if lo == hi || v[lo] != '(' {
        return None;
    }
    let mut i: usize = 0;
    let mut o: usize = 0;
    let mut c: usize = 0;
    while i < hi - lo
        invariant
            lo < hi <= v.len(),
            s == v@.subrange(lo as int, hi as int),
            s[0] == '(',
            i <= hi - lo,
            o == opens(s, i as int),
            c == closes(s, i as int),
            o <= i,
            c <= i,
            forall|j: int| 0 <= j < i ==> !group_end_at(s, j),
        decreases hi - lo - i,
    {
        let ch = v[lo + i];
        assert(ch == s[i as int]);
        if ch == '(' {
            o = o + 1;
        } else if ch == ')' {
            c = c + 1;
            if o == c && i + 1 < hi - lo {
                proof {
                    assert(group_end_at(s, i as int));
                    let k = choose|k: int|
                        group_end_at(s, k) && forall|j: int| 0 <= j < k ==> !group_end_at(s, j);
                    if k < i {
                        assert(!group_end_at(s, k));
                    }
                    if i < k {
                        assert(!group_end_at(s, i as int));
                    }
                }
                return Some(i);
            }
        }
        i = i + 1;
    }
    proof {
        assert forall|j: int| !group_end_at(s, j) by {
            if 0 <= j < s.len() {
            }
        }
    }
    None
}

pub proof fn lemma_suffix_counts(s: Seq<char>, i: int)
    requires
        0 <= i < s.len(),
    ensures
        opens(s, i + 1) == opens(s, i) + if s[i] == '(' {
            1nat
        } else {
            0nat
        },
        closes(s, i + 1) == closes(s, i) + if s[i] == ')' {
            1nat
        } else {
            0nat
        },
{
}

/// `split_operator` over `v[lo..hi]`, as an index relative to `lo`.
pub fn find_operator(v: &Vec<char>, lo: usize, hi: usize, ops: &[char]) -> (r: Option<usize>)
    requires
        lo <= hi <= v.len(),
    ensures
        r matches Some(i) ==> split_operator(v@.subrange(lo as int, hi as int), ops@) == Some(i as int),
        r is None ==> split_operator(v@.subrange(lo as int, hi as int), ops@) is None,
        r matches Some(i) ==> 0 < i < hi - lo,
{
    let ghost s = v@.subrange(lo as int, hi as int);
    let n = hi - lo;
    let mut i: usize = n;
    // `(` and `)` counted from `i` to the end
    let mut o: usize = 0;
    let mut c: usize = 0;
    proof {
        lemma_counts_bound(s, n as int);
    }
    while i > 0
        invariant
            lo <= hi <= v.len(),
            n == hi - lo,
            s == v@.subrange(lo as int, hi as int),
            i <= n,
            o == opens(s, n as int) - opens(s, i as int),
            c == closes(s, n as int) - closes(s, i as int),
            opens(s, i as int) <= opens(s, n as int),
            closes(s, i as int) <= closes(s, n as int),
            o <= n - i,
            c <= n - i,
            forall|j: int| i <= j < n ==> !operator_at(s, ops@, j),
        decreases i,
    {
        let k = i - 1;
        let ch = v[lo + k];
        assert(ch == s[k as int]);
        proof {
            lemma_suffix_counts(s, k as int);
        }
        if ch == ')' {
            c = c + 1;
        } else if ch == '(' {
            o = o + 1;
        }
        if o == c && k > 0 {
            let mut found = false;
            let mut m: usize = 0;
            while m < ops.len()
                invariant
                    m <= ops@.len(),
                    found == exists|t: int| 0 <= t < m && ops@[t] == ch,
                decreases ops@.len() - m,
            {
                if ops[m] == ch {
                    found = true;
                }
                m = m + 1;
            }
            if found {
                proof {
                    assert(operator_at(s, ops@, k as int));
                    let q = choose|q: int|
                        operator_at(s, ops@, q) && forall|j: int|
                            q < j < s.len() ==> !operator_at(s, ops@, j);
                    if q < k {
                        assert(!operator_at(s, ops@, k as int));
                    }
                    if k < q {
                        assert(!operator_at(s, ops@, q));
                    }
                }
                return Some(k);
            } else {
                assert(!ops@.contains(ch));
            }
        }
        i = k;
    }
    proof {
        assert forall|j: int| !operator_at(s, ops@, j) by {
        }
    }
    None
}

/// `call` over `v[lo..hi]`: the absolute position of the first `(` when the
/// rest ends with `)`.
pub fn find_call(v: &Vec<char>, lo: usize, hi: usize) -> (r: Option<usize>)
    requires
        lo <= hi <= v.len(),
    ensures
        r matches Some(k) ==> call_open(v@.subrange(lo as int, hi as int)) == Some(k - lo),
        r is None ==> call_open(v@.subrange(lo as int, hi as int)) is None,
        r matches Some(k) ==> lo <= k && k + 1 < hi,
{
    let ghost s = v@.subrange(lo as int, hi as int);
    reveal(call_open);
    match find_char(v, lo, hi, '(') {
        Some(k) => {
            if k + 1 < hi && v[hi - 1] == ')' {
                assert(s.last() == v@[hi - 1]);
                Some(k)
            } else {
                assert(k + 1 < hi ==> s.last() == v@[hi - 1]);
                None
            }
        },
        None => None,
    }
}

/// `valid_name` over `v[lo..hi]`.
pub fn is_valid_name(v: &Vec<char>, lo: usize, hi: usize) -> (b: bool)
    requires
        lo <= hi <= v.len(),
    ensures
        b == valid_name(v@.subrange(lo as int, hi as int)),
{
    let ghost s = v@.subrange(lo as int, hi as int);
    if lo == hi || !char_is_alpha(v[lo]) {
        return false;
    }
    let mut i = lo;
    while i < hi
        invariant
            lo <= i <= hi <= v.len(),
            s == v@.subrange(lo as int, hi as int),
            forall|j: int| 0 <= j < i - lo ==> is_ident_char(#[trigger] s[j]),
        decreases hi - i,
    {
        if !char_is_ident(v[i]) {
            assert(!is_ident_char(s[i - lo]));
            return false;
        }
        i = i + 1;
    }
    true
}

} // verus!
