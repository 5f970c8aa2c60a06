//! Numeric literals: decimal with an optional fraction and exponent, and
//! hexadecimal, binary and octal integers; underscores are ignored.
use vstd::prelude::*;
use vstd::arithmetic::power::pow;
use crate::bignum::{
    int_from_u64, int_mul, int_parse, int_pow, normalize, parse_int_text, q_int, rat_from_int,
    rat_new,
};
use crate::engine::types::{DiagView, Diagnostic, DiagnosticKind, err};
use crate::engine::value::{SValue, Value};
use crate::engine::ops::{rv, value_wf};
use crate::engine::display::exponent_value;
use crate::text::{
    byte_len, byte_len_range, find_char, first_index, lemma_byte_len_concat,
    lemma_byte_len_push, lemma_byte_len_subrange, parse_in, parse_in_range, range_starts, starts,
    string_from, string_of,
};

verus! {

/// The characters of `s` other than `_`.
pub open spec fn without_underscores(s: Seq<char>) -> Seq<char>
    decreases s.len(),
{
    if s.len() == 0 {
        s
    } else if s.last() == '_' {
        without_underscores(s.drop_last())
    } else {
        without_underscores(s.drop_last()).push(s.last())
    }
}

/// A `0x`, `0b` or `0o` literal that `BigInt::parse_bytes` accepts.
pub open spec fn radix_literal(s: Seq<char>) -> Option<int> {
    if starts(s, "0x"@) {
        parse_int_text(s.skip(2), 16)
    } else if starts(s, "0b"@) {
        parse_int_text(s.skip(2), 2)
    } else if starts(s, "0o"@) {
        parse_int_text(s.skip(2), 8)
    } else {
        None
    }
}

/// The first `e` or `E`.
pub open spec fn exponent_mark(s: Seq<char>) -> Option<int> {
    if exists|i: int| 0 <= i < s.len() && (s[i] == 'e' || s[i] == 'E') {
        Some(
            choose|i: int|
                0 <= i < s.len() && (s[i] == 'e' || s[i] == 'E') && forall|j: int|
                    0 <= j < i ==> !(s[j] == 'e' || s[j] == 'E'),
        )
    } else {
        None
    }
}

/// Mantissa and exponent of a decimal literal.
pub open spec fn split_mantissa(s: Seq<char>) -> (Seq<char>, int) {
    match exponent_mark(s) {
        Some(i) => (s.take(i), exponent_value(s.skip(i + 1))),
        None => (s, 0),
    }
}

/// Whole and fractional digits of a mantissa.
pub open spec fn split_fraction(m: Seq<char>) -> (Seq<char>, Seq<char>) {
    match first_index(m, '.') {
        Some(k) => (m.take(k), m.skip(k + 1)),
        None => (m, Seq::empty()),
    }
}

/// `n * 10^p` as a rational in lowest terms.
pub open spec fn scaled(n: int, p: int) -> SValue {
    if p >= 0 {
        SValue::Rational(q_int(n * pow(10, p as nat)))
    } else {
        SValue::Rational(normalize(n, pow(10, (-p) as nat)))
    }
}

/// `parse_rational`: the exact value of a literal.
#[verifier::opaque]
pub open spec fn parse_rational(s0: Seq<char>) -> Result<SValue, DiagView> {
    let s = without_underscores(s0);
    if byte_len(s) > 1024 {
        Err(
            DiagView {
                kind: DiagnosticKind::Limit,
                message: "Literal exceeds 1024 digits."@,
                start: 0,
                end: byte_len(s) as int,
            },
        )
    } else {
        match radix_literal(s) {
            Some(n) => Ok(SValue::Rational(q_int(n))),
            None => {
                let (m, e) = split_mantissa(s);
                let (whole, frac) = split_fraction(m);
                match parse_int_text(whole + frac, 10) {
                    None => Err(
                        DiagView {
                            kind: DiagnosticKind::Lex,
                            message: "Invalid number."@,
                            start: 0,
                            end: byte_len(s) as int,
                        },
                    ),
                    Some(n) => Ok(scaled(n, e - byte_len(frac))),
                }
            },
        }
    }
}

proof fn lemma_without_underscores_len(s: Seq<char>)
    ensures
        byte_len(without_underscores(s)) <= byte_len(s),
    decreases s.len(),
{
    if s.len() > 0 {
        lemma_without_underscores_len(s.drop_last());
        assert(s == s.drop_last().push(s.last()));
        lemma_byte_len_push(s.drop_last(), s.last());
        if s.last() != '_' {
            lemma_byte_len_push(without_underscores(s.drop_last()), s.last());
        }
    }
}

fn without_underscores_exec(v: &Vec<char>, lo: usize, hi: usize) -> (r: Vec<char>)
    requires
        lo <= hi <= v.len(),
    ensures
        r@ == without_underscores(v@.subrange(lo as int, hi as int)),
{
    let mut out: Vec<char> = Vec::new();
    let mut i = lo;
    while i < hi
        invariant
            lo <= i <= hi <= v.len(),
            out@ == without_underscores(v@.subrange(lo as int, i as int)),
        decreases hi - i,
    {
        assert(v@.subrange(lo as int, i + 1).drop_last() == v@.subrange(lo as int, i as int));
        if v[i] != '_' {
            out.push(v[i]);
        }
        i = i + 1;
    }
    out
}

fn exponent_mark_exec(t: &Vec<char>) -> (r: Option<usize>)
    ensures
        match r {
            Some(i) => i < t@.len() && exponent_mark(t@) == Some(i as int),
            None => exponent_mark(t@) is None,
        },
{
    let mut i: usize = 0;
    while i < t.len()
        invariant
            i <= t@.len(),
            forall|j: int| 0 <= j < i ==> !(t@[j] == 'e' || t@[j] == 'E'),
        decreases t@.len() - i,
    {
        if t[i] == 'e' || t[i] == 'E' {
            proof {
                let k = choose|k: int|
                    0 <= k < t@.len() && (t@[k] == 'e' || t@[k] == 'E') && forall|j: int|
                        0 <= j < k ==> !(t@[j] == 'e' || t@[j] == 'E');
                if k < i {
                    assert(!(t@[k] == 'e' || t@[k] == 'E'));
                }
                if i < k {
                    assert(!(t@[i as int] == 'e' || t@[i as int] == 'E'));
                }
            }
            return Some(i);
        }
        i = i + 1;
    }
    None
}

/// The value of a radix literal in `t`, when it is one.
fn radix_literal_exec(t: &Vec<char>) -> (r: Option<crate::bignum::Int>)
    ensures
        match r {
            Some(n) => radix_literal(t@) == Some(n@),
            None => radix_literal(t@) is None,
        },
{
    let n = t.len();
    assert(t@.subrange(0, n as int) == t@);
    let radix: u32 = if range_starts(t, 0, n, "0x") {
        16
    } else if range_starts(t, 0, n, "0b") {
        2
    } else if range_starts(t, 0, n, "0o") {
        8
    } else {
        return None;
    };
    proof {
        reveal_strlit("0x");
        reveal_strlit("0b");
        reveal_strlit("0o");
    }
    let rest = string_of(t, 2, n);
    assert(t@.skip(2) == t@.subrange(2, n as int));
    int_parse(&rest, radix)
}

/// `parse_rational` over `v[lo..hi]`.
pub fn parse_rational_exec(v: &Vec<char>, lo: usize, hi: usize) -> (r: Result<Value, Diagnostic>)
    requires
        lo <= hi <= v.len(),
        byte_len(v@) <= usize::MAX,
    ensures
        rv(r) == parse_rational(v@.subrange(lo as int, hi as int)),
        r matches Ok(x) ==> value_wf(x@),
{
    reveal(parse_rational);
    let t = without_underscores_exec(v, lo, hi);
    proof {
        lemma_without_underscores_len(v@.subrange(lo as int, hi as int));
        lemma_byte_len_subrange(v@, lo as int, hi as int);
        assert(t@.subrange(0, t@.len() as int) == t@);
    }
    let size = byte_len_range(&t, 0, t.len());
    if size > 1024 {
        return Err(err(DiagnosticKind::Limit, string_from("Literal exceeds 1024 digits."), 0, size));
    }
    if let Some(n) = radix_literal_exec(&t) {
        return Ok(Value::Rational(rat_from_int(&n)));
    }
    let (mend, e): (usize, i64) = match exponent_mark_exec(&t) {
        Some(i) => {
            let x = parse_in_range(&t, i + 1, t.len(), -0x8000_0000, 0x7fff_ffff);
            proof {
                reveal(parse_in);
                assert(t@.skip(i + 1) == t@.subrange(i + 1, t@.len() as int));
            }
            (
                i,
                match x {
                    Some(x) => x,
                    None => 0,
                },
            )
        },
        None => (t.len(), 0),
    };
    let ghost m = t@.take(mend as int);
    assert(split_mantissa(t@) == (m, e as int)) by {
        if mend == t@.len() {
            assert(t@.take(mend as int) == t@);
        }
    }
    let (wend, fstart): (usize, usize) = match find_char(&t, 0, mend, '.') {
        Some(k) => (k, k + 1),
        None => (mend, mend),
    };
    assert(m == t@.subrange(0, mend as int));
    proof {
        if wend < mend {
            assert(m.take(wend as int) == t@.subrange(0, wend as int));
            assert(m.skip(wend + 1) == t@.subrange(fstart as int, mend as int));
        } else {
            assert(t@.subrange(fstart as int, mend as int) == Seq::<char>::empty());
        }
    }
    let ghost whole = t@.subrange(0, wend as int);
    let ghost frac = t@.subrange(fstart as int, mend as int);
    assert(split_fraction(m) == (whole, frac));
    let mut digits = string_of(&t, 0, wend);
    let f = string_of(&t, fstart, mend);
    crate::text::push_str(&mut digits, f.as_str());
    let n = match int_parse(&digits, 10) {
        Some(n) => n,
        None => {
            return Err(err(DiagnosticKind::Lex, string_from("Invalid number."), 0, size));
        },
    };
    proof {
        lemma_byte_len_subrange(t@, fstart as int, mend as int);
    }
    let flen = byte_len_range(&t, fstart, mend);
    let p: i64 = e - flen as i64;
    if p >= 0 {
        let scale = int_pow(&int_from_u64(10), p as u32);
        Ok(Value::Rational(rat_from_int(&int_mul(&n, &scale))))
    } else {
        let scale = int_pow(&int_from_u64(10), (-p) as u32);
        proof {
            vstd::arithmetic::power::lemma_pow_positive(10, (-p) as nat);
        }
        Ok(Value::Rational(rat_new(&n, &scale)))
    }
}

} // verus!
