//! The text shown for a value: exact forms, and approximations written out
//! in positional decimal notation with at most thirty significant digits.
use vstd::prelude::*;
use crate::bignum::{
    Q, int_text, int_to_text, q_abs, q_eq, q_int, q_lt, q_neg, rat_denom, rat_eq, rat_from_int,
    rat_is_integer, rat_is_negative, rat_is_zero, rat_neg, rat_numer, rat_text, rat_to_integer,
    rat_to_text, lemma_tdiv_one, int_from_u64,
};
use crate::float::{FTerm, Float, float_format, float_text};
use crate::engine::types::{DiagView, Diagnostic, DiagnosticKind, dg, err0};
use crate::engine::value::{SValue, Value};
use crate::engine::ops::{consts, ok_or_fail, rational_float, rational_float_exec, res_fail, value_wf};
use crate::text::{
    chars_of, find_char, find_pattern, first_index, first_occurrence, parse_in, parse_in_range,
    byte_len, char_len_exec, lemma_byte_len_push, lemma_byte_len_subrange, push_str, string_from,
    string_of,
};

verus! {

/// The exponent written after `e+` or `e-`; zero when it does not parse as
/// an `i32`.
pub open spec fn exponent_value(t: Seq<char>) -> int {
    match parse_in(t, -0x8000_0000, 0x7fff_ffff) {
        Some(x) => x,
        None => 0,
    }
}

/// Mantissa and decimal exponent of a number in scientific notation.
#[verifier::opaque]
pub open spec fn split_exponent(s: Seq<char>) -> (Seq<char>, int) {
    match first_occurrence(s, "e+"@) {
        Some(i) => (s.take(i), exponent_value(s.skip(i + 2))),
        None => match first_occurrence(s, "e-"@) {
            Some(i) => (s.take(i), -exponent_value(s.skip(i + 2))),
            None => (s, 0),
        },
    }
}

/// Number of leading `-` characters.
pub open spec fn lead_dashes(s: Seq<char>) -> nat
    decreases s.len(),
{
    if s.len() > 0 && s[0] == '-' {
        1 + lead_dashes(s.drop_first())
    } else {
        0
    }
}

/// The characters of `s` other than `.`.
pub open spec fn without_points(s: Seq<char>) -> Seq<char>
    decreases s.len(),
{
    if s.len() == 0 {
        s
    } else if s.last() == '.' {
        without_points(s.drop_last())
    } else {
        without_points(s.drop_last()).push(s.last())
    }
}

/// The character after `c`.
pub open spec fn next_char(c: char) -> char {
    ((c as int) + 1) as char
}

/// Adds one at position `i` of a digit string, carrying to the left; a carry
/// out of the first digit prepends `1`.
pub open spec fn round_up(d: Seq<char>, i: int) -> Seq<char>
    decreases i,
{
    if i < 0 {
        d
    } else if '9' > d[i] {
        d.update(i, next_char(d[i]))
    } else if i == 0 {
        "1"@ + d.update(0, '0')
    } else {
        round_up(d.update(i, '0'), i - 1)
    }
}

/// The first thirty digits, rounded half up on the thirty-first.
pub open spec fn rounded(d: Seq<char>) -> Seq<char> {
    if d.len() > 30 {
        if d[30] >= '5' {
            round_up(d.take(30), 29)
        } else {
            d.take(30)
        }
    } else {
        d
    }
}

/// Where the decimal point goes in the digits: the byte position of the
/// mantissa's point (one when it has none) moved by the exponent, kept
/// within `0..=i32::MAX`.
pub open spec fn point_position(body: Seq<char>, e: int) -> int {
    let idx = match first_index(body, '.') {
        Some(k) => byte_len(body.take(k)) as int,
        None => 1,
    };
    let p = (if idx > 0x7fff_ffff {
        0x7fff_ffff
    } else {
        idx
    }) + e;
    if p < 0 {
        0
    } else if p > 0x7fff_ffff {
        0x7fff_ffff
    } else {
        p
    }
}

pub open spec fn zeros(n: int) -> Seq<char> {
    Seq::new(n as nat, |i: int| '0')
}

/// The digits with the decimal point placed after `point` of them, padded
/// with zeros or led by `0.` as needed.
pub open spec fn place_point(d: Seq<char>, point: int) -> Seq<char> {
    if point >= d.len() {
        d + zeros(point - d.len())
    } else if point == 0 {
        "0."@ + d
    } else {
        d.take(point) + "."@ + d.skip(point)
    }
}

/// `scientific_to_decimal`: a number printed as `[-]d.ddd[e±x]` rewritten in
/// positional notation.
pub open spec fn scientific_to_decimal(s: Seq<char>) -> Seq<char> {
    let (m, e) = split_exponent(s);
    let body = m.skip(lead_dashes(m) as int);
    let out = place_point(rounded(without_points(body)), point_position(body, e));
    if m.len() > 0 && m[0] == '-' {
        seq!['-'] + out
    } else {
        out
    }
}

fn lead_dashes_exec(v: &Vec<char>, lo: usize, hi: usize) -> (r: usize)
    requires
        lo <= hi <= v.len(),
    ensures
        lo <= r <= hi,
        r - lo == lead_dashes(v@.subrange(lo as int, hi as int)),
{
    let mut k = lo;
    while k < hi && v[k] == '-'
        invariant
            lo <= k <= hi <= v.len(),
            lead_dashes(v@.subrange(lo as int, hi as int)) == (k - lo) + lead_dashes(
                v@.subrange(k as int, hi as int),
            ),
        decreases hi - k,
    {
        assert(v@.subrange(k as int, hi as int).drop_first() == v@.subrange(k + 1, hi as int));
        k = k + 1;
    }
    k
}

fn without_points_exec(v: &Vec<char>, lo: usize, hi: usize) -> (r: Vec<char>)
    requires
        lo <= hi <= v.len(),
    ensures
        r@ == without_points(v@.subrange(lo as int, hi as int)),
{
    let mut out: Vec<char> = Vec::new();
    let mut i = lo;
    while i < hi
        invariant
            lo <= i <= hi <= v.len(),
            out@ == without_points(v@.subrange(lo as int, i as int)),
        decreases hi - i,
    {
        assert(v@.subrange(lo as int, i + 1).drop_last() == v@.subrange(lo as int, i as int));
        if v[i] != '.' {
            out.push(v[i]);
        }
        i = i + 1;
    }
    out
}

/// `byte_len` of `v[lo..hi]` when it is at most `i32::MAX`; otherwise some
/// number above `i32::MAX`.
fn byte_len_capped(v: &Vec<char>, lo: usize, hi: usize) -> (r: u64)
    requires
        lo <= hi <= v.len(),
    ensures
        r <= 0x7fff_ffff ==> r == byte_len(v@.subrange(lo as int, hi as int)),
        r > 0x7fff_ffff ==> byte_len(v@.subrange(lo as int, hi as int)) > 0x7fff_ffff,
{
    let ghost s = v@.subrange(lo as int, hi as int);
    let mut n: u64 = 0;
    let mut i = lo;
    proof {
        assert(v@.subrange(lo as int, lo as int) == Seq::<char>::empty());
    }
    while i < hi && n <= 0x7fff_ffff
        invariant
            lo <= i <= hi <= v.len(),
            s == v@.subrange(lo as int, hi as int),
            n == byte_len(v@.subrange(lo as int, i as int)),
            n <= 0x7fff_ffff + 4,
        decreases hi - i,
    {
        proof {
            assert(v@.subrange(lo as int, i + 1) == v@.subrange(lo as int, i as int).push(v@[i as int]));
            lemma_byte_len_push(v@.subrange(lo as int, i as int), v@[i as int]);
        }
        n = n + char_len_exec(v[i]) as u64;
        i = i + 1;
    }
    proof {
        assert(s.subrange(0, i - lo) == v@.subrange(lo as int, i as int));
        lemma_byte_len_subrange(s, 0, i - lo);
        if i == hi {
            assert(s.subrange(0, i - lo) == s);
        }
    }
    n
}

fn next_digit(c: char) -> (r: char)
    requires
        c < '9',
    ensures
        r == next_char(c),
{
    let b = c as u8;
    (b + 1) as char
}

fn round_up_exec(d: Vec<char>, i: usize) -> (r: Vec<char>)
    requires
        i < d@.len(),
    ensures
        r@ == round_up(d@, i as int),
    decreases i,
{
    let mut d = d;
    if '9' > d[i] {
        let c = next_digit(d[i]);
        d.set(i, c);
        d
    } else if i == 0 {
        let ghost d0 = d@;
        d.set(0, '0');
        d.insert(0, '1');
        proof {
            reveal_strlit("1");
        }
        assert(d@ == "1"@ + d0.update(0, '0'));
        d
    } else {
        d.set(i, '0');
        round_up_exec(d, i - 1)
    }
}

/// `rounded` on a digit vector.
fn rounded_exec(d: Vec<char>) -> (r: Vec<char>)
    ensures
        r@ == rounded(d@),
{
    if d.len() > 30 {
        let round = d[30] >= '5';
        let mut d = d;
        d.truncate(30);
        assert(d@.len() == 30);
        if round {
            round_up_exec(d, 29)
        } else {
            d
        }
    } else {
        d
    }
}

/// `place_point` on a digit vector.
fn place_point_exec(d: &Vec<char>, point: usize) -> (r: Vec<char>)
    ensures
        r@ == place_point(d@, point as int),
{
    let mut out: Vec<char> = Vec::new();
    if point >= d.len() {
        let mut i: usize = 0;
        while i < d.len()
            invariant
                i <= d@.len(),
                out@ == d@.take(i as int),
            decreases d@.len() - i,
        {
            out.push(d[i]);
            assert(d@.take(i + 1) == d@.take(i as int).push(d@[i as int]));
            i = i + 1;
        }
        assert(d@.take(d@.len() as int) == d@);
        let mut k: usize = 0;
        while k < point - d.len()
            invariant
                point >= d@.len(),
                k <= point - d@.len(),
                out@ == d@ + zeros(k as int),
            decreases point - d@.len() - k,
        {
            out.push('0');
            assert(zeros(k + 1) == zeros(k as int).push('0'));
            k = k + 1;
        }
        out
    } else {
        let mut i: usize = 0;
        if point == 0 {
            out.push('0');
            out.push('.');
        }
        let ghost start = out@;
        while i < d.len()
            invariant
                point < d@.len(),
                i <= d@.len(),
                point == 0 ==> start == seq!['0', '.'],
                point == 0 ==> out@ == start + d@.take(i as int),
                point > 0 && i <= point ==> out@ == d@.take(i as int),
                point > 0 && i > point ==> out@ == d@.take(point as int) + seq!['.'] + d@.subrange(
                    point as int,
                    i as int,
                ),
            decreases d@.len() - i,
        {
            if point > 0 && i == point {
                out.push('.');
            }
            out.push(d[i]);
            proof {
                assert(d@.take(i + 1) == d@.take(i as int).push(d@[i as int]));
                if i >= point {
                    assert(d@.subrange(point as int, i + 1) == d@.subrange(point as int, i as int).push(
                        d@[i as int],
                    ));
                }
            }
            i = i + 1;
        }
        proof {
            reveal_strlit("0.");
            reveal_strlit(".");
            assert(d@.take(d@.len() as int) == d@);
            assert(d@.subrange(point as int, d@.len() as int) == d@.skip(point as int));
        }
        out
    }
}

/// `split_exponent` on a vector: the end of the mantissa and the exponent.
/// The first occurrence of `p` in `v`.
fn find_in(v: &Vec<char>, p: &str) -> (r: Option<usize>)
    requires
        p@.len() > 0,
    ensures
        match r {
            Some(i) => i + p@.len() <= v@.len() && first_occurrence(v@, p@) == Some(i as int),
            None => first_occurrence(v@, p@) is None,
        },
{
    let pc = chars_of(p);
    assert(v@.subrange(0, v@.len() as int) == v@);
    find_pattern(v, 0, v.len(), pc.as_slice())
}

/// The exponent after a marker ending at `start`: its value when it parses
/// as an `i32`, zero otherwise.
fn exponent_exec(v: &Vec<char>, start: usize) -> (r: i64)
    requires
        start <= v@.len(),
    ensures
        r == exponent_value(v@.skip(start as int)),
        -0x8000_0000 <= r <= 0x7fff_ffff,
{
    let x = parse_in_range(v, start, v.len(), -0x8000_0000, 0x7fff_ffff);
    proof {
        reveal(parse_in);
    }
    assert(v@.skip(start as int) == v@.subrange(start as int, v@.len() as int));
    match x {
        Some(x) => x,
        None => 0,
    }
}

#[verifier::spinoff_prover]
#[verifier::rlimit(30)]
fn split_exponent_exec(v: &Vec<char>) -> (r: (usize, i64))
    ensures
        r.0 <= v@.len(),
        -0x8000_0000 <= r.1 <= 0x8000_0000,
        split_exponent(v@) == (v@.take(r.0 as int), r.1 as int),
{
    proof {
        reveal_strlit("e+");
        reveal_strlit("e-");
        reveal(split_exponent);
        assert("e+"@.len() == 2 && "e-"@.len() == 2);
        assert(split_exponent(v@) == match first_occurrence(v@, "e+"@) {
            Some(i) => (v@.take(i), exponent_value(v@.skip(i + 2))),
            None => match first_occurrence(v@, "e-"@) {
                Some(i) => (v@.take(i), -exponent_value(v@.skip(i + 2))),
                None => (v@, 0),
            },
        });
    }
    let n = v.len();
    match find_in(v, "e+") {
        Some(i) => {
            assert(i + 2 <= n);
            (i, exponent_exec(v, i + 2))
        },
        None => match find_in(v, "e-") {
            Some(i) => {
                assert(i + 2 <= n);
                (i, -exponent_exec(v, i + 2))
            },
            None => {
                assert(v@.take(v@.len() as int) == v@);
                (v.len(), 0)
            },
        },
    }
}

/// `point_position` for the mantissa body `v[b..mend]`.
fn point_position_exec(v: &Vec<char>, b: usize, mend: usize, e: i64) -> (r: usize)
    requires
        b <= mend <= v.len(),
        -0x8000_0000 <= e <= 0x8000_0000,
    ensures
        r == point_position(v@.subrange(b as int, mend as int), e as int),
{
    let idx: i64 = match find_char(v, b, mend, '.') {
        Some(k) => {
            let len = byte_len_capped(v, b, k);
            proof {
                assert(v@.subrange(b as int, mend as int).take(k - b) == v@.subrange(b as int, k as int));
            }
            if len > 0x7fff_ffff {
                0x7fff_ffff
            } else {
                len as i64
            }
        },
        None => 1,
    };
    let p = idx + e;
    if p < 0 {
        0
    } else if p > 0x7fff_ffff {
        0x7fff_ffff
    } else {
        p as usize
    }
}

/// `scientific_to_decimal` on text.
pub fn scientific_to_decimal_exec(s: &String) -> (r: String)
    ensures
        r@ == scientific_to_decimal(s@),
{
    let v = chars_of(s.as_str());
    let (mend, e) = split_exponent_exec(&v);
    let ghost m = v@.take(mend as int);
    assert(m == v@.subrange(0, mend as int));
    let b = lead_dashes_exec(&v, 0, mend);
    assert(m.skip(b as int) == v@.subrange(b as int, mend as int));
    let digits = rounded_exec(without_points_exec(&v, b, mend));
    let point = point_position_exec(&v, b, mend, e);
    let placed = place_point_exec(&digits, point);
    let mut out: Vec<char> = Vec::new();
    if mend > 0 && v[0] == '-' {
        out.push('-');
    }
    let mut i: usize = 0;
    let ghost start = out@;
    while i < placed.len()
        invariant
            i <= placed@.len(),
            out@ == start + placed@.take(i as int),
        decreases placed@.len() - i,
    {
        out.push(placed[i]);
        assert(placed@.take(i + 1) == placed@.take(i as int).push(placed@[i as int]));
        i = i + 1;
    }
    assert(placed@.take(placed@.len() as int) == placed@);
    string_of(&out, 0, out.len())
}

/// `format_float`: the positional decimal text of an approximation.
pub open spec fn format_float(t: FTerm) -> Seq<char> {
    scientific_to_decimal(float_text(t))
}

pub fn format_float_exec(x: &Float) -> (r: Result<String, Diagnostic>)
    ensures
        r matches Ok(s) ==> s@ == format_float(x@),
        r matches Err(d) ==> res_fail(d@),
{
    let mut cc = consts()?;
    match float_format(x, &mut cc) {
        Some(t) => Ok(scientific_to_decimal_exec(&t)),
        None => Err(err0(DiagnosticKind::Domain, "Could not format result.")),
    }
}

/// An approximation as shown: `≈ ` and its decimal text.
pub open spec fn approx_text(t: FTerm) -> Seq<char> {
    "≈ "@ + format_float(t)
}

/// Primary text and approximation of a rational: an integer alone, or the
/// fraction with its decimal approximation.
pub open spec fn rational_display(q: Q) -> (Seq<char>, Option<Seq<char>>) {
    if q.d == 1 {
        (int_text(q.n), None)
    } else {
        (int_text(q.n) + "/"@ + int_text(q.d), Some(approx_text(rational_float(q))))
    }
}

/// `display`: the primary text of a value and, for a fraction, its
/// approximation.
pub open spec fn display(v: SValue) -> (Seq<char>, Option<Seq<char>>) {
    match v {
        SValue::Rational(q) => rational_display(q),
        SValue::Approx(t) => (approx_text(t), None),
        SValue::Complex(re, im) => if im.n == 0 {
            (rat_text(re), None)
        } else if re.n == 0 {
            if q_eq(im, q_int(1)) {
                ("i"@, None)
            } else {
                (rat_text(im) + "i"@, None)
            }
        } else if im.n * im.d < 0 {
            (rat_text(re) + " - "@ + rat_text(q_neg(im)) + "i"@, None)
        } else {
            (rat_text(re) + " + "@ + rat_text(im) + "i"@, None)
        },
        SValue::Quantity(n, _, u, _, _) => {
            let (p, a) = rational_display(n);
            (
                p + " "@ + u,
                match a {
                    Some(x) => Some(x + " "@ + u),
                    None => None,
                },
            )
        },
    }
}

/// A complex value with non-zero real and imaginary parts is shown as the
/// real part, then ` - ` when the imaginary part is negative and ` + `
/// otherwise, then the magnitude of the imaginary part and `i`: the sign
/// shown is the sign of the imaginary part, so a value and its conjugate are
/// never shown alike.
pub proof fn lemma_complex_text_sign(re: Q, im: Q)
    requires
        re.n != 0,
        im.n != 0,
        re.d > 0,
        im.d > 0,
    ensures
        display(SValue::Complex(re, im)).1 is None,
        display(SValue::Complex(re, im)).0 == rat_text(re) + (if q_lt(im, q_int(0)) {
            " - "@
        } else {
            " + "@
        }) + rat_text(q_abs(im)) + "i"@,
        display(SValue::Complex(re, im)).0 != display(SValue::Complex(re, q_neg(im))).0,
{
    reveal_strlit(" - ");
    reveal_strlit(" + ");
    let k: int = rat_text(re).len() as int;
    let t1 = display(SValue::Complex(re, im)).0;
    let t2 = display(SValue::Complex(re, q_neg(im))).0;
    assert(q_lt(im, q_int(0)) == (im.n * im.d < 0));
    assert((q_neg(im).n * q_neg(im).d < 0) == !(im.n * im.d < 0)) by (nonlinear_arith)
        requires
            im.n != 0,
            im.d > 0,
    ;
    assert(t1[k + 1] != t2[k + 1]);
}

pub open spec fn text_pair(r: (String, Option<String>)) -> (Seq<char>, Option<Seq<char>>) {
    (
        r.0@,
        match r.1 {
            Some(s) => Some(s@),
            None => None,
        },
    )
}

fn rational_display_exec(q: &crate::bignum::Rat) -> (r: Result<(String, Option<String>), Diagnostic>)
    ensures
        r matches Ok(p) ==> text_pair(p) == rational_display(q@),
        r matches Err(d) ==> res_fail(d@),
        q@.d == 1 ==> r is Ok,
{
    if rat_is_integer(q) {
        let n = rat_to_integer(q);
        proof {
            lemma_tdiv_one(q@.n);
        }
        Ok((int_to_text(&n), None))
    } else {
        let mut p = int_to_text(&rat_numer(q));
        push_str(&mut p, "/");
        let d = int_to_text(&rat_denom(q));
        push_str(&mut p, d.as_str());
        let x = rational_float_exec(q)?;
        let f = format_float_exec(&x)?;
        let mut a = string_from("≈ ");
        push_str(&mut a, f.as_str());
        Ok((p, Some(a)))
    }
}

/// Showing the value needs an approximation: an approximate value, or a
/// fraction (alone or as a quantity's number) shown with its decimal form.
pub open spec fn display_floats(v: SValue) -> bool {
    match v {
        SValue::Rational(q) => q.d != 1,
        SValue::Approx(_) => true,
        SValue::Complex(_, _) => false,
        SValue::Quantity(n, _, _, _, _) => n.d != 1,
    }
}

pub fn display_exec(v: &Value) -> (r: Result<(String, Option<String>), Diagnostic>)
    ensures
        r matches Ok(p) ==> text_pair(p) == display(v@),
        r matches Err(d) ==> res_fail(d@),
        !display_floats(v@) ==> r is Ok,
{
    match v {
        Value::Rational(q) => rational_display_exec(q),
        Value::Approx(x) => {
            let f = format_float_exec(x)?;
            let mut a = string_from("≈ ");
            push_str(&mut a, f.as_str());
            Ok((a, None))
        },
        Value::Complex(re, im) => {
            if rat_is_zero(im) {
                Ok((rat_to_text(re), None))
            } else if rat_is_zero(re) {
                if rat_eq(im, &rat_from_int(&int_from_u64(1))) {
                    Ok((string_from("i"), None))
                } else {
                    let mut p = rat_to_text(im);
                    push_str(&mut p, "i");
                    Ok((p, None))
                }
            } else if rat_is_negative(im) {
                let mut p = rat_to_text(re);
                push_str(&mut p, " - ");
                let t = rat_to_text(&rat_neg(im));
                push_str(&mut p, t.as_str());
                push_str(&mut p, "i");
                Ok((p, None))
            } else {
                let mut p = rat_to_text(re);
                push_str(&mut p, " + ");
                let t = rat_to_text(im);
                push_str(&mut p, t.as_str());
                push_str(&mut p, "i");
                Ok((p, None))
            }
        },
        Value::Quantity(n, _, u, _, _) => {
            let (mut p, a) = rational_display_exec(n)?;
            push_str(&mut p, " ");
            push_str(&mut p, u.as_str());
            let a = match a {
                Some(x) => {
                    let mut x = x;
                    push_str(&mut x, " ");
                    push_str(&mut x, u.as_str());
                    Some(x)
                },
                None => None,
            };
            Ok((p, a))
        },
    }
}

} // verus!
