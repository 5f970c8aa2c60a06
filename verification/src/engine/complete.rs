//! Completion of the word before the cursor: functions, constants, units
//! and variables whose names start with it, in the order of their names.
use vstd::prelude::*;
use crate::engine::types::{Completion, CompletionKind};
use crate::engine::vars::{Var, VarView, chars_lt, seq_lt, vars_view};
use crate::text::{
    byte_len, byte_len_range, char_len, char_len_exec, chars_of, is_ident_char, char_is_ident,
    lemma_byte_len_push, lemma_byte_len_subrange, range_starts, starts, string_from, sub_vec,
};

verus! {

/// The functions, constants and units offered for completion, in the
/// order of their names.
pub open spec fn builtin_entry(k: int) -> (Seq<char>, CompletionKind) {
    if k == 0 {
        ("A"@, CompletionKind::Unit)
    } else if k == 1 {
        ("B"@, CompletionKind::Unit)
    } else if k == 2 {
        ("C"@, CompletionKind::Unit)
    } else if k == 3 {
        ("F"@, CompletionKind::Unit)
    } else if k == 4 {
        ("Hz"@, CompletionKind::Unit)
    } else if k == 5 {
        ("J"@, CompletionKind::Unit)
    } else if k == 6 {
        ("K"@, CompletionKind::Unit)
    } else if k == 7 {
        ("L"@, CompletionKind::Unit)
    } else if k == 8 {
        ("N"@, CompletionKind::Unit)
    } else if k == 9 {
        ("Ohm"@, CompletionKind::Unit)
    } else if k == 10 {
        ("Pa"@, CompletionKind::Unit)
    } else if k == 11 {
        ("V"@, CompletionKind::Unit)
    } else if k == 12 {
        ("W"@, CompletionKind::Unit)
    } else if k == 13 {
        ("abs"@, CompletionKind::Function)
    } else if k == 14 {
        ("bit"@, CompletionKind::Unit)
    } else if k == 15 {
        ("cbrt"@, CompletionKind::Function)
    } else if k == 16 {
        ("cd"@, CompletionKind::Unit)
    } else if k == 17 {
        ("cos"@, CompletionKind::Function)
    } else if k == 18 {
        ("degC"@, CompletionKind::Unit)
    } else if k == 19 {
        ("degF"@, CompletionKind::Unit)
    } else if k == 20 {
        ("e"@, CompletionKind::Constant)
    } else if k == 21 {
        ("exp"@, CompletionKind::Function)
    } else if k == 22 {
        ("ft"@, CompletionKind::Unit)
    } else if k == 23 {
        ("g"@, CompletionKind::Unit)
    } else if k == 24 {
        ("gal"@, CompletionKind::Unit)
    } else if k == 25 {
        ("h"@, CompletionKind::Unit)
    } else if k == 26 {
        ("i"@, CompletionKind::Constant)
    } else if k == 27 {
        ("in"@, CompletionKind::Unit)
    } else if k == 28 {
        ("kg"@, CompletionKind::Unit)
    } else if k == 29 {
        ("kmh"@, CompletionKind::Unit)
    } else if k == 30 {
        ("lb"@, CompletionKind::Unit)
    } else if k == 31 {
        ("ln"@, CompletionKind::Function)
    } else if k == 32 {
        ("log"@, CompletionKind::Function)
    } else if k == 33 {
        ("log10"@, CompletionKind::Function)
    } else if k == 34 {
        ("log2"@, CompletionKind::Function)
    } else if k == 35 {
        ("m"@, CompletionKind::Unit)
    } else if k == 36 {
        ("mi"@, CompletionKind::Unit)
    } else if k == 37 {
        ("min"@, CompletionKind::Unit)
    } else if k == 38 {
        ("mol"@, CompletionKind::Unit)
    } else if k == 39 {
        ("mph"@, CompletionKind::Unit)
    } else if k == 40 {
        ("oz"@, CompletionKind::Unit)
    } else if k == 41 {
        ("pi"@, CompletionKind::Constant)
    } else if k == 42 {
        ("rad"@, CompletionKind::Unit)
    } else if k == 43 {
        ("s"@, CompletionKind::Unit)
    } else if k == 44 {
        ("sin"@, CompletionKind::Function)
    } else if k == 45 {
        ("sqrt"@, CompletionKind::Function)
    } else if k == 46 {
        ("tan"@, CompletionKind::Function)
    } else if k == 47 {
        ("tau"@, CompletionKind::Constant)
    } else {
        ("yd"@, CompletionKind::Unit)
    }
}

fn builtin_entry_exec(k: usize) -> (r: (&'static str, CompletionKind))
    requires
        k < 49,
    ensures
        (r.0@, r.1) == builtin_entry(k as int),
{
    match k {
        0 => ("A", CompletionKind::Unit),
        1 => ("B", CompletionKind::Unit),
        2 => ("C", CompletionKind::Unit),
        3 => ("F", CompletionKind::Unit),
        4 => ("Hz", CompletionKind::Unit),
        5 => ("J", CompletionKind::Unit),
        6 => ("K", CompletionKind::Unit),
        7 => ("L", CompletionKind::Unit),
        8 => ("N", CompletionKind::Unit),
        9 => ("Ohm", CompletionKind::Unit),
        10 => ("Pa", CompletionKind::Unit),
        11 => ("V", CompletionKind::Unit),
        12 => ("W", CompletionKind::Unit),
        13 => ("abs", CompletionKind::Function),
        14 => ("bit", CompletionKind::Unit),
        15 => ("cbrt", CompletionKind::Function),
        16 => ("cd", CompletionKind::Unit),
        17 => ("cos", CompletionKind::Function),
        18 => ("degC", CompletionKind::Unit),
        19 => ("degF", CompletionKind::Unit),
        20 => ("e", CompletionKind::Constant),
        21 => ("exp", CompletionKind::Function),
        22 => ("ft", CompletionKind::Unit),
        23 => ("g", CompletionKind::Unit),
        24 => ("gal", CompletionKind::Unit),
        25 => ("h", CompletionKind::Unit),
        26 => ("i", CompletionKind::Constant),
        27 => ("in", CompletionKind::Unit),
        28 => ("kg", CompletionKind::Unit),
        29 => ("kmh", CompletionKind::Unit),
        30 => ("lb", CompletionKind::Unit),
        31 => ("ln", CompletionKind::Function),
        32 => ("log", CompletionKind::Function),
        33 => ("log10", CompletionKind::Function),
        34 => ("log2", CompletionKind::Function),
        35 => ("m", CompletionKind::Unit),
        36 => ("mi", CompletionKind::Unit),
        37 => ("min", CompletionKind::Unit),
        38 => ("mol", CompletionKind::Unit),
        39 => ("mph", CompletionKind::Unit),
        40 => ("oz", CompletionKind::Unit),
        41 => ("pi", CompletionKind::Constant),
        42 => ("rad", CompletionKind::Unit),
        43 => ("s", CompletionKind::Unit),
        44 => ("sin", CompletionKind::Function),
        45 => ("sqrt", CompletionKind::Function),
        46 => ("tan", CompletionKind::Function),
        47 => ("tau", CompletionKind::Constant),
        _ => ("yd", CompletionKind::Unit),
    }
}

/// The offered names and their kinds: the table merged with the variables,
/// a table entry before a variable of the same name.
pub open spec fn merge_entries(
    b: Seq<(Seq<char>, CompletionKind)>,
    v: Seq<(Seq<char>, CompletionKind)>,
) -> Seq<(Seq<char>, CompletionKind)>
    decreases b.len() + v.len(),
{
    if b.len() == 0 {
        v
    } else if v.len() == 0 {
        b
    } else if seq_lt(v[0].0, b[0].0) {
        seq![v[0]] + merge_entries(b, v.drop_first())
    } else {
        seq![b[0]] + merge_entries(b.drop_first(), v)
    }
}

pub open spec fn builtins() -> Seq<(Seq<char>, CompletionKind)> {
    Seq::new(49, |k: int| builtin_entry(k))
}

pub open spec fn variable_entries(vars: Seq<VarView>) -> Seq<(Seq<char>, CompletionKind)> {
    Seq::new(vars.len(), |i: int| (vars[i].name, CompletionKind::Variable))
}

/// The entries whose names start with `prefix`, in order.
pub open spec fn matching(e: Seq<(Seq<char>, CompletionKind)>, prefix: Seq<char>) -> Seq<
    (Seq<char>, CompletionKind),
>
    decreases e.len(),
{
    if e.len() == 0 {
        e
    } else if starts(e[0].0, prefix) {
        seq![e[0]] + matching(e.drop_first(), prefix)
    } else {
        matching(e.drop_first(), prefix)
    }
}

/// The character index whose byte offset is `cursor`, if `cursor` is a
/// character boundary of `s`.
pub open spec fn cursor_index(s: Seq<char>, cursor: int) -> Option<int> {
    if exists|k: int| 0 <= k <= s.len() && byte_len(s.take(k)) == cursor {
        Some(choose|k: int| 0 <= k <= s.len() && byte_len(s.take(k)) == cursor)
    } else {
        None
    }
}

/// Start of the identifier that ends at `k`: after the last character
/// before `k` that cannot be part of one.
pub open spec fn word_start(s: Seq<char>, k: int) -> int
    decreases k,
{
    if k <= 0 {
        0
    } else if !is_ident_char(s[k - 1]) {
        k
    } else {
        word_start(s, k - 1)
    }
}

/// A completion as plain values.
pub struct CompletionView {
    pub start: int,
    pub end: int,
    pub insert: Seq<char>,
    pub display: Seq<char>,
    pub kind: CompletionKind,
}

pub open spec fn completion_view(c: Completion) -> CompletionView {
    CompletionView {
        start: c.replacement.start as int,
        end: c.replacement.end as int,
        insert: c.insert@,
        display: c.display@,
        kind: c.kind,
    }
}

pub open spec fn completions_view(c: Seq<Completion>) -> Seq<CompletionView> {
    Seq::new(c.len(), |i: int| completion_view(c[i]))
}

/// `complete`: the names that start with the identifier before the byte
/// offset `cursor`, each replacing that identifier.
pub open spec fn complete_spec(vars: Seq<VarView>, input: Seq<char>, cursor: int) -> Seq<CompletionView> {
    match cursor_index(input, cursor) {
        None => Seq::empty(),
        Some(k) => {
            let j = word_start(input, k);
            let start = byte_len(input.take(j)) as int;
            let found = matching(merge_entries(builtins(), variable_entries(vars)), input.subrange(j, k));
            Seq::new(
                found.len(),
                |i: int|
                    CompletionView {
                        start,
                        end: cursor,
                        insert: found[i].0,
                        display: found[i].0,
                        kind: found[i].1,
                    },
            )
        },
    }
}

/// Byte offsets grow with every character.
proof fn lemma_byte_len_take_grows(s: Seq<char>, a: int, b: int)
    requires
        0 <= a < b <= s.len(),
    ensures
        byte_len(s.take(a)) < byte_len(s.take(b)),
    decreases b - a,
{
    assert(s.take(a + 1) == s.take(a).push(s[a]));
    lemma_byte_len_push(s.take(a), s[a]);
    if a + 1 < b {
        lemma_byte_len_take_grows(s, a + 1, b);
    }
}

proof fn lemma_cursor_index(s: Seq<char>, cursor: int, k: int)
    requires
        0 <= k <= s.len(),
        byte_len(s.take(k)) == cursor,
    ensures
        cursor_index(s, cursor) == Some(k),
{
    let c = choose|m: int| 0 <= m <= s.len() && byte_len(s.take(m)) == cursor;
    if c < k {
        lemma_byte_len_take_grows(s, c, k);
    }
    if k < c {
        lemma_byte_len_take_grows(s, k, c);
    }
}

/// The character index of byte offset `cursor` in `v`, if it is a boundary.
pub fn cursor_index_exec(v: &Vec<char>, cursor: usize) -> (r: Option<usize>)
    requires
        byte_len(v@) <= usize::MAX,
    ensures
        match r {
            Some(k) => k <= v@.len() && cursor_index(v@, cursor as int) == Some(k as int),
            None => cursor_index(v@, cursor as int) is None,
        },
{
    let mut k: usize = 0;
    let mut acc: usize = 0;
    assert(v@.take(0) == Seq::<char>::empty());
    while k < v.len() && acc < cursor
        invariant
            k <= v@.len(),
            byte_len(v@) <= usize::MAX,
            acc == byte_len(v@.take(k as int)),
            forall|m: int| 0 <= m < k ==> byte_len(#[trigger] v@.take(m)) < cursor,
        decreases v@.len() - k,
    {
        proof {
            assert(v@.take(k + 1) == v@.take(k as int).push(v@[k as int]));
            lemma_byte_len_push(v@.take(k as int), v@[k as int]);
            lemma_byte_len_subrange(v@, 0, k + 1);
            assert(v@.subrange(0, k + 1) == v@.take(k + 1));
        }
        acc = acc + char_len_exec(v[k]);
        k = k + 1;
    }
    if acc == cursor {
        proof {
            lemma_cursor_index(v@, cursor as int, k as int);
        }
        Some(k)
    } else {
        proof {
            assert forall|m: int| 0 <= m <= v@.len() implies byte_len(#[trigger] v@.take(m)) != cursor by {
                if m > k {
                    lemma_byte_len_take_grows(v@, k as int, m);
                }
            }
        }
        None
    }
}

fn word_start_exec(v: &Vec<char>, k: usize) -> (r: usize)
    requires
        k <= v.len(),
    ensures
        r == word_start(v@, k as int),
        r <= k,
{
    let mut j = k;
    while j > 0 && char_is_ident(v[j - 1])
        invariant
            j <= k <= v@.len(),
            word_start(v@, k as int) == word_start(v@, j as int),
        decreases j,
    {
        j = j - 1;
    }
    j
}

/// Completions of the entries `found`, each replacing `start..end`.
pub open spec fn as_completions(found: Seq<(Seq<char>, CompletionKind)>, start: int, end: int) -> Seq<
    CompletionView,
> {
    Seq::new(
        found.len(),
        |i: int|
            CompletionView { start, end, insert: found[i].0, display: found[i].0, kind: found[i].1 },
    )
}

/// Whether `name` starts with `v[lo..hi]`.
fn starts_with_range(name: &Vec<char>, v: &Vec<char>, lo: usize, hi: usize) -> (r: bool)
    requires
        lo <= hi <= v.len(),
    ensures
        r == starts(name@, v@.subrange(lo as int, hi as int)),
{
    if hi - lo > name.len() {
        return false;
    }
    let mut i: usize = 0;
    while i < hi - lo
        invariant
            lo <= hi <= v.len(),
            hi - lo <= name@.len(),
            i <= hi - lo,
            forall|m: int| 0 <= m < i ==> name@[m] == v@[lo + m],
        decreases hi - lo - i,
    {
        if name[i] != v[lo + i] {
            assert(name@.take((hi - lo) as int)[i as int] != v@.subrange(lo as int, hi as int)[i as int]);
            return false;
        }
        i = i + 1;
    }
    assert(name@.take((hi - lo) as int) == v@.subrange(lo as int, hi as int));
    true
}

/// One step of the merge: the first entry and the rest.
proof fn lemma_merge_step(b: Seq<(Seq<char>, CompletionKind)>, v: Seq<(Seq<char>, CompletionKind)>, take_v: bool)
    requires
        b.len() + v.len() > 0,
        take_v == (v.len() > 0 && (b.len() == 0 || seq_lt(v[0].0, b[0].0))),
    ensures
        take_v ==> merge_entries(b, v) == seq![v[0]] + merge_entries(b, v.drop_first()),
        !take_v ==> merge_entries(b, v) == seq![b[0]] + merge_entries(b.drop_first(), v),
{
    if b.len() == 0 {
        assert(v == seq![v[0]] + v.drop_first());
        assert(merge_entries(b, v.drop_first()) == v.drop_first());
    } else if v.len() == 0 {
        assert(b == seq![b[0]] + b.drop_first());
        assert(merge_entries(b.drop_first(), v) == b.drop_first());
    }
}

proof fn lemma_matching_cons(e: (Seq<char>, CompletionKind), rest: Seq<(Seq<char>, CompletionKind)>, prefix: Seq<char>)
    ensures
        matching(seq![e] + rest, prefix) == (if starts(e.0, prefix) {
            seq![e]
        } else {
            Seq::empty()
        }) + matching(rest, prefix),
{
    assert((seq![e] + rest).drop_first() == rest);
    assert((seq![e] + rest)[0] == e);
}

/// Every entry kept by `matching` starts with the prefix.
proof fn lemma_matching_starts(e: Seq<(Seq<char>, CompletionKind)>, prefix: Seq<char>)
    ensures
        forall|i: int|
            0 <= i < matching(e, prefix).len() ==> starts(#[trigger] matching(e, prefix)[i].0, prefix),
    decreases e.len(),
{
    if e.len() > 0 {
        lemma_matching_starts(e.drop_first(), prefix);
        let m = matching(e, prefix);
        let rest = matching(e.drop_first(), prefix);
        if starts(e[0].0, prefix) {
            assert forall|i: int| 0 <= i < m.len() implies starts(#[trigger] m[i].0, prefix) by {
                if i > 0 {
                    assert(m[i] == rest[i - 1]);
                }
            }
        }
    }
}

/// The start of the identifier ending at `k` lies between the start of
/// the text and `k`.
proof fn lemma_word_start_bounds(s: Seq<char>, k: int)
    requires
        0 <= k,
    ensures
        0 <= word_start(s, k) <= k,
    decreases k,
{
    if k > 0 && is_ident_char(s[k - 1]) {
        lemma_word_start_bounds(s, k - 1);
    }
}

/// A completion offered at the end of the input names something that
/// starts with the identifier before the end, and replaces exactly that
/// identifier: its byte range runs from the identifier's start to the end.
pub proof fn lemma_completion_replaces_word(vars: Seq<VarView>, input: Seq<char>, i: int)
    requires
        0 <= i < complete_spec(vars, input, byte_len(input) as int).len(),
    ensures
        ({
            let c = complete_spec(vars, input, byte_len(input) as int)[i];
            let j = word_start(input, input.len() as int);
            &&& 0 <= j <= input.len()
            &&& cursor_index(input, c.start) == Some(j)
            &&& cursor_index(input, c.end) == Some(input.len() as int)
            &&& 0 <= c.start <= c.end == byte_len(input)
            &&& starts(c.insert, input.subrange(j, input.len() as int))
        }),
{
    let n = input.len() as int;
    assert(input.take(n) == input);
    lemma_cursor_index(input, byte_len(input) as int, n);
    let j = word_start(input, n);
    lemma_word_start_bounds(input, n);
    lemma_cursor_index(input, byte_len(input.take(j)) as int, j);
    lemma_byte_len_subrange(input, 0, j);
    assert(input.subrange(0, j) == input.take(j));
    lemma_matching_starts(
        merge_entries(builtins(), variable_entries(vars)),
        input.subrange(j, n),
    );
}

/// `complete` for the variables `vars`.
pub fn complete_exec(vars: &Vec<Var>, input: &str, cursor: usize) -> (r: Vec<Completion>)
    ensures
        completions_view(r@) == complete_spec(vars_view(vars@), input@, cursor as int),
{
    let nbytes = input.as_bytes().len();
    let v = chars_of(input);
    assert(byte_len(v@) == nbytes);
    let k = match cursor_index_exec(&v, cursor) {
        Some(k) => k,
        None => {
            let none: Vec<Completion> = Vec::new();
            assert(completions_view(none@) == Seq::<CompletionView>::empty());
            return none;
        },
    };
    let j = word_start_exec(&v, k);
    proof {
        lemma_byte_len_subrange(v@, 0, j as int);
        assert(v@.subrange(0, j as int) == v@.take(j as int));
    }
    let start = byte_len_range(&v, 0, j);
    let ghost bs = builtins();
    let ghost vs = variable_entries(vars_view(vars@));
    let ghost prefix = v@.subrange(j as int, k as int);
    let ghost total = as_completions(matching(merge_entries(bs, vs), prefix), start as int, cursor as int);
    let mut out: Vec<Completion> = Vec::new();
    let mut bi: usize = 0;
    let mut vj: usize = 0;
    assert(bs.skip(0) == bs && vs.skip(0) == vs);
    while bi < 49 || vj < vars.len()
        invariant
            bi <= 49,
            vj <= vars@.len(),
            j <= k <= v@.len(),
            bs == builtins(),
            vs == variable_entries(vars_view(vars@)),
            prefix == v@.subrange(j as int, k as int),
            completions_view(out@) + as_completions(
                matching(merge_entries(bs.skip(bi as int), vs.skip(vj as int)), prefix),
                start as int,
                cursor as int,
            ) == total,
        decreases 49 - bi + vars@.len() - vj,
    {
        let take_var = if vj < vars.len() {
            if bi == 49 {
                true
            } else {
                let (bn, _) = builtin_entry_exec(bi);
                chars_lt(&chars_of(vars[vj].name.as_str()), &chars_of(bn))
            }
        } else {
            false
        };
        let ghost rest_b = bs.skip(bi as int);
        let ghost rest_v = vs.skip(vj as int);
        proof {
            if vj < vars@.len() {
                assert(rest_v[0] == (vars@[vj as int].name@, CompletionKind::Variable));
            }
            if bi < 49 {
                assert(rest_b[0] == builtin_entry(bi as int));
            }
            lemma_merge_step(rest_b, rest_v, take_var);
            if bi < 49 {
                assert(rest_b.drop_first() == bs.skip(bi + 1));
            }
            if vj < vars@.len() {
                assert(rest_v.drop_first() == vs.skip(vj + 1));
            }
        }
        let (name, kind): (Vec<char>, CompletionKind) = if take_var {
            (chars_of(vars[vj].name.as_str()), CompletionKind::Variable)
        } else {
            let (bn, bk) = builtin_entry_exec(bi);
            (chars_of(bn), bk)
        };
        let ghost e = if take_var {
            rest_v[0]
        } else {
            rest_b[0]
        };
        assert(e == (name@, kind));
        let ghost after = if take_var {
            merge_entries(rest_b, rest_v.drop_first())
        } else {
            merge_entries(rest_b.drop_first(), rest_v)
        };
        proof {
            lemma_matching_cons(e, after, prefix);
        }
        if starts_with_range(&name, &v, j, k) {
            let text = crate::text::string_of(&name, 0, name.len());
            assert(name@.subrange(0, name@.len() as int) == name@);
            let c = Completion {
                replacement: std::ops::Range { start, end: cursor },
                insert: text.clone(),
                display: text,
                kind,
            };
            let ghost before = completions_view(out@);
            out.push(c);
            assert(completions_view(out@) == before.push(completion_view(c)));
            assert(as_completions(seq![e] + matching(after, prefix), start as int, cursor as int)
                == seq![completion_view(c)] + as_completions(matching(after, prefix), start as int, cursor as int));
        } else {
            assert(Seq::<(Seq<char>, CompletionKind)>::empty() + matching(after, prefix) == matching(after, prefix));
        }
        if take_var {
            vj = vj + 1;
        } else {
            bi = bi + 1;
        }
    }
    assert(bs.skip(49) == Seq::<(Seq<char>, CompletionKind)>::empty());
    assert(vs.skip(vars@.len() as int) == Seq::<(Seq<char>, CompletionKind)>::empty());
    assert(completions_view(out@) == total);
    out
}

} // verus!
