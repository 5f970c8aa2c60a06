//! The calculator's variables: definitions kept in increasing order of
//! their names, as an ordered map keeps them.
use vstd::prelude::*;
use crate::engine::value::{SValue, Value, value_clone};
use crate::engine::ops::value_wf;
use crate::text::chars_of;

verus! {

/// Lexicographic order of character sequences, by code point; for UTF-8
/// strings it is the byte order `String` compares by.
pub open spec fn seq_lt(a: Seq<char>, b: Seq<char>) -> bool
    decreases a.len(),
{
    if a.len() == 0 {
        b.len() > 0
    } else if b.len() == 0 {
        false
    } else if a[0] != b[0] {
        a[0] < b[0]
    } else {
        seq_lt(a.drop_first(), b.drop_first())
    }
}

pub proof fn lemma_seq_lt_irreflexive(a: Seq<char>)
    ensures
        !seq_lt(a, a),
    decreases a.len(),
{
    if a.len() > 0 {
        lemma_seq_lt_irreflexive(a.drop_first());
    }
}

pub proof fn lemma_seq_lt_transitive(a: Seq<char>, b: Seq<char>, c: Seq<char>)
    requires
        seq_lt(a, b),
        seq_lt(b, c),
    ensures
        seq_lt(a, c),
    decreases a.len(),
{
    if a.len() > 0 && b.len() > 0 && c.len() > 0 && a[0] == b[0] && b[0] == c[0] {
        lemma_seq_lt_transitive(a.drop_first(), b.drop_first(), c.drop_first());
    }
}

/// Two different sequences are ordered one way or the other.
pub proof fn lemma_seq_lt_total(a: Seq<char>, b: Seq<char>)
    ensures
        a == b || seq_lt(a, b) || seq_lt(b, a),
    decreases a.len(),
{
    if a.len() > 0 && b.len() > 0 && a[0] == b[0] {
        lemma_seq_lt_total(a.drop_first(), b.drop_first());
        if a.drop_first() == b.drop_first() {
            assert(a == seq![a[0]] + a.drop_first());
            assert(b == seq![b[0]] + b.drop_first());
        }
    }
}

pub proof fn lemma_seq_lt_asymmetric(a: Seq<char>, b: Seq<char>)
    requires
        seq_lt(a, b),
    ensures
        !seq_lt(b, a),
        a != b,
{
    if seq_lt(b, a) {
        lemma_seq_lt_transitive(a, b, a);
        lemma_seq_lt_irreflexive(a);
    }
    if a == b {
        lemma_seq_lt_irreflexive(a);
    }
}

/// `a < b` for two strings, by their characters.
pub fn chars_lt(a: &Vec<char>, b: &Vec<char>) -> (r: bool)
    ensures
        r == seq_lt(a@, b@),
{
    let mut i: usize = 0;
    assert(a@.skip(0) == a@ && b@.skip(0) == b@);
    while i < a.len() && i < b.len() && a[i] == b[i]
        invariant
            i <= a@.len(),
            i <= b@.len(),
            seq_lt(a@, b@) == seq_lt(a@.skip(i as int), b@.skip(i as int)),
        decreases a@.len() - i,
    {
        assert(a@.skip(i as int).drop_first() == a@.skip(i + 1));
        assert(b@.skip(i as int).drop_first() == b@.skip(i + 1));
        i = i + 1;
    }
    if i == a.len() {
        i < b.len()
    } else if i == b.len() {
        false
    } else {
        a[i] < b[i]
    }
}

/// A definition as plain values: name, value, defining source.
pub struct VarView {
    pub name: Seq<char>,
    pub value: SValue,
    pub source: Seq<char>,
}

/// A stored definition.
pub struct Var {
    pub name: String,
    pub value: Value,
    pub source: String,
}

impl View for Var {
    type V = VarView;

    open spec fn view(&self) -> VarView {
        VarView { name: self.name@, value: self.value@, source: self.source@ }
    }
}

pub open spec fn vars_view(v: Seq<Var>) -> Seq<VarView> {
    Seq::new(v.len(), |i: int| v[i]@)
}

/// Names strictly increasing, values well formed.
pub open spec fn vars_wf(vars: Seq<VarView>) -> bool {
    &&& forall|i: int, j: int| 0 <= i < j < vars.len() ==> seq_lt(#[trigger] vars[i].name, #[trigger] vars[j].name)
    &&& forall|i: int| 0 <= i < vars.len() ==> value_wf(#[trigger] vars[i].value)
}

/// The value stored under `name`.
pub open spec fn var_lookup(vars: Seq<VarView>, name: Seq<char>) -> Option<SValue>
    decreases vars.len(),
{
    if vars.len() == 0 {
        None
    } else if vars[0].name == name {
        Some(vars[0].value)
    } else {
        var_lookup(vars.drop_first(), name)
    }
}

/// Number of definitions whose names come before `name`.
pub open spec fn insert_pos(vars: Seq<VarView>, name: Seq<char>) -> int
    decreases vars.len(),
{
    if vars.len() > 0 && seq_lt(vars[0].name, name) {
        1 + insert_pos(vars.drop_first(), name)
    } else {
        0
    }
}

/// `BTreeMap::insert`: the definition of `name` replaced, or added in order.
pub open spec fn vars_insert(vars: Seq<VarView>, d: VarView) -> Seq<VarView> {
    let i = insert_pos(vars, d.name);
    if i < vars.len() && vars[i].name == d.name {
        vars.update(i, d)
    } else {
        vars.insert(i, d)
    }
}

proof fn lemma_insert_pos(vars: Seq<VarView>, name: Seq<char>)
    requires
        vars_wf(vars),
    ensures
        0 <= insert_pos(vars, name) <= vars.len(),
        forall|k: int| 0 <= k < insert_pos(vars, name) ==> seq_lt(#[trigger] vars[k].name, name),
        insert_pos(vars, name) < vars.len() ==> !seq_lt(vars[insert_pos(vars, name)].name, name),
    decreases vars.len(),
{
    if vars.len() > 0 && seq_lt(vars[0].name, name) {
        let rest = vars.drop_first();
        assert(vars_wf(rest)) by {
            assert forall|i: int, j: int| 0 <= i < j < rest.len() implies seq_lt(
                #[trigger] rest[i].name,
                #[trigger] rest[j].name,
            ) by {
                assert(rest[i] == vars[i + 1] && rest[j] == vars[j + 1]);
            }
            assert forall|i: int| 0 <= i < rest.len() implies value_wf(#[trigger] rest[i].value) by {
                assert(rest[i] == vars[i + 1]);
            }
        }
        lemma_insert_pos(rest, name);
        assert forall|k: int| 0 <= k < insert_pos(vars, name) implies seq_lt(
            #[trigger] vars[k].name,
            name,
        ) by {
            if k > 0 {
                assert(vars[k] == rest[k - 1]);
            }
        }
    }
}

/// In a well-formed list, the lookup finds the entry with that name.
proof fn lemma_lookup_at(vars: Seq<VarView>, k: int)
    requires
        vars_wf(vars),
        0 <= k < vars.len(),
    ensures
        var_lookup(vars, vars[k].name) == Some(vars[k].value),
    decreases vars.len(),
{
    if k > 0 {
        let rest = vars.drop_first();
        lemma_wf_rest(vars);
        assert(seq_lt(vars[0].name, vars[k].name));
        lemma_seq_lt_asymmetric(vars[0].name, vars[k].name);
        assert(rest[k - 1] == vars[k]);
        lemma_lookup_at(rest, k - 1);
    }
}

proof fn lemma_wf_rest(vars: Seq<VarView>)
    requires
        vars_wf(vars),
        vars.len() > 0,
    ensures
        vars_wf(vars.drop_first()),
{
    let rest = vars.drop_first();
    assert forall|i: int, j: int| 0 <= i < j < rest.len() implies seq_lt(
        #[trigger] rest[i].name,
        #[trigger] rest[j].name,
    ) by {
        assert(rest[i] == vars[i + 1] && rest[j] == vars[j + 1]);
    }
    assert forall|i: int| 0 <= i < rest.len() implies value_wf(#[trigger] rest[i].value) by {
        assert(rest[i] == vars[i + 1]);
    }
}

/// A name held by no entry is not found.
proof fn lemma_lookup_absent(vars: Seq<VarView>, name: Seq<char>)
    requires
        forall|k: int| 0 <= k < vars.len() ==> #[trigger] vars[k].name != name,
    ensures
        var_lookup(vars, name) is None,
    decreases vars.len(),
{
    if vars.len() > 0 {
        let rest = vars.drop_first();
        assert forall|k: int| 0 <= k < rest.len() implies #[trigger] rest[k].name != name by {
            assert(rest[k] == vars[k + 1]);
        }
        lemma_lookup_absent(rest, name);
    }
}

/// The lookup of a name: the entry that holds it, or none.
proof fn lemma_lookup(vars: Seq<VarView>, name: Seq<char>)
    requires
        vars_wf(vars),
    ensures
        var_lookup(vars, name) == (if exists|k: int| 0 <= k < vars.len() && vars[k].name == name {
            Some(vars[choose|k: int| 0 <= k < vars.len() && vars[k].name == name].value)
        } else {
            None
        }),
{
    if exists|k: int| 0 <= k < vars.len() && vars[k].name == name {
        let k = choose|k: int| 0 <= k < vars.len() && vars[k].name == name;
        lemma_lookup_at(vars, k);
    } else {
        lemma_lookup_absent(vars, name);
    }
}

/// What a lookup finds in a well-formed list is a well-formed value.
pub proof fn lemma_lookup_wf(vars: Seq<VarView>, name: Seq<char>)
    requires
        vars_wf(vars),
    ensures
        var_lookup(vars, name) matches Some(v) ==> value_wf(v),
    decreases vars.len(),
{
    if vars.len() > 0 && vars[0].name != name {
        lemma_wf_rest(vars);
        lemma_lookup_wf(vars.drop_first(), name);
    }
}

/// Inserting keeps the list well formed; afterwards the inserted name
/// gives the inserted value and every other name what it gave before.
pub proof fn lemma_vars_insert(vars: Seq<VarView>, d: VarView)
    requires
        vars_wf(vars),
        value_wf(d.value),
    ensures
        vars_wf(vars_insert(vars, d)),
        var_lookup(vars_insert(vars, d), d.name) == Some(d.value),
        forall|m: Seq<char>| m != d.name ==> var_lookup(vars_insert(vars, d), m) == var_lookup(vars, m),
{
    let i = insert_pos(vars, d.name);
    lemma_insert_pos(vars, d.name);
    let out = vars_insert(vars, d);
    if i < vars.len() && vars[i].name == d.name {
        assert(vars_wf(out)) by {
            assert forall|a: int, b: int| 0 <= a < b < out.len() implies seq_lt(
                #[trigger] out[a].name,
                #[trigger] out[b].name,
            ) by {
                assert(out[a].name == vars[a].name && out[b].name == vars[b].name);
            }
        }
        lemma_lookup_at(out, i);
        assert forall|m: Seq<char>| m != d.name implies var_lookup(out, m) == var_lookup(vars, m) by {
            lemma_lookup(out, m);
            lemma_lookup(vars, m);
            if exists|k: int| 0 <= k < vars.len() && vars[k].name == m {
                let k = choose|k: int| 0 <= k < vars.len() && vars[k].name == m;
                assert(out[k].name == m);
                lemma_lookup_at(out, k);
                lemma_lookup_at(vars, k);
            } else {
                assert forall|k: int| 0 <= k < out.len() implies #[trigger] out[k].name != m by {
                    assert(out[k].name == vars[k].name || k == i);
                }
            }
        }
    } else {
        assert(i < vars.len() ==> seq_lt(d.name, vars[i].name)) by {
            if i < vars.len() {
                lemma_seq_lt_total(d.name, vars[i].name);
            }
        }
        assert(vars_wf(out)) by {
            assert forall|a: int, b: int| 0 <= a < b < out.len() implies seq_lt(
                #[trigger] out[a].name,
                #[trigger] out[b].name,
            ) by {
                if b < i {
                    assert(out[a] == vars[a] && out[b] == vars[b]);
                } else if b == i {
                    assert(out[a] == vars[a]);
                } else if a == i {
                    assert(out[b] == vars[b - 1]);
                    if b - 1 > i {
                        lemma_seq_lt_transitive(d.name, vars[i].name, vars[b - 1].name);
                    }
                } else if a < i {
                    assert(out[a] == vars[a] && out[b] == vars[b - 1]);
                } else {
                    assert(out[a] == vars[a - 1] && out[b] == vars[b - 1]);
                }
            }
            assert forall|a: int| 0 <= a < out.len() implies value_wf(#[trigger] out[a].value) by {
                if a < i {
                    assert(out[a] == vars[a]);
                } else if a > i {
                    assert(out[a] == vars[a - 1]);
                }
            }
        }
        assert(out[i] == d);
        lemma_lookup_at(out, i);
        assert forall|m: Seq<char>| m != d.name implies var_lookup(out, m) == var_lookup(vars, m) by {
            lemma_lookup(out, m);
            lemma_lookup(vars, m);
            if exists|k: int| 0 <= k < vars.len() && vars[k].name == m {
                let k = choose|k: int| 0 <= k < vars.len() && vars[k].name == m;
                let k2 = if k < i {
                    k
                } else {
                    k + 1
                };
                assert(out[k2] == vars[k]);
                lemma_lookup_at(out, k2);
                lemma_lookup_at(vars, k);
            } else {
                assert forall|k: int| 0 <= k < out.len() implies #[trigger] out[k].name != m by {
                    if k < i {
                        assert(out[k] == vars[k]);
                    } else if k > i {
                        assert(out[k] == vars[k - 1]);
                    }
                }
            }
        }
    }
}

/// `BTreeMap::get` over the stored definitions.
pub fn vars_get(vars: &Vec<Var>, name: &Vec<char>) -> (r: Option<Value>)
    requires
        vars_wf(vars_view(vars@)),
    ensures
        match r {
            Some(v) => var_lookup(vars_view(vars@), name@) == Some(v@),
            None => var_lookup(vars_view(vars@), name@) is None,
        },
{
    let ghost vs = vars_view(vars@);
    let mut i: usize = 0;
    while i < vars.len()
        invariant
            i <= vars@.len(),
            vs == vars_view(vars@),
            vars_wf(vs),
            forall|k: int| 0 <= k < i ==> #[trigger] vs[k].name != name@,
        decreases vars@.len() - i,
    {
        let n = chars_of(vars[i].name.as_str());
        if vec_eq(&n, name) {
            proof {
                assert(vs[i as int] == vars@[i as int]@);
                lemma_lookup_at(vs, i as int);
            }
            return Some(value_clone(&vars[i].value));
        }
        assert(vs[i as int].name == n@);
        i = i + 1;
    }
    proof {
        lemma_lookup_absent(vs, name@);
    }
    None
}

/// Equality of two character vectors.
pub fn vec_eq(a: &Vec<char>, b: &Vec<char>) -> (r: bool)
    ensures
        r == (a@ == b@),
{
    if a.len() != b.len() {
        return false;
    }
    let mut i: usize = 0;
    while i < a.len()
        invariant
            a@.len() == b@.len(),
            i <= a@.len(),
            forall|k: int| 0 <= k < i ==> a@[k] == b@[k],
        decreases a@.len() - i,
    {
        if a[i] != b[i] {
            return false;
        }
        i = i + 1;
    }
    assert(a@ == b@);
    true
}

/// `vars_insert` on the stored definitions.
pub fn vars_put(vars: &mut Vec<Var>, d: Var)
    requires
        vars_wf(vars_view(old(vars)@)),
        value_wf(d.value@),
    ensures
        vars_view(final(vars)@) == vars_insert(vars_view(old(vars)@), d@),
        vars_wf(vars_view(final(vars)@)),
{
    let ghost vs = vars_view(vars@);
    let dn = chars_of(d.name.as_str());
    proof {
        lemma_insert_pos(vs, d@.name);
        lemma_vars_insert(vs, d@);
    }
    let mut i: usize = 0;
    while i < vars.len() && chars_lt(&chars_of(vars[i].name.as_str()), &dn)
        invariant
            i <= vars@.len(),
            vs == vars_view(vars@),
            dn@ == d.name@,
            vars_wf(vs),
            i <= insert_pos(vs, d@.name),
            0 <= insert_pos(vs, d@.name) <= vs.len(),
            insert_pos(vs, d@.name) < vs.len() ==> !seq_lt(vs[insert_pos(vs, d@.name)].name, d@.name),
            forall|k: int| 0 <= k < insert_pos(vs, d@.name) ==> seq_lt(#[trigger] vs[k].name, d@.name),
        decreases vars@.len() - i,
    {
        assert(vs[i as int].name == vars@[i as int].name@);
        i = i + 1;
    }
    assert(i < vars@.len() ==> vs[i as int].name == vars@[i as int].name@);
    assert(i == insert_pos(vs, d@.name));
    if i < vars.len() {
        let n = chars_of(vars[i].name.as_str());
        assert(vs[i as int].name == n@);
        if vec_eq(&n, &dn) {
            vars.set(i, d);
            assert(vars_view(vars@) == vs.update(i as int, d@));
            return;
        }
    }
    vars.insert(i, d);
    assert(vars_view(vars@) == vs.insert(i as int, d@));
}

} // verus!
