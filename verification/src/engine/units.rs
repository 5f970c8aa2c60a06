//! Units of measure: the unit table, SI prefixes and unit expressions such
//! as `m/s^2`.
use vstd::prelude::*;
use crate::bignum::{
    Q, Rat, int_from_u64, int_pow, lemma_normalize, normalize, q_div, q_int, q_mul, q_pow,
    rat_div, rat_from_int, rat_mul, rat_new, rat_pow,
};
use crate::text::{
    chars_of, find_char, first_index, parse_in, parse_in_range, range_is, range_starts, starts,
    trim, trim_range,
};

verus! {

/// A unit: dimension exponents, scale to SI, and affinity.
pub struct SUnit {
    pub dim: Seq<i8>,
    pub scale: Q,
    pub affine: bool,
}

pub struct UnitDef {
    pub dim: Vec<i8>,
    pub scale: Rat,
    pub affine: bool,
}

impl View for UnitDef {
    type V = SUnit;

    open spec fn view(&self) -> SUnit {
        SUnit { dim: self.dim@, scale: self.scale@, affine: self.affine }
    }
}

pub open spec fn NUM_BASE() -> int {
    34
}

pub open spec fn NUM_PREFIXES() -> int {
    24
}

/// Name of the `k`-th base unit.
pub open spec fn base_name(k: int) -> Seq<char> {
    if k == 0 {
        "m"@
    } else if k == 1 {
        "kg"@
    } else if k == 2 {
        "s"@
    } else if k == 3 {
        "A"@
    } else if k == 4 {
        "K"@
    } else if k == 5 {
        "mol"@
    } else if k == 6 {
        "cd"@
    } else if k == 7 {
        "g"@
    } else if k == 8 {
        "L"@
    } else if k == 9 {
        "min"@
    } else if k == 10 {
        "h"@
    } else if k == 11 {
        "in"@
    } else if k == 12 {
        "ft"@
    } else if k == 13 {
        "yd"@
    } else if k == 14 {
        "mi"@
    } else if k == 15 {
        "lb"@
    } else if k == 16 {
        "oz"@
    } else if k == 17 {
        "gal"@
    } else if k == 18 {
        "Hz"@
    } else if k == 19 {
        "N"@
    } else if k == 20 {
        "Pa"@
    } else if k == 21 {
        "J"@
    } else if k == 22 {
        "W"@
    } else if k == 23 {
        "C"@
    } else if k == 24 {
        "V"@
    } else if k == 25 {
        "Ohm"@
    } else if k == 26 {
        "F"@
    } else if k == 27 {
        "B"@
    } else if k == 28 {
        "bit"@
    } else if k == 29 {
        "kmh"@
    } else if k == 30 {
        "mph"@
    } else if k == 31 {
        "rad"@
    } else if k == 32 {
        "degC"@
    } else if k == 33 {
        "degF"@
    } else {
        Seq::empty()
    }
}

/// Dimension, scale and affinity of the `k`-th base unit.
pub open spec fn base_value(k: int) -> SUnit {
    if k == 0 {
        SUnit { dim: seq![1i8, 0i8, 0i8, 0i8, 0i8, 0i8, 0i8, 0i8], scale: q_int(1), affine: false }
    } else if k == 1 {
        SUnit { dim: seq![0i8, 1i8, 0i8, 0i8, 0i8, 0i8, 0i8, 0i8], scale: q_int(1), affine: false }
    } else if k == 2 {
        SUnit { dim: seq![0i8, 0i8, 1i8, 0i8, 0i8, 0i8, 0i8, 0i8], scale: q_int(1), affine: false }
    } else if k == 3 {
        SUnit { dim: seq![0i8, 0i8, 0i8, 1i8, 0i8, 0i8, 0i8, 0i8], scale: q_int(1), affine: false }
    } else if k == 4 {
        SUnit { dim: seq![0i8, 0i8, 0i8, 0i8, 1i8, 0i8, 0i8, 0i8], scale: q_int(1), affine: false }
    } else if k == 5 {
        SUnit { dim: seq![0i8, 0i8, 0i8, 0i8, 0i8, 1i8, 0i8, 0i8], scale: q_int(1), affine: false }
    } else if k == 6 {
        SUnit { dim: seq![0i8, 0i8, 0i8, 0i8, 0i8, 0i8, 1i8, 0i8], scale: q_int(1), affine: false }
    } else if k == 7 {
        SUnit { dim: seq![0i8, 1i8, 0i8, 0i8, 0i8, 0i8, 0i8, 0i8], scale: normalize(1, 1000), affine: false }
    } else if k == 8 {
        SUnit { dim: seq![3i8, 0i8, 0i8, 0i8, 0i8, 0i8, 0i8, 0i8], scale: normalize(1, 1000), affine: false }
    } else if k == 9 {
        SUnit { dim: seq![0i8, 0i8, 1i8, 0i8, 0i8, 0i8, 0i8, 0i8], scale: q_int(60), affine: false }
    } else if k == 10 {
        SUnit { dim: seq![0i8, 0i8, 1i8, 0i8, 0i8, 0i8, 0i8, 0i8], scale: q_int(3600), affine: false }
    } else if k == 11 {
        SUnit { dim: seq![1i8, 0i8, 0i8, 0i8, 0i8, 0i8, 0i8, 0i8], scale: normalize(127, 5000), affine: false }
    } else if k == 12 {
        SUnit { dim: seq![1i8, 0i8, 0i8, 0i8, 0i8, 0i8, 0i8, 0i8], scale: normalize(381, 1250), affine: false }
    } else if k == 13 {
        SUnit { dim: seq![1i8, 0i8, 0i8, 0i8, 0i8, 0i8, 0i8, 0i8], scale: normalize(1143, 1250), affine: false }
    } else if k == 14 {
        SUnit { dim: seq![1i8, 0i8, 0i8, 0i8, 0i8, 0i8, 0i8, 0i8], scale: q_div(q_int(1609344), q_int(1000)), affine: false }
    } else if k == 15 {
        SUnit { dim: seq![0i8, 1i8, 0i8, 0i8, 0i8, 0i8, 0i8, 0i8], scale: normalize(45359237, 100000000), affine: false }
    } else if k == 16 {
        SUnit { dim: seq![0i8, 1i8, 0i8, 0i8, 0i8, 0i8, 0i8, 0i8], scale: normalize(45359237, 1600000000), affine: false }
    } else if k == 17 {
        SUnit { dim: seq![3i8, 0i8, 0i8, 0i8, 0i8, 0i8, 0i8, 0i8], scale: normalize(473176473, 125000000000), affine: false }
    } else if k == 18 {
        SUnit { dim: seq![0i8, 0i8, -1i8, 0i8, 0i8, 0i8, 0i8, 0i8], scale: q_int(1), affine: false }
    } else if k == 19 {
        SUnit { dim: seq![1i8, 1i8, -2i8, 0i8, 0i8, 0i8, 0i8, 0i8], scale: q_int(1), affine: false }
    } else if k == 20 {
        SUnit { dim: seq![-1i8, 1i8, -2i8, 0i8, 0i8, 0i8, 0i8, 0i8], scale: q_int(1), affine: false }
    } else if k == 21 {
        SUnit { dim: seq![2i8, 1i8, -2i8, 0i8, 0i8, 0i8, 0i8, 0i8], scale: q_int(1), affine: false }
    } else if k == 22 {
        SUnit { dim: seq![2i8, 1i8, -3i8, 0i8, 0i8, 0i8, 0i8, 0i8], scale: q_int(1), affine: false }
    } else if k == 23 {
        SUnit { dim: seq![0i8, 0i8, 1i8, 1i8, 0i8, 0i8, 0i8, 0i8], scale: q_int(1), affine: false }
    } else if k == 24 {
        SUnit { dim: seq![2i8, 1i8, -3i8, -1i8, 0i8, 0i8, 0i8, 0i8], scale: q_int(1), affine: false }
    } else if k == 25 {
        SUnit { dim: seq![2i8, 1i8, -3i8, -2i8, 0i8, 0i8, 0i8, 0i8], scale: q_int(1), affine: false }
    } else if k == 26 {
        SUnit { dim: seq![-2i8, -1i8, 4i8, 2i8, 0i8, 0i8, 0i8, 0i8], scale: q_int(1), affine: false }
    } else if k == 27 {
        SUnit { dim: seq![0i8, 0i8, 0i8, 0i8, 0i8, 0i8, 0i8, 0i8], scale: q_int(1), affine: false }
    } else if k == 28 {
        SUnit { dim: seq![0i8, 0i8, 0i8, 0i8, 0i8, 0i8, 0i8, 0i8], scale: q_int(1), affine: false }
    } else if k == 29 {
        SUnit { dim: seq![1i8, 0i8, -1i8, 0i8, 0i8, 0i8, 0i8, 0i8], scale: normalize(5, 18), affine: false }
    } else if k == 30 {
        SUnit { dim: seq![1i8, 0i8, -1i8, 0i8, 0i8, 0i8, 0i8, 0i8], scale: normalize(1609344, 3600000), affine: false }
    } else if k == 31 {
        SUnit { dim: seq![0i8, 0i8, 0i8, 0i8, 0i8, 0i8, 0i8, 1i8], scale: q_int(1), affine: false }
    } else if k == 32 {
        SUnit { dim: seq![0i8, 0i8, 0i8, 0i8, 1i8, 0i8, 0i8, 0i8], scale: q_int(1), affine: true }
    } else if k == 33 {
        SUnit { dim: seq![0i8, 0i8, 0i8, 0i8, 1i8, 0i8, 0i8, 0i8], scale: normalize(5, 9), affine: true }
    } else {
        SUnit { dim: Seq::empty(), scale: q_int(1), affine: false }
    }
}

pub fn base_name_str(k: usize) -> (r: &'static str)
    requires
        k < 34,
    ensures
        r@ == base_name(k as int),
{
    match k {
        0 => "m",
        1 => "kg",
        2 => "s",
        3 => "A",
        4 => "K",
        5 => "mol",
        6 => "cd",
        7 => "g",
        8 => "L",
        9 => "min",
        10 => "h",
        11 => "in",
        12 => "ft",
        13 => "yd",
        14 => "mi",
        15 => "lb",
        16 => "oz",
        17 => "gal",
        18 => "Hz",
        19 => "N",
        20 => "Pa",
        21 => "J",
        22 => "W",
        23 => "C",
        24 => "V",
        25 => "Ohm",
        26 => "F",
        27 => "B",
        28 => "bit",
        29 => "kmh",
        30 => "mph",
        31 => "rad",
        32 => "degC",
        _ => "degF",
    }
}

fn base_value_exec(k: usize) -> (r: UnitDef)
    requires
        k < 34,
    ensures
        r@ == base_value(k as int),
{
    match k {
        0 => UnitDef { dim: vec![1i8, 0i8, 0i8, 0i8, 0i8, 0i8, 0i8, 0i8], scale: rat_from_int(&int_from_u64(1)), affine: false },
        1 => UnitDef { dim: vec![0i8, 1i8, 0i8, 0i8, 0i8, 0i8, 0i8, 0i8], scale: rat_from_int(&int_from_u64(1)), affine: false },
        2 => UnitDef { dim: vec![0i8, 0i8, 1i8, 0i8, 0i8, 0i8, 0i8, 0i8], scale: rat_from_int(&int_from_u64(1)), affine: false },
        3 => UnitDef { dim: vec![0i8, 0i8, 0i8, 1i8, 0i8, 0i8, 0i8, 0i8], scale: rat_from_int(&int_from_u64(1)), affine: false },
        4 => UnitDef { dim: vec![0i8, 0i8, 0i8, 0i8, 1i8, 0i8, 0i8, 0i8], scale: rat_from_int(&int_from_u64(1)), affine: false },
        5 => UnitDef { dim: vec![0i8, 0i8, 0i8, 0i8, 0i8, 1i8, 0i8, 0i8], scale: rat_from_int(&int_from_u64(1)), affine: false },
        6 => UnitDef { dim: vec![0i8, 0i8, 0i8, 0i8, 0i8, 0i8, 1i8, 0i8], scale: rat_from_int(&int_from_u64(1)), affine: false },
        7 => UnitDef { dim: vec![0i8, 1i8, 0i8, 0i8, 0i8, 0i8, 0i8, 0i8], scale: rat_new(&int_from_u64(1), &int_from_u64(1000)), affine: false },
        8 => UnitDef { dim: vec![3i8, 0i8, 0i8, 0i8, 0i8, 0i8, 0i8, 0i8], scale: rat_new(&int_from_u64(1), &int_from_u64(1000)), affine: false },
        9 => UnitDef { dim: vec![0i8, 0i8, 1i8, 0i8, 0i8, 0i8, 0i8, 0i8], scale: rat_from_int(&int_from_u64(60)), affine: false },
        10 => UnitDef { dim: vec![0i8, 0i8, 1i8, 0i8, 0i8, 0i8, 0i8, 0i8], scale: rat_from_int(&int_from_u64(3600)), affine: false },
        11 => UnitDef { dim: vec![1i8, 0i8, 0i8, 0i8, 0i8, 0i8, 0i8, 0i8], scale: rat_new(&int_from_u64(127), &int_from_u64(5000)), affine: false },
        12 => UnitDef { dim: vec![1i8, 0i8, 0i8, 0i8, 0i8, 0i8, 0i8, 0i8], scale: rat_new(&int_from_u64(381), &int_from_u64(1250)), affine: false },
        13 => UnitDef { dim: vec![1i8, 0i8, 0i8, 0i8, 0i8, 0i8, 0i8, 0i8], scale: rat_new(&int_from_u64(1143), &int_from_u64(1250)), affine: false },
        14 => {
            UnitDef { dim: vec![1i8, 0i8, 0i8, 0i8, 0i8, 0i8, 0i8, 0i8], scale: rat_div(&rat_from_int(&int_from_u64(1609344)), &rat_from_int(&int_from_u64(1000))), affine: false }
        },
        15 => UnitDef { dim: vec![0i8, 1i8, 0i8, 0i8, 0i8, 0i8, 0i8, 0i8], scale: rat_new(&int_from_u64(45359237), &int_from_u64(100000000)), affine: false },
        16 => UnitDef { dim: vec![0i8, 1i8, 0i8, 0i8, 0i8, 0i8, 0i8, 0i8], scale: rat_new(&int_from_u64(45359237), &int_from_u64(1600000000)), affine: false },
        17 => UnitDef { dim: vec![3i8, 0i8, 0i8, 0i8, 0i8, 0i8, 0i8, 0i8], scale: rat_new(&int_from_u64(473176473), &int_from_u64(125000000000)), affine: false },
        18 => UnitDef { dim: vec![0i8, 0i8, -1i8, 0i8, 0i8, 0i8, 0i8, 0i8], scale: rat_from_int(&int_from_u64(1)), affine: false },
        19 => UnitDef { dim: vec![1i8, 1i8, -2i8, 0i8, 0i8, 0i8, 0i8, 0i8], scale: rat_from_int(&int_from_u64(1)), affine: false },
        20 => UnitDef { dim: vec![-1i8, 1i8, -2i8, 0i8, 0i8, 0i8, 0i8, 0i8], scale: rat_from_int(&int_from_u64(1)), affine: false },
        21 => UnitDef { dim: vec![2i8, 1i8, -2i8, 0i8, 0i8, 0i8, 0i8, 0i8], scale: rat_from_int(&int_from_u64(1)), affine: false },
        22 => UnitDef { dim: vec![2i8, 1i8, -3i8, 0i8, 0i8, 0i8, 0i8, 0i8], scale: rat_from_int(&int_from_u64(1)), affine: false },
        23 => UnitDef { dim: vec![0i8, 0i8, 1i8, 1i8, 0i8, 0i8, 0i8, 0i8], scale: rat_from_int(&int_from_u64(1)), affine: false },
        24 => UnitDef { dim: vec![2i8, 1i8, -3i8, -1i8, 0i8, 0i8, 0i8, 0i8], scale: rat_from_int(&int_from_u64(1)), affine: false },
        25 => UnitDef { dim: vec![2i8, 1i8, -3i8, -2i8, 0i8, 0i8, 0i8, 0i8], scale: rat_from_int(&int_from_u64(1)), affine: false },
        26 => UnitDef { dim: vec![-2i8, -1i8, 4i8, 2i8, 0i8, 0i8, 0i8, 0i8], scale: rat_from_int(&int_from_u64(1)), affine: false },
        27 => UnitDef { dim: vec![0i8, 0i8, 0i8, 0i8, 0i8, 0i8, 0i8, 0i8], scale: rat_from_int(&int_from_u64(1)), affine: false },
        28 => UnitDef { dim: vec![0i8, 0i8, 0i8, 0i8, 0i8, 0i8, 0i8, 0i8], scale: rat_from_int(&int_from_u64(1)), affine: false },
        29 => UnitDef { dim: vec![1i8, 0i8, -1i8, 0i8, 0i8, 0i8, 0i8, 0i8], scale: rat_new(&int_from_u64(5), &int_from_u64(18)), affine: false },
        30 => UnitDef { dim: vec![1i8, 0i8, -1i8, 0i8, 0i8, 0i8, 0i8, 0i8], scale: rat_new(&int_from_u64(1609344), &int_from_u64(3600000)), affine: false },
        31 => UnitDef { dim: vec![0i8, 0i8, 0i8, 0i8, 0i8, 0i8, 0i8, 1i8], scale: rat_from_int(&int_from_u64(1)), affine: false },
        32 => UnitDef { dim: vec![0i8, 0i8, 0i8, 0i8, 1i8, 0i8, 0i8, 0i8], scale: rat_from_int(&int_from_u64(1)), affine: true },
        _ => UnitDef { dim: vec![0i8, 0i8, 0i8, 0i8, 1i8, 0i8, 0i8, 0i8], scale: rat_new(&int_from_u64(5), &int_from_u64(9)), affine: true },
    }
}

/// The `k`-th metric or binary prefix and its exponent.
pub open spec fn prefix_entry(k: int) -> (Seq<char>, int) {
    if k == 0 {
        ("da"@, 10)
    } else if k == 1 {
        ("Y"@, 24)
    } else if k == 2 {
        ("Z"@, 21)
    } else if k == 3 {
        ("E"@, 18)
    } else if k == 4 {
        ("P"@, 15)
    } else if k == 5 {
        ("T"@, 12)
    } else if k == 6 {
        ("G"@, 9)
    } else if k == 7 {
        ("M"@, 6)
    } else if k == 8 {
        ("k"@, 3)
    } else if k == 9 {
        ("h"@, 2)
    } else if k == 10 {
        ("d"@, -1)
    } else if k == 11 {
        ("c"@, -2)
    } else if k == 12 {
        ("m"@, -3)
    } else if k == 13 {
        ("u"@, -6)
    } else if k == 14 {
        ("n"@, -9)
    } else if k == 15 {
        ("p"@, -12)
    } else if k == 16 {
        ("f"@, -15)
    } else if k == 17 {
        ("a"@, -18)
    } else if k == 18 {
        ("z"@, -21)
    } else if k == 19 {
        ("y"@, -24)
    } else if k == 20 {
        ("Ki"@, 10)
    } else if k == 21 {
        ("Mi"@, 20)
    } else if k == 22 {
        ("Gi"@, 30)
    } else if k == 23 {
        ("Ti"@, 40)
    } else {
        (Seq::empty(), 0)
    }
}

fn prefix_entry_exec(k: usize) -> (r: (&'static str, i32))
    requires
        k < 24,
    ensures
        r.0@ == prefix_entry(k as int).0,
        r.1 == prefix_entry(k as int).1,
{
    match k {
        0 => ("da", 10),
        1 => ("Y", 24),
        2 => ("Z", 21),
        3 => ("E", 18),
        4 => ("P", 15),
        5 => ("T", 12),
        6 => ("G", 9),
        7 => ("M", 6),
        8 => ("k", 3),
        9 => ("h", 2),
        10 => ("d", -1),
        11 => ("c", -2),
        12 => ("m", -3),
        13 => ("u", -6),
        14 => ("n", -9),
        15 => ("p", -12),
        16 => ("f", -15),
        17 => ("a", -18),
        18 => ("z", -21),
        19 => ("y", -24),
        20 => ("Ki", 10),
        21 => ("Mi", 20),
        22 => ("Gi", 30),
        _ => ("Ti", 40),
    }
}

/// A positive rational.
pub open spec fn q_pos(q: Q) -> bool {
    q.n > 0 && q.d > 0
}

/// A well-formed unit: eight dimension exponents and a positive scale.
pub open spec fn unit_wf(u: SUnit) -> bool {
    u.dim.len() == 8 && q_pos(u.scale)
}

/// The first base unit named `name`.
pub open spec fn base_lookup(name: Seq<char>) -> Option<int> {
    if exists|k: int| 0 <= k < NUM_BASE() && name == base_name(k) {
        Some(
            choose|k: int|
                0 <= k < NUM_BASE() && name == base_name(k) && forall|j: int|
                    0 <= j < k ==> name != base_name(j),
        )
    } else {
        None
    }
}

/// The factor a prefix stands for: a power of two for binary prefixes, a
/// power of ten otherwise.
pub open spec fn prefix_factor(k: int) -> Q {
    let (p, e) = prefix_entry(k);
    if p.len() > 0 && p.last() == 'i' {
        q_int(vstd::arithmetic::power::pow(2, (e as u32) as nat))
    } else if e >= 0 {
        q_int(vstd::arithmetic::power::pow(10, e as nat))
    } else {
        normalize(1, vstd::arithmetic::power::pow(10, (-e) as nat))
    }
}

/// `unit_def`: a unit of the table, or a prefixed one.
#[verifier::opaque]
pub open spec fn unit_def(name: Seq<char>) -> Option<SUnit>
    decreases name.len(), 1nat, 0nat,
{
    match base_lookup(name) {
        Some(k) => Some(base_value(k)),
        None => prefixed_from(name, 0),
    }
}

/// `prefixed_unit`, trying the prefixes from the `k`-th on: the first prefix
/// that `name` starts with decides.
pub open spec fn prefixed_from(name: Seq<char>, k: nat) -> Option<SUnit>
    decreases name.len(), 0nat, NUM_PREFIXES() - k,
{
    if k >= NUM_PREFIXES() {
        None
    } else {
        let p = prefix_entry(k as int).0;
        if p.len() > 0 && starts(name, p) {
            match unit_def(name.skip(p.len() as int)) {
                Some(u) => if u.affine {
                    None
                } else {
                    Some(SUnit { dim: u.dim, scale: q_mul(u.scale, prefix_factor(k as int)), affine: false })
                },
                None => None,
            }
        } else {
            prefixed_from(name, (k + 1) as nat)
        }
    }
}

proof fn lemma_q_mul_pos(a: Q, b: Q)
    requires
        q_pos(a),
        q_pos(b),
    ensures
        q_pos(q_mul(a, b)),
{
    assert(a.n * b.n > 0) by (nonlinear_arith)
        requires
            a.n > 0,
            b.n > 0,
    ;
    assert(a.d * b.d > 0) by (nonlinear_arith)
        requires
            a.d > 0,
            b.d > 0,
    ;
    assert((a.n * b.n) * (a.d * b.d) > 0) by (nonlinear_arith)
        requires
            a.n * b.n > 0,
            a.d * b.d > 0,
    ;
    lemma_normalize(a.n * b.n, a.d * b.d);
}

proof fn lemma_q_div_pos(a: Q, b: Q)
    requires
        q_pos(a),
        q_pos(b),
    ensures
        q_pos(q_div(a, b)),
{
    assert(a.n * b.d > 0) by (nonlinear_arith)
        requires
            a.n > 0,
            b.d > 0,
    ;
    assert(a.d * b.n > 0) by (nonlinear_arith)
        requires
            a.d > 0,
            b.n > 0,
    ;
    assert((a.n * b.d) * (a.d * b.n) > 0) by (nonlinear_arith)
        requires
            a.n * b.d > 0,
            a.d * b.n > 0,
    ;
    lemma_normalize(a.n * b.d, a.d * b.n);
}

proof fn lemma_q_pow_pos(a: Q, e: nat)
    requires
        q_pos(a),
    ensures
        q_pos(q_pow(a, e)),
{
    vstd::arithmetic::power::lemma_pow_positive(a.n, e);
    vstd::arithmetic::power::lemma_pow_positive(a.d, e);
}

proof fn lemma_normalize_pos(n: int, d: int)
    requires
        n > 0,
        d > 0,
    ensures
        q_pos(normalize(n, d)),
{
    assert(n * d > 0) by (nonlinear_arith)
        requires
            n > 0,
            d > 0,
    ;
    lemma_normalize(n, d);
}

proof fn lemma_base_wf(k: int)
    requires
        0 <= k < NUM_BASE(),
    ensures
        unit_wf(base_value(k)),
{
    lemma_normalize_pos(1, 1000);
    lemma_normalize_pos(127, 5000);
    lemma_normalize_pos(381, 1250);
    lemma_normalize_pos(1143, 1250);
    lemma_normalize_pos(1609344int * 1, 1int * 1000);
    lemma_normalize_pos(45359237, 100000000);
    lemma_normalize_pos(45359237, 1600000000);
    lemma_normalize_pos(473176473int, 125000000000int);
    lemma_normalize_pos(5, 18);
    lemma_normalize_pos(1609344, 3600000);
    lemma_normalize_pos(5, 9);
}

proof fn lemma_prefix_factor_pos(k: int)
    ensures
        q_pos(prefix_factor(k)),
{
    let (p, e) = prefix_entry(k);
    vstd::arithmetic::power::lemma_pow_positive(2, (e as u32) as nat);
    vstd::arithmetic::power::lemma_pow_positive(10, e as nat);
    vstd::arithmetic::power::lemma_pow_positive(10, (-e) as nat);
    if !(p.len() > 0 && p.last() == 'i') && e < 0 {
        lemma_normalize_pos(1, vstd::arithmetic::power::pow(10, (-e) as nat));
    }
}

/// Every unit has eight dimension exponents and a positive scale.
pub proof fn lemma_unit_wf(name: Seq<char>)
    ensures
        unit_def(name) matches Some(u) ==> unit_wf(u),
    decreases name.len(), 1nat, 0nat,
{
    reveal(unit_def);
    match base_lookup(name) {
        Some(k) => {
            lemma_base_wf(k);
        },
        None => {
            lemma_prefixed_wf(name, 0);
        },
    }
}

proof fn lemma_prefixed_wf(name: Seq<char>, k: nat)
    ensures
        prefixed_from(name, k) matches Some(u) ==> unit_wf(u),
    decreases name.len(), 0nat, NUM_PREFIXES() - k,
{
    reveal(unit_def);
    if k < NUM_PREFIXES() {
        let p = prefix_entry(k as int).0;
        if p.len() > 0 && starts(name, p) {
            lemma_unit_wf(name.skip(p.len() as int));
            if let Some(u) = unit_def(name.skip(p.len() as int)) {
                lemma_prefix_factor_pos(k as int);
                lemma_q_mul_pos(u.scale, prefix_factor(k as int));
            }
        } else {
            lemma_prefixed_wf(name, (k + 1) as nat);
        }
    }
}

/// The factor of the `k`-th prefix.
fn prefix_factor_exec(k: usize) -> (r: Rat)
    requires
        k < NUM_PREFIXES(),
    ensures
        r@ == prefix_factor(k as int),
{
    let (p, e) = prefix_entry_exec(k);
    let pc = chars_of(p);
    if pc.len() > 0 && pc[pc.len() - 1] == 'i' {
        rat_from_int(&int_pow(&int_from_u64(2), #[verifier::truncate] (e as u32)))
    } else if e >= 0 {
        rat_from_int(&int_pow(&int_from_u64(10), e as u32))
    } else {
        let d = int_pow(&int_from_u64(10), (-e) as u32);
        proof {
            vstd::arithmetic::power::lemma_pow_positive(10, (-e) as nat);
        }
        rat_new(&int_from_u64(1), &d)
    }
}

/// `unit_def` over `v[lo..hi]`.
pub fn unit_def_exec(v: &Vec<char>, lo: usize, hi: usize) -> (r: Option<UnitDef>)
    requires
        lo <= hi <= v.len(),
    ensures
        r matches Some(u) ==> unit_def(v@.subrange(lo as int, hi as int)) == Some(u@),
        r is None ==> unit_def(v@.subrange(lo as int, hi as int)) is None,
    decreases hi - lo,
{
    let ghost name = v@.subrange(lo as int, hi as int);
    reveal(unit_def);
    let mut k: usize = 0;
    while k < 34
        invariant
            lo <= hi <= v.len(),
            name == v@.subrange(lo as int, hi as int),
            k <= NUM_BASE(),
            forall|j: int| 0 <= j < k ==> name != base_name(j),
        decreases 34 - k,
    {
        if range_is(v, lo, hi, base_name_str(k)) {
            proof {
                let q = choose|q: int|
                    0 <= q < NUM_BASE() && name == base_name(q) && forall|j: int|
                        0 <= j < q ==> name != base_name(j);
                if q < k {
                    assert(name != base_name(q));
                }
                if k < q {
                    assert(name != base_name(k as int));
                }
            }
            proof {
                reveal(unit_def);
            }
            return Some(base_value_exec(k));
        }
        k = k + 1;
    }
    assert(base_lookup(name) is None);
    assert(unit_def(name) == prefixed_from(name, 0));
    let mut k: usize = 0;
    while k < 24
        invariant
            lo <= hi <= v.len(),
            name == v@.subrange(lo as int, hi as int),
            k <= NUM_PREFIXES(),
            unit_def(name) == prefixed_from(name, k as nat),
        decreases 24 - k,
    {
        proof {
            reveal(unit_def);
        }
        let (p, e) = prefix_entry_exec(k);
        let plen = chars_of(p).len();
        if plen > 0 && range_starts(v, lo, hi, p) {
            assert(name.skip(plen as int) == v@.subrange(lo + plen, hi as int));
            match unit_def_exec(v, lo + plen, hi) {
                Some(u) => {
                    if u.affine {
                        return None;
                    }
                    let factor = prefix_factor_exec(k);
                    return Some(UnitDef { dim: u.dim, scale: rat_mul(&u.scale, &factor), affine: false });
                },
                None => {
                    return None;
                },
            }
        }
        k = k + 1;
    }
    None
}

/// The state of a unit expression after some of its factors.
pub struct UState {
    pub dim: Seq<i8>,
    pub scale: Q,
    /// The next factor divides.
    pub divide: bool,
    pub affine: bool,
}

pub open spec fn ustate_wf(st: UState) -> bool {
    st.dim.len() == 8 && q_pos(st.scale) && forall|i: int|
        0 <= i < 8 ==> -12 <= #[trigger] st.dim[i] <= 12
}

pub open spec fn sep_at(s: Seq<char>, i: int) -> bool {
    0 <= i < s.len() && (s[i] == '*' || s[i] == '/')
}

/// The first `*` or `/`.
pub open spec fn first_sep(s: Seq<char>) -> Option<int> {
    if exists|i: int| sep_at(s, i) {
        Some(choose|i: int| sep_at(s, i) && forall|j: int| 0 <= j < i ==> !sep_at(s, j))
    } else {
        None
    }
}

/// Name and exponent of one factor: `name` or `name^exponent`.
#[verifier::opaque]
pub open spec fn factor_parts(sym: Seq<char>) -> (Seq<char>, Option<int>) {
    let t = trim(sym);
    match first_index(t, '^') {
        Some(k) => (trim(t.take(k)), parse_in(trim(t.skip(k + 1)), -128, 127)),
        None => (t, Some(1int)),
    }
}

/// Dimension exponents after a factor with exponent `se`.
pub open spec fn next_dim(dim: Seq<i8>, u: Seq<i8>, se: int) -> Seq<int> {
    Seq::new(8, |i: int| dim[i] + u[i] * se)
}

/// All eight exponents lie in `-12..=12`.
pub open spec fn dims_ok(nd: Seq<int>) -> bool {
    forall|i: int| 0 <= i < 8 ==> -12 <= #[trigger] nd[i] <= 12
}

/// One factor of a unit expression applied to the state; `src_len` is the
/// length of the whole trimmed expression, which an affine unit must fill.
#[verifier::opaque]
pub open spec fn apply_factor(src_len: int, sym: Seq<char>, st: UState) -> Option<UState> {
    let (name, exponent) = factor_parts(sym);
    match exponent {
        None => None,
        Some(e) => if e < -12 || e > 12 {
            None
        } else {
            match unit_def(name) {
                None => None,
                Some(u) => if u.affine && (src_len != name.len() || e != 1) {
                    None
                } else {
                    let se = if st.divide {
                        -e
                    } else {
                        e
                    };
                    let nd = next_dim(st.dim, u.dim, se);
                    if dims_ok(nd) {
                        Some(
                            UState {
                                dim: Seq::new(8, |i: int| nd[i] as i8),
                                scale: if se >= 0 {
                                    q_mul(st.scale, q_pow(u.scale, se as nat))
                                } else {
                                    q_div(st.scale, q_pow(u.scale, (-se) as nat))
                                },
                                divide: st.divide,
                                affine: st.affine || u.affine,
                            },
                        )
                    } else {
                        None
                    }
                },
            }
        },
    }
}

/// The factors of `rest`, separated by `*` and `/`, applied in turn.
pub open spec fn unit_factors(src_len: int, rest: Seq<char>, st: UState) -> Option<UState>
    decreases rest.len(),
{
    if rest.len() == 0 {
        Some(st)
    } else {
        match first_sep(rest) {
            Some(j) => if 0 <= j < rest.len() {
                match apply_factor(src_len, rest.take(j), st) {
                    Some(st2) => unit_factors(
                        src_len,
                        rest.skip(j + 1),
                        UState { divide: rest[j] == '/', ..st2 },
                    ),
                    None => None,
                }
            } else {
                None
            },
            None => apply_factor(src_len, rest, st),
        }
    }
}

pub open spec fn unit_start() -> UState {
    UState { dim: seq![0i8, 0i8, 0i8, 0i8, 0i8, 0i8, 0i8, 0i8], scale: q_int(1), divide: false, affine: false }
}

/// `unit_expression`: a product and quotient of units with integer
/// exponents, such as `m/s^2`.
pub open spec fn unit_expression(source: Seq<char>) -> Option<SUnit> {
    match unit_factors(trim(source).len() as int, source, unit_start()) {
        Some(st) => Some(SUnit { dim: st.dim, scale: st.scale, affine: st.affine }),
        None => None,
    }
}

pub struct UnitState {
    pub dim: Vec<i8>,
    pub scale: Rat,
    pub divide: bool,
    pub affine: bool,
}

impl View for UnitState {
    type V = UState;

    open spec fn view(&self) -> UState {
        UState { dim: self.dim@, scale: self.scale@, divide: self.divide, affine: self.affine }
    }
}

#[verifier::rlimit(40)]
fn factor_parts_exec(v: &Vec<char>, lo: usize, hi: usize) -> (r: (usize, usize, Option<i64>))
    requires
        lo <= hi <= v.len(),
    ensures
        lo <= r.0 <= r.1 <= hi,
        factor_parts(v@.subrange(lo as int, hi as int)).0 == v@.subrange(r.0 as int, r.1 as int),
        factor_parts(v@.subrange(lo as int, hi as int)).1 == match r.2 {
            Some(e) => Some(e as int),
            None => None::<int>,
        },
{
    reveal(factor_parts);
    let (tlo, thi) = trim_range(v, lo, hi);
    let ghost t = v@.subrange(tlo as int, thi as int);
    match find_char(v, tlo, thi, '^') {
        Some(k) => {
            let (a, b) = trim_range(v, tlo, k);
            let (c, d) = trim_range(v, k + 1, thi);
            assert(t.take(k - tlo) == v@.subrange(tlo as int, k as int));
            assert(t.skip(k - tlo + 1) == v@.subrange(k + 1, thi as int));
            let e = parse_in_range(v, c, d, -128, 127);
            (a, b, e)
        },
        None => (tlo, thi, Some(1i64)),
    }
}

proof fn lemma_apply_dim_fails(src_len: int, sym: Seq<char>, st: UState, name: Seq<char>, e: int, u: SUnit)
    requires
        factor_parts(sym).0 == name,
        factor_parts(sym).1 == Some(e),
        -12 <= e <= 12,
        unit_def(name) == Some(u),
        !(u.affine && (src_len != name.len() || e != 1)),
        !dims_ok(next_dim(st.dim, u.dim, if st.divide { -e } else { e })),
    ensures
        apply_factor(src_len, sym, st) is None,
{
    reveal(apply_factor);
}

fn next_dim_exec(dim: &Vec<i8>, u: &Vec<i8>, se: i64) -> (r: Option<Vec<i8>>)
    requires
        dim@.len() == 8,
        u@.len() == 8,
        -12 <= se <= 12,
    ensures
        r is Some <==> dims_ok(next_dim(dim@, u@, se as int)),
        r matches Some(d) ==> d@ == Seq::new(8, |i: int| next_dim(dim@, u@, se as int)[i] as i8),
{
    let ghost nd = next_dim(dim@, u@, se as int);
    let mut out: Vec<i8> = Vec::new();
    let mut i: usize = 0;
    while i < 8
        invariant
            i <= 8,
            dim@.len() == 8,
            u@.len() == 8,
            -12 <= se <= 12,
            nd == next_dim(dim@, u@, se as int),
            out@.len() == i,
            forall|j: int| 0 <= j < i ==> -12 <= #[trigger] nd[j] <= 12 && out@[j] == nd[j] as i8,
        decreases 8 - i,
    {
        let a = u[i] as i64;
        assert(-128 * 12 <= a * se <= 128 * 12) by (nonlinear_arith)
            requires
                -128 <= a <= 127,
                -12 <= se <= 12,
        ;
        let x: i64 = dim[i] as i64 + a * se;
        assert(x == nd[i as int]);
        if x < -12 || x > 12 {
            return None;
        }
        out.push(x as i8);
        i = i + 1;
    }
    assert(out@ == Seq::new(8, |j: int| nd[j] as i8));
    Some(out)
}

fn apply_factor_exec(v: &Vec<char>, lo: usize, hi: usize, src_len: usize, st: UnitState) -> (r:
    Option<UnitState>)
    requires
        lo <= hi <= v.len(),
        ustate_wf(st@),
    ensures
        r matches Some(s) ==> apply_factor(src_len as int, v@.subrange(lo as int, hi as int), st@)
            == Some(s@) && ustate_wf(s@),
        r is None ==> apply_factor(src_len as int, v@.subrange(lo as int, hi as int), st@) is None,
{
    let ghost sym = v@.subrange(lo as int, hi as int);
    reveal(apply_factor);
    let (nlo, nhi, exponent) = factor_parts_exec(v, lo, hi);
    let e = match exponent {
        Some(e) => e,
        None => {
            return None;
        },
    };
    if e < -12 || e > 12 {
        return None;
    }
    let u = match unit_def_exec(v, nlo, nhi) {
        Some(u) => u,
        None => {
            return None;
        },
    };
    proof {
        lemma_unit_wf(v@.subrange(nlo as int, nhi as int));
    }
    if u.affine && (src_len != nhi - nlo || e != 1) {
        return None;
    }
    let se: i64 = if st.divide {
        -e
    } else {
        e
    };
    let ghost se_i: int = if st@.divide {
        -(e as int)
    } else {
        e as int
    };
    assert(se as int == se_i);
    let dim = match next_dim_exec(&st.dim, &u.dim, se) {
        Some(d) => d,
        None => {
            proof {
                lemma_apply_dim_fails(src_len as int, sym, st@, v@.subrange(nlo as int, nhi as int), e as int, u@);
            }
            return None;
        },
    };
    let scale = if se >= 0 {
        proof {
            lemma_q_pow_pos(u.scale@, se as nat);
            lemma_q_mul_pos(st.scale@, q_pow(u.scale@, se as nat));
        }
        rat_mul(&st.scale, &rat_pow(&u.scale, se as i32))
    } else {
        proof {
            lemma_q_pow_pos(u.scale@, (-se) as nat);
            lemma_q_div_pos(st.scale@, q_pow(u.scale@, (-se) as nat));
        }
        rat_div(&st.scale, &rat_pow(&u.scale, (-se) as i32))
    };
    Some(UnitState { dim, scale, divide: st.divide, affine: st.affine || u.affine })
}

/// `unit_expression` over `v[lo..hi]`.
pub fn unit_expression_exec(v: &Vec<char>, lo: usize, hi: usize) -> (r: Option<UnitDef>)
    requires
        lo <= hi <= v.len(),
    ensures
        r matches Some(u) ==> unit_expression(v@.subrange(lo as int, hi as int)) == Some(u@) && unit_wf(u@),
        r is None ==> unit_expression(v@.subrange(lo as int, hi as int)) is None,
{
    let ghost source = v@.subrange(lo as int, hi as int);
    let (tlo, thi) = trim_range(v, lo, hi);
    let src_len = thi - tlo;
    let mut st = UnitState {
        dim: vec![0i8, 0i8, 0i8, 0i8, 0i8, 0i8, 0i8, 0i8],
        scale: rat_from_int(&int_from_u64(1)),
        divide: false,
        affine: false,
    };
    assert(st@ == unit_start());
    let mut p = lo;
    while p < hi
        invariant
            lo <= p <= hi <= v.len(),
            source == v@.subrange(lo as int, hi as int),
            src_len == trim(source).len(),
            ustate_wf(st@),
            unit_factors(src_len as int, source, unit_start()) == unit_factors(
                src_len as int,
                v@.subrange(p as int, hi as int),
                st@,
            ),
        decreases hi - p,
    {
        let ghost rest = v@.subrange(p as int, hi as int);
        let mut j = p;
        while j < hi && v[j] != '*' && v[j] != '/'
            invariant
                p <= j <= hi <= v.len(),
                rest == v@.subrange(p as int, hi as int),
                forall|q: int| 0 <= q < j - p ==> !sep_at(rest, q),
            decreases hi - j,
        {
            j = j + 1;
        }
        if j < hi {
            proof {
                assert(sep_at(rest, j - p));
                let q = choose|q: int| sep_at(rest, q) && forall|m: int| 0 <= m < q ==> !sep_at(rest, m);
                if q < j - p {
                    assert(!sep_at(rest, q));
                }
                if j - p < q {
                    assert(!sep_at(rest, j - p));
                }
                assert(rest.take(j - p) == v@.subrange(p as int, j as int));
                assert(rest.skip(j - p + 1) == v@.subrange(j + 1, hi as int));
            }
            let divide = v[j] == '/';
            match apply_factor_exec(v, p, j, src_len, st) {
                Some(s2) => {
                    st = UnitState { dim: s2.dim, scale: s2.scale, divide, affine: s2.affine };
                },
                None => {
                    return None;
                },
            }
            p = j + 1;
        } else {
            proof {
                assert forall|q: int| !sep_at(rest, q) by {
                    if 0 <= q < rest.len() {
                    }
                }
            }
            match apply_factor_exec(v, p, hi, src_len, st) {
                Some(s2) => {
                    st = s2;
                    p = hi;
                    assert(unit_factors(src_len as int, v@.subrange(p as int, hi as int), st@) == Some(st@));
                },
                None => {
                    return None;
                },
            }
        }
    }
    Some(UnitDef { dim: st.dim, scale: st.scale, affine: st.affine })
}

} // verus!
