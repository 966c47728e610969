//! The value algebra: a runtime value is a binary64 scalar or a nested
//! array of values, and every binary operator broadcasts — scalar against
//! array repeats the scalar, array against array zips to the shorter
//! length, with no padding.

use crate::scalar::{
    abs_bits, add_bits, ceil_bits, cos_bits, div_bits, f64_abs, f64_add, f64_ceil, f64_cos,
    f64_div, f64_eq, f64_floor, f64_le, f64_ln, f64_lt, f64_max, f64_min, f64_mul, f64_neg,
    f64_of_u64, f64_powf, f64_rem, f64_sin, f64_sub, f64_to_u64, eq_bits, floor_bits, le_bits,
    ln_bits, lt_bits, max_bits, min_bits, mul_bits, neg_bits, powf_bits, rem_bits, sin_bits,
    sub_bits, trunc_bits, u64_to_bits, F64_ONE, F64_ZERO,
};
use vstd::prelude::*;

verus! {

broadcast use vstd::std_specs::vec::group_vec_axioms, vstd::seq::group_seq_axioms;

/// Bits of -1.0.
pub const F64_NEG_ONE: u64 = 0xBFF0_0000_0000_0000;

/// A runtime value: a binary64 scalar carried as its bit pattern, or an
/// array of further values.
pub enum Variable {
    Number(u64),
    Array(Vec<Variable>),
}

/// The mathematical shape of a `Variable`.
#[verifier::ext_equal]
pub enum Val {
    Number(u64),
    Array(Seq<Val>),
}

/// The mathematical value a `Variable` stands for.
pub open spec fn val_of(v: Variable) -> Val
    decreases v,
{
    match v {
        Variable::Number(b) => Val::Number(b),
        Variable::Array(_) => Val::Array(vals_of(v->Array_0@)),
    }
}

pub open spec fn vals_of(s: Seq<Variable>) -> Seq<Val>
    decreases s,
{
    if s.len() == 0 {
        Seq::empty()
    } else {
        seq![val_of(s[0])] + vals_of(s.subrange(1, s.len() as int))
    }
}

/// `vals_of` maps `val_of` over the sequence.
pub broadcast proof fn lemma_vals_of(s: Seq<Variable>)
    ensures
        (#[trigger] vals_of(s)).len() == s.len(),
        forall|i: int| 0 <= i < s.len() ==> vals_of(s)[i] == val_of(s[i]),
    decreases s,
{
    if s.len() > 0 {
        lemma_vals_of(s.subrange(1, s.len() as int));
    }
}

/// Bridges an array value to its elements: the view of
/// `Variable::Array(items)` is the array of the elements' views.
pub proof fn lemma_arr_view(v: &Variable, items: &Vec<Variable>)
    requires
        *v == Variable::Array(*items),
    ensures
        v@ == Val::Array(vals_of(items@)),
        v@->Array_0.len() == items@.len(),
        forall|i: int| 0 <= i < items@.len() ==> #[trigger] v@->Array_0[i] == items@[i]@,
{
    broadcast use lemma_vals_of;

    assert(v@ == Val::Array(vals_of(items@)));
    assert forall|i: int| 0 <= i < items@.len() implies #[trigger] v@->Array_0[i]
        == items@[i]@ by {
        assert(vals_of(items@)[i] == val_of(items@[i]));
    }
}

impl View for Variable {
    type V = Val;

    open spec fn view(&self) -> Val {
        val_of(*self)
    }
}

impl Variable {
    /// A deep copy.
    #[verifier::loop_isolation(false)]
    pub fn dup(&self) -> (r: Variable)
        ensures
            r@ == self@,
        decreases self,
    {
        broadcast use lemma_vals_of;

        match self {
            Variable::Number(b) => Variable::Number(*b),
            Variable::Array(items) => {
                let mut out: Vec<Variable> = Vec::new();
                let mut j: usize = 0;
                while j < items.len()
                    invariant
                        j <= items.len(),
                        out@.len() == j,
                        forall|k: int| 0 <= k < j ==> out@[k]@ == items@[k]@,
                    decreases items.len() - j,
                {
                    proof {
                        assert(decreases_to!(*self => self->Array_0@[j as int]));
                    }
                    out.push(items[j].dup());
                    j += 1;
                }
                proof {
                    assert(vals_of(out@) =~= vals_of(items@));
                }
                Variable::Array(out)
            },
        }
    }
}

/// The scalar a value stands for where one is needed: a number is itself,
/// an array stands for its first element, and an empty array for zero.
pub open spec fn spec_first_scalar(v: Val) -> u64
    decreases v,
{
    match v {
        Val::Number(b) => b,
        Val::Array(items) => if items.len() == 0 {
            F64_ZERO
        } else {
            spec_first_scalar(v->Array_0[0])
        },
    }
}

pub fn first_scalar(v: &Variable) -> (r: u64)
    ensures
        r == spec_first_scalar(v@),
    decreases v,
{
    broadcast use lemma_vals_of;

    match v {
        Variable::Number(b) => *b,
        Variable::Array(items) => if items.len() == 0 {
            F64_ZERO
        } else {
            proof {
                assert(decreases_to!(*v => v->Array_0@[0]));
            }
            first_scalar(&items[0])
        },
    }
}

/// The broadcasting binary operators of the algebra.
#[derive(Clone, Copy)]
pub enum BinOp {
    Add,
    Subtract,
    Multiply,
    Divide,
    Remainder,
    Power,
    Min,
    Max,
}

pub open spec fn scalar_bin(op: BinOp, x: u64, y: u64) -> u64 {
    match op {
        BinOp::Add => f64_add(x, y),
        BinOp::Subtract => f64_sub(x, y),
        BinOp::Multiply => f64_mul(x, y),
        BinOp::Divide => f64_div(x, y),
        BinOp::Remainder => f64_rem(x, y),
        BinOp::Power => f64_powf(x, y),
        BinOp::Min => f64_min(x, y),
        BinOp::Max => f64_max(x, y),
    }
}

pub fn scalar_bin_bits(op: BinOp, x: u64, y: u64) -> (r: u64)
    ensures
        r == scalar_bin(op, x, y),
{
    match op {
        BinOp::Add => add_bits(x, y),
        BinOp::Subtract => sub_bits(x, y),
        BinOp::Multiply => mul_bits(x, y),
        BinOp::Divide => div_bits(x, y),
        BinOp::Remainder => rem_bits(x, y),
        BinOp::Power => powf_bits(x, y),
        BinOp::Min => min_bits(x, y),
        BinOp::Max => max_bits(x, y),
    }
}

/// Broadcasting application of a binary operator: scalar with scalar
/// directly, scalar with array elementwise with the scalar repeated, array
/// with array zipped to the shorter length.
pub open spec fn spec_bin(op: BinOp, a: Val, b: Val) -> Val
    decreases a, b,
{
    match (a, b) {
        (Val::Number(x), Val::Number(y)) => Val::Number(scalar_bin(op, x, y)),
        (Val::Number(x), Val::Array(_)) => Val::Array(bin_num_seq(op, x, b->Array_0)),
        (Val::Array(_), Val::Number(y)) => Val::Array(bin_seq_num(op, a->Array_0, y)),
        (Val::Array(_), Val::Array(_)) => Val::Array(bin_zip(op, a->Array_0, b->Array_0)),
    }
}

pub open spec fn bin_num_seq(op: BinOp, x: u64, s: Seq<Val>) -> Seq<Val>
    decreases Val::Number(x), s,
{
    if s.len() == 0 {
        Seq::empty()
    } else {
        seq![spec_bin(op, Val::Number(x), s[0])] + bin_num_seq(op, x, s.subrange(1, s.len() as int))
    }
}

pub open spec fn bin_seq_num(op: BinOp, s: Seq<Val>, y: u64) -> Seq<Val>
    decreases s,
{
    if s.len() == 0 {
        Seq::empty()
    } else {
        seq![spec_bin(op, s[0], Val::Number(y))] + bin_seq_num(op, s.subrange(1, s.len() as int), y)
    }
}

pub open spec fn bin_zip(op: BinOp, s: Seq<Val>, t: Seq<Val>) -> Seq<Val>
    decreases s,
{
    if s.len() == 0 || t.len() == 0 {
        Seq::empty()
    } else {
        seq![spec_bin(op, s[0], t[0])] + bin_zip(
            op,
            s.subrange(1, s.len() as int),
            t.subrange(1, t.len() as int),
        )
    }
}

/// A scalar broadcast over a sequence applies the operator elementwise.
pub broadcast proof fn lemma_bin_num_seq(op: BinOp, x: u64, s: Seq<Val>)
    ensures
        (#[trigger] bin_num_seq(op, x, s)).len() == s.len(),
        forall|i: int|
            0 <= i < s.len() ==> bin_num_seq(op, x, s)[i] == spec_bin(op, Val::Number(x), s[i]),
    decreases s,
{
    if s.len() > 0 {
        lemma_bin_num_seq(op, x, s.subrange(1, s.len() as int));
    }
}

pub broadcast proof fn lemma_bin_seq_num(op: BinOp, s: Seq<Val>, y: u64)
    ensures
        (#[trigger] bin_seq_num(op, s, y)).len() == s.len(),
        forall|i: int|
            0 <= i < s.len() ==> bin_seq_num(op, s, y)[i] == spec_bin(op, s[i], Val::Number(y)),
    decreases s,
{
    if s.len() > 0 {
        lemma_bin_seq_num(op, s.subrange(1, s.len() as int), y);
    }
}

/// Two arrays zip to the shorter length, the operator applied pairwise.
pub broadcast proof fn lemma_bin_zip(op: BinOp, s: Seq<Val>, t: Seq<Val>)
    ensures
        (#[trigger] bin_zip(op, s, t)).len() == if s.len() <= t.len() {
            s.len()
        } else {
            t.len()
        },
        forall|i: int|
            0 <= i < s.len() && i < t.len() ==> bin_zip(op, s, t)[i] == spec_bin(op, s[i], t[i]),
    decreases s,
{
    if s.len() > 0 && t.len() > 0 {
        lemma_bin_zip(op, s.subrange(1, s.len() as int), t.subrange(1, t.len() as int));
    }
}

#[verifier::loop_isolation(false)]
pub fn bin_value(op: BinOp, a: &Variable, b: &Variable) -> (r: Variable)
    ensures
        r@ == spec_bin(op, a@, b@),
    decreases a, b,
{
    broadcast use lemma_vals_of, lemma_bin_num_seq, lemma_bin_seq_num, lemma_bin_zip;

    match (a, b) {
        (Variable::Number(x), Variable::Number(y)) => Variable::Number(
            scalar_bin_bits(op, *x, *y),
        ),
        (Variable::Number(_), Variable::Array(ys)) => {
            let mut out: Vec<Variable> = Vec::new();
            let mut j: usize = 0;
            while j < ys.len()
                invariant
                    j <= ys.len(),
                    out@.len() == j,
                    forall|k: int| 0 <= k < j ==> out@[k]@ == spec_bin(op, a@, ys@[k]@),
                decreases ys.len() - j,
            {
                proof {
                    assert(decreases_to!(*b => b->Array_0@[j as int]));
                }
                out.push(bin_value(op, a, &ys[j]));
                j += 1;
            }
            proof {
                assert(vals_of(out@) =~= bin_num_seq(op, a@->Number_0, vals_of(ys@)));
            }
            Variable::Array(out)
        },
        (Variable::Array(xs), Variable::Number(_)) => {
            let mut out: Vec<Variable> = Vec::new();
            let mut j: usize = 0;
            while j < xs.len()
                invariant
                    j <= xs.len(),
                    out@.len() == j,
                    forall|k: int| 0 <= k < j ==> out@[k]@ == spec_bin(op, xs@[k]@, b@),
                decreases xs.len() - j,
            {
                proof {
                    assert(decreases_to!(*a => a->Array_0@[j as int]));
                }
                out.push(bin_value(op, &xs[j], b));
                j += 1;
            }
            proof {
                assert(vals_of(out@) =~= bin_seq_num(op, vals_of(xs@), b@->Number_0));
            }
            Variable::Array(out)
        },
        (Variable::Array(xs), Variable::Array(ys)) => {
            let n = if xs.len() <= ys.len() {
                xs.len()
            } else {
                ys.len()
            };
            let mut out: Vec<Variable> = Vec::new();
            let mut j: usize = 0;
            while j < n
                invariant
                    j <= n,
                    out@.len() == j,
                    forall|k: int| 0 <= k < j ==> out@[k]@ == spec_bin(op, xs@[k]@, ys@[k]@),
                decreases n - j,
            {
                proof {
                    assert(decreases_to!(*a => a->Array_0@[j as int]));
                }
                out.push(bin_value(op, &xs[j], &ys[j]));
                j += 1;
            }
            proof {
                assert(vals_of(out@) =~= bin_zip(op, vals_of(xs@), vals_of(ys@)));
            }
            Variable::Array(out)
        },
    }
}

/// The elementwise unary operators of the algebra.
#[derive(Clone, Copy)]
pub enum UnOp {
    Negate,
    Sine,
    Cosine,
    Floor,
    Ceiling,
    AbsoluteValue,
    Logarithm,
}

pub open spec fn scalar_un(op: UnOp, x: u64) -> u64 {
    match op {
        UnOp::Negate => f64_neg(x),
        UnOp::Sine => f64_sin(x),
        UnOp::Cosine => f64_cos(x),
        UnOp::Floor => f64_floor(x),
        UnOp::Ceiling => f64_ceil(x),
        UnOp::AbsoluteValue => f64_abs(x),
        UnOp::Logarithm => f64_ln(x),
    }
}

pub fn scalar_un_bits(op: UnOp, x: u64) -> (r: u64)
    ensures
        r == scalar_un(op, x),
{
    match op {
        UnOp::Negate => neg_bits(x),
        UnOp::Sine => sin_bits(x),
        UnOp::Cosine => cos_bits(x),
        UnOp::Floor => floor_bits(x),
        UnOp::Ceiling => ceil_bits(x),
        UnOp::AbsoluteValue => abs_bits(x),
        UnOp::Logarithm => ln_bits(x),
    }
}

/// Elementwise application of a unary operator.
pub open spec fn spec_un(op: UnOp, a: Val) -> Val
    decreases a,
{
    match a {
        Val::Number(x) => Val::Number(scalar_un(op, x)),
        Val::Array(_) => Val::Array(un_seq(op, a->Array_0)),
    }
}

pub open spec fn un_seq(op: UnOp, s: Seq<Val>) -> Seq<Val>
    decreases s,
{
    if s.len() == 0 {
        Seq::empty()
    } else {
        seq![spec_un(op, s[0])] + un_seq(op, s.subrange(1, s.len() as int))
    }
}

pub broadcast proof fn lemma_un_seq(op: UnOp, s: Seq<Val>)
    ensures
        (#[trigger] un_seq(op, s)).len() == s.len(),
        forall|i: int| 0 <= i < s.len() ==> un_seq(op, s)[i] == spec_un(op, s[i]),
    decreases s,
{
    if s.len() > 0 {
        lemma_un_seq(op, s.subrange(1, s.len() as int));
    }
}

#[verifier::loop_isolation(false)]
pub fn un_value(op: UnOp, a: &Variable) -> (r: Variable)
    ensures
        r@ == spec_un(op, a@),
    decreases a,
{
    broadcast use lemma_vals_of, lemma_un_seq;

    match a {
        Variable::Number(x) => Variable::Number(scalar_un_bits(op, *x)),
        Variable::Array(xs) => {
            let mut out: Vec<Variable> = Vec::new();
            let mut j: usize = 0;
            while j < xs.len()
                invariant
                    j <= xs.len(),
                    out@.len() == j,
                    forall|k: int| 0 <= k < j ==> out@[k]@ == spec_un(op, xs@[k]@),
                decreases xs.len() - j,
            {
                proof {
                    assert(decreases_to!(*a => a->Array_0@[j as int]));
                }
                out.push(un_value(op, &xs[j]));
                j += 1;
            }
            proof {
                assert(vals_of(out@) =~= un_seq(op, vals_of(xs@)));
            }
            Variable::Array(out)
        },
    }
}


/// Broadcast equality of two values, as the algebra defines it: number
/// against number is IEEE equality, a number equals an array whose every
/// element equals it, and two arrays are compared pairwise over the shorter
/// length.
pub open spec fn spec_val_eq(a: Val, b: Val) -> bool
    decreases a, b,
{
    match (a, b) {
        (Val::Number(x), Val::Number(y)) => f64_eq(x, y),
        (Val::Number(_), Val::Array(_)) => forall|i: int|
            0 <= i < b->Array_0.len() ==> spec_val_eq(a, #[trigger] b->Array_0[i]),
        (Val::Array(_), Val::Number(_)) => forall|i: int|
            0 <= i < a->Array_0.len() ==> spec_val_eq(#[trigger] a->Array_0[i], b),
        (Val::Array(_), Val::Array(_)) => forall|i: int|
            0 <= i < a->Array_0.len() && i < b->Array_0.len() ==> spec_val_eq(
                #[trigger] a->Array_0[i],
                b->Array_0[i],
            ),
    }
}

#[verifier::loop_isolation(false)]
pub fn val_eq(a: &Variable, b: &Variable) -> (r: bool)
    ensures
        r == spec_val_eq(a@, b@),
    decreases a, b,
{
    broadcast use lemma_vals_of;

    match (a, b) {
        (Variable::Number(x), Variable::Number(y)) => eq_bits(*x, *y),
        (Variable::Number(_), Variable::Array(ys)) => {
            let mut j: usize = 0;
            while j < ys.len()
                invariant
                    j <= ys.len(),
                    forall|k: int| 0 <= k < j ==> spec_val_eq(a@, ys@[k]@),
                decreases ys.len() - j,
            {
                proof {
                    assert(decreases_to!(*b => b->Array_0@[j as int]));
                }
                if !val_eq(a, &ys[j]) {
                    proof {
                        lemma_arr_view(b, ys);
                        assert(!spec_val_eq(a@, b@->Array_0[j as int]));
                    }
                    return false;
                }
                j += 1;
            }
            proof {
                lemma_arr_view(b, ys);
                assert forall|i: int| 0 <= i < b@->Array_0.len() implies spec_val_eq(
                    a@,
                    #[trigger] b@->Array_0[i],
                ) by {
                    assert(b@->Array_0[i] == ys@[i]@);
                }
            }
            true
        },
        (Variable::Array(xs), Variable::Number(_)) => {
            let mut j: usize = 0;
            while j < xs.len()
                invariant
                    j <= xs.len(),
                    forall|k: int| 0 <= k < j ==> spec_val_eq(xs@[k]@, b@),
                decreases xs.len() - j,
            {
                proof {
                    assert(decreases_to!(*a => a->Array_0@[j as int]));
                }
                if !val_eq(&xs[j], b) {
                    proof {
                        lemma_arr_view(a, xs);
                        assert(!spec_val_eq(a@->Array_0[j as int], b@));
                    }
                    return false;
                }
                j += 1;
            }
            proof {
                lemma_arr_view(a, xs);
                assert forall|i: int| 0 <= i < a@->Array_0.len() implies spec_val_eq(
                    #[trigger] a@->Array_0[i],
                    b@,
                ) by {
                    assert(a@->Array_0[i] == xs@[i]@);
                }
            }
            true
        },
        (Variable::Array(xs), Variable::Array(ys)) => {
            let n = if xs.len() <= ys.len() {
                xs.len()
            } else {
                ys.len()
            };
            let mut j: usize = 0;
            while j < n
                invariant
                    j <= n,
                    forall|k: int| 0 <= k < j ==> spec_val_eq(xs@[k]@, ys@[k]@),
                decreases n - j,
            {
                proof {
                    assert(decreases_to!(*a => a->Array_0@[j as int]));
                }
                if !val_eq(&xs[j], &ys[j]) {
                    proof {
                        lemma_arr_view(a, xs);
                        lemma_arr_view(b, ys);
                        assert(!spec_val_eq(a@->Array_0[j as int], b@->Array_0[j as int]));
                    }
                    return false;
                }
                j += 1;
            }
            proof {
                lemma_arr_view(a, xs);
                lemma_arr_view(b, ys);
                assert forall|i: int|
                    0 <= i < a@->Array_0.len() && i < b@->Array_0.len() implies spec_val_eq(
                    #[trigger] a@->Array_0[i],
                    b@->Array_0[i],
                ) by {
                    assert(a@->Array_0[i] == xs@[i]@);
                    assert(b@->Array_0[i] == ys@[i]@);
                }
            }
            true
        },
    }
}

/// The ordering comparisons of the algebra. Ordering is defined between
/// two numbers only; whenever an array takes part the comparison is false.
#[derive(Clone, Copy)]
pub enum CmpOp {
    LessThan,
    GreaterThan,
    LessThanOrEqual,
    GreaterThanOrEqual,
}

pub open spec fn spec_val_cmp(op: CmpOp, a: Val, b: Val) -> bool {
    match (a, b) {
        (Val::Number(x), Val::Number(y)) => match op {
            CmpOp::LessThan => f64_lt(x, y),
            CmpOp::GreaterThan => f64_lt(y, x),
            CmpOp::LessThanOrEqual => f64_le(x, y),
            CmpOp::GreaterThanOrEqual => f64_le(y, x),
        },
        _ => false,
    }
}

pub fn val_cmp(op: CmpOp, a: &Variable, b: &Variable) -> (r: bool)
    ensures
        r == spec_val_cmp(op, a@, b@),
{
    match (a, b) {
        (Variable::Number(x), Variable::Number(y)) => match op {
            CmpOp::LessThan => lt_bits(*x, *y),
            CmpOp::GreaterThan => lt_bits(*y, *x),
            CmpOp::LessThanOrEqual => le_bits(*x, *y),
            CmpOp::GreaterThanOrEqual => le_bits(*y, *x),
        },
        _ => false,
    }
}

/// A value is truthy when it does not equal the scalar zero under the
/// algebra's broadcast equality.
pub open spec fn spec_truthy(v: Val) -> bool {
    !spec_val_eq(v, Val::Number(F64_ZERO))
}

pub fn truthy(v: &Variable) -> (r: bool)
    ensures
        r == spec_truthy(v@),
{
    !val_eq(v, &Variable::Number(F64_ZERO))
}

/// Indexing: a number indexes to itself; an array yields the element at
/// the index truncated to an integer, or nothing when it is out of range.
pub open spec fn spec_index_val(v: Val, idx: u64) -> Option<Val> {
    match v {
        Val::Number(_) => Some(v),
        Val::Array(_) => {
            let k = f64_to_u64(idx);
            if k < v->Array_0.len() {
                Some(v->Array_0[k as int])
            } else {
                None
            }
        },
    }
}

pub fn index_value(v: &Variable, idx: u64) -> (r: Option<Variable>)
    ensures
        match r {
            Some(e) => spec_index_val(v@, idx) == Some(e@),
            None => spec_index_val(v@, idx) is None,
        },
{
    broadcast use lemma_vals_of;

    match v {
        Variable::Number(_) => Some(v.dup()),
        Variable::Array(items) => {
            proof {
                lemma_arr_view(v, items);
            }
            let k = trunc_bits(idx);
            if k < items.len() as u64 {
                Some(items[k as usize].dup())
            } else {
                None
            }
        },
    }
}

/// The slice `[start, end)` of an array, both bounds truncated to
/// integers; a number yields itself, and bounds out of range yield
/// nothing.
pub open spec fn spec_sub_array(v: Val, start: u64, end: u64) -> Option<Val> {
    match v {
        Val::Number(_) => Some(v),
        Val::Array(_) => {
            let s = f64_to_u64(start);
            let e = f64_to_u64(end);
            if s <= e && e <= v->Array_0.len() {
                Some(Val::Array(v->Array_0.subrange(s as int, e as int)))
            } else {
                None
            }
        },
    }
}

#[verifier::loop_isolation(false)]
pub fn sub_array_value(v: &Variable, start: u64, end: u64) -> (r: Option<Variable>)
    ensures
        match r {
            Some(e) => spec_sub_array(v@, start, end) == Some(e@),
            None => spec_sub_array(v@, start, end) is None,
        },
{
    broadcast use lemma_vals_of;

    match v {
        Variable::Number(_) => Some(v.dup()),
        Variable::Array(items) => {
            proof {
                lemma_arr_view(v, items);
            }
            let s = trunc_bits(start);
            let e = trunc_bits(end);
            if s <= e && e <= items.len() as u64 {
                let mut out: Vec<Variable> = Vec::new();
                let mut j: usize = s as usize;
                while j < e as usize
                    invariant
                        s as usize <= j <= e as usize,
                        out@.len() == j - s,
                        forall|k: int| 0 <= k < out@.len() ==> out@[k]@ == items@[s + k]@,
                    decreases e as usize - j,
                {
                    out.push(items[j].dup());
                    j += 1;
                }
                proof {
                    lemma_arr_view(v, items);
                    assert(vals_of(out@) =~= vals_of(items@).subrange(s as int, e as int));
                }
                Some(Variable::Array(out))
            } else {
                None
            }
        },
    }
}

/// The running left-fold of broadcast addition that the average uses,
/// starting from the scalar zero.
pub open spec fn spec_sum(s: Seq<Val>) -> Val
    decreases s,
{
    if s.len() == 0 {
        Val::Number(F64_ZERO)
    } else {
        spec_bin(BinOp::Add, spec_sum(s.subrange(0, s.len() - 1)), s[s.len() - 1])
    }
}

/// The arithmetic mean of an array: its elements broadcast-added left to
/// right and divided by the element count; a number averages to itself.
pub open spec fn spec_average(v: Val) -> Val {
    match v {
        Val::Number(_) => v,
        Val::Array(_) => spec_bin(
            BinOp::Divide,
            spec_sum(v->Array_0),
            Val::Number(f64_of_u64(v->Array_0.len() as u64)),
        ),
    }
}

#[verifier::loop_isolation(false)]
#[verifier::rlimit(30)]
pub fn average_value(v: &Variable) -> (r: Variable)
    ensures
        r@ == spec_average(v@),
{
    broadcast use lemma_vals_of;

    match v {
        Variable::Number(_) => v.dup(),
        Variable::Array(items) => {
            proof {
                lemma_arr_view(v, items);
            }
            let mut sum = Variable::Number(F64_ZERO);
            let mut j: usize = 0;
            proof {
                assert(vals_of(items@).subrange(0, 0) =~= Seq::<Val>::empty());
            }
            while j < items.len()
                invariant
                    j <= items.len(),
                    sum@ == spec_sum(vals_of(items@).subrange(0, j as int)),
                decreases items.len() - j,
            {
                sum = bin_value(BinOp::Add, &sum, &items[j]);
                proof {
                    let vs = vals_of(items@);
                    assert(vs.subrange(0, j + 1).subrange(0, j as int) =~= vs.subrange(
                        0,
                        j as int,
                    ));
                    assert(vs.subrange(0, j + 1)[j as int] == vs[j as int]);
                }
                j += 1;
            }
            proof {
                assert(vals_of(items@).subrange(0, items@.len() as int) =~= vals_of(items@));
            }
            let count = u64_to_bits(items.len() as u64);
            bin_value(BinOp::Divide, &sum, &Variable::Number(count))
        },
    }
}

/// Concatenation: two numbers form a pair, a number joins an array at the
/// matching end, and two arrays are joined end to end.
pub open spec fn spec_cat(a: Val, b: Val) -> Val {
    match (a, b) {
        (Val::Number(_), Val::Number(_)) => Val::Array(seq![a, b]),
        (Val::Number(_), Val::Array(_)) => Val::Array(seq![a] + b->Array_0),
        (Val::Array(_), Val::Number(_)) => Val::Array(a->Array_0 + seq![b]),
        (Val::Array(_), Val::Array(_)) => Val::Array(a->Array_0 + b->Array_0),
    }
}

#[verifier::loop_isolation(false)]
pub fn cat_value(a: &Variable, b: &Variable) -> (r: Variable)
    ensures
        r@ == spec_cat(a@, b@),
{
    broadcast use lemma_vals_of;

    let mut out: Vec<Variable> = Vec::new();
    match a {
        Variable::Number(_) => {
            out.push(a.dup());
            proof {
                assert(out@[0]@ == old_elem_view(a@, 0));
            }
        },
        Variable::Array(xs) => {
            let mut j: usize = 0;
            while j < xs.len()
                invariant
                    j <= xs.len(),
                    out@.len() == j,
                    forall|k: int| 0 <= k < j ==> out@[k]@ == old_elem_view(a@, k),
                decreases xs.len() - j,
            {
                out.push(xs[j].dup());
                proof {
                    lemma_arr_view(a, xs);
                }
                j += 1;
            }
        },
    }
    let ghost first_len = out@.len();
    match b {
        Variable::Number(_) => {
            out.push(b.dup());
        },
        Variable::Array(ys) => {
            let mut j: usize = 0;
            while j < ys.len()
                invariant
                    j <= ys.len(),
                    out@.len() == first_len + j,
                    forall|k: int|
                        0 <= k < first_len ==> out@[k]@ == old_elem_view(a@, k),
                    forall|k: int| 0 <= k < j ==> out@[first_len + k]@ == ys@[k]@,
                decreases ys.len() - j,
            {
                out.push(ys[j].dup());
                j += 1;
            }
        },
    }
    proof {
        match a {
            Variable::Number(_) => {},
            Variable::Array(xs) => lemma_arr_view(a, xs),
        }
        match b {
            Variable::Number(_) => {},
            Variable::Array(ys) => lemma_arr_view(b, ys),
        }
        let res = spec_cat(a@, b@)->Array_0;
        assert(vals_of(out@).len() == res.len());
        assert forall|i: int| 0 <= i < out@.len() implies vals_of(out@)[i] == res[i] by {
            assert(vals_of(out@)[i] == out@[i]@);
            if i < first_len {
                assert(out@[i]@ == old_elem_view(a@, i));
                if a@ is Array {
                    assert(res[i] == a@->Array_0[i]);
                } else {
                    assert(res[i] == a@);
                }
            } else {
                if b@ is Array {
                    assert(out@[i]@ == b@->Array_0[i - first_len]);
                    assert(res[i] == b@->Array_0[i - first_len]);
                } else {
                    assert(out@[i]@ == b@);
                    assert(res[i] == b@);
                }
            }
        }
        assert(vals_of(out@) =~= res);
    }
    Variable::Array(out)
}

/// The element the concatenation keeps at index `k` from its left operand:
/// the operand itself when it is a number, else its element.
pub open spec fn old_elem_view(a: Val, k: int) -> Val {
    match a {
        Val::Number(_) => a,
        Val::Array(_) => a->Array_0[k],
    }
}

/// The length of a value: one for a number, the element count for an
/// array, as a binary64 scalar.
pub open spec fn spec_len_val(v: Val) -> Val {
    match v {
        Val::Number(_) => Val::Number(F64_ONE),
        Val::Array(_) => Val::Number(f64_of_u64(v->Array_0.len() as u64)),
    }
}

pub fn len_value(v: &Variable) -> (r: Variable)
    ensures
        r@ == spec_len_val(v@),
{
    broadcast use lemma_vals_of;

    match v {
        Variable::Number(_) => Variable::Number(F64_ONE),
        Variable::Array(items) => {
            proof {
                lemma_arr_view(v, items);
            }
            Variable::Number(u64_to_bits(items.len() as u64))
        },
    }
}

/// The index of the first element of `s` that broadcast-equals `b`.
pub open spec fn spec_find_idx(s: Seq<Val>, b: Val) -> Option<int>
    decreases s,
{
    if s.len() == 0 {
        None
    } else if spec_val_eq(s[0], b) {
        Some(0)
    } else {
        match spec_find_idx(s.subrange(1, s.len() as int), b) {
            Some(i) => Some(i + 1),
            None => None,
        }
    }
}

pub broadcast proof fn lemma_find_idx(s: Seq<Val>, b: Val)
    ensures
        match #[trigger] spec_find_idx(s, b) {
            Some(i) => 0 <= i < s.len() && spec_val_eq(s[i], b) && (forall|k: int|
                0 <= k < i ==> !spec_val_eq(s[k], b)),
            None => forall|k: int| 0 <= k < s.len() ==> !spec_val_eq(s[k], b),
        },
    decreases s,
{
    if s.len() > 0 {
        let t = s.subrange(1, s.len() as int);
        lemma_find_idx(t, b);
        if !spec_val_eq(s[0], b) {
            match spec_find_idx(t, b) {
                Some(i) => {
                    assert(t[i] == s[i + 1]);
                    assert forall|k: int| 0 <= k < i + 1 implies !spec_val_eq(s[k], b) by {
                        if k > 0 {
                            assert(t[k - 1] == s[k]);
                        }
                    }
                },
                None => {
                    assert forall|k: int| 0 <= k < s.len() implies !spec_val_eq(s[k], b) by {
                        if k > 0 {
                            assert(t[k - 1] == s[k]);
                        }
                    }
                },
            }
        }
    }
}

/// The first match determines the found index.
pub proof fn lemma_find_idx_at(s: Seq<Val>, b: Val, j: int)
    requires
        0 <= j < s.len(),
        spec_val_eq(s[j], b),
        forall|k: int| 0 <= k < j ==> !spec_val_eq(s[k], b),
    ensures
        spec_find_idx(s, b) == Some(j),
    decreases s,
{
    if j > 0 {
        let t = s.subrange(1, s.len() as int);
        assert forall|k: int| 0 <= k < j - 1 implies !spec_val_eq(t[k], b) by {
            assert(t[k] == s[k + 1]);
        }
        assert(t[j - 1] == s[j]);
        lemma_find_idx_at(t, b, j - 1);
    }
}

/// Search: a number found in a number is index zero when they are equal;
/// an array is scanned for the first element equal to the needle; what is
/// not found is minus one.
pub open spec fn spec_find(a: Val, b: Val) -> Val {
    match a {
        Val::Number(_) => match b {
            Val::Number(_) => if spec_val_eq(a, b) {
                Val::Number(F64_ZERO)
            } else {
                Val::Number(F64_NEG_ONE)
            },
            Val::Array(_) => Val::Number(F64_NEG_ONE),
        },
        Val::Array(_) => match spec_find_idx(a->Array_0, b) {
            Some(i) => Val::Number(f64_of_u64(i as u64)),
            None => Val::Number(F64_NEG_ONE),
        },
    }
}

#[verifier::loop_isolation(false)]
pub fn find_value(a: &Variable, b: &Variable) -> (r: Variable)
    ensures
        r@ == spec_find(a@, b@),
{
    broadcast use lemma_vals_of, lemma_find_idx;

    match a {
        Variable::Number(_) => match b {
            Variable::Number(_) => if val_eq(a, b) {
                Variable::Number(F64_ZERO)
            } else {
                Variable::Number(F64_NEG_ONE)
            },
            Variable::Array(_) => Variable::Number(F64_NEG_ONE),
        },
        Variable::Array(items) => {
            proof {
                lemma_arr_view(a, items);
            }
            let mut j: usize = 0;
            while j < items.len()
                invariant
                    j <= items.len(),
                    forall|k: int| 0 <= k < j ==> !spec_val_eq(items@[k]@, b@),
                decreases items.len() - j,
            {
                if val_eq(&items[j], b) {
                    proof {
                        assert forall|k: int| 0 <= k < j implies !spec_val_eq(
                            #[trigger] a@->Array_0[k],
                            b@,
                        ) by {
                            assert(a@->Array_0[k] == items@[k]@);
                        }
                        assert(a@->Array_0[j as int] == items@[j as int]@);
                        lemma_find_idx_at(a@->Array_0, b@, j as int);
                    }
                    return Variable::Number(u64_to_bits(j as u64));
                }
                j += 1;
            }
            proof {
                assert forall|k: int| 0 <= k < a@->Array_0.len() implies !spec_val_eq(
                    #[trigger] a@->Array_0[k],
                    b@,
                ) by {
                    assert(a@->Array_0[k] == items@[k]@);
                }
                assert(spec_find_idx(a@->Array_0, b@) is None);
            }
            Variable::Number(F64_NEG_ONE)
        },
    }
}


impl Variable {
    /// Broadcast power.
    pub fn pow(&self, power: &Variable) -> (r: Variable)
        ensures
            r@ == spec_bin(BinOp::Power, self@, power@),
    {
        bin_value(BinOp::Power, self, power)
    }

    /// Broadcast minimum.
    pub fn min(&self, other: &Variable) -> (r: Variable)
        ensures
            r@ == spec_bin(BinOp::Min, self@, other@),
    {
        bin_value(BinOp::Min, self, other)
    }

    /// Broadcast maximum.
    pub fn max(&self, other: &Variable) -> (r: Variable)
        ensures
            r@ == spec_bin(BinOp::Max, self@, other@),
    {
        bin_value(BinOp::Max, self, other)
    }

    /// Elementwise natural logarithm.
    pub fn ln(&self) -> (r: Variable)
        ensures
            r@ == spec_un(UnOp::Logarithm, self@),
    {
        un_value(UnOp::Logarithm, self)
    }

    /// Elementwise sine.
    pub fn sin(&self) -> (r: Variable)
        ensures
            r@ == spec_un(UnOp::Sine, self@),
    {
        un_value(UnOp::Sine, self)
    }

    /// Elementwise cosine.
    pub fn cos(&self) -> (r: Variable)
        ensures
            r@ == spec_un(UnOp::Cosine, self@),
    {
        un_value(UnOp::Cosine, self)
    }

    /// Elementwise floor.
    pub fn floor(&self) -> (r: Variable)
        ensures
            r@ == spec_un(UnOp::Floor, self@),
    {
        un_value(UnOp::Floor, self)
    }

    /// Elementwise ceiling.
    pub fn ceil(&self) -> (r: Variable)
        ensures
            r@ == spec_un(UnOp::Ceiling, self@),
    {
        un_value(UnOp::Ceiling, self)
    }

    /// Elementwise absolute value.
    pub fn abs(&self) -> (r: Variable)
        ensures
            r@ == spec_un(UnOp::AbsoluteValue, self@),
    {
        un_value(UnOp::AbsoluteValue, self)
    }

    /// The slice `[start, end)`, both bounds scalars truncated to integers.
    pub fn sub_array(&self, start: &Variable, end: &Variable) -> (r: Option<Variable>)
        ensures
            match r {
                Some(e) => spec_sub_array(
                    self@,
                    spec_first_scalar(start@),
                    spec_first_scalar(end@),
                ) == Some(e@),
                None => spec_sub_array(
                    self@,
                    spec_first_scalar(start@),
                    spec_first_scalar(end@),
                ) is None,
            },
    {
        sub_array_value(self, first_scalar(start), first_scalar(end))
    }

    /// The arithmetic mean of the elements.
    pub fn average(&self) -> (r: Variable)
        ensures
            r@ == spec_average(self@),
    {
        average_value(self)
    }

    /// Concatenation.
    pub fn cat(&self, other: &Variable) -> (r: Variable)
        ensures
            r@ == spec_cat(self@, other@),
    {
        cat_value(self, other)
    }

    /// The length as a scalar.
    pub fn len(&self) -> (r: Variable)
        ensures
            r@ == spec_len_val(self@),
    {
        len_value(self)
    }

    /// The index of the first element equal to the needle, or minus one.
    pub fn find(&self, other: &Variable) -> (r: Variable)
        ensures
            r@ == spec_find(self@, other@),
    {
        find_value(self, other)
    }
}

/// Broadcast law: a binary operator applied to an array and a scalar keeps
/// the array's length and acts elementwise, the scalar repeated — in
/// particular `(a + s)[i] == a[i] + s` for every `i`.
pub proof fn lemma_broadcast_scalar(op: BinOp, a: Val, x: u64, i: int)
    requires
        a is Array,
        0 <= i < a->Array_0.len(),
    ensures
        spec_bin(op, a, Val::Number(x)) is Array,
        spec_bin(op, a, Val::Number(x))->Array_0.len() == a->Array_0.len(),
        spec_bin(op, a, Val::Number(x))->Array_0[i] == spec_bin(
            op,
            a->Array_0[i],
            Val::Number(x),
        ),
        spec_bin(op, Val::Number(x), a) is Array,
        spec_bin(op, Val::Number(x), a)->Array_0.len() == a->Array_0.len(),
        spec_bin(op, Val::Number(x), a)->Array_0[i] == spec_bin(
            op,
            Val::Number(x),
            a->Array_0[i],
        ),
{
    lemma_bin_seq_num(op, a->Array_0, x);
    lemma_bin_num_seq(op, x, a->Array_0);
}

/// Zip-truncation law: a binary operator applied to two arrays of lengths
/// `n` and `m` yields an array of length `min(n, m)`, the operator applied
/// pairwise.
pub proof fn lemma_zip_truncation(op: BinOp, a: Val, b: Val)
    requires
        a is Array,
        b is Array,
    ensures
        spec_bin(op, a, b) is Array,
        spec_bin(op, a, b)->Array_0.len() == if a->Array_0.len() <= b->Array_0.len() {
            a->Array_0.len()
        } else {
            b->Array_0.len()
        },
        forall|i: int|
            0 <= i < a->Array_0.len() && i < b->Array_0.len() ==> spec_bin(op, a, b)->Array_0[i]
                == spec_bin(op, a->Array_0[i], b->Array_0[i]),
{
    lemma_bin_zip(op, a->Array_0, b->Array_0);
}

} // verus!
