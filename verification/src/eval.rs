//! The expression evaluator: an expression tree is evaluated into one
//! value per sample of the window, chains behave as implicit functions
//! through backlinks that fall through into the caller's arguments, and a
//! depth guard turns runaway chain recursion into a reported fault.

use crate::chain::{
    notes_of, spec_contains, spec_duration, Chain, ChainLinks, ChainName, Expression, LinksV, NameInScope,
    NameV, Note, NoteV, Operand, Operation, Property,
};
use crate::error::{Error, ErrorSpec, SonnyResult};
use crate::registry::{spec_resolve, Builder};
use crate::scalar::{
    add_bits, cos_bits, div_bits, f64_add, f64_cos, f64_div, f64_lt, f64_mul, f64_of_u64,
    f64_powf, f64_sin, f64_sub, is_nan, is_nan_bits, lt_bits, mul_bits, powf_bits, sin_bits,
    sub_bits, u64_to_bits, F64_ONE, F64_ZERO,
};
use crate::timeline::{spec_find_note, FindFault, FindRes};
use crate::value::{
    bin_value, spec_first_scalar, first_scalar, val_of, spec_bin, spec_cat, spec_find, spec_index_val, spec_len_val, spec_average,
    spec_sub_array, spec_truthy, spec_un, spec_val_cmp, spec_val_eq, val_cmp, val_eq, vals_of,
    truthy, un_value, BinOp, CmpOp, UnOp, Val, Variable,
};
use vstd::prelude::*;

verus! {

broadcast use vstd::std_specs::vec::group_vec_axioms, vstd::seq::group_seq_axioms;

/// Greater of two naturals.
pub open spec fn max2(a: nat, b: nat) -> nat {
    if a >= b {
        a
    } else {
        b
    }
}

/// Structural height of an operand.
pub open spec fn op_h(o: Operand) -> nat
    decreases o,
{
    match o {
        Operand::Expression(_) => 1 + expr_h(*o->Expression_0),
        Operand::Array(_) => 2 + exprs_h(o->Array_0@),
        _ => 1,
    }
}

/// Structural height of an expression.
pub open spec fn expr_h(e: Expression) -> nat
    decreases e,
{
    1 + oper_h(e.0)
}

/// Structural height of an operation: one above its highest operand.
pub open spec fn oper_h(p: Operation) -> nat
    decreases p,
{
    match p {
        Operation::Add(..) => 1 + max2(op_h(p->Add_0), op_h(p->Add_1)),
        Operation::Subtract(..) => 1 + max2(op_h(p->Subtract_0), op_h(p->Subtract_1)),
        Operation::Multiply(..) => 1 + max2(op_h(p->Multiply_0), op_h(p->Multiply_1)),
        Operation::Divide(..) => 1 + max2(op_h(p->Divide_0), op_h(p->Divide_1)),
        Operation::Remainder(..) => 1 + max2(op_h(p->Remainder_0), op_h(p->Remainder_1)),
        Operation::Power(..) => 1 + max2(op_h(p->Power_0), op_h(p->Power_1)),
        Operation::Min(..) => 1 + max2(op_h(p->Min_0), op_h(p->Min_1)),
        Operation::Max(..) => 1 + max2(op_h(p->Max_0), op_h(p->Max_1)),
        Operation::LessThan(..) => 1 + max2(op_h(p->LessThan_0), op_h(p->LessThan_1)),
        Operation::GreaterThan(..) => 1 + max2(op_h(p->GreaterThan_0), op_h(p->GreaterThan_1)),
        Operation::LessThanOrEqual(..) => 1 + max2(
            op_h(p->LessThanOrEqual_0),
            op_h(p->LessThanOrEqual_1),
        ),
        Operation::GreaterThanOrEqual(..) => 1 + max2(
            op_h(p->GreaterThanOrEqual_0),
            op_h(p->GreaterThanOrEqual_1),
        ),
        Operation::Equal(..) => 1 + max2(op_h(p->Equal_0), op_h(p->Equal_1)),
        Operation::NotEqual(..) => 1 + max2(op_h(p->NotEqual_0), op_h(p->NotEqual_1)),
        Operation::Or(..) => 1 + max2(op_h(p->Or_0), op_h(p->Or_1)),
        Operation::And(..) => 1 + max2(op_h(p->And_0), op_h(p->And_1)),
        Operation::Negate(..) => 1 + op_h(p->Negate_0),
        Operation::Sine(..) => 1 + op_h(p->Sine_0),
        Operation::Cosine(..) => 1 + op_h(p->Cosine_0),
        Operation::Floor(..) => 1 + op_h(p->Floor_0),
        Operation::Ceiling(..) => 1 + op_h(p->Ceiling_0),
        Operation::AbsoluteValue(..) => 1 + op_h(p->AbsoluteValue_0),
        Operation::Logarithm(..) => 1 + op_h(p->Logarithm_0),
        Operation::Operand(..) => 1 + op_h(p->Operand_0),
        Operation::Ternary(..) => 1 + max2(
            op_h(p->Ternary_0),
            max2(op_h(p->Ternary_1), op_h(p->Ternary_2)),
        ),
        Operation::Index(..) => 1 + max2(op_h(p->Index_0), op_h(p->Index_1)),
        Operation::SubArray(..) => 1 + max2(
            op_h(p->SubArray_0),
            max2(op_h(p->SubArray_1), op_h(p->SubArray_2)),
        ),
        Operation::Average(..) => 1 + op_h(p->Average_0),
        Operation::Concat(..) => 1 + max2(op_h(p->Concat_0), op_h(p->Concat_1)),
        Operation::Length(..) => 1 + op_h(p->Length_0),
        Operation::Find(..) => 1 + max2(op_h(p->Find_0), op_h(p->Find_1)),
        Operation::FFT(..) => 1 + op_h(p->FFT_0),
        Operation::Window(..) => 1 + op_h(p->Window_0),
    }
}

/// Structural height of a list of expressions: the highest of them.
pub open spec fn exprs_h(s: Seq<Expression>) -> nat
    decreases s,
{
    if s.len() == 0 {
        0
    } else {
        max2(expr_h(s[0]), exprs_h(s.subrange(1, s.len() as int)))
    }
}

pub broadcast proof fn lemma_exprs_h(s: Seq<Expression>)
    ensures
        forall|i: int| 0 <= i < s.len() ==> expr_h(s[i]) <= #[trigger] exprs_h(s),
    decreases s,
{
    if s.len() > 0 {
        let t = s.subrange(1, s.len() as int);
        lemma_exprs_h(t);
        assert forall|i: int| 0 <= i < s.len() implies expr_h(s[i]) <= exprs_h(s) by {
            if i > 0 {
                assert(t[i - 1] == s[i]);
            }
        }
    }
}


/// The window a call evaluates over: its absolute start time, the window
/// and look-back sizes, and the sample rate, the scalars as binary64 bits.
#[derive(Clone, Copy)]
pub struct EvalCtx {
    pub time: u64,
    pub window_size: usize,
    pub buffer_size: usize,
    pub sample_rate: u64,
}

/// Samples per evaluation: the look-back buffer plus the window.
pub open spec fn ctx_n(c: EvalCtx) -> nat {
    (c.buffer_size + c.window_size) as nat
}

/// The absolute time of sample `k`: the window's start time plus
/// `k / sampleRate`.
pub open spec fn t_at(c: EvalCtx, k: nat) -> u64 {
    f64_add(c.time, f64_div(f64_of_u64(k as u64), c.sample_rate))
}

/// Why evaluation can fail.
#[verifier::ext_equal]
pub enum EvalFault {
    /// A chain name does not resolve.
    Unresolved(NameV),
    /// A backlink of zero steps.
    ZeroBacklink,
    /// A backlink reaching past the local history and the caller's
    /// arguments: the chain, the steps asked for, and the steps available.
    Unsatisfied(NameV, nat, nat),
    /// A property of a chain that is not a note chain.
    PropertiesOfGeneric(NameV),
    /// A generic chain with no links has no last result.
    ChainEmpty(NameV),
    /// Chain invocation nested deeper than the guard allows.
    Exhausted(NameV),
    /// A note lookup failed fatally.
    Note(FindFault),
    /// An index past the end of an array value.
    IndexOutOfRange,
    /// Sub-array bounds outside the array value.
    SubArrayOutOfRange,
    /// The frequency transform met an array sample.
    FftOnArray,
    /// The frequency transform's magnitudes hold a NaN.
    FftNan,
    /// The frequency transform ran over an empty window.
    FftEmpty,
}

/// What evaluation yields: one value per sample, or a fault.
#[verifier::ext_equal]
pub enum EvalRes {
    Cols(Seq<Val>),
    Fail(EvalFault),
}

/// One value repeated across the window.
pub open spec fn bc_col(n: nat, v: Val) -> Seq<Val> {
    Seq::new(n, |k: int| v)
}

/// The per-sample absolute times.
pub open spec fn time_col(c: EvalCtx) -> Seq<Val> {
    Seq::new(ctx_n(c), |k: int| Val::Number(t_at(c, k as nat)))
}

/// The per-sample indices.
pub open spec fn winidx_col(c: EvalCtx) -> Seq<Val> {
    Seq::new(ctx_n(c), |k: int| Val::Number(f64_of_u64(k as u64)))
}

/// The sample value of a resolved note: silence is zero, one pitch is a
/// scalar, several are an array.
pub open spec fn note_sample(r: Option<NoteV>) -> Val {
    match r {
        None => Val::Number(F64_ZERO),
        Some(nv) => if nv.pitches.len() == 1 {
            Val::Number(nv.pitches[0])
        } else {
            Val::Array(Seq::new(nv.pitches.len(), |i: int| Val::Number(nv.pitches[i])))
        },
    }
}

/// The per-sample values of a note chain from sample `k` on: each sample's
/// time is resolved on the timeline, a fault there is a fault here.
pub open spec fn spec_note_col(
    links: LinksV,
    c: EvalCtx,
    chains: Seq<Chain>,
    scope: Seq<NameInScope>,
    fuel: nat,
    k: nat,
) -> EvalRes
    decreases ctx_n(c) - k,
{
    if k >= ctx_n(c) {
        EvalRes::Cols(Seq::empty())
    } else {
        match spec_find_note(links, t_at(c, k), F64_ZERO, chains, scope, fuel) {
            FindRes::Fault(f) => EvalRes::Fail(EvalFault::Note(f)),
            found => {
                let v = match found {
                    FindRes::Found(nv) => note_sample(Some(nv)),
                    _ => note_sample(None),
                };
                match spec_note_col(links, c, chains, scope, fuel, k + 1) {
                    EvalRes::Cols(rest) => EvalRes::Cols(seq![v] + rest),
                    fail => fail,
                }
            },
        }
    }
}

/// The property of the active note: nothing active is zero; `All` bundles
/// the pitches and the period into one array.
pub open spec fn prop_sample(sel: Property, r: Option<NoteV>) -> Val {
    match r {
        None => Val::Number(F64_ZERO),
        Some(nv) => match sel {
            Property::Start => Val::Number(nv.period.start),
            Property::End => Val::Number(nv.period.end),
            Property::Duration => Val::Number(spec_duration(nv.period)),
            Property::All => Val::Array(
                seq![
                    Val::Array(Seq::new(nv.pitches.len(), |i: int| Val::Number(nv.pitches[i]))),
                    Val::Number(nv.period.start),
                    Val::Number(nv.period.end),
                    Val::Number(spec_duration(nv.period)),
                ],
            ),
        },
    }
}

/// The per-sample property values of a note chain from sample `k` on.
pub open spec fn spec_prop_col(
    sel: Property,
    links: LinksV,
    c: EvalCtx,
    chains: Seq<Chain>,
    scope: Seq<NameInScope>,
    fuel: nat,
    k: nat,
) -> EvalRes
    decreases ctx_n(c) - k,
{
    if k >= ctx_n(c) {
        EvalRes::Cols(Seq::empty())
    } else {
        match spec_find_note(links, t_at(c, k), F64_ZERO, chains, scope, fuel) {
            FindRes::Fault(f) => EvalRes::Fail(EvalFault::Note(f)),
            found => {
                let v = match found {
                    FindRes::Found(nv) => prop_sample(sel, Some(nv)),
                    _ => prop_sample(sel, None),
                };
                match spec_prop_col(sel, links, c, chains, scope, fuel, k + 1) {
                    EvalRes::Cols(rest) => EvalRes::Cols(seq![v] + rest),
                    fail => fail,
                }
            },
        }
    }
}

/// The pitches of the first note of the list whose period contains the
/// time, unshifted; none gives the empty list.
pub open spec fn spec_scan_pitches(notes: Seq<NoteV>, t: u64) -> Seq<u64>
    decreases notes,
{
    if notes.len() == 0 {
        Seq::empty()
    } else if spec_contains(notes[0].period, t) {
        notes[0].pitches
    } else {
        spec_scan_pitches(notes.subrange(1, notes.len() as int), t)
    }
}

/// The per-sample values of an inline note list: the sounding pitches as
/// an array, empty when nothing sounds.
pub open spec fn notes_op_col(notes: Seq<NoteV>, c: EvalCtx) -> Seq<Val> {
    Seq::new(
        ctx_n(c),
        |k: int|
            {
                let ps = spec_scan_pitches(notes, t_at(c, k as nat));
                Val::Array(Seq::new(ps.len(), |i: int| Val::Number(ps[i])))
            },
    )
}

/// A binary operator applied per sample over two columns.
pub open spec fn bin_col(op: BinOp, xs: Seq<Val>, ys: Seq<Val>) -> Seq<Val> {
    Seq::new(
        if xs.len() <= ys.len() {
            xs.len()
        } else {
            ys.len()
        },
        |k: int| spec_bin(op, xs[k], ys[k]),
    )
}

/// A unary operator applied per sample.
pub open spec fn un_col(op: UnOp, xs: Seq<Val>) -> Seq<Val> {
    Seq::new(xs.len(), |k: int| spec_un(op, xs[k]))
}

/// One as true, zero as false.
pub open spec fn bool01(b: bool) -> Val {
    if b {
        Val::Number(F64_ONE)
    } else {
        Val::Number(F64_ZERO)
    }
}

/// An ordering comparison applied per sample, one and zero as the results.
pub open spec fn cmp_col(op: CmpOp, xs: Seq<Val>, ys: Seq<Val>) -> Seq<Val> {
    Seq::new(
        if xs.len() <= ys.len() {
            xs.len()
        } else {
            ys.len()
        },
        |k: int| bool01(spec_val_cmp(op, xs[k], ys[k])),
    )
}

/// Equality or inequality applied per sample.
pub open spec fn eq_col(negated: bool, xs: Seq<Val>, ys: Seq<Val>) -> Seq<Val> {
    Seq::new(
        if xs.len() <= ys.len() {
            xs.len()
        } else {
            ys.len()
        },
        |k: int| bool01(spec_val_eq(xs[k], ys[k]) != negated),
    )
}

/// The ternary choice per sample: a nonzero condition picks the first arm.
pub open spec fn tern_col(cs: Seq<Val>, xs: Seq<Val>, ys: Seq<Val>) -> Seq<Val> {
    Seq::new(
        min3(cs.len(), xs.len(), ys.len()),
        |k: int|
            if spec_truthy(cs[k]) {
                xs[k]
            } else {
                ys[k]
            },
    )
}

pub open spec fn min3(a: nat, b: nat, cc: nat) -> nat {
    if a <= b && a <= cc {
        a
    } else if b <= cc {
        b
    } else {
        cc
    }
}

/// Concatenation per sample.
pub open spec fn cat_col(xs: Seq<Val>, ys: Seq<Val>) -> Seq<Val> {
    Seq::new(
        if xs.len() <= ys.len() {
            xs.len()
        } else {
            ys.len()
        },
        |k: int| spec_cat(xs[k], ys[k]),
    )
}

/// Search per sample.
pub open spec fn find_col(xs: Seq<Val>, ys: Seq<Val>) -> Seq<Val> {
    Seq::new(
        if xs.len() <= ys.len() {
            xs.len()
        } else {
            ys.len()
        },
        |k: int| spec_find(xs[k], ys[k]),
    )
}

/// Length per sample.
pub open spec fn len_col(xs: Seq<Val>) -> Seq<Val> {
    Seq::new(xs.len(), |k: int| spec_len_val(xs[k]))
}

/// Average per sample.
pub open spec fn avg_col(xs: Seq<Val>) -> Seq<Val> {
    Seq::new(xs.len(), |k: int| spec_average(xs[k]))
}

/// Indexing per sample: any sample out of range faults the whole window.
pub open spec fn index_col(xs: Seq<Val>, ys: Seq<Val>) -> EvalRes {
    let m = if xs.len() <= ys.len() {
        xs.len()
    } else {
        ys.len()
    };
    if forall|k: int|
        0 <= k < m ==> #[trigger] spec_index_val(xs[k], spec_first_scalar(ys[k])) is Some {
        EvalRes::Cols(Seq::new(m, |k: int| spec_index_val(xs[k], spec_first_scalar(ys[k]))->Some_0))
    } else {
        EvalRes::Fail(EvalFault::IndexOutOfRange)
    }
}

/// Sub-arrays per sample: any bounds out of range fault the whole window.
pub open spec fn sub_array_col(xs: Seq<Val>, ys: Seq<Val>, zs: Seq<Val>) -> EvalRes {
    let m = min3(xs.len(), ys.len(), zs.len());
    if forall|k: int|
        0 <= k < m ==> #[trigger] spec_sub_array(
            xs[k],
            spec_first_scalar(ys[k]),
            spec_first_scalar(zs[k]),
        ) is Some {
        EvalRes::Cols(
            Seq::new(
                m,
                |k: int|
                    spec_sub_array(xs[k], spec_first_scalar(ys[k]), spec_first_scalar(zs[k]))->Some_0,
            ),
        )
    } else {
        EvalRes::Fail(EvalFault::SubArrayOutOfRange)
    }
}

/// The whole column bundled into one array value, repeated per sample.
pub open spec fn window_col(xs: Seq<Val>) -> Seq<Val> {
    Seq::new(xs.len(), |k: int| Val::Array(xs))
}

pub open spec fn spec_operands(p: Operation) -> (Operand, Option<Operand>, Option<Operand>) {
    match p {
        Operation::Add(a, b) => (a, Some(b), None),
        Operation::Subtract(a, b) => (a, Some(b), None),
        Operation::Multiply(a, b) => (a, Some(b), None),
        Operation::Divide(a, b) => (a, Some(b), None),
        Operation::Remainder(a, b) => (a, Some(b), None),
        Operation::Power(a, b) => (a, Some(b), None),
        Operation::Min(a, b) => (a, Some(b), None),
        Operation::Max(a, b) => (a, Some(b), None),
        Operation::LessThan(a, b) => (a, Some(b), None),
        Operation::GreaterThan(a, b) => (a, Some(b), None),
        Operation::LessThanOrEqual(a, b) => (a, Some(b), None),
        Operation::GreaterThanOrEqual(a, b) => (a, Some(b), None),
        Operation::Equal(a, b) => (a, Some(b), None),
        Operation::NotEqual(a, b) => (a, Some(b), None),
        Operation::Or(a, b) => (a, Some(b), None),
        Operation::And(a, b) => (a, Some(b), None),
        Operation::Index(a, b) => (a, Some(b), None),
        Operation::Concat(a, b) => (a, Some(b), None),
        Operation::Find(a, b) => (a, Some(b), None),
        Operation::Negate(a) => (a, None, None),
        Operation::Sine(a) => (a, None, None),
        Operation::Cosine(a) => (a, None, None),
        Operation::Floor(a) => (a, None, None),
        Operation::Ceiling(a) => (a, None, None),
        Operation::AbsoluteValue(a) => (a, None, None),
        Operation::Logarithm(a) => (a, None, None),
        Operation::Operand(a) => (a, None, None),
        Operation::Average(a) => (a, None, None),
        Operation::Length(a) => (a, None, None),
        Operation::FFT(a) => (a, None, None),
        Operation::Window(a) => (a, None, None),
        Operation::Ternary(a, b, c) => (a, Some(b), Some(c)),
        Operation::SubArray(a, b, c) => (a, Some(b), Some(c)),
    }
}

/// Every operand of an operation sits below it in height.
pub proof fn lemma_operands_h(p: Operation)
    ensures
        op_h(spec_operands(p).0) <= oper_h(p),
        match spec_operands(p).1 {
            Some(b) => op_h(b) <= oper_h(p),
            None => true,
        },
        match spec_operands(p).2 {
            Some(c) => op_h(c) <= oper_h(p),
            None => true,
        },
{
    match p {
        Operation::Add(..) => {
            assert(spec_operands(p) == (p->Add_0, Some(p->Add_1), None::<Operand>));
            assert(oper_h(p) == 1 + max2(op_h(p->Add_0), op_h(p->Add_1)));
            assert(op_h(p->Add_1) <= oper_h(p));
        },
        Operation::Subtract(..) => {
            assert(spec_operands(p) == (p->Subtract_0, Some(p->Subtract_1), None::<Operand>));
            assert(op_h(p->Subtract_1) <= oper_h(p));
        },
        Operation::Multiply(..) => {
            assert(spec_operands(p) == (p->Multiply_0, Some(p->Multiply_1), None::<Operand>));
            assert(op_h(p->Multiply_1) <= oper_h(p));
        },
        Operation::Divide(..) => {
            assert(spec_operands(p) == (p->Divide_0, Some(p->Divide_1), None::<Operand>));
            assert(op_h(p->Divide_1) <= oper_h(p));
        },
        Operation::Remainder(..) => {
            assert(spec_operands(p) == (p->Remainder_0, Some(p->Remainder_1), None::<Operand>));
            assert(op_h(p->Remainder_1) <= oper_h(p));
        },
        Operation::Power(..) => {
            assert(spec_operands(p) == (p->Power_0, Some(p->Power_1), None::<Operand>));
            assert(op_h(p->Power_1) <= oper_h(p));
        },
        Operation::Min(..) => {
            assert(spec_operands(p) == (p->Min_0, Some(p->Min_1), None::<Operand>));
            assert(op_h(p->Min_1) <= oper_h(p));
        },
        Operation::Max(..) => {
            assert(spec_operands(p) == (p->Max_0, Some(p->Max_1), None::<Operand>));
            assert(op_h(p->Max_1) <= oper_h(p));
        },
        Operation::LessThan(..) => {
            assert(spec_operands(p) == (p->LessThan_0, Some(p->LessThan_1), None::<Operand>));
            assert(op_h(p->LessThan_1) <= oper_h(p));
        },
        Operation::GreaterThan(..) => {
            assert(spec_operands(p) == (p->GreaterThan_0, Some(p->GreaterThan_1), None::<Operand>));
            assert(op_h(p->GreaterThan_1) <= oper_h(p));
        },
        Operation::LessThanOrEqual(..) => {
            assert(spec_operands(p) == (p->LessThanOrEqual_0, Some(p->LessThanOrEqual_1), None::<Operand>));
            assert(op_h(p->LessThanOrEqual_1) <= oper_h(p));
        },
        Operation::GreaterThanOrEqual(..) => {
            assert(spec_operands(p) == (p->GreaterThanOrEqual_0, Some(p->GreaterThanOrEqual_1), None::<Operand>));
            assert(op_h(p->GreaterThanOrEqual_1) <= oper_h(p));
        },
        Operation::Equal(..) => {
            assert(spec_operands(p) == (p->Equal_0, Some(p->Equal_1), None::<Operand>));
            assert(op_h(p->Equal_1) <= oper_h(p));
        },
        Operation::NotEqual(..) => {
            assert(spec_operands(p) == (p->NotEqual_0, Some(p->NotEqual_1), None::<Operand>));
            assert(op_h(p->NotEqual_1) <= oper_h(p));
        },
        Operation::Or(..) => {
            assert(spec_operands(p) == (p->Or_0, Some(p->Or_1), None::<Operand>));
            assert(op_h(p->Or_1) <= oper_h(p));
        },
        Operation::And(..) => {
            assert(spec_operands(p) == (p->And_0, Some(p->And_1), None::<Operand>));
            assert(op_h(p->And_1) <= oper_h(p));
        },
        Operation::Index(..) => {
            assert(spec_operands(p) == (p->Index_0, Some(p->Index_1), None::<Operand>));
            assert(op_h(p->Index_1) <= oper_h(p));
        },
        Operation::Concat(..) => {
            assert(spec_operands(p) == (p->Concat_0, Some(p->Concat_1), None::<Operand>));
            assert(op_h(p->Concat_1) <= oper_h(p));
        },
        Operation::Find(..) => {
            assert(spec_operands(p) == (p->Find_0, Some(p->Find_1), None::<Operand>));
            assert(op_h(p->Find_1) <= oper_h(p));
        },
        Operation::Negate(..) => {
            assert(spec_operands(p) == (p->Negate_0, None::<Operand>, None::<Operand>));
        },
        Operation::Sine(..) => {
            assert(spec_operands(p) == (p->Sine_0, None::<Operand>, None::<Operand>));
        },
        Operation::Cosine(..) => {
            assert(spec_operands(p) == (p->Cosine_0, None::<Operand>, None::<Operand>));
        },
        Operation::Floor(..) => {
            assert(spec_operands(p) == (p->Floor_0, None::<Operand>, None::<Operand>));
        },
        Operation::Ceiling(..) => {
            assert(spec_operands(p) == (p->Ceiling_0, None::<Operand>, None::<Operand>));
        },
        Operation::AbsoluteValue(..) => {
            assert(spec_operands(p) == (p->AbsoluteValue_0, None::<Operand>, None::<Operand>));
        },
        Operation::Logarithm(..) => {
            assert(spec_operands(p) == (p->Logarithm_0, None::<Operand>, None::<Operand>));
        },
        Operation::Operand(..) => {
            assert(spec_operands(p) == (p->Operand_0, None::<Operand>, None::<Operand>));
        },
        Operation::Average(..) => {
            assert(spec_operands(p) == (p->Average_0, None::<Operand>, None::<Operand>));
        },
        Operation::Length(..) => {
            assert(spec_operands(p) == (p->Length_0, None::<Operand>, None::<Operand>));
        },
        Operation::FFT(..) => {
            assert(spec_operands(p) == (p->FFT_0, None::<Operand>, None::<Operand>));
        },
        Operation::Window(..) => {
            assert(spec_operands(p) == (p->Window_0, None::<Operand>, None::<Operand>));
        },
        Operation::Ternary(..) => {
            assert(spec_operands(p) == (p->Ternary_0, Some(p->Ternary_1), Some(p->Ternary_2)));
            assert(op_h(p->Ternary_1) <= oper_h(p));
            assert(op_h(p->Ternary_2) <= oper_h(p));
        },
        Operation::SubArray(..) => {
            assert(spec_operands(p) == (p->SubArray_0, Some(p->SubArray_1), Some(p->SubArray_2)));
            assert(op_h(p->SubArray_1) <= oper_h(p));
            assert(op_h(p->SubArray_2) <= oper_h(p));
        },
    }
}


/// The operation applied over its evaluated operand columns, per sample.
/// The frequency transform and the window operator consume whole columns;
/// everything else is pointwise.
pub open spec fn spec_apply(p: Operation, c: EvalCtx, x: Seq<Val>, y: Seq<Val>, z: Seq<Val>) -> EvalRes {
    match p {
        Operation::Add(..) => EvalRes::Cols(bin_col(BinOp::Add, x, y)),
        Operation::Subtract(..) => EvalRes::Cols(bin_col(BinOp::Subtract, x, y)),
        Operation::Multiply(..) => EvalRes::Cols(bin_col(BinOp::Multiply, x, y)),
        Operation::Divide(..) => EvalRes::Cols(bin_col(BinOp::Divide, x, y)),
        Operation::Remainder(..) => EvalRes::Cols(bin_col(BinOp::Remainder, x, y)),
        Operation::Power(..) => EvalRes::Cols(bin_col(BinOp::Power, x, y)),
        Operation::Min(..) => EvalRes::Cols(bin_col(BinOp::Min, x, y)),
        Operation::Max(..) => EvalRes::Cols(bin_col(BinOp::Max, x, y)),
        Operation::And(..) => EvalRes::Cols(bin_col(BinOp::Min, x, y)),
        Operation::Or(..) => EvalRes::Cols(bin_col(BinOp::Max, x, y)),
        Operation::LessThan(..) => EvalRes::Cols(cmp_col(CmpOp::LessThan, x, y)),
        Operation::GreaterThan(..) => EvalRes::Cols(cmp_col(CmpOp::GreaterThan, x, y)),
        Operation::LessThanOrEqual(..) => EvalRes::Cols(cmp_col(CmpOp::LessThanOrEqual, x, y)),
        Operation::GreaterThanOrEqual(..) => EvalRes::Cols(
            cmp_col(CmpOp::GreaterThanOrEqual, x, y),
        ),
        Operation::Equal(..) => EvalRes::Cols(eq_col(false, x, y)),
        Operation::NotEqual(..) => EvalRes::Cols(eq_col(true, x, y)),
        Operation::Negate(..) => EvalRes::Cols(un_col(UnOp::Negate, x)),
        Operation::Sine(..) => EvalRes::Cols(un_col(UnOp::Sine, x)),
        Operation::Cosine(..) => EvalRes::Cols(un_col(UnOp::Cosine, x)),
        Operation::Floor(..) => EvalRes::Cols(un_col(UnOp::Floor, x)),
        Operation::Ceiling(..) => EvalRes::Cols(un_col(UnOp::Ceiling, x)),
        Operation::AbsoluteValue(..) => EvalRes::Cols(un_col(UnOp::AbsoluteValue, x)),
        Operation::Logarithm(..) => EvalRes::Cols(un_col(UnOp::Logarithm, x)),
        Operation::Operand(..) => EvalRes::Cols(x),
        Operation::Ternary(..) => EvalRes::Cols(tern_col(x, y, z)),
        Operation::Index(..) => index_col(x, y),
        Operation::SubArray(..) => sub_array_col(x, y, z),
        Operation::Average(..) => EvalRes::Cols(avg_col(x)),
        Operation::Concat(..) => EvalRes::Cols(cat_col(x, y)),
        Operation::Length(..) => EvalRes::Cols(len_col(x)),
        Operation::Find(..) => EvalRes::Cols(find_col(x, y)),
        Operation::FFT(..) => fft_col(c, x),
        Operation::Window(..) => EvalRes::Cols(window_col(x)),
    }
}

/// Bits of two.
pub const F64_TWO: u64 = 0x4000_0000_0000_0000;

/// Bits of one half.
pub const F64_HALF: u64 = 0x3FE0_0000_0000_0000;

/// Bits of tau, the full turn.
pub const F64_TAU: u64 = 0x401921FB_54442D18;

/// The scalars of a column, when every sample is a scalar.
pub open spec fn col_scalars(xs: Seq<Val>) -> Option<Seq<u64>> {
    if forall|k: int| 0 <= k < xs.len() ==> #[trigger] xs[k] is Number {
        Some(Seq::new(xs.len(), |k: int| xs[k]->Number_0))
    } else {
        None
    }
}

/// The running real and imaginary sums of frequency bin `m` of the
/// discrete Fourier transform of the window, over samples `0..k`.
pub open spec fn dft_sum(s: Seq<u64>, m: nat, k: nat) -> (u64, u64)
    decreases k,
{
    if k == 0 {
        (F64_ZERO, F64_ZERO)
    } else {
        let prev = dft_sum(s, m, (k - 1) as nat);
        let j = (k - 1) as nat;
        let theta = f64_div(
            f64_mul(f64_mul(F64_TAU, f64_of_u64(j as u64)), f64_of_u64(m as u64)),
            f64_of_u64(s.len() as u64),
        );
        (
            f64_add(prev.0, f64_mul(s[j as int], f64_cos(theta))),
            f64_sub(prev.1, f64_mul(s[j as int], f64_sin(theta))),
        )
    }
}

/// The magnitude of frequency bin `m`: the square root, via the power
/// operator, of the squared real and imaginary sums over the whole window.
pub open spec fn dft_mag(s: Seq<u64>, m: nat) -> u64 {
    let sums = dft_sum(s, m, s.len());
    f64_powf(
        f64_add(f64_powf(sums.0, F64_TWO), f64_powf(sums.1, F64_TWO)),
        F64_HALF,
    )
}

/// The magnitudes of the lower half of the spectrum.
pub open spec fn dft_mags(s: Seq<u64>) -> Seq<u64> {
    Seq::new((s.len() / 2) as nat, |m: int| dft_mag(s, m as nat))
}

/// The frequency, in cycles per second, of each bin of the lower half of
/// the spectrum.
pub open spec fn dft_freqs(rate: u64, n: nat) -> Seq<Val> {
    Seq::new(
        (n / 2) as nat,
        |m: int| Val::Number(f64_div(f64_mul(f64_of_u64(m as u64), rate), f64_of_u64(n as u64))),
    )
}

/// The left fold that picks the greatest magnitude, later elements winning
/// ties.
pub open spec fn max_mag(s: Seq<u64>) -> u64
    decreases s.len(),
{
    if s.len() <= 1 {
        s[0]
    } else {
        let m = max_mag(s.subrange(0, s.len() - 1));
        if f64_lt(s.last(), m) {
            m
        } else {
            s.last()
        }
    }
}

/// The frequency-domain transform of a column: every sample must be a
/// scalar, the window must be long enough for at least one bin, and the
/// magnitudes — which must be free of NaN — are normalized by their
/// maximum. The result, the frequency bins beside the normalized
/// magnitudes, is shared across the window.
pub open spec fn fft_col(c: EvalCtx, xs: Seq<Val>) -> EvalRes {
    match col_scalars(xs) {
        None => EvalRes::Fail(EvalFault::FftOnArray),
        Some(s) => {
            if s.len() / 2 == 0 {
                EvalRes::Fail(EvalFault::FftEmpty)
            } else {
                let mags = dft_mags(s);
                if exists|k: int| 0 <= k < mags.len() && is_nan(#[trigger] mags[k]) {
                    EvalRes::Fail(EvalFault::FftNan)
                } else {
                    let mx = max_mag(mags);
                    let norm = Seq::new(
                        mags.len(),
                        |m: int| Val::Number(f64_div(mags[m], mx)),
                    );
                    EvalRes::Cols(
                        Seq::new(
                            xs.len(),
                            |k: int|
                                Val::Array(
                                    seq![Val::Array(dft_freqs(c.sample_rate, s.len())), Val::Array(norm)],
                                ),
                        ),
                    )
                }
            }
        },
    }
}

/// Evaluation of one operand into a column.
pub open spec fn spec_eval_operand(
    o: Operand,
    name: NameV,
    args: Seq<Seq<Val>>,
    c: EvalCtx,
    chains: Seq<Chain>,
    scope: Seq<NameInScope>,
    fuel: nat,
) -> EvalRes
    decreases fuel, 1int, op_h(o), 0int,
{
    match o {
        Operand::Var(_) => EvalRes::Cols(bc_col(ctx_n(c), val_of(o->Var_0))),
        Operand::Id(_) => spec_eval_chain(o->Id_0@, args, c, chains, scope, fuel),
        Operand::Properties(_, sel) => match spec_resolve(chains, scope, o->Properties_0@) {
            None => EvalRes::Fail(EvalFault::Unresolved(o->Properties_0@)),
            Some(ch) => match ch.links {
                ChainLinks::OnlyNotes(..) => spec_prop_col(
                    sel,
                    ch.links@,
                    c,
                    chains,
                    scope,
                    fuel,
                    0,
                ),
                ChainLinks::Generic(_) => EvalRes::Fail(
                    EvalFault::PropertiesOfGeneric(o->Properties_0@),
                ),
            },
        },
        Operand::BackLink(num) => if num == 0 {
            EvalRes::Fail(EvalFault::ZeroBacklink)
        } else if num > args.len() {
            EvalRes::Fail(EvalFault::Unsatisfied(name, num as nat, args.len()))
        } else {
            EvalRes::Cols(args[num - 1])
        },
        Operand::Time => EvalRes::Cols(time_col(c)),
        Operand::SampleRate => EvalRes::Cols(bc_col(ctx_n(c), Val::Number(c.sample_rate))),
        Operand::WindowSize => EvalRes::Cols(
            bc_col(ctx_n(c), Val::Number(f64_of_u64(c.window_size as u64))),
        ),
        Operand::BufferSize => EvalRes::Cols(
            bc_col(ctx_n(c), Val::Number(f64_of_u64(c.buffer_size as u64))),
        ),
        Operand::WindowIndex => EvalRes::Cols(winidx_col(c)),
        Operand::Notes(_) => EvalRes::Cols(notes_op_col(notes_of(o->Notes_0@), c)),
        Operand::Expression(_) => spec_eval_expr(
            *o->Expression_0,
            name,
            args,
            c,
            chains,
            scope,
            fuel,
        ),
        Operand::Array(_) => match spec_eval_cols(o->Array_0@, name, args, c, chains, scope, fuel) {
            Result::Ok(cols) => EvalRes::Cols(transpose_cols(cols, ctx_n(c))),
            Result::Err(f) => EvalRes::Fail(f),
        },
    }
}

/// The per-expression columns collated per sample into one array of the
/// expressions' values.
pub open spec fn transpose_cols(cols: Seq<Seq<Val>>, n: nat) -> Seq<Val> {
    Seq::new(
        n,
        |k: int|
            Val::Array(
                Seq::new(
                    cols.len(),
                    |i: int|
                        if 0 <= k < cols[i].len() {
                            cols[i][k]
                        } else {
                            Val::Number(F64_ZERO)
                        },
                ),
            ),
    )
}

/// Evaluation of a list of expressions into their columns, in order.
pub open spec fn spec_eval_cols(
    s: Seq<Expression>,
    name: NameV,
    args: Seq<Seq<Val>>,
    c: EvalCtx,
    chains: Seq<Chain>,
    scope: Seq<NameInScope>,
    fuel: nat,
) -> Result<Seq<Seq<Val>>, EvalFault>
    decreases fuel, 1int, 1 + exprs_h(s), s.len(),
{
    if s.len() == 0 {
        Result::Ok(Seq::empty())
    } else {
        match spec_eval_expr(s[0], name, args, c, chains, scope, fuel) {
            EvalRes::Fail(f) => Result::Err(f),
            EvalRes::Cols(col) => match spec_eval_cols(
                s.subrange(1, s.len() as int),
                name,
                args,
                c,
                chains,
                scope,
                fuel,
            ) {
                Result::Ok(rest) => Result::Ok(seq![col] + rest),
                err => err,
            },
        }
    }
}

/// Evaluation of one expression into a column: its operands first, left to
/// right, then the operation over them.
pub open spec fn spec_eval_expr(
    e: Expression,
    name: NameV,
    args: Seq<Seq<Val>>,
    c: EvalCtx,
    chains: Seq<Chain>,
    scope: Seq<NameInScope>,
    fuel: nat,
) -> EvalRes
    decreases fuel, 1int, expr_h(e), 0int,
    via spec_eval_expr_dec
{
    let ops = spec_operands(e.0);
    match spec_eval_operand(ops.0, name, args, c, chains, scope, fuel) {
        EvalRes::Fail(f) => EvalRes::Fail(f),
        EvalRes::Cols(x) => match ops.1 {
            Option::Some(b) => match spec_eval_operand(b, name, args, c, chains, scope, fuel) {
                EvalRes::Fail(f) => EvalRes::Fail(f),
                EvalRes::Cols(y) => match ops.2 {
                    Option::Some(cc) => match spec_eval_operand(
                        cc,
                        name,
                        args,
                        c,
                        chains,
                        scope,
                        fuel,
                    ) {
                        EvalRes::Fail(f) => EvalRes::Fail(f),
                        EvalRes::Cols(z) => spec_apply(e.0, c, x, y, z),
                    },
                    Option::None => spec_apply(e.0, c, x, y, Seq::empty()),
                },
            },
            Option::None => spec_apply(e.0, c, x, Seq::empty(), Seq::empty()),
        },
    }
}

#[via_fn]
proof fn spec_eval_expr_dec(
    e: Expression,
    name: NameV,
    args: Seq<Seq<Val>>,
    c: EvalCtx,
    chains: Seq<Chain>,
    scope: Seq<NameInScope>,
    fuel: nat,
) {
    lemma_operands_h(e.0);
}

/// Evaluation of a chain's links in order: the arguments visible to each
/// link are the previous links' results, nearest first, then the caller's
/// arguments; the last link's column is the chain's result.
pub open spec fn spec_eval_links(
    links: Seq<Expression>,
    name: NameV,
    results: Seq<Seq<Val>>,
    args: Seq<Seq<Val>>,
    c: EvalCtx,
    chains: Seq<Chain>,
    scope: Seq<NameInScope>,
    fuel: nat,
) -> EvalRes
    decreases fuel, 2int, 0int, links.len(),
{
    if links.len() == 0 {
        EvalRes::Fail(EvalFault::ChainEmpty(name))
    } else {
        match spec_eval_expr(links[0], name, results.reverse() + args, c, chains, scope, fuel) {
            EvalRes::Fail(f) => EvalRes::Fail(f),
            EvalRes::Cols(col) => if links.len() == 1 {
                EvalRes::Cols(col)
            } else {
                spec_eval_links(
                    links.subrange(1, links.len() as int),
                    name,
                    results.push(col),
                    args,
                    c,
                    chains,
                    scope,
                    fuel,
                )
            },
        }
    }
}

/// Invocation of a chain by name: a generic chain evaluates its links in
/// order and yields the last link's column; a note chain yields the
/// sounding pitches per sample. Each invocation consumes one unit of the
/// recursion guard.
pub open spec fn spec_eval_chain(
    name: NameV,
    args: Seq<Seq<Val>>,
    c: EvalCtx,
    chains: Seq<Chain>,
    scope: Seq<NameInScope>,
    fuel: nat,
) -> EvalRes
    decreases fuel, 0int, 0int, 0int,
{
    if fuel == 0 {
        EvalRes::Fail(EvalFault::Exhausted(name))
    } else {
        match spec_resolve(chains, scope, name) {
            None => EvalRes::Fail(EvalFault::Unresolved(name)),
            Some(ch) => match ch.links {
                ChainLinks::Generic(_) => spec_eval_links(
                    ch.links->Generic_0@,
                    name,
                    Seq::empty(),
                    args,
                    c,
                    chains,
                    scope,
                    (fuel - 1) as nat,
                ),
                ChainLinks::OnlyNotes(..) => spec_note_col(
                    ch.links@,
                    c,
                    chains,
                    scope,
                    (fuel - 1) as nat,
                    0,
                ),
            },
        }
    }
}


/// The error a fault surfaces as.
pub open spec fn fault_error(f: EvalFault, e: Error) -> bool {
    &&& e.location is None
    &&& match f {
        EvalFault::Unresolved(nm) => e.spec matches ErrorSpec::CantFindChain(cn) && cn@ == nm,
        EvalFault::ZeroBacklink => e.spec is ZeroBacklink,
        EvalFault::Unsatisfied(nm, want, got) => e.spec
            matches ErrorSpec::UnstatisfiedBacklink(cn, w, g) && cn@ == nm && w == want && g
            == got,
        EvalFault::PropertiesOfGeneric(nm) => e.spec
            matches ErrorSpec::PropertiesOfGenericChain(cn) && cn@ == nm,
        EvalFault::ChainEmpty(nm) => e.spec matches ErrorSpec::ChainWithoutLinks(cn) && cn@
            == nm,
        EvalFault::Exhausted(nm) => e.spec matches ErrorSpec::RecursionDepthExceeded(cn) && cn@
            == nm,
        EvalFault::Note(ff) => match ff {
            FindFault::Generic => e.spec is NotesOfGenericChain,
            FindFault::Unresolved(nm) => e.spec matches ErrorSpec::CantFindChain(cn) && cn@
                == nm,
            FindFault::RefGeneric(_) => e.spec is NotesOfGenericChain,
            FindFault::Inconsistent => e.spec is NoteTimelineInconsistent,
            FindFault::Exhausted(nm) => e.spec matches ErrorSpec::RecursionDepthExceeded(cn)
                && cn@ == nm,
        },
        EvalFault::IndexOutOfRange => e.spec is IndexOutOfRange,
        EvalFault::SubArrayOutOfRange => e.spec is SubArrayOutOfRange,
        EvalFault::FftOnArray => e.spec is FftOnArray,
        EvalFault::FftNan => e.spec is FftNan,
        EvalFault::FftEmpty => e.spec is FftEmptyWindow,
    }
}

/// The mathematical columns a list of exec columns stands for.
pub open spec fn cols_of(s: Seq<Vec<Variable>>) -> Seq<Seq<Val>>
    decreases s,
{
    if s.len() == 0 {
        Seq::empty()
    } else {
        seq![vals_of(s[0]@)] + cols_of(s.subrange(1, s.len() as int))
    }
}

pub broadcast proof fn lemma_cols_of(s: Seq<Vec<Variable>>)
    ensures
        (#[trigger] cols_of(s)).len() == s.len(),
        forall|i: int| 0 <= i < s.len() ==> cols_of(s)[i] == vals_of(s[i]@),
    decreases s,
{
    if s.len() > 0 {
        lemma_cols_of(s.subrange(1, s.len() as int));
    }
}

/// A deep copy of a column.
#[verifier::loop_isolation(false)]
fn dup_column(v: &Vec<Variable>) -> (r: Vec<Variable>)
    ensures
        vals_of(r@) == vals_of(v@),
{
    broadcast use crate::value::lemma_vals_of;

    let mut out: Vec<Variable> = Vec::new();
    let mut j: usize = 0;
    while j < v.len()
        invariant
            j <= v@.len(),
            out@.len() == j,
            forall|k: int| 0 <= k < j ==> out@[k]@ == v@[k]@,
        decreases v@.len() - j,
    {
        out.push(v[j].dup());
        j += 1;
    }
    proof {
        assert(vals_of(out@) =~= vals_of(v@));
    }
    out
}

/// One value repeated across the window.
#[verifier::loop_isolation(false)]
fn bc_column(n: usize, v: &Variable) -> (r: Vec<Variable>)
    ensures
        vals_of(r@) == bc_col(n as nat, v@),
{
    broadcast use crate::value::lemma_vals_of;

    let mut out: Vec<Variable> = Vec::new();
    let mut j: usize = 0;
    while j < n
        invariant
            j <= n,
            out@.len() == j,
            forall|k: int| 0 <= k < j ==> out@[k]@ == v@,
        decreases n - j,
    {
        out.push(v.dup());
        j += 1;
    }
    proof {
        assert(vals_of(out@) =~= bc_col(n as nat, v@));
    }
    out
}

/// The absolute time of sample `k`.
fn sample_time(c: EvalCtx, k: usize) -> (r: u64)
    ensures
        r == t_at(c, k as nat),
{
    add_bits(c.time, div_bits(u64_to_bits(k as u64), c.sample_rate))
}

/// A binary operator over two columns, per sample.
#[verifier::loop_isolation(false)]
fn bin_column(op: BinOp, xs: &Vec<Variable>, ys: &Vec<Variable>) -> (r: Vec<Variable>)
    ensures
        vals_of(r@) == bin_col(op, vals_of(xs@), vals_of(ys@)),
{
    broadcast use crate::value::lemma_vals_of;

    let n = if xs.len() <= ys.len() {
        xs.len()
    } else {
        ys.len()
    };
    let mut out: Vec<Variable> = Vec::new();
    let mut j: usize = 0;
    while j < n
        invariant
            j <= n,
            n == if xs@.len() <= ys@.len() {
                xs@.len()
            } else {
                ys@.len()
            },
            out@.len() == j,
            forall|k: int| 0 <= k < j ==> out@[k]@ == spec_bin(op, xs@[k]@, ys@[k]@),
        decreases n - j,
    {
        out.push(bin_value(op, &xs[j], &ys[j]));
        j += 1;
    }
    proof {
        assert(vals_of(out@) =~= bin_col(op, vals_of(xs@), vals_of(ys@)));
    }
    out
}

/// A unary operator over a column, per sample.
#[verifier::loop_isolation(false)]
fn un_column(op: UnOp, xs: &Vec<Variable>) -> (r: Vec<Variable>)
    ensures
        vals_of(r@) == un_col(op, vals_of(xs@)),
{
    broadcast use crate::value::lemma_vals_of;

    let mut out: Vec<Variable> = Vec::new();
    let mut j: usize = 0;
    while j < xs.len()
        invariant
            j <= xs@.len(),
            out@.len() == j,
            forall|k: int| 0 <= k < j ==> out@[k]@ == spec_un(op, xs@[k]@),
        decreases xs@.len() - j,
    {
        out.push(un_value(op, &xs[j]));
        j += 1;
    }
    proof {
        assert(vals_of(out@) =~= un_col(op, vals_of(xs@)));
    }
    out
}

/// An ordering comparison over two columns, one and zero per sample.
#[verifier::loop_isolation(false)]
fn cmp_column(op: CmpOp, xs: &Vec<Variable>, ys: &Vec<Variable>) -> (r: Vec<Variable>)
    ensures
        vals_of(r@) == cmp_col(op, vals_of(xs@), vals_of(ys@)),
{
    broadcast use crate::value::lemma_vals_of;

    let n = if xs.len() <= ys.len() {
        xs.len()
    } else {
        ys.len()
    };
    let mut out: Vec<Variable> = Vec::new();
    let mut j: usize = 0;
    while j < n
        invariant
            j <= n,
            n == if xs@.len() <= ys@.len() {
                xs@.len()
            } else {
                ys@.len()
            },
            out@.len() == j,
            forall|k: int| 0 <= k < j ==> out@[k]@ == bool01(spec_val_cmp(op, xs@[k]@, ys@[k]@)),
        decreases n - j,
    {
        if val_cmp(op, &xs[j], &ys[j]) {
            out.push(Variable::Number(F64_ONE));
        } else {
            out.push(Variable::Number(F64_ZERO));
        }
        j += 1;
    }
    proof {
        assert(vals_of(out@) =~= cmp_col(op, vals_of(xs@), vals_of(ys@)));
    }
    out
}

/// Equality or inequality over two columns, one and zero per sample.
#[verifier::loop_isolation(false)]
fn eq_column(negated: bool, xs: &Vec<Variable>, ys: &Vec<Variable>) -> (r: Vec<Variable>)
    ensures
        vals_of(r@) == eq_col(negated, vals_of(xs@), vals_of(ys@)),
{
    broadcast use crate::value::lemma_vals_of;

    let n = if xs.len() <= ys.len() {
        xs.len()
    } else {
        ys.len()
    };
    let mut out: Vec<Variable> = Vec::new();
    let mut j: usize = 0;
    while j < n
        invariant
            j <= n,
            n == if xs@.len() <= ys@.len() {
                xs@.len()
            } else {
                ys@.len()
            },
            out@.len() == j,
            forall|k: int|
                0 <= k < j ==> out@[k]@ == bool01(spec_val_eq(xs@[k]@, ys@[k]@) != negated),
        decreases n - j,
    {
        if val_eq(&xs[j], &ys[j]) != negated {
            out.push(Variable::Number(F64_ONE));
        } else {
            out.push(Variable::Number(F64_ZERO));
        }
        j += 1;
    }
    proof {
        assert(vals_of(out@) =~= eq_col(negated, vals_of(xs@), vals_of(ys@)));
    }
    out
}

/// The ternary choice over three columns.
#[verifier::loop_isolation(false)]
fn tern_column(cs: &Vec<Variable>, xs: &Vec<Variable>, ys: &Vec<Variable>) -> (r: Vec<Variable>)
    ensures
        vals_of(r@) == tern_col(vals_of(cs@), vals_of(xs@), vals_of(ys@)),
{
    broadcast use crate::value::lemma_vals_of;

    let n0 = if cs.len() <= xs.len() {
        cs.len()
    } else {
        xs.len()
    };
    let n = if n0 <= ys.len() {
        n0
    } else {
        ys.len()
    };
    let mut out: Vec<Variable> = Vec::new();
    let mut j: usize = 0;
    while j < n
        invariant
            j <= n,
            n == min3(cs@.len(), xs@.len(), ys@.len()),
            out@.len() == j,
            forall|k: int|
                0 <= k < j ==> out@[k]@ == if spec_truthy(cs@[k]@) {
                    xs@[k]@
                } else {
                    ys@[k]@
                },
        decreases n - j,
    {
        if truthy(&cs[j]) {
            out.push(xs[j].dup());
        } else {
            out.push(ys[j].dup());
        }
        j += 1;
    }
    proof {
        assert(vals_of(out@) =~= tern_col(vals_of(cs@), vals_of(xs@), vals_of(ys@)));
    }
    out
}

/// Concatenation over two columns.
#[verifier::loop_isolation(false)]
fn cat_column(xs: &Vec<Variable>, ys: &Vec<Variable>) -> (r: Vec<Variable>)
    ensures
        vals_of(r@) == cat_col(vals_of(xs@), vals_of(ys@)),
{
    broadcast use crate::value::lemma_vals_of;

    let n = if xs.len() <= ys.len() {
        xs.len()
    } else {
        ys.len()
    };
    let mut out: Vec<Variable> = Vec::new();
    let mut j: usize = 0;
    while j < n
        invariant
            j <= n,
            n == if xs@.len() <= ys@.len() {
                xs@.len()
            } else {
                ys@.len()
            },
            out@.len() == j,
            forall|k: int| 0 <= k < j ==> out@[k]@ == spec_cat(xs@[k]@, ys@[k]@),
        decreases n - j,
    {
        out.push(crate::value::cat_value(&xs[j], &ys[j]));
        j += 1;
    }
    proof {
        assert(vals_of(out@) =~= cat_col(vals_of(xs@), vals_of(ys@)));
    }
    out
}

/// Search over two columns.
#[verifier::loop_isolation(false)]
fn find_column(xs: &Vec<Variable>, ys: &Vec<Variable>) -> (r: Vec<Variable>)
    ensures
        vals_of(r@) == find_col(vals_of(xs@), vals_of(ys@)),
{
    broadcast use crate::value::lemma_vals_of;

    let n = if xs.len() <= ys.len() {
        xs.len()
    } else {
        ys.len()
    };
    let mut out: Vec<Variable> = Vec::new();
    let mut j: usize = 0;
    while j < n
        invariant
            j <= n,
            n == if xs@.len() <= ys@.len() {
                xs@.len()
            } else {
                ys@.len()
            },
            out@.len() == j,
            forall|k: int| 0 <= k < j ==> out@[k]@ == spec_find(xs@[k]@, ys@[k]@),
        decreases n - j,
    {
        out.push(crate::value::find_value(&xs[j], &ys[j]));
        j += 1;
    }
    proof {
        assert(vals_of(out@) =~= find_col(vals_of(xs@), vals_of(ys@)));
    }
    out
}

/// Length per sample.
#[verifier::loop_isolation(false)]
fn len_column(xs: &Vec<Variable>) -> (r: Vec<Variable>)
    ensures
        vals_of(r@) == len_col(vals_of(xs@)),
{
    broadcast use crate::value::lemma_vals_of;

    let mut out: Vec<Variable> = Vec::new();
    let mut j: usize = 0;
    while j < xs.len()
        invariant
            j <= xs@.len(),
            out@.len() == j,
            forall|k: int| 0 <= k < j ==> out@[k]@ == spec_len_val(xs@[k]@),
        decreases xs@.len() - j,
    {
        out.push(crate::value::len_value(&xs[j]));
        j += 1;
    }
    proof {
        assert(vals_of(out@) =~= len_col(vals_of(xs@)));
    }
    out
}

/// Average per sample.
#[verifier::loop_isolation(false)]
fn avg_column(xs: &Vec<Variable>) -> (r: Vec<Variable>)
    ensures
        vals_of(r@) == avg_col(vals_of(xs@)),
{
    broadcast use crate::value::lemma_vals_of;

    let mut out: Vec<Variable> = Vec::new();
    let mut j: usize = 0;
    while j < xs.len()
        invariant
            j <= xs@.len(),
            out@.len() == j,
            forall|k: int| 0 <= k < j ==> out@[k]@ == spec_average(xs@[k]@),
        decreases xs@.len() - j,
    {
        out.push(crate::value::average_value(&xs[j]));
        j += 1;
    }
    proof {
        assert(vals_of(out@) =~= avg_col(vals_of(xs@)));
    }
    out
}

/// Indexing over two columns; any sample out of range faults the window.
#[verifier::loop_isolation(false)]
fn index_column(xs: &Vec<Variable>, ys: &Vec<Variable>) -> (r: SonnyResult<Vec<Variable>>)
    ensures
        match r {
            Ok(col) => index_col(vals_of(xs@), vals_of(ys@)) == EvalRes::Cols(vals_of(col@)),
            Err(e) => index_col(vals_of(xs@), vals_of(ys@)) == EvalRes::Fail(
                EvalFault::IndexOutOfRange,
            ) && fault_error(EvalFault::IndexOutOfRange, e),
        },
{
    broadcast use crate::value::lemma_vals_of;

    let n = if xs.len() <= ys.len() {
        xs.len()
    } else {
        ys.len()
    };
    let mut out: Vec<Variable> = Vec::new();
    let mut j: usize = 0;
    while j < n
        invariant
            j <= n,
            n == if xs@.len() <= ys@.len() {
                xs@.len()
            } else {
                ys@.len()
            },
            out@.len() == j,
            forall|k: int|
                0 <= k < j ==> #[trigger] spec_index_val(
                    vals_of(xs@)[k],
                    spec_first_scalar(vals_of(ys@)[k]),
                ) is Some,
            forall|k: int|
                0 <= k < j ==> out@[k]@ == spec_index_val(
                    vals_of(xs@)[k],
                    spec_first_scalar(vals_of(ys@)[k]),
                )->Some_0,
        decreases n - j,
    {
        let idx = first_scalar(&ys[j]);
        match crate::value::index_value(&xs[j], idx) {
            Some(v) => {
                out.push(v);
            },
            None => {
                proof {
                    assert(vals_of(xs@)[j as int] == xs@[j as int]@);
                    assert(vals_of(ys@)[j as int] == ys@[j as int]@);
                    assert(!(spec_index_val(
                        vals_of(xs@)[j as int],
                        spec_first_scalar(vals_of(ys@)[j as int]),
                    ) is Some));
                }
                return Err(Error::new(ErrorSpec::IndexOutOfRange));
            },
        }
        j += 1;
    }
    proof {
        assert(vals_of(out@) =~= index_col(vals_of(xs@), vals_of(ys@))->Cols_0);
    }
    Ok(out)
}

/// Sub-arrays over three columns; any bounds out of range fault the window.
#[verifier::loop_isolation(false)]
fn sub_array_column(xs: &Vec<Variable>, ys: &Vec<Variable>, zs: &Vec<Variable>) -> (r: SonnyResult<
    Vec<Variable>,
>)
    ensures
        match r {
            Ok(col) => sub_array_col(vals_of(xs@), vals_of(ys@), vals_of(zs@)) == EvalRes::Cols(
                vals_of(col@),
            ),
            Err(e) => sub_array_col(vals_of(xs@), vals_of(ys@), vals_of(zs@)) == EvalRes::Fail(
                EvalFault::SubArrayOutOfRange,
            ) && fault_error(EvalFault::SubArrayOutOfRange, e),
        },
{
    broadcast use crate::value::lemma_vals_of;

    let n0 = if xs.len() <= ys.len() {
        xs.len()
    } else {
        ys.len()
    };
    let n = if n0 <= zs.len() {
        n0
    } else {
        zs.len()
    };
    let mut out: Vec<Variable> = Vec::new();
    let mut j: usize = 0;
    while j < n
        invariant
            j <= n,
            n == min3(xs@.len(), ys@.len(), zs@.len()),
            out@.len() == j,
            forall|k: int|
                0 <= k < j ==> #[trigger] spec_sub_array(
                    vals_of(xs@)[k],
                    spec_first_scalar(vals_of(ys@)[k]),
                    spec_first_scalar(vals_of(zs@)[k]),
                ) is Some,
            forall|k: int|
                0 <= k < j ==> out@[k]@ == spec_sub_array(
                    vals_of(xs@)[k],
                    spec_first_scalar(vals_of(ys@)[k]),
                    spec_first_scalar(vals_of(zs@)[k]),
                )->Some_0,
        decreases n - j,
    {
        let lo = first_scalar(&ys[j]);
        let hi = first_scalar(&zs[j]);
        match crate::value::sub_array_value(&xs[j], lo, hi) {
            Some(v) => {
                out.push(v);
            },
            None => {
                proof {
                    assert(vals_of(xs@)[j as int] == xs@[j as int]@);
                    assert(vals_of(ys@)[j as int] == ys@[j as int]@);
                    assert(vals_of(zs@)[j as int] == zs@[j as int]@);
                    assert(!(spec_sub_array(
                        vals_of(xs@)[j as int],
                        spec_first_scalar(vals_of(ys@)[j as int]),
                        spec_first_scalar(vals_of(zs@)[j as int]),
                    ) is Some));
                }
                return Err(Error::new(ErrorSpec::SubArrayOutOfRange));
            },
        }
        j += 1;
    }
    proof {
        assert(vals_of(out@) =~= sub_array_col(vals_of(xs@), vals_of(ys@), vals_of(zs@))->Cols_0);
    }
    Ok(out)
}

/// The whole column as one array value, repeated per sample.
#[verifier::loop_isolation(false)]
fn window_column(xs: &Vec<Variable>) -> (r: Vec<Variable>)
    ensures
        vals_of(r@) == window_col(vals_of(xs@)),
{
    broadcast use crate::value::lemma_vals_of;

    let mut out: Vec<Variable> = Vec::new();
    let mut j: usize = 0;
    while j < xs.len()
        invariant
            j <= xs@.len(),
            out@.len() == j,
            forall|k: int| 0 <= k < j ==> out@[k]@ == Val::Array(vals_of(xs@)),
        decreases xs@.len() - j,
    {
        let whole = dup_column(xs);
        out.push(Variable::Array(whole));
        j += 1;
    }
    proof {
        assert(vals_of(out@) =~= window_col(vals_of(xs@)));
    }
    out
}


/// The frequency-domain transform of a column.
#[verifier::loop_isolation(false)]
#[verifier::rlimit(60)]
fn fft_column(c: EvalCtx, xs: &Vec<Variable>) -> (r: SonnyResult<Vec<Variable>>)
    ensures
        match r {
            Ok(col) => fft_col(c, vals_of(xs@)) == EvalRes::Cols(vals_of(col@)),
            Err(e) => fft_col(c, vals_of(xs@)) matches EvalRes::Fail(f) && fault_error(f, e),
        },
{
    broadcast use crate::value::lemma_vals_of;

    let mut s: Vec<u64> = Vec::new();
    let mut j: usize = 0;
    while j < xs.len()
        invariant
            j <= xs@.len(),
            s@.len() == j,
            forall|k: int| 0 <= k < j ==> #[trigger] vals_of(xs@)[k] is Number,
            forall|k: int| 0 <= k < j ==> s@[k] == vals_of(xs@)[k]->Number_0,
        decreases xs@.len() - j,
    {
        match &xs[j] {
            Variable::Number(b) => {
                s.push(*b);
            },
            Variable::Array(_) => {
                proof {
                    assert(vals_of(xs@)[j as int] == xs@[j as int]@);
                    assert(!(vals_of(xs@)[j as int] is Number));
                }
                return Err(Error::new(ErrorSpec::FftOnArray));
            },
        }
        j += 1;
    }
    proof {
        assert(col_scalars(vals_of(xs@)) matches Some(sc) && sc =~= s@);
    }
    let n = xs.len();
    let half = n / 2;
    if half == 0 {
        return Err(Error::new(ErrorSpec::FftEmptyWindow));
    }
    let mut mags: Vec<u64> = Vec::new();
    let mut m: usize = 0;
    while m < half
        invariant
            m <= half,
            half == n / 2,
            n == s@.len(),
            mags@.len() == m,
            forall|i: int| 0 <= i < m ==> mags@[i] == dft_mag(s@, i as nat),
        decreases half - m,
    {
        let mut re: u64 = F64_ZERO;
        let mut im: u64 = F64_ZERO;
        let mut k: usize = 0;
        while k < n
            invariant
                k <= n,
                n == s@.len(),
                (re, im) == dft_sum(s@, m as nat, k as nat),
            decreases n - k,
        {
            let theta = div_bits(
                mul_bits(mul_bits(F64_TAU, u64_to_bits(k as u64)), u64_to_bits(m as u64)),
                u64_to_bits(n as u64),
            );
            re = add_bits(re, mul_bits(s[k], cos_bits(theta)));
            im = sub_bits(im, mul_bits(s[k], sin_bits(theta)));
            k += 1;
        }
        mags.push(
            powf_bits(add_bits(powf_bits(re, F64_TWO), powf_bits(im, F64_TWO)), F64_HALF),
        );
        m += 1;
    }
    proof {
        assert(mags@ =~= dft_mags(s@));
    }
    let mut k: usize = 0;
    while k < mags.len()
        invariant
            k <= mags@.len(),
            forall|i: int| 0 <= i < k ==> !is_nan(#[trigger] mags@[i]),
        decreases mags@.len() - k,
    {
        if is_nan_bits(mags[k]) {
            return Err(Error::new(ErrorSpec::FftNan));
        }
        k += 1;
    }
    let mut mx: u64 = mags[0];
    let mut k2: usize = 1;
    proof {
        assert(mags@.subrange(0, 1) =~= seq![mags@[0]]);
    }
    while k2 < mags.len()
        invariant
            1 <= k2 <= mags@.len(),
            mags@.len() >= 1,
            mx == max_mag(mags@.subrange(0, k2 as int)),
        decreases mags@.len() - k2,
    {
        proof {
            assert(mags@.subrange(0, k2 + 1).subrange(0, k2 as int) =~= mags@.subrange(
                0,
                k2 as int,
            ));
            assert(mags@.subrange(0, k2 + 1).last() == mags@[k2 as int]);
        }
        if lt_bits(mags[k2], mx) {
        } else {
            mx = mags[k2];
        }
        k2 += 1;
    }
    proof {
        assert(mags@.subrange(0, mags@.len() as int) =~= mags@);
    }
    let mut norm: Vec<Variable> = Vec::new();
    let mut k3: usize = 0;
    while k3 < mags.len()
        invariant
            k3 <= mags@.len(),
            norm@.len() == k3,
            forall|i: int|
                0 <= i < k3 ==> norm@[i]@ == Val::Number(f64_div(mags@[i], max_mag(mags@))),
            mx == max_mag(mags@),
        decreases mags@.len() - k3,
    {
        norm.push(Variable::Number(div_bits(mags[k3], mx)));
        k3 += 1;
    }
    let mut freqs: Vec<Variable> = Vec::new();
    let mut k4: usize = 0;
    while k4 < half
        invariant
            k4 <= half,
            half == n / 2,
            freqs@.len() == k4,
            forall|i: int|
                0 <= i < k4 ==> freqs@[i]@ == Val::Number(
                    f64_div(f64_mul(f64_of_u64(i as u64), c.sample_rate), f64_of_u64(n as u64)),
                ),
        decreases half - k4,
    {
        freqs.push(
            Variable::Number(
                div_bits(
                    mul_bits(u64_to_bits(k4 as u64), c.sample_rate),
                    u64_to_bits(n as u64),
                ),
            ),
        );
        k4 += 1;
    }
    proof {
        assert(vals_of(freqs@) =~= dft_freqs(c.sample_rate, n as nat));
        assert(vals_of(norm@) =~= Seq::new(
            dft_mags(s@).len(),
            |i: int| Val::Number(f64_div(dft_mags(s@)[i], max_mag(dft_mags(s@)))),
        ));
    }
    let ghost freqs_v = vals_of(freqs@);
    let ghost norm_v = vals_of(norm@);
    let pair = vec![Variable::Array(freqs), Variable::Array(norm)];
    proof {
        assert(vals_of(pair@)[0] == pair@[0]@);
        assert(vals_of(pair@)[1] == pair@[1]@);
        assert(pair@[0]@ == Val::Array(freqs_v));
        assert(pair@[1]@ == Val::Array(norm_v));
    }
    let sample = Variable::Array(pair);
    let ghost sample_v = sample@;
    proof {
        assert(sample_v->Array_0 =~= seq![Val::Array(freqs_v), Val::Array(norm_v)]);
    }
    let mut out: Vec<Variable> = Vec::new();
    let mut k5: usize = 0;
    while k5 < n
        invariant
            k5 <= n,
            out@.len() == k5,
            forall|i: int| 0 <= i < k5 ==> out@[i]@ == sample_v,
        decreases n - k5,
    {
        out.push(sample.dup());
        k5 += 1;
    }
    proof {
        assert(sample_v == fft_col(c, vals_of(xs@))->Cols_0[0]);
        assert(vals_of(out@) =~= fft_col(c, vals_of(xs@))->Cols_0);
    }
    Ok(out)
}

/// The sample value of a found note.
fn note_sample_value(note: &Note) -> (r: Variable)
    ensures
        r@ == note_sample(Some(note@)),
{
    broadcast use crate::value::lemma_vals_of;

    if note.pitches.len() == 1 {
        Variable::Number(note.pitches[0])
    } else {
        let mut ps: Vec<Variable> = Vec::new();
        let mut i: usize = 0;
        while i < note.pitches.len()
            invariant
                i <= note.pitches@.len(),
                ps@.len() == i,
                forall|k: int| 0 <= k < i ==> ps@[k]@ == Val::Number(note.pitches@[k]),
            decreases note.pitches@.len() - i,
        {
            ps.push(Variable::Number(note.pitches[i]));
            i += 1;
        }
        proof {
            assert(vals_of(ps@) =~= Seq::new(
                note@.pitches.len(),
                |i: int| Val::Number(note@.pitches[i]),
            ));
        }
        Variable::Array(ps)
    }
}

/// The per-sample column of a note chain.
#[verifier::loop_isolation(false)]
fn note_column(
    links: &ChainLinks,
    c: EvalCtx,
    builder: &Builder,
    fuel: usize,
) -> (r: SonnyResult<Vec<Variable>>)
    requires
        c.buffer_size + c.window_size <= usize::MAX,
    ensures
        match r {
            Ok(col) => spec_note_col(
                links@,
                c,
                builder.chains@,
                builder.names_in_scope@,
                fuel as nat,
                0,
            ) == EvalRes::Cols(vals_of(col@)),
            Err(e) => spec_note_col(
                links@,
                c,
                builder.chains@,
                builder.names_in_scope@,
                fuel as nat,
                0,
            ) matches EvalRes::Fail(f) && fault_error(f, e),
        },
{
    broadcast use crate::value::lemma_vals_of;

    let ghost chains0 = builder.chains@;
    let ghost scope0 = builder.names_in_scope@;
    let n = c.buffer_size + c.window_size;
    let mut out: Vec<Variable> = Vec::new();
    let mut k: usize = 0;
    while k < n
        invariant
            k <= n,
            n == ctx_n(c),
            out@.len() == k,
            match spec_note_col(links@, c, chains0, scope0, fuel as nat, k as nat) {
                EvalRes::Cols(rest) => spec_note_col(links@, c, chains0, scope0, fuel as nat, 0)
                    == EvalRes::Cols(vals_of(out@) + rest),
                fail => spec_note_col(links@, c, chains0, scope0, fuel as nat, 0) == fail,
            },
        decreases n - k,
    {
        let t = sample_time(c, k);
        match links.find_note(t, F64_ZERO, builder, fuel) {
            Ok(Some(note)) => {
                let v = note_sample_value(&note);
                proof {
                    assert(vals_of(out@.push(v)) =~= vals_of(out@) + seq![v@]);
                }
                out.push(v);
            },
            Ok(None) => {
                let v = Variable::Number(F64_ZERO);
                proof {
                    assert(vals_of(out@.push(v)) =~= vals_of(out@) + seq![v@]);
                }
                out.push(v);
            },
            Err(e) => {
                return Err(e);
            },
        }
        k += 1;
    }
    proof {
        assert(vals_of(out@) + Seq::<Val>::empty() =~= vals_of(out@));
    }
    Ok(out)
}

/// The sample value of a property of a found note.
fn prop_sample_value(sel: Property, note: &Note) -> (r: Variable)
    ensures
        r@ == prop_sample(sel, Some(note@)),
{
    broadcast use crate::value::lemma_vals_of;

    match sel {
        Property::Start => Variable::Number(note.period.start),
        Property::End => Variable::Number(note.period.end),
        Property::Duration => Variable::Number(note.period.duration()),
        Property::All => {
            let mut ps: Vec<Variable> = Vec::new();
            let mut i: usize = 0;
            while i < note.pitches.len()
                invariant
                    i <= note.pitches@.len(),
                    ps@.len() == i,
                    forall|k: int| 0 <= k < i ==> ps@[k]@ == Val::Number(note.pitches@[k]),
                decreases note.pitches@.len() - i,
            {
                ps.push(Variable::Number(note.pitches[i]));
                i += 1;
            }
            proof {
                assert(vals_of(ps@) =~= Seq::new(
                    note@.pitches.len(),
                    |i: int| Val::Number(note@.pitches[i]),
                ));
            }
            let all = vec![
                Variable::Array(ps),
                Variable::Number(note.period.start),
                Variable::Number(note.period.end),
                Variable::Number(note.period.duration()),
            ];
            proof {
                assert(vals_of(all@) =~= prop_sample(sel, Some(note@))->Array_0);
            }
            Variable::Array(all)
        },
    }
}

/// The per-sample property column of a note chain.
#[verifier::loop_isolation(false)]
fn prop_column(
    sel: Property,
    links: &ChainLinks,
    c: EvalCtx,
    builder: &Builder,
    fuel: usize,
) -> (r: SonnyResult<Vec<Variable>>)
    requires
        c.buffer_size + c.window_size <= usize::MAX,
    ensures
        match r {
            Ok(col) => spec_prop_col(
                sel,
                links@,
                c,
                builder.chains@,
                builder.names_in_scope@,
                fuel as nat,
                0,
            ) == EvalRes::Cols(vals_of(col@)),
            Err(e) => spec_prop_col(
                sel,
                links@,
                c,
                builder.chains@,
                builder.names_in_scope@,
                fuel as nat,
                0,
            ) matches EvalRes::Fail(f) && fault_error(f, e),
        },
{
    broadcast use crate::value::lemma_vals_of;

    let ghost chains0 = builder.chains@;
    let ghost scope0 = builder.names_in_scope@;
    let n = c.buffer_size + c.window_size;
    let mut out: Vec<Variable> = Vec::new();
    let mut k: usize = 0;
    while k < n
        invariant
            k <= n,
            n == ctx_n(c),
            out@.len() == k,
            match spec_prop_col(sel, links@, c, chains0, scope0, fuel as nat, k as nat) {
                EvalRes::Cols(rest) => spec_prop_col(
                    sel,
                    links@,
                    c,
                    chains0,
                    scope0,
                    fuel as nat,
                    0,
                ) == EvalRes::Cols(vals_of(out@) + rest),
                fail => spec_prop_col(sel, links@, c, chains0, scope0, fuel as nat, 0) == fail,
            },
        decreases n - k,
    {
        let t = sample_time(c, k);
        match links.find_note(t, F64_ZERO, builder, fuel) {
            Ok(Some(note)) => {
                let v = prop_sample_value(sel, &note);
                proof {
                    assert(vals_of(out@.push(v)) =~= vals_of(out@) + seq![v@]);
                }
                out.push(v);
            },
            Ok(None) => {
                let v = Variable::Number(F64_ZERO);
                proof {
                    assert(vals_of(out@.push(v)) =~= vals_of(out@) + seq![v@]);
                }
                out.push(v);
            },
            Err(e) => {
                return Err(e);
            },
        }
        k += 1;
    }
    proof {
        assert(vals_of(out@) + Seq::<Val>::empty() =~= vals_of(out@));
    }
    Ok(out)
}

/// The per-sample column of an inline note list.
#[verifier::loop_isolation(false)]
fn notes_op_column(notes: &Vec<Note>, c: EvalCtx) -> (r: Vec<Variable>)
    requires
        c.buffer_size + c.window_size <= usize::MAX,
    ensures
        vals_of(r@) == notes_op_col(notes_of(notes@), c),
{
    broadcast use crate::value::lemma_vals_of, crate::chain::lemma_notes_of;

    let n = c.buffer_size + c.window_size;
    let mut out: Vec<Variable> = Vec::new();
    let mut k: usize = 0;
    while k < n
        invariant
            k <= n,
            n == ctx_n(c),
            out@.len() == k,
            forall|i: int| 0 <= i < k ==> out@[i]@ == notes_op_col(notes_of(notes@), c)[i],
        decreases n - k,
    {
        let t = sample_time(c, k);
        let ghost full_n = notes_of(notes@);
        proof {
            assert(full_n.subrange(0, full_n.len() as int) =~= full_n);
        }
        let mut j: usize = 0;
        let mut found: Option<usize> = None;
        while j < notes.len()
            invariant
                j <= notes@.len(),
                found is None,
                spec_scan_pitches(full_n.subrange(j as int, full_n.len() as int), t)
                    == spec_scan_pitches(full_n, t),
            decreases notes@.len() - j,
        {
            let ghost rest_n = full_n.subrange(j as int, full_n.len() as int);
            proof {
                assert(rest_n[0] == full_n[j as int]);
                assert(full_n[j as int] == notes@[j as int]@);
                assert(rest_n.subrange(1, rest_n.len() as int) =~= full_n.subrange(
                    j + 1,
                    full_n.len() as int,
                ));
            }
            if notes[j].period.contains(t) {
                found = Some(j);
                break;
            }
            j += 1;
        }
        let ghost ps = spec_scan_pitches(full_n, t);
        let mut vals: Vec<Variable> = Vec::new();
        match found {
            Some(idx) => {
                proof {
                    assert(full_n.subrange(idx as int, full_n.len() as int)[0] == full_n[
                    idx as int]);
                    assert(ps == notes@[idx as int]@.pitches);
                }
                let mut i: usize = 0;
                while i < notes[idx].pitches.len()
                    invariant
                        idx < notes@.len(),
                        i <= notes@[idx as int].pitches@.len(),
                        vals@.len() == i,
                        forall|q: int|
                            0 <= q < i ==> vals@[q]@ == Val::Number(
                                notes@[idx as int].pitches@[q],
                            ),
                    decreases notes@[idx as int].pitches@.len() - i,
                {
                    vals.push(Variable::Number(notes[idx].pitches[i]));
                    i += 1;
                }
            },
            None => {
                proof {
                    assert(full_n.subrange(
                        full_n.len() as int,
                        full_n.len() as int,
                    ) =~= Seq::<NoteV>::empty());
                    assert(ps =~= Seq::<u64>::empty());
                }
            },
        }
        let v = Variable::Array(vals);
        proof {
            assert(vals_of(v->Array_0@) =~= Seq::new(ps.len(), |i: int| Val::Number(ps[i])));
            assert(v@ == notes_op_col(notes_of(notes@), c)[k as int]);
        }
        out.push(v);
        k += 1;
    }
    proof {
        assert(vals_of(out@) =~= notes_op_col(notes_of(notes@), c));
    }
    out
}

/// The per-sample absolute times.
#[verifier::loop_isolation(false)]
fn time_column(c: EvalCtx) -> (r: Vec<Variable>)
    requires
        c.buffer_size + c.window_size <= usize::MAX,
    ensures
        vals_of(r@) == time_col(c),
{
    broadcast use crate::value::lemma_vals_of;

    let n = c.buffer_size + c.window_size;
    let mut out: Vec<Variable> = Vec::new();
    let mut k: usize = 0;
    while k < n
        invariant
            k <= n,
            n == ctx_n(c),
            out@.len() == k,
            forall|i: int| 0 <= i < k ==> out@[i]@ == Val::Number(t_at(c, i as nat)),
        decreases n - k,
    {
        out.push(Variable::Number(sample_time(c, k)));
        k += 1;
    }
    proof {
        assert(vals_of(out@) =~= time_col(c));
    }
    out
}

/// The per-sample indices.
#[verifier::loop_isolation(false)]
fn winidx_column(c: EvalCtx) -> (r: Vec<Variable>)
    requires
        c.buffer_size + c.window_size <= usize::MAX,
    ensures
        vals_of(r@) == winidx_col(c),
{
    broadcast use crate::value::lemma_vals_of;

    let n = c.buffer_size + c.window_size;
    let mut out: Vec<Variable> = Vec::new();
    let mut k: usize = 0;
    while k < n
        invariant
            k <= n,
            n == ctx_n(c),
            out@.len() == k,
            forall|i: int| 0 <= i < k ==> out@[i]@ == Val::Number(f64_of_u64(i as u64)),
        decreases n - k,
    {
        out.push(Variable::Number(u64_to_bits(k as u64)));
        k += 1;
    }
    proof {
        assert(vals_of(out@) =~= winidx_col(c));
    }
    out
}


/// The operation applied over its evaluated operand columns.
fn apply_operation(
    p: &Operation,
    c: EvalCtx,
    x: &Vec<Variable>,
    y: &Vec<Variable>,
    z: &Vec<Variable>,
) -> (r: SonnyResult<Vec<Variable>>)
    ensures
        match r {
            Ok(col) => spec_apply(*p, c, vals_of(x@), vals_of(y@), vals_of(z@)) == EvalRes::Cols(
                vals_of(col@),
            ),
            Err(e) => spec_apply(*p, c, vals_of(x@), vals_of(y@), vals_of(z@))
                matches EvalRes::Fail(f) && fault_error(f, e),
        },
{
    match p {
        Operation::Add(..) => Ok(bin_column(BinOp::Add, x, y)),
        Operation::Subtract(..) => Ok(bin_column(BinOp::Subtract, x, y)),
        Operation::Multiply(..) => Ok(bin_column(BinOp::Multiply, x, y)),
        Operation::Divide(..) => Ok(bin_column(BinOp::Divide, x, y)),
        Operation::Remainder(..) => Ok(bin_column(BinOp::Remainder, x, y)),
        Operation::Power(..) => Ok(bin_column(BinOp::Power, x, y)),
        Operation::Min(..) => Ok(bin_column(BinOp::Min, x, y)),
        Operation::Max(..) => Ok(bin_column(BinOp::Max, x, y)),
        Operation::And(..) => Ok(bin_column(BinOp::Min, x, y)),
        Operation::Or(..) => Ok(bin_column(BinOp::Max, x, y)),
        Operation::LessThan(..) => Ok(cmp_column(CmpOp::LessThan, x, y)),
        Operation::GreaterThan(..) => Ok(cmp_column(CmpOp::GreaterThan, x, y)),
        Operation::LessThanOrEqual(..) => Ok(cmp_column(CmpOp::LessThanOrEqual, x, y)),
        Operation::GreaterThanOrEqual(..) => Ok(cmp_column(CmpOp::GreaterThanOrEqual, x, y)),
        Operation::Equal(..) => Ok(eq_column(false, x, y)),
        Operation::NotEqual(..) => Ok(eq_column(true, x, y)),
        Operation::Negate(..) => Ok(un_column(UnOp::Negate, x)),
        Operation::Sine(..) => Ok(un_column(UnOp::Sine, x)),
        Operation::Cosine(..) => Ok(un_column(UnOp::Cosine, x)),
        Operation::Floor(..) => Ok(un_column(UnOp::Floor, x)),
        Operation::Ceiling(..) => Ok(un_column(UnOp::Ceiling, x)),
        Operation::AbsoluteValue(..) => Ok(un_column(UnOp::AbsoluteValue, x)),
        Operation::Logarithm(..) => Ok(un_column(UnOp::Logarithm, x)),
        Operation::Operand(..) => Ok(dup_column(x)),
        Operation::Ternary(..) => Ok(tern_column(x, y, z)),
        Operation::Index(..) => index_column(x, y),
        Operation::SubArray(..) => sub_array_column(x, y, z),
        Operation::Average(..) => Ok(avg_column(x)),
        Operation::Concat(..) => Ok(cat_column(x, y)),
        Operation::Length(..) => Ok(len_column(x)),
        Operation::Find(..) => Ok(find_column(x, y)),
        Operation::FFT(..) => fft_column(c, x),
        Operation::Window(..) => Ok(window_column(x)),
    }
}

/// The per-expression columns of an array operand, collated per sample.
#[verifier::loop_isolation(false)]
fn transpose_columns(cols: &Vec<Vec<Variable>>, n: usize) -> (r: Vec<Variable>)
    ensures
        vals_of(r@) == transpose_cols(cols_of(cols@), n as nat),
{
    broadcast use crate::value::lemma_vals_of, lemma_cols_of;

    let mut out: Vec<Variable> = Vec::new();
    let mut k: usize = 0;
    while k < n
        invariant
            k <= n,
            out@.len() == k,
            forall|i: int|
                0 <= i < k ==> out@[i]@ == transpose_cols(cols_of(cols@), n as nat)[i],
        decreases n - k,
    {
        let mut row: Vec<Variable> = Vec::new();
        let mut i: usize = 0;
        while i < cols.len()
            invariant
                i <= cols@.len(),
                k < n,
                row@.len() == i,
                forall|q: int|
                    0 <= q < i ==> row@[q]@ == if k < cols_of(cols@)[q].len() {
                        cols_of(cols@)[q][k as int]
                    } else {
                        Val::Number(F64_ZERO)
                    },
            decreases cols@.len() - i,
        {
            if k < cols[i].len() {
                proof {
                    assert(cols_of(cols@)[i as int] == vals_of(cols@[i as int]@));
                    assert(vals_of(cols@[i as int]@)[k as int] == cols@[i as int]@[k as int]@);
                }
                row.push(cols[i][k].dup());
            } else {
                proof {
                    assert(cols_of(cols@)[i as int] == vals_of(cols@[i as int]@));
                }
                row.push(Variable::Number(F64_ZERO));
            }
            i += 1;
        }
        let v = Variable::Array(row);
        proof {
            assert(vals_of(v->Array_0@) =~= transpose_cols(cols_of(cols@), n as nat)[k as int]->Array_0);
        }
        out.push(v);
        k += 1;
    }
    proof {
        assert(vals_of(out@) =~= transpose_cols(cols_of(cols@), n as nat));
    }
    out
}

impl Builder {
    /// Evaluates an operand into a column, one value per sample.
    #[verifier::loop_isolation(false)]
    fn evaluate_operand(
        &self,
        operand: &Operand,
        name: &ChainName,
        args: &Vec<Vec<Variable>>,
        c: EvalCtx,
        fuel: usize,
    ) -> (r: SonnyResult<Vec<Variable>>)
        requires
            c.buffer_size + c.window_size <= usize::MAX,
        ensures
            match r {
                Ok(col) => spec_eval_operand(
                    *operand,
                    name@,
                    cols_of(args@),
                    c,
                    self.chains@,
                    self.names_in_scope@,
                    fuel as nat,
                ) == EvalRes::Cols(vals_of(col@)),
                Err(e) => spec_eval_operand(
                    *operand,
                    name@,
                    cols_of(args@),
                    c,
                    self.chains@,
                    self.names_in_scope@,
                    fuel as nat,
                ) matches EvalRes::Fail(f) && fault_error(f, e),
            },
        decreases fuel, 1int, op_h(*operand), 0int,
    {
        broadcast use crate::value::lemma_vals_of, lemma_cols_of;

        let n = c.buffer_size + c.window_size;
        match operand {
            Operand::Var(v) => Ok(bc_column(n, v)),
            Operand::Id(id) => self.eval_chain_at(id, args, c, fuel),
            Operand::Properties(id, sel) => match self.find_chain(id) {
                None => Err(Error::new(ErrorSpec::CantFindChain(id.dup()))),
                Some(chain) => match &chain.links {
                    ChainLinks::OnlyNotes(..) => prop_column(*sel, &chain.links, c, self, fuel),
                    ChainLinks::Generic(_) => Err(
                        Error::new(ErrorSpec::PropertiesOfGenericChain(id.dup())),
                    ),
                },
            },
            Operand::BackLink(num) => if *num == 0 {
                Err(Error::new(ErrorSpec::ZeroBacklink))
            } else if *num > args.len() {
                Err(
                    Error::new(
                        ErrorSpec::UnstatisfiedBacklink(name.dup(), *num, args.len()),
                    ),
                )
            } else {
                Ok(dup_column(&args[*num - 1]))
            },
            Operand::Time => Ok(time_column(c)),
            Operand::SampleRate => {
                let v = Variable::Number(c.sample_rate);
                Ok(bc_column(n, &v))
            },
            Operand::WindowSize => {
                let v = Variable::Number(u64_to_bits(c.window_size as u64));
                Ok(bc_column(n, &v))
            },
            Operand::BufferSize => {
                let v = Variable::Number(u64_to_bits(c.buffer_size as u64));
                Ok(bc_column(n, &v))
            },
            Operand::WindowIndex => Ok(winidx_column(c)),
            Operand::Notes(notes) => Ok(notes_op_column(notes, c)),
            Operand::Expression(boxed) => {
                proof {
                    assert(op_h(*operand) == 1 + expr_h(*operand->Expression_0));
                }
                self.evaluate_expression(boxed, name, args, c, fuel)
            },
            Operand::Array(exprs) => {
                let ghost full = exprs@;
                proof {
                    assert(full.subrange(0, full.len() as int) =~= full);
                    lemma_exprs_h(full);
                }
                let mut cols: Vec<Vec<Variable>> = Vec::new();
                let mut j: usize = 0;
                while j < exprs.len()
                    invariant
                        j <= full.len(),
                        match spec_eval_cols(
                            full.subrange(j as int, full.len() as int),
                            name@,
                            cols_of(args@),
                            c,
                            self.chains@,
                            self.names_in_scope@,
                            fuel as nat,
                        ) {
                            Result::Ok(rest) => spec_eval_cols(
                                full,
                                name@,
                                cols_of(args@),
                                c,
                                self.chains@,
                                self.names_in_scope@,
                                fuel as nat,
                            ) == Result::<Seq<Seq<Val>>, EvalFault>::Ok(cols_of(cols@) + rest),
                            Result::Err(f) => spec_eval_cols(
                                full,
                                name@,
                                cols_of(args@),
                                c,
                                self.chains@,
                                self.names_in_scope@,
                                fuel as nat,
                            ) == Result::<Seq<Seq<Val>>, EvalFault>::Err(f),
                        },
                    decreases full.len() - j,
                {
                    let ghost rest = full.subrange(j as int, full.len() as int);
                    proof {
                        assert(rest[0] == full[j as int]);
                        assert(rest.subrange(1, rest.len() as int) =~= full.subrange(
                            j + 1,
                            full.len() as int,
                        ));
                        assert(decreases_to!(*operand => operand->Array_0@[j as int]));
                        assert(expr_h(full[j as int]) <= exprs_h(full));
                    }
                    let col = match self.evaluate_expression(&exprs[j], name, args, c, fuel) {
                        Ok(col) => col,
                        Err(e) => {
                            return Err(e);
                        },
                    };
                    proof {
                        assert(cols_of(cols@.push(col)) =~= cols_of(cols@) + seq![vals_of(
                            col@,
                        )]);
                        match spec_eval_cols(
                            full.subrange(j + 1, full.len() as int),
                            name@,
                            cols_of(args@),
                            c,
                            self.chains@,
                            self.names_in_scope@,
                            fuel as nat,
                        ) {
                            Result::Ok(rest2) => {
                                assert((cols_of(cols@) + seq![vals_of(col@)]) + rest2
                                    =~= cols_of(cols@) + (seq![vals_of(col@)] + rest2));
                            },
                            Result::Err(_) => {},
                        }
                    }
                    cols.push(col);
                    j += 1;
                }
                proof {
                    assert(full.subrange(full.len() as int, full.len() as int)
                        =~= Seq::<Expression>::empty());
                    assert(cols_of(cols@) + Seq::<Seq<Val>>::empty() =~= cols_of(cols@));
                }
                Ok(transpose_columns(&cols, n))
            },
        }
    }

    /// Evaluates an expression into a column: its operands left to right,
    /// then the operation over them.
    fn evaluate_expression(
        &self,
        expression: &Expression,
        name: &ChainName,
        args: &Vec<Vec<Variable>>,
        c: EvalCtx,
        fuel: usize,
    ) -> (r: SonnyResult<Vec<Variable>>)
        requires
            c.buffer_size + c.window_size <= usize::MAX,
        ensures
            match r {
                Ok(col) => spec_eval_expr(
                    *expression,
                    name@,
                    cols_of(args@),
                    c,
                    self.chains@,
                    self.names_in_scope@,
                    fuel as nat,
                ) == EvalRes::Cols(vals_of(col@)),
                Err(e) => spec_eval_expr(
                    *expression,
                    name@,
                    cols_of(args@),
                    c,
                    self.chains@,
                    self.names_in_scope@,
                    fuel as nat,
                ) matches EvalRes::Fail(f) && fault_error(f, e),
            },
        decreases fuel, 1int, expr_h(*expression), 0int,
    {
        proof {
            lemma_operands_h(expression.0);
        }
        let ops = expression.0.operands();
        let x = match self.evaluate_operand(ops.0, name, args, c, fuel) {
            Ok(col) => col,
            Err(e) => {
                return Err(e);
            },
        };
        let empty_y: Vec<Variable> = Vec::new();
        let empty_z: Vec<Variable> = Vec::new();
        match ops.1 {
            Some(b) => {
                let y = match self.evaluate_operand(b, name, args, c, fuel) {
                    Ok(col) => col,
                    Err(e) => {
                        return Err(e);
                    },
                };
                match ops.2 {
                    Some(cc) => {
                        let z = match self.evaluate_operand(cc, name, args, c, fuel) {
                            Ok(col) => col,
                            Err(e) => {
                                return Err(e);
                            },
                        };
                        apply_operation(&expression.0, c, &x, &y, &z)
                    },
                    None => apply_operation(&expression.0, c, &x, &y, &empty_z),
                }
            },
            None => apply_operation(&expression.0, c, &x, &empty_y, &empty_z),
        }
    }

    /// Invocation of a chain by name at an evaluation context.
    #[verifier::loop_isolation(false)]
    fn eval_chain_at(
        &self,
        name: &ChainName,
        args: &Vec<Vec<Variable>>,
        c: EvalCtx,
        fuel: usize,
    ) -> (r: SonnyResult<Vec<Variable>>)
        requires
            c.buffer_size + c.window_size <= usize::MAX,
        ensures
            match r {
                Ok(col) => spec_eval_chain(
                    name@,
                    cols_of(args@),
                    c,
                    self.chains@,
                    self.names_in_scope@,
                    fuel as nat,
                ) == EvalRes::Cols(vals_of(col@)),
                Err(e) => spec_eval_chain(
                    name@,
                    cols_of(args@),
                    c,
                    self.chains@,
                    self.names_in_scope@,
                    fuel as nat,
                ) matches EvalRes::Fail(f) && fault_error(f, e),
            },
        decreases fuel, 0int, 0int, 0int,
    {
        broadcast use crate::value::lemma_vals_of, lemma_cols_of;

        if fuel == 0 {
            return Err(Error::new(ErrorSpec::RecursionDepthExceeded(name.dup())));
        }
        match self.find_chain(name) {
            None => Err(Error::new(ErrorSpec::CantFindChain(name.dup()))),
            Some(chain) => match &chain.links {
                ChainLinks::Generic(exprs) => {
                    let ghost full = exprs@;
                    let ghost args_v = cols_of(args@);
                    proof {
                        assert(full.subrange(0, full.len() as int) =~= full);
                    }
                    if exprs.len() == 0 {
                        return Err(Error::new(ErrorSpec::ChainWithoutLinks(name.dup())));
                    }
                    let mut results: Vec<Vec<Variable>> = Vec::new();
                    let mut j: usize = 0;
                    while j < exprs.len()
                        invariant
                            j < full.len() || (j == full.len() && full.len() == 0),
                            j <= full.len(),
                            full.len() > 0,
                            results@.len() == j,
                            spec_eval_links(
                                full.subrange(j as int, full.len() as int),
                                name@,
                                cols_of(results@),
                                args_v,
                                c,
                                self.chains@,
                                self.names_in_scope@,
                                (fuel - 1) as nat,
                            ) == spec_eval_links(
                                full,
                                name@,
                                Seq::empty(),
                                args_v,
                                c,
                                self.chains@,
                                self.names_in_scope@,
                                (fuel - 1) as nat,
                            ),
                        decreases full.len() - j,
                    {
                        let ghost rest = full.subrange(j as int, full.len() as int);
                        proof {
                            assert(rest[0] == full[j as int]);
                            assert(rest.subrange(1, rest.len() as int) =~= full.subrange(
                                j + 1,
                                full.len() as int,
                            ));
                        }
                        let mut these: Vec<Vec<Variable>> = Vec::new();
                        let mut t: usize = results.len();
                        while t > 0
                            invariant
                                t <= results@.len(),
                                these@.len() == results@.len() - t,
                                forall|i: int|
                                    0 <= i < these@.len() ==> cols_of(these@)[i] == cols_of(
                                        results@,
                                    )[results@.len() - 1 - i],
                            decreases t,
                        {
                            t -= 1;
                            let d = dup_column(&results[t]);
                            proof {
                                assert(cols_of(these@.push(d)) =~= cols_of(these@) + seq![vals_of(
                                    d@,
                                )]);
                            }
                            these.push(d);
                        }
                        let mut a: usize = 0;
                        while a < args.len()
                            invariant
                                a <= args@.len(),
                                these@.len() == results@.len() + a,
                                forall|i: int|
                                    0 <= i < results@.len() ==> cols_of(these@)[i] == cols_of(
                                        results@,
                                    )[results@.len() - 1 - i],
                                forall|i: int|
                                    0 <= i < a ==> cols_of(these@)[results@.len() + i] == cols_of(
                                        args@,
                                    )[i],
                            decreases args@.len() - a,
                        {
                            let d = dup_column(&args[a]);
                            proof {
                                assert(cols_of(these@.push(d)) =~= cols_of(these@) + seq![vals_of(
                                    d@,
                                )]);
                            }
                            these.push(d);
                            a += 1;
                        }
                        proof {
                            assert(cols_of(these@) =~= cols_of(results@).reverse() + cols_of(
                                args@,
                            ));
                        }
                        let col = match self.evaluate_expression(
                            &exprs[j],
                            name,
                            &these,
                            c,
                            fuel - 1,
                        ) {
                            Ok(col) => col,
                            Err(e) => {
                                return Err(e);
                            },
                        };
                        if j + 1 == exprs.len() {
                            return Ok(col);
                        }
                        proof {
                            assert(cols_of(results@.push(col)) =~= cols_of(results@).push(
                                vals_of(col@),
                            ));
                        }
                        results.push(col);
                        j += 1;
                    }
                    proof {
                        assert(false);
                    }
                    Err(Error::new(ErrorSpec::ChainWithoutLinks(name.dup())))
                },
                ChainLinks::OnlyNotes(..) => note_column(&chain.links, c, self, fuel - 1),
            },
        }
    }

    /// Evaluates a chain over one window: one value per sample, the
    /// look-back buffer included. `fuel` bounds how deeply chains may
    /// invoke one another.
    pub fn evaluate_chain(
        &self,
        name: &ChainName,
        args: &Vec<Vec<Variable>>,
        time: u64,
        window_size: usize,
        buffer_size: usize,
        sample_rate: u64,
        fuel: usize,
    ) -> (r: SonnyResult<Vec<Variable>>)
        requires
            buffer_size + window_size <= usize::MAX,
        ensures
            ({
                let c = EvalCtx { time, window_size, buffer_size, sample_rate };
                match r {
                    Ok(col) => spec_eval_chain(
                        name@,
                        cols_of(args@),
                        c,
                        self.chains@,
                        self.names_in_scope@,
                        fuel as nat,
                    ) == EvalRes::Cols(vals_of(col@)),
                    Err(e) => spec_eval_chain(
                        name@,
                        cols_of(args@),
                        c,
                        self.chains@,
                        self.names_in_scope@,
                        fuel as nat,
                    ) matches EvalRes::Fail(f) && fault_error(f, e),
                }
            }),
    {
        let c = EvalCtx { time, window_size, buffer_size, sample_rate };
        let col = self.eval_chain_at(name, args, c, fuel);
        col
    }
}


/// Backlink locality: while a chain's links evaluate with local history
/// `results` — link `i` seeing `i` earlier results — a link that is just
/// `BackLink(1)` evaluates to exactly the immediately preceding link's
/// result, whatever the caller's arguments.
pub proof fn lemma_backlink_locality(
    name: NameV,
    results: Seq<Seq<Val>>,
    args: Seq<Seq<Val>>,
    c: EvalCtx,
    chains: Seq<Chain>,
    scope: Seq<NameInScope>,
    fuel: nat,
)
    requires
        results.len() >= 1,
    ensures
        spec_eval_expr(
            Expression(Operation::Operand(Operand::BackLink(1))),
            name,
            results.reverse() + args,
            c,
            chains,
            scope,
            fuel,
        ) == EvalRes::Cols(results.last()),
{
    let these = results.reverse() + args;
    assert(these[0] == results.reverse()[0]);
    assert(results.reverse()[0] == results[results.len() - 1]);
    let e = Expression(Operation::Operand(Operand::BackLink(1)));
    assert(spec_operands(e.0) == (Operand::BackLink(1), None::<Operand>, None::<Operand>));
    assert(spec_eval_operand(Operand::BackLink(1), name, these, c, chains, scope, fuel)
        == EvalRes::Cols(these[0]));
}

/// Argument fallthrough: a two-link chain whose second link is
/// `BackLink(2)` reaches one step past its single-link local history into
/// the caller's arguments, so invoking it with arguments yields the first
/// argument — provided the first link itself evaluates.
pub proof fn lemma_argument_fallthrough(
    l0: Expression,
    name: NameV,
    args: Seq<Seq<Val>>,
    c: EvalCtx,
    chains: Seq<Chain>,
    scope: Seq<NameInScope>,
    fuel: nat,
)
    requires
        args.len() >= 1,
        spec_eval_expr(l0, name, args, c, chains, scope, fuel) is Cols,
    ensures
        spec_eval_links(
            seq![l0, Expression(Operation::Operand(Operand::BackLink(2)))],
            name,
            Seq::empty(),
            args,
            c,
            chains,
            scope,
            fuel,
        ) == EvalRes::Cols(args[0]),
{
    let bl = Expression(Operation::Operand(Operand::BackLink(2)));
    let links = seq![l0, bl];
    assert(links[0] == l0);
    assert(Seq::<Seq<Val>>::empty().reverse() + args =~= args);
    let r0 = spec_eval_expr(l0, name, args, c, chains, scope, fuel)->Cols_0;
    let results = Seq::<Seq<Val>>::empty().push(r0);
    let rest = links.subrange(1, 2);
    assert(rest[0] == bl);
    assert(rest.len() == 1);
    let these = results.reverse() + args;
    assert(these.len() == 1 + args.len());
    assert(these[1] == args[0]);
    assert(spec_operands(bl.0) == (Operand::BackLink(2), None::<Operand>, None::<Operand>));
    assert(spec_eval_operand(Operand::BackLink(2), name, these, c, chains, scope, fuel)
        == EvalRes::Cols(these[1]));
    assert(spec_eval_expr(bl, name, these, c, chains, scope, fuel) == EvalRes::Cols(args[0]));
    assert(spec_eval_links(rest, name, results, args, c, chains, scope, fuel) == EvalRes::Cols(
        args[0],
    ));
}

} // verus!
