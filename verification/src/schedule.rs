//! The windowed scheduler: the output duration is cut into windows, every
//! window after the first is evaluated with a look-back buffer of extra
//! samples prepended, the buffer samples are discarded, and the rest are
//! copied into the output at the window's own offset.

use crate::chain::{ChainName, NameV};
use crate::error::{Error, SonnyResult};
use crate::eval::{cols_of, ctx_n, fault_error, spec_eval_chain, EvalCtx, EvalRes};
use crate::registry::{spec_resolve, Builder};
use crate::scalar::{
    add_bits, div_bits, f64_add, f64_div, f64_le, f64_mul, f64_of_u64, f64_sub, f64_to_u64,
    le_bits, mul_bits, sub_bits, trunc_bits, u64_to_bits, F64_ZERO,
};
use crate::value::{first_scalar, spec_first_scalar, vals_of, Val, Variable};
use vstd::arithmetic::div_mod::lemma_fundamental_div_mod_converse;
use vstd::prelude::*;

verus! {

broadcast use vstd::std_specs::vec::group_vec_axioms, vstd::seq::group_seq_axioms;

/// The total sample count of a run: the elapsed seconds times the sample
/// rate, truncated, capped at the address space.
pub open spec fn spec_total_samples(rate: u64, start: u64, end: u64, ws: nat) -> nat {
    let t = f64_to_u64(f64_mul(rate, f64_sub(end, start)));
    let cap = (usize::MAX as nat - ws) as nat;
    if t > cap {
        cap
    } else {
        t as nat
    }
}

/// The number of windows that cover the samples.
pub open spec fn spec_window_count(total: nat, ws: nat) -> nat {
    total / ws + if total % ws == 0 {
        0nat
    } else {
        1nat
    }
}

/// The evaluation context of window `w`: it starts `bufferSize` samples
/// early — except the first, which has no history — and its absolute start
/// time is that sample index over the sample rate, shifted by the start
/// time.
pub open spec fn spec_window_ctx(
    w: nat,
    total: nat,
    ws: nat,
    bs: nat,
    rate: u64,
    start: u64,
) -> EvalCtx {
    let wstart = w * ws;
    let tb: nat = if w == 0 {
        0
    } else {
        bs
    };
    EvalCtx {
        time: f64_add(f64_div(f64_of_u64((wstart - tb) as u64), rate), start),
        window_size: (if ws <= total - wstart {
            ws as int
        } else {
            total - wstart
        }) as usize,
        buffer_size: tb as usize,
        sample_rate: rate,
    }
}

/// Window `w` runs: no window up to it starts at or past the end time.
pub open spec fn spec_window_runs(
    w: nat,
    total: nat,
    ws: nat,
    bs: nat,
    rate: u64,
    start: u64,
    end: u64,
) -> bool {
    forall|w2: nat|
        w2 <= w ==> !f64_le(end, #[trigger] spec_window_ctx(w2, total, ws, bs, rate, start).time)
}

/// The output sample at absolute index `j`, taken from the window holding
/// `j` at the column position that stands for `j` itself, once the
/// window's leading buffer samples are discarded; a column too short, or a
/// window that never ran, leaves silence.
pub open spec fn spec_out_sample(j: nat, col: Seq<Val>, tb: nat, wstart: nat) -> u64 {
    if tb + (j - wstart) < col.len() {
        spec_first_scalar(col[(tb + (j - wstart)) as int])
    } else {
        F64_ZERO
    }
}

/// Output sample `j` is what its window computed for it: with `w` the
/// window holding `j`, if every window up to `w` started before the end
/// time, the chain evaluated at `w`'s context and `j` carries the value at
/// its column position; otherwise `j` is silence.
pub open spec fn spec_sample_ok(
    b: Builder,
    name: NameV,
    rate: u64,
    ws: nat,
    bs: nat,
    start: u64,
    end: u64,
    fuel: nat,
    song: Seq<u64>,
    j: nat,
) -> bool {
    let total = spec_total_samples(rate, start, end, ws);
    let w = j / ws;
    let c = spec_window_ctx(w, total, ws, bs, rate, start);
    if spec_window_runs(w, total, ws, bs, rate, start, end) {
        match spec_eval_chain(name, Seq::empty(), c, b.chains@, b.names_in_scope@, fuel) {
            EvalRes::Cols(col) => song[j as int] == spec_out_sample(
                j,
                col,
                c.buffer_size as nat,
                w * ws,
            ),
            EvalRes::Fail(_) => false,
        }
    } else {
        song[j as int] == F64_ZERO
    }
}

/// The whole output is rendered: it has the full length and every sample
/// is its window's value.
pub open spec fn spec_rendered(
    b: Builder,
    name: NameV,
    rate: u64,
    ws: nat,
    bs: nat,
    start: u64,
    end: u64,
    fuel: nat,
    song: Seq<u64>,
) -> bool {
    &&& song.len() == spec_total_samples(rate, start, end, ws)
    &&& forall|j: nat|
        j < song.len() ==> #[trigger] spec_sample_ok(b, name, rate, ws, bs, start, end, fuel, song, j)
}

/// The loop's view of a partly rendered output: samples of windows below
/// `w` that all ran carry their values, everything else is still silence.
pub open spec fn spec_sample_upto(
    b: Builder,
    name: NameV,
    rate: u64,
    ws: nat,
    bs: nat,
    start: u64,
    end: u64,
    fuel: nat,
    song: Seq<u64>,
    j: nat,
    w: nat,
) -> bool {
    let total = spec_total_samples(rate, start, end, ws);
    let jw = j / ws;
    let c = spec_window_ctx(jw, total, ws, bs, rate, start);
    if jw < w && spec_window_runs(jw, total, ws, bs, rate, start, end) {
        match spec_eval_chain(name, Seq::empty(), c, b.chains@, b.names_in_scope@, fuel) {
            EvalRes::Cols(col) => song[j as int] == spec_out_sample(
                j,
                col,
                c.buffer_size as nat,
                jw * ws,
            ),
            EvalRes::Fail(_) => false,
        }
    } else {
        song[j as int] == F64_ZERO
    }
}

impl Builder {
    /// Renders the output chain into one sample buffer: the duration is
    /// partitioned into windows, each evaluated with its look-back buffer
    /// and copied — buffer discarded — to its own offset; a window whose
    /// start time has reached the end time stops the run, leaving silence
    /// behind it. Each output sample is the value its window computed for
    /// exactly that sample's position.
    #[verifier::loop_isolation(false)]
    #[verifier::rlimit(100)]
    pub fn render(
        &self,
        name: &ChainName,
        sample_rate: u64,
        window_size: usize,
        buffer_size: usize,
        start_time: u64,
        end: u64,
        fuel: usize,
    ) -> (r: SonnyResult<Vec<u64>>)
        requires
            window_size > 0,
            buffer_size <= window_size,
        ensures
            match r {
                Ok(song) => spec_rendered(
                    *self,
                    name@,
                    sample_rate,
                    window_size as nat,
                    buffer_size as nat,
                    start_time,
                    end,
                    fuel as nat,
                    song@,
                ),
                Err(e) => exists|w: nat|
                    #[trigger] spec_eval_chain(
                        name@,
                        Seq::empty(),
                        spec_window_ctx(
                            w,
                            spec_total_samples(sample_rate, start_time, end, window_size as nat),
                            window_size as nat,
                            buffer_size as nat,
                            sample_rate,
                            start_time,
                        ),
                        self.chains@,
                        self.names_in_scope@,
                        fuel as nat,
                    ) matches EvalRes::Fail(f) && fault_error(f, e),
            },
    {
        broadcast use crate::value::lemma_vals_of, crate::eval::lemma_cols_of;

        let ghost gws = window_size as nat;
        let ghost gbs = buffer_size as nat;
        let t_raw = trunc_bits(mul_bits(sample_rate, sub_bits(end, start_time)));
        let cap = usize::MAX - window_size;
        let total: usize = if t_raw > cap as u64 {
            cap
        } else {
            t_raw as usize
        };
        let ghost gtotal = total as nat;
        proof {
            assert(gtotal == spec_total_samples(sample_rate, start_time, end, gws));
        }
        let mut song: Vec<u64> = Vec::new();
        let mut z: usize = 0;
        while z < total
            invariant
                z <= total,
                song@.len() == z,
                forall|i: int| 0 <= i < z ==> song@[i] == F64_ZERO,
            decreases total - z,
        {
            song.push(F64_ZERO);
            z += 1;
        }
        let empty_args: Vec<Vec<Variable>> = Vec::new();
        proof {
            assert(cols_of(empty_args@) =~= Seq::<Seq<Val>>::empty());
        }
        let mut w: usize = 0;
        let mut window_start: usize = 0;
        let mut broke = false;
        while window_start < total && !broke
            invariant
                song@.len() == gtotal,
                window_start == w * gws,
                window_start <= total + window_size,
                !broke ==> forall|w2: nat|
                    w2 < w ==> !f64_le(
                        end,
                        #[trigger] spec_window_ctx(
                            w2,
                            gtotal,
                            gws,
                            gbs,
                            sample_rate,
                            start_time,
                        ).time,
                    ),
                broke ==> f64_le(
                    end,
                    spec_window_ctx(w as nat, gtotal, gws, gbs, sample_rate, start_time).time,
                ) && (forall|w2: nat|
                    w2 < w ==> !f64_le(
                        end,
                        #[trigger] spec_window_ctx(
                            w2,
                            gtotal,
                            gws,
                            gbs,
                            sample_rate,
                            start_time,
                        ).time,
                    )),
                forall|j: nat|
                    j < gtotal ==> #[trigger] spec_sample_upto(
                        *self,
                        name@,
                        sample_rate,
                        gws,
                        gbs,
                        start_time,
                        end,
                        fuel as nat,
                        song@,
                        j,
                        w as nat,
                    ),
            decreases (if window_start <= total {
                total - window_start + 1
            } else {
                0int
            }) + (if broke {
                0int
            } else {
                1int
            }),
        {
            proof {
                assert(w == 0 <==> window_start == 0) by (nonlinear_arith)
                    requires
                        window_start == w * gws,
                        gws > 0,
                ;
                if window_start != 0 {
                    assert(w * gws >= 1 * gws) by (nonlinear_arith)
                        requires
                            w >= 1,
                            gws >= 0,
                    ;
                }
            }
            let this_buffer = if window_start == 0 {
                0
            } else {
                buffer_size
            };
            let eval_start = window_start - this_buffer;
            let time = add_bits(
                div_bits(u64_to_bits(eval_start as u64), sample_rate),
                start_time,
            );
            let ghost c = spec_window_ctx(w as nat, gtotal, gws, gbs, sample_rate, start_time);
            proof {
                assert(c.time == time);
            }
            if le_bits(end, time) {
                broke = true;
            } else {
                let ws_actual = if window_size <= total - window_start {
                    window_size
                } else {
                    total - window_start
                };
                proof {
                    assert(c.window_size == ws_actual && c.buffer_size == this_buffer
                        && c.sample_rate == sample_rate);
                }
                let column = match self.evaluate_chain(
                    name,
                    &empty_args,
                    time,
                    ws_actual,
                    this_buffer,
                    sample_rate,
                    fuel,
                ) {
                    Ok(column) => column,
                    Err(e) => {
                        return Err(e);
                    },
                };
                let ghost col_v = vals_of(column@);
                let ghost song0 = song@;
                let mut i: usize = 0;
                while i < ws_actual
                    invariant
                        i <= ws_actual,
                        ws_actual + window_start <= total,
                        song@.len() == gtotal,
                        song@.len() == song0.len(),
                        spec_eval_chain(
                            name@,
                            Seq::empty(),
                            c,
                            self.chains@,
                            self.names_in_scope@,
                            fuel as nat,
                        ) == EvalRes::Cols(col_v),
                        forall|q: int|
                            0 <= q < song@.len() && !(window_start <= q < window_start + i)
                                ==> song@[q] == song0[q],
                        forall|q: int|
                            window_start <= q < window_start + i ==> song@[q]
                                == spec_out_sample(
                                q as nat,
                                col_v,
                                this_buffer as nat,
                                window_start as nat,
                            ),
                    decreases ws_actual - i,
                {
                    let pos = this_buffer + i;
                    if pos < column.len() {
                        proof {
                            assert(col_v[pos as int] == column@[pos as int]@);
                        }
                        let v = first_scalar(&column[pos]);
                        song.set(window_start + i, v);
                    } else {
                        song.set(window_start + i, F64_ZERO);
                    }
                    i += 1;
                }
                proof {
                    assert forall|j: nat|
                        j < gtotal implies #[trigger] spec_sample_upto(
                        *self,
                        name@,
                        sample_rate,
                        gws,
                        gbs,
                        start_time,
                        end,
                        fuel as nat,
                        song@,
                        j,
                        (w + 1) as nat,
                    ) by {
                        let jw = j / gws;
                        assert(spec_sample_upto(
                            *self,
                            name@,
                            sample_rate,
                            gws,
                            gbs,
                            start_time,
                            end,
                            fuel as nat,
                            song0,
                            j,
                            w as nat,
                        ));
                        if window_start <= j < window_start + ws_actual {
                            lemma_fundamental_div_mod_converse(
                                j as int,
                                gws as int,
                                w as int,
                                j - window_start,
                            );
                            assert(jw == w as nat);
                            assert(spec_window_ctx(jw, gtotal, gws, gbs, sample_rate, start_time)
                                == c);
                            assert forall|w2: nat| w2 <= jw implies !f64_le(
                                end,
                                #[trigger] spec_window_ctx(
                                    w2,
                                    gtotal,
                                    gws,
                                    gbs,
                                    sample_rate,
                                    start_time,
                                ).time,
                            ) by {
                                if w2 == jw {
                                    assert(!f64_le(end, c.time));
                                }
                            }
                            assert(spec_window_runs(
                                jw,
                                gtotal,
                                gws,
                                gbs,
                                sample_rate,
                                start_time,
                                end,
                            ));
                            assert(song@[j as int] == spec_out_sample(
                                j,
                                col_v,
                                this_buffer as nat,
                                window_start as nat,
                            ));
                        } else {
                            assert(song@[j as int] == song0[j as int]);
                            if jw == w as nat {
                                if j < window_start {
                                    vstd::arithmetic::div_mod::lemma_div_is_ordered(
                                        j as int,
                                        (window_start - 1) as int,
                                        gws as int,
                                    );
                                    assert((w - 1) * gws + (gws - 1) == w * gws - 1)
                                        by (nonlinear_arith);
                                    lemma_fundamental_div_mod_converse(
                                        (window_start - 1) as int,
                                        gws as int,
                                        (w - 1) as int,
                                        (gws - 1) as int,
                                    );
                                    assert(false);
                                }
                                assert(j >= window_start);
                                assert(j >= window_start + ws_actual);
                                if ws_actual == window_size {
                                    assert((w + 1) * gws == w * gws + gws) by (nonlinear_arith);
                                    vstd::arithmetic::div_mod::lemma_div_multiples_vanish(
                                        (w + 1) as int,
                                        gws as int,
                                    );
                                    vstd::arithmetic::div_mod::lemma_div_is_ordered(
                                        ((w + 1) * gws) as int,
                                        j as int,
                                        gws as int,
                                    );
                                    assert(false);
                                } else {
                                    assert(window_start + ws_actual == gtotal);
                                    assert(false);
                                }
                            }
                        }
                    }
                }
                proof {
                    assert(w <= w * gws) by (nonlinear_arith)
                        requires
                            gws >= 1,
                            w >= 0,
                    ;
                    assert((w + 1) * gws == w * gws + gws) by (nonlinear_arith);
                }
                let ghost prev_w = w as nat;
                w += 1;
                window_start = window_start + window_size;
                proof {
                    assert forall|j: nat|
                        j < gtotal implies #[trigger] spec_sample_upto(
                        *self,
                        name@,
                        sample_rate,
                        gws,
                        gbs,
                        start_time,
                        end,
                        fuel as nat,
                        song@,
                        j,
                        w as nat,
                    ) by {
                        assert(w as nat == prev_w + 1);
                        assert(spec_sample_upto(
                            *self,
                            name@,
                            sample_rate,
                            gws,
                            gbs,
                            start_time,
                            end,
                            fuel as nat,
                            song@,
                            j,
                            (prev_w + 1) as nat,
                        ));
                    }
                }
            }
        }
        proof {
            assert forall|j: nat| j < gtotal implies #[trigger] spec_sample_ok(
                *self,
                name@,
                sample_rate,
                gws,
                gbs,
                start_time,
                end,
                fuel as nat,
                song@,
                j,
            ) by {
                let jw = j / gws;
                assert(spec_sample_upto(
                    *self,
                    name@,
                    sample_rate,
                    gws,
                    gbs,
                    start_time,
                    end,
                    fuel as nat,
                    song@,
                    j,
                    w as nat,
                ));
                if !broke {
                    assert(window_start >= total);
                    assert(w >= 1) by {
                        if w == 0 {
                            assert(window_start == 0);
                            assert(false);
                        }
                    }
                    assert((w - 1) * gws + (gws - 1) == w * gws - 1) by (nonlinear_arith);
                    vstd::arithmetic::div_mod::lemma_div_is_ordered(
                        j as int,
                        (window_start - 1) as int,
                        gws as int,
                    );
                    lemma_fundamental_div_mod_converse(
                        (window_start - 1) as int,
                        gws as int,
                        (w - 1) as int,
                        (gws - 1) as int,
                    );
                    assert(jw < w);
                } else {
                    if jw >= w {
                        assert(f64_le(
                            end,
                            spec_window_ctx(
                                w as nat,
                                gtotal,
                                gws,
                                gbs,
                                sample_rate,
                                start_time,
                            ).time,
                        ));
                        assert(!spec_window_runs(
                            jw,
                            gtotal,
                            gws,
                            gbs,
                            sample_rate,
                            start_time,
                            end,
                        ));
                    }
                }
            }
        }
        Ok(song)
    }
}


/// Window reassembly: splitting the run into windows of any sizes,
/// evaluating each with its buffer prepended, discarding the buffers and
/// concatenating re-assembles the one-pass output, for a source whose
/// per-sample value does not depend on the window — here a chain whose one
/// link is a constant. Every sample of every window that ran carries that
/// constant's scalar, so any two window/buffer partitions agree wherever
/// both ran.
pub proof fn lemma_window_reassembly_constant(
    b: Builder,
    name: NameV,
    v: Variable,
    rate: u64,
    ws: nat,
    bs: nat,
    start: u64,
    end: u64,
    fuel: nat,
    song: Seq<u64>,
)
    requires
        fuel >= 2,
        1 <= ws <= usize::MAX,
        bs <= usize::MAX,
        match spec_resolve(b.chains@, b.names_in_scope@, name) {
            Some(ch) => ch.links is Generic && ch.links->Generic_0@ =~= seq![
                crate::chain::Expression(
                    crate::chain::Operation::Operand(crate::chain::Operand::Var(v)),
                ),
            ],
            None => false,
        },
        spec_rendered(b, name, rate, ws, bs, start, end, fuel, song),
    ensures
        forall|j: nat|
            j < song.len() && spec_window_runs(
                j / ws,
                spec_total_samples(rate, start, end, ws),
                ws,
                bs,
                rate,
                start,
                end,
            ) ==> song[j as int] == spec_first_scalar(crate::value::val_of(v)),
{
    let total = spec_total_samples(rate, start, end, ws);
    let e = crate::chain::Expression(
        crate::chain::Operation::Operand(crate::chain::Operand::Var(v)),
    );
    let ch = spec_resolve(b.chains@, b.names_in_scope@, name)->Some_0;
    let links = ch.links->Generic_0@;
    assert forall|j: nat|
        j < song.len() && spec_window_runs(j / ws, total, ws, bs, rate, start, end) implies song[
    j as int] == spec_first_scalar(crate::value::val_of(v)) by {
        let w = j / ws;
        let c = spec_window_ctx(w, total, ws, bs, rate, start);
        assert(spec_sample_ok(b, name, rate, ws, bs, start, end, fuel, song, j));
        vstd::arithmetic::div_mod::lemma_fundamental_div_mod(j as int, ws as int);
        assert(j == ws * w + (j % ws));
        assert(0 <= j % ws < ws);
        let wstart = w * ws;
        assert(wstart <= j < wstart + ws);
        let n = ctx_n(c);
        assert(c.window_size as nat == if ws <= total - wstart {
            ws
        } else {
            (total - wstart) as nat
        });
        assert(j - wstart < c.window_size);
        let sub = fuel - 1;
        assert(links[0] == e);
        assert(links.len() == 1);
        assert(crate::eval::spec_operands(e.0) == (
            crate::chain::Operand::Var(v),
            None::<crate::chain::Operand>,
            None::<crate::chain::Operand>,
        ));
        let these = Seq::<Seq<Val>>::empty().reverse() + Seq::<Seq<Val>>::empty();
        assert(crate::eval::spec_eval_operand(
            crate::chain::Operand::Var(v),
            name,
            these,
            c,
            b.chains@,
            b.names_in_scope@,
            sub as nat,
        ) == EvalRes::Cols(crate::eval::bc_col(n, crate::value::val_of(v))));
        assert(crate::eval::spec_eval_expr(
            e,
            name,
            these,
            c,
            b.chains@,
            b.names_in_scope@,
            sub as nat,
        ) == EvalRes::Cols(crate::eval::bc_col(n, crate::value::val_of(v))));
        assert(spec_eval_chain(name, Seq::empty(), c, b.chains@, b.names_in_scope@, fuel)
            == EvalRes::Cols(crate::eval::bc_col(n, crate::value::val_of(v))));
        let col = crate::eval::bc_col(n, crate::value::val_of(v));
        let pos = c.buffer_size as nat + (j - wstart);
        assert(pos < n);
        assert(col[pos as int] == crate::value::val_of(v));
        assert(song[j as int] == spec_out_sample(j, col, c.buffer_size as nat, wstart));
    }
}

} // verus!
