//! The meaning of running passes against encoders: which commands land in
//! which encoder, and what they add up to.
use vstd::prelude::*;
use crate::clear::clear_commands;
use crate::encoder::CommandView;
use crate::pass::{ModelKind, PassShape, model_commands, post_commands};
use crate::scene::{Camera, Light, Model, chunk_of, chunks_of, lemma_chunks_cover};
use crate::target::Target;

verus! {

/// What a frame reads of the scene.
pub struct Frame {
    pub camera: Option<Camera>,
    pub lights: Seq<Light>,
    pub models: Seq<Model>,
}

/// The commands of a per-model pass over `models`, model after model.
pub open spec fn models_commands(
    kind: ModelKind,
    program: u64,
    t: Target,
    f: Frame,
    models: Seq<Model>,
) -> Seq<CommandView> {
    models.map_values(|m: Model| model_commands(kind, program, t, f.camera, f.lights, m)).flatten()
}

/// The commands a pass records over the whole frame, in order.
pub open spec fn pass_trace(shape: PassShape, t: Target, f: Frame) -> Seq<CommandView> {
    match shape {
        PassShape::Basic(c) => clear_commands(c, t),
        PassShape::Simple(k, p) => post_commands(k, p, t, f.camera),
        PassShape::Model(k, p) => models_commands(k, p, t, f, f.models),
    }
}

/// The commands passes record over the whole frame: pass after pass.
pub open spec fn passes_trace(shapes: Seq<PassShape>, t: Target, f: Frame) -> Seq<CommandView>
    decreases shapes.len(),
{
    if shapes.len() == 0 {
        seq![]
    } else {
        passes_trace(shapes.drop_last(), t, f) + pass_trace(shapes.last(), t, f)
    }
}

/// The number of per-model passes.
pub open spec fn model_pass_count(shapes: Seq<PassShape>) -> nat
    decreases shapes.len(),
{
    if shapes.len() == 0 {
        0
    } else {
        model_pass_count(shapes.drop_last()) + if shapes.last() is Model {
            1nat
        } else {
            0nat
        }
    }
}

/// The encoders that running passes needs with `jobs` concurrent chunks:
/// one for the passes that run alone, and one more per extra chunk of each
/// per-model pass.
pub open spec fn encoders_needed(shapes: Seq<PassShape>, jobs: nat) -> nat {
    1 + model_pass_count(shapes) * (jobs - 1) as nat
}

/// Encoder contents after the first `done` of the `jobs` chunks of a
/// per-model pass have been recorded, chunk `j` into encoder `base + j`.
pub open spec fn fan_out_upto(
    outs: Seq<Seq<CommandView>>,
    base: nat,
    jobs: nat,
    done: nat,
    kind: ModelKind,
    program: u64,
    t: Target,
    f: Frame,
) -> Seq<Seq<CommandView>> {
    Seq::new(
        outs.len(),
        |i: int|
            if base <= i < base + done {
                outs[i] + models_commands(
                    kind,
                    program,
                    t,
                    f,
                    chunk_of(f.models, jobs, (i - base) as nat),
                )
            } else {
                outs[i]
            },
    )
}

/// Encoder contents after a per-model pass spreads its `jobs` chunks over the
/// encoders from `base` on.
pub open spec fn fan_out(
    outs: Seq<Seq<CommandView>>,
    base: nat,
    jobs: nat,
    kind: ModelKind,
    program: u64,
    t: Target,
    f: Frame,
) -> Seq<Seq<CommandView>> {
    fan_out_upto(outs, base, jobs, jobs, kind, program, t, f)
}

/// Encoder contents after one pass, with `base` the encoder that passes
/// running alone write into.
pub open spec fn pass_dispatch(
    shape: PassShape,
    t: Target,
    f: Frame,
    jobs: nat,
    base: nat,
    outs: Seq<Seq<CommandView>>,
) -> Seq<Seq<CommandView>> {
    match shape {
        PassShape::Model(k, p) => fan_out(outs, base, jobs, k, p, t, f),
        _ => outs.update(base as int, outs[base as int] + pass_trace(shape, t, f)),
    }
}

/// Where passes running alone write after `shape`: a per-model pass moves on
/// to the encoder of its last chunk.
pub open spec fn next_base(shape: PassShape, jobs: nat, base: nat) -> nat {
    if shape is Model {
        (base + jobs - 1) as nat
    } else {
        base
    }
}

/// Encoder contents and the final base after running `shapes` in order.
pub open spec fn passes_dispatch(
    shapes: Seq<PassShape>,
    t: Target,
    f: Frame,
    jobs: nat,
    base: nat,
    outs: Seq<Seq<CommandView>>,
) -> (Seq<Seq<CommandView>>, nat)
    decreases shapes.len(),
{
    if shapes.len() == 0 {
        (outs, base)
    } else {
        let (o, b) = passes_dispatch(shapes.drop_last(), t, f, jobs, base, outs);
        (pass_dispatch(shapes.last(), t, f, jobs, b, o), next_base(shapes.last(), jobs, b))
    }
}

/// Every encoder after `base` is still empty.
pub open spec fn fresh_after(outs: Seq<Seq<CommandView>>, base: nat) -> bool {
    forall|i: int| base < i < outs.len() ==> #[trigger] outs[i].len() == 0
}

proof fn lemma_flatten_empties(s: Seq<Seq<CommandView>>)
    requires
        forall|i: int| 0 <= i < s.len() ==> #[trigger] s[i].len() == 0,
    ensures
        s.flatten() == Seq::<CommandView>::empty(),
    decreases s.len(),
{
    if s.len() > 0 {
        lemma_flatten_empties(s.drop_first());
        assert(s.flatten() == s[0] + s.drop_first().flatten());
        assert(s[0] =~= Seq::<CommandView>::empty());
        assert(s.flatten() =~= Seq::<CommandView>::empty());
    }
}

/// Splits encoder contents at `base` when the encoders after it are empty.
proof fn lemma_flatten_at(outs: Seq<Seq<CommandView>>, base: int)
    requires
        0 <= base < outs.len(),
        fresh_after(outs, base as nat),
    ensures
        outs.flatten() == outs.take(base).flatten() + outs[base],
{
    let rest = outs.skip(base + 1);
    assert(outs =~= outs.take(base) + (seq![outs[base]] + rest));
    vstd::seq_lib::lemma_flatten_concat(outs.take(base), seq![outs[base]] + rest);
    vstd::seq_lib::lemma_flatten_concat(seq![outs[base]], rest);
    seq![outs[base]].lemma_flatten_one_element();
    assert forall|i: int| 0 <= i < rest.len() implies #[trigger] rest[i].len() == 0 by {
        assert(rest[i] == outs[base + 1 + i]);
    }
    lemma_flatten_empties(rest);
    assert(seq![outs[base]].flatten() + rest.flatten() =~= outs[base]);
}

/// Per-model commands over joined model sequences are the joined commands.
proof fn lemma_models_commands_concat(
    kind: ModelKind,
    program: u64,
    t: Target,
    f: Frame,
    a: Seq<Model>,
    b: Seq<Model>,
)
    ensures
        models_commands(kind, program, t, f, a + b) == models_commands(kind, program, t, f, a)
            + models_commands(kind, program, t, f, b),
{
    let g = |m: Model| model_commands(kind, program, t, f.camera, f.lights, m);
    assert((a + b).map_values(g) =~= a.map_values(g) + b.map_values(g));
    vstd::seq_lib::lemma_flatten_concat(a.map_values(g), b.map_values(g));
}

/// Commands of chunks, joined chunk after chunk, are the commands of the
/// joined chunks.
proof fn lemma_chunks_commands(
    kind: ModelKind,
    program: u64,
    t: Target,
    f: Frame,
    chunks: Seq<Seq<Model>>,
)
    ensures
        chunks.map_values(|c: Seq<Model>| models_commands(kind, program, t, f, c)).flatten()
            == models_commands(kind, program, t, f, chunks.flatten()),
    decreases chunks.len(),
{
    let h = |c: Seq<Model>| models_commands(kind, program, t, f, c);
    if chunks.len() == 0 {
        assert(chunks.map_values(h) =~= Seq::<Seq<CommandView>>::empty());
        assert(chunks.flatten() =~= Seq::<Model>::empty());
        assert(Seq::<Model>::empty().map_values(
            |m: Model| model_commands(kind, program, t, f.camera, f.lights, m),
        ) =~= Seq::<Seq<CommandView>>::empty());
    } else {
        lemma_chunks_commands(kind, program, t, f, chunks.drop_first());
        assert(chunks.map_values(h).drop_first() =~= chunks.drop_first().map_values(h));
        lemma_models_commands_concat(kind, program, t, f, chunks[0], chunks.drop_first().flatten());
    }
}

/// A per-model pass spread over fresh encoders adds, read encoder after
/// encoder, its commands for every model in order.
proof fn lemma_fan_out_trace(
    outs: Seq<Seq<CommandView>>,
    base: nat,
    jobs: nat,
    kind: ModelKind,
    program: u64,
    t: Target,
    f: Frame,
)
    requires
        jobs >= 1,
        base + jobs <= outs.len(),
        fresh_after(outs, base),
    ensures
        fan_out(outs, base, jobs, kind, program, t, f).flatten() == outs.flatten()
            + models_commands(kind, program, t, f, f.models),
        fresh_after(fan_out(outs, base, jobs, kind, program, t, f), (base + jobs - 1) as nat),
        fan_out(outs, base, jobs, kind, program, t, f).len() == outs.len(),
{
    let o2 = fan_out(outs, base, jobs, kind, program, t, f);
    let h = |c: Seq<Model>| models_commands(kind, program, t, f, c);
    let cs = chunks_of(f.models, jobs).map_values(h);
    let b = base as int;
    let last = b + jobs - 1;
    assert(fresh_after(o2, last as nat));
    lemma_flatten_at(o2, last);
    lemma_flatten_at(outs, b);
    // the encoders from `base` to the last chunk's hold the chunks' commands
    assert(o2.take(last) =~= outs.take(b) + o2.subrange(b, last));
    vstd::seq_lib::lemma_flatten_concat(outs.take(b), o2.subrange(b, last));
    assert(o2.subrange(b, last + 1) =~= o2.subrange(b, last).push(o2[last]));
    o2.subrange(b, last).lemma_flatten_push(o2[last]);
    assert forall|j: int| 1 <= j < jobs implies #[trigger] o2[b + j] == cs[j] by {
        assert(outs[b + j].len() == 0);
        assert(outs[b + j] + cs[j] =~= cs[j]);
    }
    assert(o2.subrange(b, last + 1) =~= seq![outs[b] + cs[0]] + cs.drop_first());
    vstd::seq_lib::lemma_flatten_concat(seq![outs[b] + cs[0]], cs.drop_first());
    seq![outs[b] + cs[0]].lemma_flatten_one_element();
    assert(cs.flatten() == cs[0] + cs.drop_first().flatten());
    lemma_chunks_commands(kind, program, t, f, chunks_of(f.models, jobs));
    lemma_chunks_cover(f.models, jobs);
    let x = outs.take(b).flatten();
    let y = o2.subrange(b, last).flatten();
    assert(o2.flatten() == x + y + o2[last]);
    assert(y + o2[last] == o2.subrange(b, last + 1).flatten());
    assert(o2.subrange(b, last + 1).flatten() == outs[b] + cs[0] + cs.drop_first().flatten());
    assert(o2.flatten() =~= x + (y + o2[last]));
    assert(outs[b] + cs[0] + cs.drop_first().flatten() =~= outs[b] + cs.flatten());
    assert(o2.flatten() =~= x + outs[b] + cs.flatten());
}

/// Running passes over fresh encoders, encoder after encoder, records exactly
/// the passes' commands in declaration order, each per-model pass over all
/// models in order; it takes the encoders from `base` on, as many as
/// `encoders_needed` says.
pub proof fn lemma_dispatch_trace(
    shapes: Seq<PassShape>,
    t: Target,
    f: Frame,
    jobs: nat,
    base: nat,
    outs: Seq<Seq<CommandView>>,
)
    requires
        jobs >= 1,
        base + encoders_needed(shapes, jobs) <= outs.len(),
        fresh_after(outs, base),
    ensures
        passes_dispatch(shapes, t, f, jobs, base, outs).0.flatten() == outs.flatten()
            + passes_trace(shapes, t, f),
        passes_dispatch(shapes, t, f, jobs, base, outs).0.len() == outs.len(),
        passes_dispatch(shapes, t, f, jobs, base, outs).1 == base + model_pass_count(shapes) * (
        jobs - 1) as nat,
        fresh_after(
            passes_dispatch(shapes, t, f, jobs, base, outs).0,
            passes_dispatch(shapes, t, f, jobs, base, outs).1,
        ),
    decreases shapes.len(),
{
    if shapes.len() == 0 {
        assert(outs.flatten() + Seq::<CommandView>::empty() =~= outs.flatten());
        assert(0 * (jobs - 1) as nat == 0) by (nonlinear_arith);
    } else {
        let init = shapes.drop_last();
        let s = shapes.last();
        let m = model_pass_count(init);
        assert(m * (jobs - 1) as nat <= model_pass_count(shapes) * (jobs - 1) as nat) by {
            vstd::arithmetic::mul::lemma_mul_inequality(
                m as int,
                model_pass_count(shapes) as int,
                (jobs - 1) as int,
            );
        }
        lemma_dispatch_trace(init, t, f, jobs, base, outs);
        let (o, b) = passes_dispatch(init, t, f, jobs, base, outs);
        match s {
            PassShape::Model(k, p) => {
                assert(model_pass_count(shapes) == m + 1);
                let j1 = (jobs - 1) as nat;
                assert((m + 1) * j1 == m * j1 + j1) by (nonlinear_arith);
                lemma_fan_out_trace(o, b, jobs, k, p, t, f);
                assert(b + jobs - 1 == base + (m + 1) * j1);
                assert(passes_trace(shapes, t, f) == passes_trace(init, t, f) + pass_trace(s, t, f));
                assert(o.flatten() + pass_trace(s, t, f) =~= outs.flatten() + passes_trace(
                    shapes,
                    t,
                    f,
                ));
            },
            _ => {
                let o2 = o.update(b as int, o[b as int] + pass_trace(s, t, f));
                assert(fresh_after(o2, b));
                lemma_flatten_at(o2, b as int);
                lemma_flatten_at(o, b as int);
                assert(o2.take(b as int) =~= o.take(b as int));
                assert(model_pass_count(shapes) == m);
                assert(passes_trace(shapes, t, f) == passes_trace(init, t, f) + pass_trace(s, t, f));
                assert(o2[b as int] == o[b as int] + pass_trace(s, t, f));
                assert(o2.flatten() =~= o.take(b as int).flatten() + o[b as int] + pass_trace(s, t, f));
                assert(o2.flatten() =~= o.flatten() + pass_trace(s, t, f));
                assert(o2.flatten() =~= outs.flatten() + passes_trace(shapes, t, f));
            },
        }
    }
}

/// Running passes moves the base past the extra encoders of each per-model
/// pass and keeps the number of encoders.
pub proof fn lemma_dispatch_base(
    shapes: Seq<PassShape>,
    t: Target,
    f: Frame,
    jobs: nat,
    base: nat,
    outs: Seq<Seq<CommandView>>,
)
    requires
        jobs >= 1,
        base + encoders_needed(shapes, jobs) <= outs.len(),
    ensures
        passes_dispatch(shapes, t, f, jobs, base, outs).0.len() == outs.len(),
        passes_dispatch(shapes, t, f, jobs, base, outs).1 == base + model_pass_count(shapes) * (
        jobs - 1) as nat,
    decreases shapes.len(),
{
    let j1 = (jobs - 1) as nat;
    if shapes.len() == 0 {
        assert(0 * j1 == 0) by (nonlinear_arith);
    } else {
        let m = model_pass_count(shapes.drop_last());
        vstd::arithmetic::mul::lemma_mul_inequality(
            m as int,
            model_pass_count(shapes) as int,
            j1 as int,
        );
        lemma_dispatch_base(shapes.drop_last(), t, f, jobs, base, outs);
        assert((m + 1) * j1 == m * j1 + j1) by (nonlinear_arith);
    }
}

/// A prefix of the passes has no more per-model passes than the whole.
pub proof fn lemma_model_pass_count_prefix(shapes: Seq<PassShape>, k: int)
    requires
        0 <= k <= shapes.len(),
    ensures
        model_pass_count(shapes.take(k)) <= model_pass_count(shapes),
    decreases shapes.len(),
{
    if k < shapes.len() {
        assert(shapes.drop_last().take(k) =~= shapes.take(k));
        lemma_model_pass_count_prefix(shapes.drop_last(), k);
    } else {
        assert(shapes.take(k) =~= shapes);
    }
}

/// A per-model pass over one more model adds that model's commands.
pub proof fn lemma_models_commands_push(
    kind: ModelKind,
    program: u64,
    t: Target,
    f: Frame,
    models: Seq<Model>,
    m: Model,
)
    ensures
        models_commands(kind, program, t, f, models.push(m)) == models_commands(
            kind,
            program,
            t,
            f,
            models,
        ) + model_commands(kind, program, t, f.camera, f.lights, m),
{
    let g = |m: Model| model_commands(kind, program, t, f.camera, f.lights, m);
    assert(models.push(m).map_values(g) =~= models.map_values(g).push(g(m)));
    models.map_values(g).lemma_flatten_push(g(m));
}

/// With one job per per-model pass nothing runs concurrently, and one
/// encoder is enough however many passes there are.
pub proof fn lemma_single_job_needs_one_encoder(shapes: Seq<PassShape>)
    ensures
        encoders_needed(shapes, 1) == 1,
{
    assert(model_pass_count(shapes) * 0 == 0) by (nonlinear_arith);
}

} // verus!
