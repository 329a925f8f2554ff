//! The pipeline: the target registry and the stages, built once and run
//! every frame.
use vstd::prelude::*;
use crate::dispatch::{
    Frame,
    fresh_after,
    lemma_dispatch_base,
    lemma_dispatch_trace,
    model_pass_count,
    passes_dispatch,
    passes_trace,
};
use crate::effect::Program;
use crate::encoder::{CommandView, Encoder};
use crate::error::{Error, ErrorView};
use crate::scene::Scene;
use crate::stage::{
    Stage,
    StageBuilder,
    encoder_views,
    finished_shapes,
    frame_of,
    passes_error,
};
use crate::target::Targets;

verus! {

/// The per-model passes of the enabled stages.
pub open spec fn enabled_model_passes(stages: Seq<Stage>) -> nat
    decreases stages.len(),
{
    if stages.len() == 0 {
        0
    } else {
        enabled_model_passes(stages.drop_last()) + if stages.last().enabled() {
            model_pass_count(stages.last().shapes())
        } else {
            0
        }
    }
}

/// The encoders a frame needs with `jobs` concurrent chunks per per-model pass.
pub open spec fn frame_encoders_needed(stages: Seq<Stage>, jobs: nat) -> nat {
    1 + enabled_model_passes(stages) * (jobs - 1) as nat
}

/// Encoder contents and the final base after running the stages in order;
/// a disabled stage does nothing.
pub open spec fn stages_dispatch(
    stages: Seq<Stage>,
    f: Frame,
    jobs: nat,
    outs: Seq<Seq<CommandView>>,
) -> (Seq<Seq<CommandView>>, nat)
    decreases stages.len(),
{
    if stages.len() == 0 {
        (outs, 0)
    } else {
        let (o, b) = stages_dispatch(stages.drop_last(), f, jobs, outs);
        let s = stages.last();
        if s.enabled() {
            passes_dispatch(s.shapes(), s.target(), f, jobs, b, o)
        } else {
            (o, b)
        }
    }
}

/// The commands of a frame in order: the enabled stages in declaration order,
/// the passes of each in declaration order.
pub open spec fn frame_trace(stages: Seq<Stage>, f: Frame) -> Seq<CommandView>
    decreases stages.len(),
{
    if stages.len() == 0 {
        seq![]
    } else {
        frame_trace(stages.drop_last(), f) + if stages.last().enabled() {
            passes_trace(stages.last().shapes(), stages.last().target(), f)
        } else {
            seq![]
        }
    }
}

/// Why building stages fails: the first stage that names a missing target or
/// holds a pass that cannot be finished.
pub open spec fn stages_error(
    builders: Seq<StageBuilder>,
    targets: Targets,
    programs: Seq<Vec<Program>>,
) -> Option<ErrorView>
    decreases builders.len(),
{
    if builders.len() == 0 {
        None
    } else {
        match stages_error(builders.drop_last(), targets, programs) {
            Some(e) => Some(e),
            None => stage_error(
                builders.last(),
                targets,
                stage_programs(programs, builders.len() - 1),
            ),
        }
    }
}

/// The compiled programs supplied for stage `i`; none when there are none.
pub open spec fn stage_programs(programs: Seq<Vec<Program>>, i: int) -> Seq<Program> {
    if 0 <= i < programs.len() {
        programs[i]@
    } else {
        seq![]
    }
}

/// Why building one stage fails, if it does.
pub open spec fn stage_error(b: StageBuilder, targets: Targets, programs: Seq<Program>) -> Option<
    ErrorView,
> {
    match targets.lookup(b.target_name_spec()) {
        None => Some(ErrorView::NoSuchTarget(b.target_name_spec())),
        Some(_) => passes_error(b.passes_spec(), programs),
    }
}

/// The full ordered sequence of stages, with the targets they draw into.
#[derive(Debug)]
pub struct Pipeline {
    targets: Targets,
    stages: Vec<Stage>,
}

impl Pipeline {
    pub closed spec fn stages(&self) -> Seq<Stage> {
        self.stages@
    }

    pub closed spec fn targets(&self) -> Targets {
        self.targets
    }

    /// Builds every stage against `targets`, the stage at position `i` with
    /// the compiled programs `programs[i]`.
    pub fn build(targets: Targets, builders: Vec<StageBuilder>, programs: &Vec<Vec<Program>>) -> (r:
        Result<Pipeline, Error>)
        ensures
            match stages_error(builders@, targets, programs@) {
                Some(e) => r matches Err(err) && err@ == e,
                None => r matches Ok(p) && p.targets() == targets && p.stages().len()
                    == builders@.len() && forall|i: int|
                    0 <= i < builders@.len() ==> {
                        let s = #[trigger] p.stages()[i];
                        let b = builders@[i];
                        &&& s.enabled() == b.enabled_spec()
                        &&& targets.lookup(b.target_name_spec()) == Some(s.target_arc())
                        &&& s.shapes() == finished_shapes(
                            b.passes_spec(),
                            stage_programs(programs@, i),
                        )
                    },
            },
    {
        let ghost bs = builders@;
        let mut rest = builders;
        let mut stages: Vec<Stage> = Vec::new();
        let n = rest.len();
        let mut i: usize = 0;
        while i < n
            invariant
                n == bs.len(),
                bs == builders@,
                i <= n,
                rest@ == bs.skip(i as int),
                stages_error(bs.take(i as int), targets, programs@) is None,
                stages@.len() == i,
                forall|j: int|
                    0 <= j < i ==> {
                        let s = #[trigger] stages@[j];
                        let b = bs[j];
                        &&& s.enabled() == b.enabled_spec()
                        &&& targets.lookup(b.target_name_spec()) == Some(s.target_arc())
                        &&& s.shapes() == finished_shapes(
                            b.passes_spec(),
                            stage_programs(programs@, j),
                        )
                    },
            decreases n - i,
        {
            let b = rest.remove(0);
            proof {
                assert(bs.take(i + 1).drop_last() =~= bs.take(i as int));
                assert(bs.take(i + 1).last() == bs[i as int]);
                assert(rest@ =~= bs.skip(i + 1));
            }
            let empty: Vec<Program> = Vec::new();
            let progs: &Vec<Program> = if i < programs.len() {
                &programs[i]
            } else {
                &empty
            };
            assert(progs@ == stage_programs(programs@, i as int));
            let ghost gb = b;
            match b.finish(&targets, progs) {
                Ok(stage) => {
                    stages.push(stage);
                },
                Err(e) => {
                    proof {
                        assert(gb == bs[i as int]);
                        if targets.lookup(gb.target_name_spec()) is None {
                            assert(stage_error(gb, targets, progs@) == Some(e@));
                        } else {
                            assert(passes_error(gb.passes_spec(), progs@) is Some);
                            assert(stage_error(gb, targets, progs@) == Some(e@));
                        }
                        assert(stages_error(bs.take(i + 1), targets, programs@) == Some(e@));
                        lemma_stages_error_prefix(bs, targets, programs@, i + 1);
                    }
                    return Err(e);
                },
            }
            i = i + 1;
        }
        assert(bs.take(n as int) =~= bs);
        Ok(Pipeline { targets, stages })
    }

    /// The number of stages.
    pub fn stage_count(&self) -> (r: usize)
        ensures
            r == self.stages().len(),
    {
        self.stages.len()
    }

    /// Whether stage `i` is enabled.
    pub fn is_stage_enabled(&self, i: usize) -> (r: bool)
        requires
            i < self.stages().len(),
        ensures
            r == self.stages()[i as int].enabled(),
    {
        self.stages[i].is_enabled()
    }

    /// Switches stage `i` on or off; nothing else changes.
    pub fn toggle_stage(&mut self, i: usize)
        requires
            i < old(self).stages().len(),
        ensures
            final(self).targets() == old(self).targets(),
            final(self).stages().len() == old(self).stages().len(),
            final(self).stages()[i as int].enabled() == !old(self).stages()[i as int].enabled(),
            final(self).stages()[i as int].shapes() == old(self).stages()[i as int].shapes(),
            final(self).stages()[i as int].target() == old(self).stages()[i as int].target(),
            forall|j: int|
                0 <= j < old(self).stages().len() && j != i ==> #[trigger] final(self).stages()[j]
                    == old(self).stages()[j],
    {
        let stage = &mut self.stages[i];
        stage.toggle_enabled();
    }

    /// The encoders that a frame with `jobs_count` concurrent chunks per
    /// per-model pass needs, or `None` when that number does not fit a `usize`.
    pub fn encoders_required(&self, jobs_count: usize) -> (r: Option<usize>)
        requires
            jobs_count >= 1,
        ensures
            r matches Some(n) ==> n == frame_encoders_needed(self.stages(), jobs_count as nat),
            r is None ==> frame_encoders_needed(self.stages(), jobs_count as nat) > usize::MAX,
    {
        let mut total: usize = 0;
        let mut i: usize = 0;
        while i < self.stages.len()
            invariant
                i <= self.stages@.len(),
                jobs_count >= 1,
                total == enabled_model_passes(self.stages@.take(i as int)),
            decreases self.stages@.len() - i,
        {
            proof {
                assert(self.stages@.take(i + 1).drop_last() =~= self.stages@.take(i as int));
            }
            if self.stages[i].is_enabled() {
                let m = self.stages[i].model_pass_count();
                match total.checked_add(m) {
                    Some(t) => total = t,
                    None => {
                        proof {
                            assert(enabled_model_passes(self.stages@.take(i + 1)) == total + m);
                            lemma_enabled_model_passes_prefix(self.stages@, i + 1);
                            lemma_grows_with_passes(
                                enabled_model_passes(self.stages@),
                                (jobs_count as nat - 1) as nat,
                            );
                        }
                        if jobs_count == 1 {
                            // no extra encoders whatever the number of passes
                            proof {
                                assert(enabled_model_passes(self.stages@) * 0 == 0)
                                    by (nonlinear_arith);
                            }
                            return Some(1);
                        }
                        proof {
                            let c = enabled_model_passes(self.stages@);
                            let j1 = (jobs_count as nat - 1) as nat;
                            assert(total + m > usize::MAX);
                            assert(c >= total + m);
                            assert(j1 > 0);
                            assert(c * j1 >= c);
                            assert(frame_encoders_needed(self.stages@, jobs_count as nat) == 1 + c
                                * j1);
                        }
                        return None;
                    },
                }
            }
            i = i + 1;
        }
        assert(self.stages@.take(i as int) =~= self.stages@);
        match total.checked_mul(jobs_count - 1) {
            Some(extra) => match extra.checked_add(1) {
                Some(n) => Some(n),
                None => None,
            },
            None => None,
        }
    }

    /// Runs one frame: every enabled stage in declaration order, each
    /// recording from where the previous one left off (see `Stage::apply`).
    pub fn apply(&self, encoders: &mut Vec<Encoder>, jobs_count: usize, scene: &Scene)
        requires
            jobs_count >= 1,
            frame_encoders_needed(self.stages(), jobs_count as nat) <= old(encoders)@.len(),
        ensures
            encoder_views(final(encoders)@) == stages_dispatch(
                self.stages(),
                frame_of(*scene),
                jobs_count as nat,
                encoder_views(old(encoders)@),
            ).0,
    {
        let ghost f = frame_of(*scene);
        let ghost jobs = jobs_count as nat;
        let ghost outs0 = encoder_views(encoders@);
        let mut base: usize = 0;
        let mut i: usize = 0;
        proof {
            assert(self.stages@.take(0) =~= Seq::<Stage>::empty());
            assert(0 * (jobs - 1) as nat == 0) by (nonlinear_arith);
        }
        while i < self.stages.len()
            invariant
                i <= self.stages@.len(),
                f == frame_of(*scene),
                jobs == jobs_count as nat,
                jobs_count >= 1,
                outs0 == encoder_views(old(encoders)@),
                encoders@.len() == old(encoders)@.len(),
                frame_encoders_needed(self.stages@, jobs) <= encoders@.len(),
                (encoder_views(encoders@), base as nat) == stages_dispatch(
                    self.stages@.take(i as int),
                    f,
                    jobs,
                    outs0,
                ),
                base == enabled_model_passes(self.stages@.take(i as int)) * (jobs - 1) as nat,
            decreases self.stages@.len() - i,
        {
            let ghost pre = self.stages@.take(i as int);
            let ghost s = self.stages@[i as int];
            let ghost j1 = (jobs - 1) as nat;
            proof {
                assert(self.stages@.take(i + 1).drop_last() =~= pre);
                assert(self.stages@.take(i + 1).last() == s);
                lemma_enabled_model_passes_prefix(self.stages@, i + 1);
                let c = enabled_model_passes(pre);
                let c1 = enabled_model_passes(self.stages@.take(i + 1));
                vstd::arithmetic::mul::lemma_mul_inequality(
                    c1 as int,
                    enabled_model_passes(self.stages@) as int,
                    j1 as int,
                );
                if s.enabled() {
                    let m = model_pass_count(s.shapes());
                    assert(c1 == c + m);
                    assert((c + m) * j1 == c * j1 + m * j1) by (nonlinear_arith);
                    lemma_dispatch_base(
                        s.shapes(),
                        s.target(),
                        f,
                        jobs,
                        base as nat,
                        encoder_views(encoders@),
                    );
                }
            }
            base = self.stages[i].apply(encoders, base, jobs_count, scene);
            i = i + 1;
        }
        assert(self.stages@.take(i as int) =~= self.stages@);
    }
}

proof fn lemma_grows_with_passes(c: nat, j1: nat)
    ensures
        c * j1 >= if j1 > 0 { c } else { 0 },
{
    if j1 > 0 {
        assert(c * j1 >= c) by (nonlinear_arith)
            requires
                j1 > 0,
        ;
    }
}

/// A prefix of the stages has no more enabled per-model passes than all of them.
proof fn lemma_enabled_model_passes_prefix(stages: Seq<Stage>, k: int)
    requires
        0 <= k <= stages.len(),
    ensures
        enabled_model_passes(stages.take(k)) <= enabled_model_passes(stages),
    decreases stages.len(),
{
    if k < stages.len() {
        assert(stages.drop_last().take(k) =~= stages.take(k));
        lemma_enabled_model_passes_prefix(stages.drop_last(), k);
    } else {
        assert(stages.take(k) =~= stages);
    }
}

proof fn lemma_stages_error_prefix(
    bs: Seq<StageBuilder>,
    targets: Targets,
    programs: Seq<Vec<Program>>,
    k: int,
)
    requires
        0 <= k <= bs.len(),
        stages_error(bs.take(k), targets, programs) is Some,
    ensures
        stages_error(bs, targets, programs) == stages_error(bs.take(k), targets, programs),
    decreases bs.len(),
{
    if k < bs.len() {
        assert(bs.drop_last().take(k) =~= bs.take(k));
        lemma_stages_error_prefix(bs.drop_last(), targets, programs, k);
    } else {
        assert(bs.take(k) =~= bs);
    }
}

/// A frame over fresh encoders records, read encoder after encoder, exactly
/// the frame's commands: the enabled stages in declaration order and, within
/// each, its passes in declaration order.
pub proof fn lemma_frame_trace(stages: Seq<Stage>, f: Frame, jobs: nat, outs: Seq<Seq<CommandView>>)
    requires
        jobs >= 1,
        frame_encoders_needed(stages, jobs) <= outs.len(),
        forall|i: int| 0 <= i < outs.len() ==> #[trigger] outs[i].len() == 0,
    ensures
        stages_dispatch(stages, f, jobs, outs).0.flatten() == frame_trace(stages, f),
{
    lemma_frame_trace_from(stages, f, jobs, outs);
    assert(fresh_after(outs, 0));
    assert(outs.len() > 0);
    assert(outs[0].len() == 0);
    assert(outs.flatten() == outs[0] + outs.drop_first().flatten());
    vstd::seq_lib::lemma_flatten_concat(seq![outs[0]], outs.drop_first());
    assert(outs.flatten() =~= Seq::<CommandView>::empty()) by {
        lemma_all_empty(outs);
    }
    assert(outs.flatten() + frame_trace(stages, f) =~= frame_trace(stages, f));
}

proof fn lemma_all_empty(outs: Seq<Seq<CommandView>>)
    requires
        forall|i: int| 0 <= i < outs.len() ==> #[trigger] outs[i].len() == 0,
    ensures
        outs.flatten() == Seq::<CommandView>::empty(),
    decreases outs.len(),
{
    if outs.len() > 0 {
        lemma_all_empty(outs.drop_first());
        assert(outs[0] =~= Seq::<CommandView>::empty());
        assert(outs.flatten() =~= Seq::<CommandView>::empty());
    }
}

proof fn lemma_frame_trace_from(
    stages: Seq<Stage>,
    f: Frame,
    jobs: nat,
    outs: Seq<Seq<CommandView>>,
)
    requires
        jobs >= 1,
        frame_encoders_needed(stages, jobs) <= outs.len(),
        fresh_after(outs, 0),
    ensures
        stages_dispatch(stages, f, jobs, outs).0.flatten() == outs.flatten() + frame_trace(
            stages,
            f,
        ),
        stages_dispatch(stages, f, jobs, outs).0.len() == outs.len(),
        stages_dispatch(stages, f, jobs, outs).1 == enabled_model_passes(stages) * (jobs
            - 1) as nat,
        fresh_after(stages_dispatch(stages, f, jobs, outs).0, stages_dispatch(stages, f, jobs, outs).1),
    decreases stages.len(),
{
    let j1 = (jobs - 1) as nat;
    if stages.len() == 0 {
        assert(0 * j1 == 0) by (nonlinear_arith);
        assert(outs.flatten() + Seq::<CommandView>::empty() =~= outs.flatten());
    } else {
        let init = stages.drop_last();
        let s = stages.last();
        let c = enabled_model_passes(init);
        vstd::arithmetic::mul::lemma_mul_inequality(
            c as int,
            enabled_model_passes(stages) as int,
            j1 as int,
        );
        lemma_frame_trace_from(init, f, jobs, outs);
        let (o, b) = stages_dispatch(init, f, jobs, outs);
        if s.enabled() {
            let m = model_pass_count(s.shapes());
            assert((c + m) * j1 == c * j1 + m * j1) by (nonlinear_arith);
            lemma_dispatch_trace(s.shapes(), s.target(), f, jobs, b, o);
            assert(outs.flatten() + frame_trace(init, f) + passes_trace(s.shapes(), s.target(), f)
                =~= outs.flatten() + frame_trace(stages, f));
        } else {
            assert(frame_trace(stages, f) =~= frame_trace(init, f));
        }
    }
}

} // verus!
