//! Stages: ordered, toggleable groups of passes bound to one target, and the
//! per-frame dispatch of their passes over encoders.
use vstd::prelude::*;
use std::sync::Arc;
use crate::dispatch::{
    Frame,
    encoders_needed,
    fan_out,
    fan_out_upto,
    lemma_dispatch_base,
    lemma_model_pass_count_prefix,
    model_pass_count,
    models_commands,
    pass_dispatch,
    passes_dispatch,
};
use crate::effect::{EffectDecl, Program};
use crate::encoder::{CommandView, Encoder};
use crate::error::{Error, ErrorView};
use crate::pass::{Pass, PassBuilder, PassShape, model_commands};
use crate::scene::{Scene, chunk_of};
use crate::target::{Target, Targets};

verus! {

/// What each encoder has recorded.
pub open spec fn encoder_views(v: Seq<Encoder>) -> Seq<Seq<CommandView>> {
    v.map_values(|e: Encoder| e@)
}

/// What a frame reads of `scene`.
pub open spec fn frame_of(scene: Scene) -> Frame {
    Frame { camera: scene.camera, lights: scene.lights@, models: scene.models@ }
}

/// A stage in the rendering pipeline.
#[derive(Debug)]
pub struct Stage {
    enabled: bool,
    passes: Vec<Pass>,
    target: Arc<Target>,
}

/// Constructs a new rendering stage.
#[derive(Debug)]
pub struct StageBuilder {
    enabled: bool,
    passes: Vec<PassBuilder>,
    target_name: String,
}

impl Stage {
    pub closed spec fn enabled(&self) -> bool {
        self.enabled
    }

    /// The passes as the dispatch sees them, in declaration order.
    pub closed spec fn shapes(&self) -> Seq<PassShape> {
        self.passes@.map_values(|p: Pass| p.shape())
    }

    /// The effect declarations of the passes, in declaration order.
    pub closed spec fn layouts(&self) -> Seq<Option<EffectDecl>> {
        self.passes@.map_values(|p: Pass| p.effect_layout())
    }

    pub closed spec fn target(&self) -> Target {
        *self.target
    }

    /// The shared target the stage draws into.
    pub closed spec fn target_arc(&self) -> Arc<Target> {
        self.target
    }

    /// Starts a stage that draws into the target named `target_name`.
    pub fn with_target(target_name: String) -> (r: StageBuilder)
        ensures
            r.enabled_spec(),
            r.passes_spec().len() == 0,
            r.target_name_spec() == target_name@,
    {
        StageBuilder::new(target_name)
    }

    /// Starts a stage that draws straight into the backbuffer, the target
    /// with the empty name.
    pub fn with_backbuffer() -> (r: StageBuilder)
        ensures
            r.enabled_spec(),
            r.passes_spec().len() == 0,
            r.target_name_spec() == Seq::<char>::empty(),
    {
        StageBuilder::new(String::new())
    }

    /// Switches the stage on or off.
    pub fn toggle_enabled(&mut self)
        ensures
            final(self).enabled() == !old(self).enabled(),
            final(self).shapes() == old(self).shapes(),
            final(self).layouts() == old(self).layouts(),
            final(self).target() == old(self).target(),
    {
        self.enabled = !self.enabled;
    }

    pub fn is_enabled(&self) -> (r: bool)
        ensures
            r == self.enabled(),
    {
        self.enabled
    }

    /// The number of per-model passes.
    pub fn model_pass_count(&self) -> (r: usize)
        ensures
            r == model_pass_count(self.shapes()),
    {
        let mut count: usize = 0;
        let mut i: usize = 0;
        while i < self.passes.len()
            invariant
                i <= self.passes@.len(),
                count == model_pass_count(self.shapes().take(i as int)),
                count <= i,
            decreases self.passes@.len() - i,
        {
            proof {
                assert(self.shapes().take(i + 1).drop_last() =~= self.shapes().take(i as int));
            }
            if self.passes[i].is_model() {
                count = count + 1;
            }
            i = i + 1;
        }
        assert(self.shapes().take(i as int) =~= self.shapes());
        count
    }

    /// The encoders that applying the stage with `jobs_count` concurrent
    /// chunks per model pass needs.
    pub fn encoders_required(&self, jobs_count: usize) -> (r: usize)
        requires
            jobs_count >= 1,
            encoders_needed(self.shapes(), jobs_count as nat) <= usize::MAX,
        ensures
            r == encoders_needed(self.shapes(), jobs_count as nat),
    {
        let m = self.model_pass_count();
        m * (jobs_count - 1) + 1
    }

    /// Whether `available` encoders are enough to apply the stage with
    /// `jobs_count` concurrent chunks per model pass.
    pub fn has_enough_encoders(&self, jobs_count: usize, available: usize) -> (r: bool)
        requires
            jobs_count >= 1,
        ensures
            r == (encoders_needed(self.shapes(), jobs_count as nat) <= available),
    {
        let m = self.model_pass_count();
        match m.checked_mul(jobs_count - 1) {
            Some(extra) => extra < available,
            None => {
                assert(m * (jobs_count - 1) >= available);
                false
            },
        }
    }

    /// Applies the stage's passes to `scene`, if the stage is enabled.
    ///
    /// Passes run in declaration order. Passes that run once per frame record
    /// into encoder `base`. A per-model pass splits the models into
    /// `jobs_count` chunks and records chunk `j` into encoder `base + j`;
    /// later passes then record into the encoder of its last chunk, whose
    /// index is returned.
    pub fn apply(&self, encoders: &mut Vec<Encoder>, base: usize, jobs_count: usize, scene: &Scene) -> (next: usize)
        requires
            jobs_count >= 1,
            self.enabled() ==> base + encoders_needed(self.shapes(), jobs_count as nat)
                <= old(encoders)@.len(),
        ensures
            self.enabled() ==> (encoder_views(final(encoders)@), next as nat) == passes_dispatch(
                self.shapes(),
                self.target(),
                frame_of(*scene),
                jobs_count as nat,
                base as nat,
                encoder_views(old(encoders)@),
            ),
            !self.enabled() ==> final(encoders)@ == old(encoders)@ && next == base,
    {
        if !self.enabled {
            return base;
        }
        let target: &Target = &self.target;
        let ghost shapes = self.shapes();
        let ghost f = frame_of(*scene);
        let ghost jobs = jobs_count as nat;
        let ghost outs0 = encoder_views(encoders@);
        let n_enc = encoders.len();
        let mut b: usize = base;
        let mut i: usize = 0;
        proof {
            assert(shapes.take(0) =~= Seq::<PassShape>::empty());
            assert(0 * (jobs - 1) as nat == 0) by (nonlinear_arith);
        }
        while i < self.passes.len()
            invariant
                i <= self.passes@.len(),
                shapes == self.shapes(),
                f == frame_of(*scene),
                jobs == jobs_count as nat,
                jobs_count >= 1,
                *target == self.target(),
                encoders@.len() == old(encoders)@.len(),
                n_enc == encoders@.len(),
                base + encoders_needed(shapes, jobs) <= encoders@.len(),
                outs0 == encoder_views(old(encoders)@),
                (encoder_views(encoders@), b as nat) == passes_dispatch(
                    shapes.take(i as int),
                    *target,
                    f,
                    jobs,
                    base as nat,
                    outs0,
                ),
                b == base + model_pass_count(shapes.take(i as int)) * (jobs - 1) as nat,
            decreases self.passes@.len() - i,
        {
            let ghost pre = shapes.take(i as int);
            let ghost outs = encoder_views(encoders@);
            proof {
                assert(shapes.take(i + 1).drop_last() =~= pre);
                assert(shapes.take(i + 1).last() == self.passes@[i as int].shape());
                lemma_model_pass_count_prefix(shapes, i + 1);
                let m = model_pass_count(shapes.take(i + 1));
                vstd::arithmetic::mul::lemma_mul_inequality(
                    m as int,
                    model_pass_count(shapes) as int,
                    (jobs - 1) as int,
                );
                lemma_dispatch_base(shapes.take(i + 1), *target, f, jobs, base as nat, outs0);
            }
            match &self.passes[i] {
                Pass::Basic(pass) => {
                    let enc = &mut encoders[b];
                    pass.apply(enc, target);
                    assert(encoder_views(encoders@) =~= pass_dispatch(
                        self.passes@[i as int].shape(),
                        *target,
                        f,
                        jobs,
                        b as nat,
                        outs,
                    ));
                },
                Pass::Simple(pass) => {
                    let enc = &mut encoders[b];
                    pass.apply(enc, target, scene);
                    assert(encoder_views(encoders@) =~= pass_dispatch(
                        self.passes@[i as int].shape(),
                        *target,
                        f,
                        jobs,
                        b as nat,
                        outs,
                    ));
                },
                Pass::Model(pass) => {
                    proof {
                        let c = model_pass_count(pre);
                        let j1 = (jobs - 1) as nat;
                        assert(model_pass_count(shapes.take(i + 1)) == c + 1);
                        assert((c + 1) * j1 == c * j1 + j1) by (nonlinear_arith);
                    }
                    apply_model_pass(pass, encoders, b, jobs_count, target, scene);
                    b = b + (jobs_count - 1);
                },
            }
            i = i + 1;
        }
        assert(shapes.take(i as int) =~= shapes);
        b
    }
}

/// Records a per-model pass: chunk `j` of the scene's models into encoder
/// `base + j`.
fn apply_model_pass(
    pass: &crate::pass::ModelPass,
    encoders: &mut Vec<Encoder>,
    base: usize,
    jobs_count: usize,
    target: &Target,
    scene: &Scene,
)
    requires
        jobs_count >= 1,
        base + jobs_count <= old(encoders)@.len(),
    ensures
        encoder_views(final(encoders)@) == fan_out(
            encoder_views(old(encoders)@),
            base as nat,
            jobs_count as nat,
            pass.kind(),
            pass.effect().program(),
            *target,
            frame_of(*scene),
        ),
        final(encoders)@.len() == old(encoders)@.len(),
{
    let ghost f = frame_of(*scene);
    let ghost outs = encoder_views(encoders@);
    let ghost k = pass.kind();
    let ghost p = pass.effect().program();
    let chunks = scene.model_chunks(jobs_count);
    let n = encoders.len();
    let n_models = scene.models.len();
    let mut j: usize = 0;
    while j < jobs_count
        invariant
            j <= jobs_count,
            base + jobs_count <= encoders@.len(),
            n == encoders@.len(),
            n_models == scene.models@.len(),
            encoders@.len() == old(encoders)@.len(),
            outs == encoder_views(old(encoders)@),
            f == frame_of(*scene),
            k == pass.kind(),
            p == pass.effect().program(),
            chunks@.len() == jobs_count,
            forall|c: int|
                0 <= c < jobs_count ==> #[trigger] chunks@[c] == (
                    crate::scene::chunk_start(scene.models@.len(), jobs_count as nat, c as nat)
                        as usize,
                    crate::scene::chunk_start(
                        scene.models@.len(),
                        jobs_count as nat,
                        (c + 1) as nat,
                    ) as usize,
                ),
            forall|c: int| 0 <= c < jobs_count ==> #[trigger] chunks@[c].0 <= chunks@[c].1 <= scene.models@.len(),
            encoder_views(encoders@) == fan_out_upto(
                outs,
                base as nat,
                jobs_count as nat,
                j as nat,
                k,
                p,
                *target,
                f,
            ),
        decreases jobs_count - j,
    {
        let (start, end) = chunks[j];
        let idx = base + j;
        let ghost before = encoder_views(encoders@);
        let mut m: usize = start;
        while m < end
            invariant
                start <= m <= end <= scene.models@.len(),
                idx < encoders@.len(),
                before.len() == encoders@.len(),
                encoders@.len() == old(encoders)@.len(),
                encoder_views(encoders@) == before.update(
                    idx as int,
                    before[idx as int] + models_commands(
                        k,
                        p,
                        *target,
                        f,
                        scene.models@.subrange(start as int, m as int),
                    ),
                ),
                f == frame_of(*scene),
                k == pass.kind(),
                p == pass.effect().program(),
            decreases end - m,
        {
            let ghost ms = scene.models@.subrange(start as int, m as int);
            let ghost prev = encoders@;
            let enc = &mut encoders[idx];
            pass.apply(enc, target, scene, &scene.models[m]);
            proof {
                assert(encoder_views(encoders@) =~= encoder_views(prev).update(
                    idx as int,
                    encoders@[idx as int]@,
                ));
                let ms1 = scene.models@.subrange(start as int, m + 1);
                assert(ms1 =~= ms.push(scene.models@[m as int]));
                crate::dispatch::lemma_models_commands_push(
                    k,
                    p,
                    *target,
                    f,
                    ms,
                    scene.models@[m as int],
                );
                let cur = before[idx as int] + models_commands(k, p, *target, f, ms);
                let mc = model_commands(k, p, *target, f.camera, f.lights, scene.models@[m as int]);
                assert(encoder_views(prev)[idx as int] == cur);
                assert(encoders@[idx as int]@ == cur + mc);
                assert(cur + mc =~= before[idx as int] + models_commands(k, p, *target, f, ms1));
                assert(encoder_views(encoders@) =~= before.update(
                    idx as int,
                    before[idx as int] + models_commands(k, p, *target, f, ms1),
                ));
            }
            m = m + 1;
        }
        proof {
            crate::scene::lemma_chunk_start_bounds(scene.models@.len(), jobs_count as nat, j as nat);
            crate::scene::lemma_chunk_start_bounds(
                scene.models@.len(),
                jobs_count as nat,
                (j + 1) as nat,
            );
            assert(scene.models@.subrange(start as int, end as int) == chunk_of(
                scene.models@,
                jobs_count as nat,
                j as nat,
            ));
            let after = fan_out_upto(
                outs,
                base as nat,
                jobs_count as nat,
                (j + 1) as nat,
                k,
                p,
                *target,
                f,
            );
            assert(before[idx as int] == outs[idx as int]);
            assert(after[idx as int] == outs[idx as int] + models_commands(
                k,
                p,
                *target,
                f,
                chunk_of(scene.models@, jobs_count as nat, j as nat),
            ));
            assert forall|i: int| 0 <= i < after.len() && i != idx implies after[i] == before[i] by {
            }
            assert(encoder_views(encoders@) =~= fan_out_upto(
                outs,
                base as nat,
                jobs_count as nat,
                (j + 1) as nat,
                k,
                p,
                *target,
                f,
            ));
        }
        j = j + 1;
    }
}

impl StageBuilder {
    pub closed spec fn enabled_spec(&self) -> bool {
        self.enabled
    }

    pub closed spec fn passes_spec(&self) -> Seq<PassBuilder> {
        self.passes@
    }

    pub closed spec fn target_name_spec(&self) -> Seq<char> {
        self.target_name@
    }

    /// A builder for an enabled stage without passes that draws into the
    /// target named `target_name`.
    pub fn new(target_name: String) -> (r: StageBuilder)
        ensures
            r.enabled_spec(),
            r.passes_spec().len() == 0,
            r.target_name_spec() == target_name@,
    {
        StageBuilder { enabled: true, passes: Vec::new(), target_name }
    }

    /// Appends a pass; passes run in the order they were appended.
    pub fn with_pass(self, pass: PassBuilder) -> (r: StageBuilder)
        ensures
            r.enabled_spec() == self.enabled_spec(),
            r.passes_spec() == self.passes_spec().push(pass),
            r.target_name_spec() == self.target_name_spec(),
    {
        let mut r = self;
        r.passes.push(pass);
        r
    }

    /// Sets whether the stage starts out enabled.
    pub fn enabled(self, val: bool) -> (r: StageBuilder)
        ensures
            r.enabled_spec() == val,
            r.passes_spec() == self.passes_spec(),
            r.target_name_spec() == self.target_name_spec(),
    {
        let mut r = self;
        r.enabled = val;
        r
    }
}

/// The compiled program supplied for the pass at position `i`.
pub open spec fn program_at(programs: Seq<Program>, i: int) -> Option<Program> {
    if 0 <= i < programs.len() {
        Some(programs[i])
    } else {
        None
    }
}

/// The error of the first pass that cannot be finished, if any.
pub open spec fn passes_error(pbs: Seq<PassBuilder>, programs: Seq<Program>) -> Option<ErrorView>
    decreases pbs.len(),
{
    if pbs.len() == 0 {
        None
    } else {
        match passes_error(pbs.drop_last(), programs) {
            Some(e) => Some(e),
            None => pbs.last().finish_error(
                program_at(programs, pbs.len() - 1),
                (pbs.len() - 1) as usize,
            ),
        }
    }
}

/// The shapes of the passes that finishing `pbs` makes.
pub open spec fn finished_shapes(pbs: Seq<PassBuilder>, programs: Seq<Program>) -> Seq<PassShape> {
    Seq::new(pbs.len(), |i: int| pbs[i].finished_shape(program_at(programs, i)))
}

impl StageBuilder {
    /// Builds the stage against the registry `targets`, binding the effect of
    /// the pass at position `i` to `programs[i]`.
    ///
    /// Fails with `NoSuchTarget` when no target has the stage's target name,
    /// and otherwise with the error of the first pass that cannot be finished.
    pub fn finish(self, targets: &Targets, programs: &Vec<Program>) -> (r: Result<Stage, Error>)
        ensures
            targets.lookup(self.target_name_spec()) is None ==> (r matches Err(e) && e@
                == ErrorView::NoSuchTarget(self.target_name_spec())),
            targets.lookup(self.target_name_spec()) matches Some(t) ==> match passes_error(
                self.passes_spec(),
                programs@,
            ) {
                Some(e) => r matches Err(err) && err@ == e,
                None => r matches Ok(stage) && stage.enabled() == self.enabled_spec()
                    && stage.target() == *t && stage.target_arc() == t && stage.shapes() == finished_shapes(
                    self.passes_spec(),
                    programs@,
                ) && stage.layouts() == self.passes_spec().map_values(
                    |pb: PassBuilder| pb.effect_layout(),
                ),
            },
    {
        let out = match targets.get(&self.target_name) {
            Some(t) => t,
            None => {
                return Err(Error::NoSuchTarget(self.target_name));
            },
        };
        let ghost pbs = self.passes@;
        let mut rest = self.passes;
        let mut passes: Vec<Pass> = Vec::new();
        let n = rest.len();
        let mut i: usize = 0;
        while i < n
            invariant
                n == pbs.len(),
                i <= n,
                pbs == self.passes_spec(),
                targets.lookup(self.target_name_spec()) == Some(out),
                rest@ == pbs.skip(i as int),
                passes_error(pbs.take(i as int), programs@) is None,
                passes@.len() == i,
                forall|j: int|
                    0 <= j < i ==> (#[trigger] passes@[j]).shape() == pbs[j].finished_shape(
                        program_at(programs@, j),
                    ) && passes@[j].effect_layout() == pbs[j].effect_layout(),
            decreases n - i,
        {
            let pb = rest.remove(0);
            let program = if i < programs.len() {
                Some(&programs[i])
            } else {
                None
            };
            proof {
                assert(pbs.take(i + 1).drop_last() =~= pbs.take(i as int));
                assert(pb == pbs[i as int]);
                assert(rest@ =~= pbs.skip(i + 1));
            }
            let ghost prog = match program {
                Some(p) => Some(*p),
                None => None,
            };
            assert(prog == program_at(programs@, i as int));
            match pb.finish(program, i) {
                Ok(pass) => {
                    passes.push(pass);
                },
                Err(e) => {
                    proof {
                        assert(pbs.take(i + 1).last() == pbs[i as int]);
                        assert(passes_error(pbs.take(i + 1), programs@) == Some(e@));
                        lemma_passes_error_prefix(pbs, programs@, i + 1);
                    }
                    return Err(e);
                },
            }
            i = i + 1;
        }
        assert(pbs.take(n as int) =~= pbs);
        let stage = Stage { enabled: self.enabled, passes, target: out };
        assert(stage.shapes() =~= finished_shapes(pbs, programs@));
        assert forall|j: int| 0 <= j < n implies #[trigger] stage.layouts()[j] == pbs.map_values(
            |pb: PassBuilder| pb.effect_layout(),
        )[j] by {
            assert(passes@[j].effect_layout() == pbs[j].effect_layout());
        }
        assert(stage.layouts() =~= pbs.map_values(|pb: PassBuilder| pb.effect_layout()));
        Ok(stage)
    }
}

/// Once a prefix of the passes holds an error, the first error of all the
/// passes is that one.
proof fn lemma_passes_error_prefix(pbs: Seq<PassBuilder>, programs: Seq<Program>, k: int)
    requires
        0 <= k <= pbs.len(),
        passes_error(pbs.take(k), programs) is Some,
    ensures
        passes_error(pbs, programs) == passes_error(pbs.take(k), programs),
    decreases pbs.len(),
{
    if k < pbs.len() {
        assert(pbs.drop_last().take(k) =~= pbs.take(k));
        lemma_passes_error_prefix(pbs.drop_last(), programs, k);
    } else {
        assert(pbs.take(k) =~= pbs);
    }
}

} // verus!
