//! Schedules: stages of systems that run in order, each only where the one before it fired.
use crate::system::{IntoSystem, System};
use crate::world::{Installer, Registry, World, WorldBuilder};
use std::marker::PhantomData;
use vstd::prelude::*;

verus! {

/// The end of a chain of stages.
pub struct StageEnd {}

/// A chain of stages `prev`, then the stage `stage`.
pub struct StageNode<Prev, S> {
    pub prev: Prev,
    pub stage: S,
}

/// Marks a stage of a single system.
pub struct Single<P> {
    pub marker: PhantomData<P>,
}

/// A chain of stages.
pub trait RunSchedule<R>: Sized {
    /// How many systems the stages have.
    spec fn size() -> nat;

    /// How many stages there are.
    spec fn stages() -> nat;

    /// How many systems the first stage has, if there is a stage.
    spec fn first_size() -> nat;

    /// When the chain may run.
    spec fn run_schedule_pre(&self, world: World<R>) -> bool;

    /// What a run may lead to: how many systems ran, and whether the next stage is to run.
    spec fn run_schedule_post(
        &self,
        world: World<R>,
        after: Self,
        world_after: World<R>,
        ran: nat,
        fired: bool,
    ) -> bool;

    fn run_schedule(&mut self, world: &mut World<R>) -> (result: (usize, bool))
        requires
            Self::size() <= usize::MAX,
            old(self).run_schedule_pre(*old(world)),
        ensures
            old(self).run_schedule_post(
                *old(world),
                *final(self),
                *final(world),
                result.0 as nat,
                result.1,
            ),
            Self::first_size() <= result.0 <= Self::size(),
    ;

    fn system_count(&self) -> (count: usize)
        requires
            Self::size() <= usize::MAX,
        ensures
            count == Self::size(),
    ;

    /// The systems of the first stage always run, and all systems run where the last stage fires.
    proof fn lemma_ran(
        &self,
        world: World<R>,
        after: Self,
        world_after: World<R>,
        ran: nat,
        fired: bool,
    )
        requires
            self.run_schedule_post(world, after, world_after, ran, fired),
        ensures
            Self::first_size() <= ran <= Self::size(),
            fired ==> ran == Self::size(),
            Self::stages() == 0 ==> fired && Self::size() == 0,
    ;
}

impl<R> RunSchedule<R> for StageEnd {
    open spec fn size() -> nat {
        0
    }

    open spec fn stages() -> nat {
        0
    }

    open spec fn first_size() -> nat {
        0
    }

    open spec fn run_schedule_pre(&self, world: World<R>) -> bool {
        true
    }

    open spec fn run_schedule_post(
        &self,
        world: World<R>,
        after: Self,
        world_after: World<R>,
        ran: nat,
        fired: bool,
    ) -> bool {
        world_after == world && ran == 0 && fired
    }

    fn run_schedule(&mut self, world: &mut World<R>) -> (result: (usize, bool)) {
        (0, true)
    }

    fn system_count(&self) -> (count: usize) {
        0
    }

    proof fn lemma_ran(
        &self,
        world: World<R>,
        after: Self,
        world_after: World<R>,
        ran: nat,
        fired: bool,
    ) {
    }
}

impl<R, Prev: RunSchedule<R>, S: StageRunner<R>> RunSchedule<R> for StageNode<Prev, S> {
    open spec fn size() -> nat {
        Prev::size() + S::size()
    }

    open spec fn stages() -> nat {
        Prev::stages() + 1
    }

    open spec fn first_size() -> nat {
        if Prev::stages() == 0 {
            S::size()
        } else {
            Prev::first_size()
        }
    }

    open spec fn run_schedule_pre(&self, world: World<R>) -> bool {
        &&& self.prev.run_schedule_pre(world)
        &&& forall|prev: Prev, world_mid: World<R>, ran: nat|
            #[trigger] self.prev.run_schedule_post(world, prev, world_mid, ran, true)
                ==> self.stage.run_all_pre(world_mid)
    }

    open spec fn run_schedule_post(
        &self,
        world: World<R>,
        after: Self,
        world_after: World<R>,
        ran: nat,
        fired: bool,
    ) -> bool {
        exists|world_mid: World<R>, prev_ran: nat, prev_fired: bool|
            #[trigger] self.prev.run_schedule_post(
                world,
                after.prev,
                world_mid,
                prev_ran,
                prev_fired,
            )
                && if prev_fired {
                    self.stage.run_all_post(world_mid, after.stage, world_after, fired)
                        && ran == prev_ran + S::size()
                } else {
                    after.stage == self.stage
                        && world_after == world_mid
                        && ran == prev_ran
                        && !fired
                }
    }

    fn run_schedule(&mut self, world: &mut World<R>) -> (result: (usize, bool)) {
        let (prev_ran, prev_fired) = self.prev.run_schedule(world);
        let ghost world_mid = *world;
        let result = if !prev_fired {
            (prev_ran, false)
        } else {
            let (stage_ran, stage_fired) = self.stage.run_all(world);
            (prev_ran + stage_ran, stage_fired)
        };
        assert(old(self).prev.run_schedule_post(
            *old(world),
            self.prev,
            world_mid,
            prev_ran as nat,
            prev_fired,
        ));
        proof {
            old(self).lemma_ran(*old(world), *self, *world, result.0 as nat, result.1);
        }
        result
    }

    fn system_count(&self) -> (count: usize) {
        self.prev.system_count() + self.stage.system_count()
    }

    proof fn lemma_ran(
        &self,
        world: World<R>,
        after: Self,
        world_after: World<R>,
        ran: nat,
        fired: bool,
    ) {
        let (world_mid, prev_ran, prev_fired) = choose|world_mid: World<R>, prev_ran: nat, prev_fired: bool|
            #[trigger] self.prev.run_schedule_post(
                world,
                after.prev,
                world_mid,
                prev_ran,
                prev_fired,
            )
                && if prev_fired {
                    self.stage.run_all_post(world_mid, after.stage, world_after, fired)
                        && ran == prev_ran + S::size()
                } else {
                    after.stage == self.stage
                        && world_after == world_mid
                        && ran == prev_ran
                        && !fired
                };
        self.prev.lemma_ran(world, after.prev, world_mid, prev_ran, prev_fired);
    }
}

/// A stage: systems that all run, in order.
pub trait StageRunner<R>: Sized {
    /// How many systems the stage has.
    spec fn size() -> nat;

    /// When the stage may run.
    spec fn run_all_pre(&self, world: World<R>) -> bool;

    /// What a run of all systems may lead to, and whether one of them fired.
    spec fn run_all_post(
        &self,
        world: World<R>,
        after: Self,
        world_after: World<R>,
        fired: bool,
    ) -> bool;

    fn run_all(&mut self, world: &mut World<R>) -> (result: (usize, bool))
        requires
            old(self).run_all_pre(*old(world)),
        ensures
            result.0 == Self::size(),
            old(self).run_all_post(*old(world), *final(self), *final(world), result.1),
    ;

    fn system_count(&self) -> (count: usize)
        ensures
            count == Self::size(),
    ;
}

/// Turns a system, or a tuple of systems, into a stage.
pub trait IntoStage<R, Params>: Sized {
    type Stage: StageRunner<R>;

    /// The stage that the systems make up.
    spec fn staged(self) -> Self::Stage;

    fn into_stage(self, registry: &Registry<R>) -> (stage: Self::Stage)
        ensures
            stage == self.staged(),
    ;
}

/// A stage of one system.
pub struct Stage1<S0> {
    pub s0: S0,
}

impl<R, S0: System<R>> StageRunner<R> for Stage1<S0> {
    open spec fn size() -> nat {
        1
    }

    open spec fn run_all_pre(&self, world: World<R>) -> bool {
        self.s0.run_pre(world)
    }

    open spec fn run_all_post(
        &self,
        world: World<R>,
        after: Self,
        world_after: World<R>,
        fired: bool,
    ) -> bool {
        exists|fired0: bool|
            #[trigger] self.s0.run_post(world, &after.s0, world_after, fired0)
                && fired == (fired0)
    }

    fn run_all(&mut self, world: &mut World<R>) -> (result: (usize, bool)) {
        let fired0 = self.s0.run(world);
        assert(old(self).s0.run_post(*old(world), &self.s0, *world, fired0));
        (1, fired0)
    }

    fn system_count(&self) -> (count: usize) {
        1
    }
}

/// A stage of one system counts one system. Each runs once, in order, and the stage fires exactly where one
/// of the answers is `true`, whichever it is.
pub proof fn lemma_stage1_fires<R, S0: System<R>>(
    stage: Stage1<S0>,
    world: World<R>,
    after: Stage1<S0>,
    world_after: World<R>,
    fired: bool,
)
    requires
        stage.run_all_post(world, after, world_after, fired),
    ensures
        <Stage1<S0> as StageRunner<R>>::size() == 1,
        exists|fired0: bool|
            #[trigger] stage.s0.run_post(world, &after.s0, world_after, fired0)
                && fired == seq![fired0].contains(true),
{
    let fired0 = choose|fired0: bool|
        #[trigger] stage.s0.run_post(world, &after.s0, world_after, fired0)
            && fired == (fired0);
    let answers = seq![fired0];
    assert(stage.s0.run_post(world, &after.s0, world_after, fired0));
    assert(answers[0] == fired0);
    if answers.contains(true) {
        let k = choose|k: int| 0 <= k < answers.len() && answers[k];
        assert(k == 0);
    }
}

/// Systems that may run in any world make up a stage that may run in any world.
pub proof fn lemma_stage1_ready<R, S0: System<R>>(stage: Stage1<S0>, world: World<R>)
    requires
        forall|w: World<R>| #[trigger] stage.s0.run_pre(w),
    ensures
        stage.run_all_pre(world),
{
}

impl<R, P, F: IntoSystem<R, P>> IntoStage<R, Single<P>> for F {
    type Stage = Stage1<F::System>;

    open spec fn staged(self) -> Stage1<F::System> {
        Stage1 { s0: self.resolved() }
    }

    fn into_stage(self, registry: &Registry<R>) -> (stage: Stage1<F::System>) {
        Stage1 { s0: self.into_system(registry) }
    }
}

/// A stage of two systems.
pub struct Stage2<S0, S1> {
    pub s0: S0,
    pub s1: S1,
}

impl<R, S0: System<R>, S1: System<R>> StageRunner<R> for Stage2<S0, S1> {
    open spec fn size() -> nat {
        2
    }

    open spec fn run_all_pre(&self, world: World<R>) -> bool {
        &&& self.s0.run_pre(world)
        &&& forall|s: S0, world1: World<R>, fired0: bool|
            #[trigger] self.s0.run_post(world, &s, world1, fired0) ==> {
                self.s1.run_pre(world1)
            }
    }

    open spec fn run_all_post(
        &self,
        world: World<R>,
        after: Self,
        world_after: World<R>,
        fired: bool,
    ) -> bool {
        exists|world1: World<R>, fired0: bool, fired1: bool|
            #[trigger] self.s0.run_post(world, &after.s0, world1, fired0)
                && #[trigger] self.s1.run_post(world1, &after.s1, world_after, fired1)
                && fired == (fired0 || fired1)
    }

    fn run_all(&mut self, world: &mut World<R>) -> (result: (usize, bool)) {
        let fired0 = self.s0.run(world);
        let ghost world1 = *world;
        let fired1 = self.s1.run(world);
        assert(old(self).s0.run_post(*old(world), &self.s0, world1, fired0));
        assert(old(self).s1.run_post(world1, &self.s1, *world, fired1));
        (2, fired0 || fired1)
    }

    fn system_count(&self) -> (count: usize) {
        2
    }
}

/// A stage of two systems counts two systems. Each runs once, in order, and the stage fires exactly where one
/// of the answers is `true`, whichever it is.
pub proof fn lemma_stage2_fires<R, S0: System<R>, S1: System<R>>(
    stage: Stage2<S0, S1>,
    world: World<R>,
    after: Stage2<S0, S1>,
    world_after: World<R>,
    fired: bool,
)
    requires
        stage.run_all_post(world, after, world_after, fired),
    ensures
        <Stage2<S0, S1> as StageRunner<R>>::size() == 2,
        exists|world1: World<R>, fired0: bool, fired1: bool|
            #[trigger] stage.s0.run_post(world, &after.s0, world1, fired0)
                && #[trigger] stage.s1.run_post(world1, &after.s1, world_after, fired1)
                && fired == seq![fired0, fired1].contains(true),
{
    let (world1, fired0, fired1) = choose|world1: World<R>, fired0: bool, fired1: bool|
        #[trigger] stage.s0.run_post(world, &after.s0, world1, fired0)
            && #[trigger] stage.s1.run_post(world1, &after.s1, world_after, fired1)
            && fired == (fired0 || fired1);
    let answers = seq![fired0, fired1];
    assert(stage.s0.run_post(world, &after.s0, world1, fired0));
    assert(stage.s1.run_post(world1, &after.s1, world_after, fired1));
    assert(answers[0] == fired0);
    assert(answers[1] == fired1);
    if answers.contains(true) {
        let k = choose|k: int| 0 <= k < answers.len() && answers[k];
        assert(k == 0 || k == 1);
    }
}

/// Systems that may run in any world make up a stage that may run in any world.
pub proof fn lemma_stage2_ready<R, S0: System<R>, S1: System<R>>(
    stage: Stage2<S0, S1>,
    world: World<R>,
)
    requires
        forall|w: World<R>| #[trigger] stage.s0.run_pre(w),
        forall|w: World<R>| #[trigger] stage.s1.run_pre(w),
    ensures
        stage.run_all_pre(world),
{
}

impl<R, P0, P1, F0: IntoSystem<R, P0>, F1: IntoSystem<R, P1>> IntoStage<R, (P0, P1)> for (F0, F1) {
    type Stage = Stage2<F0::System, F1::System>;

    open spec fn staged(self) -> Stage2<F0::System, F1::System> {
        Stage2 { s0: self.0.resolved(), s1: self.1.resolved() }
    }

    fn into_stage(self, registry: &Registry<R>) -> (stage: Stage2<F0::System, F1::System>) {
        Stage2 { s0: self.0.into_system(registry), s1: self.1.into_system(registry) }
    }
}

/// A stage of three systems.
pub struct Stage3<S0, S1, S2> {
    pub s0: S0,
    pub s1: S1,
    pub s2: S2,
}

impl<R, S0: System<R>, S1: System<R>, S2: System<R>> StageRunner<R> for Stage3<S0, S1, S2> {
    open spec fn size() -> nat {
        3
    }

    open spec fn run_all_pre(&self, world: World<R>) -> bool {
        &&& self.s0.run_pre(world)
        &&& forall|s: S0, world1: World<R>, fired0: bool|
            #[trigger] self.s0.run_post(world, &s, world1, fired0) ==> {
                &&& self.s1.run_pre(world1)
                &&& forall|s: S1, world2: World<R>, fired1: bool|
                    #[trigger] self.s1.run_post(world1, &s, world2, fired1) ==> {
                        self.s2.run_pre(world2)
                    }
            }
    }

    open spec fn run_all_post(
        &self,
        world: World<R>,
        after: Self,
        world_after: World<R>,
        fired: bool,
    ) -> bool {
        exists|world1: World<R>, world2: World<R>, fired0: bool, fired1: bool, fired2: bool|
            #[trigger] self.s0.run_post(world, &after.s0, world1, fired0)
                && #[trigger] self.s1.run_post(world1, &after.s1, world2, fired1)
                && #[trigger] self.s2.run_post(world2, &after.s2, world_after, fired2)
                && fired == (fired0 || fired1 || fired2)
    }

    fn run_all(&mut self, world: &mut World<R>) -> (result: (usize, bool)) {
        let fired0 = self.s0.run(world);
        let ghost world1 = *world;
        let fired1 = self.s1.run(world);
        let ghost world2 = *world;
        let fired2 = self.s2.run(world);
        assert(old(self).s0.run_post(*old(world), &self.s0, world1, fired0));
        assert(old(self).s1.run_post(world1, &self.s1, world2, fired1));
        assert(old(self).s2.run_post(world2, &self.s2, *world, fired2));
        (3, fired0 || fired1 || fired2)
    }

    fn system_count(&self) -> (count: usize) {
        3
    }
}

/// A stage of three systems counts three systems. Each runs once, in order, and the stage fires exactly where one
/// of the answers is `true`, whichever it is.
pub proof fn lemma_stage3_fires<R, S0: System<R>, S1: System<R>, S2: System<R>>(
    stage: Stage3<S0, S1, S2>,
    world: World<R>,
    after: Stage3<S0, S1, S2>,
    world_after: World<R>,
    fired: bool,
)
    requires
        stage.run_all_post(world, after, world_after, fired),
    ensures
        <Stage3<S0, S1, S2> as StageRunner<R>>::size() == 3,
        exists|world1: World<R>, world2: World<R>, fired0: bool, fired1: bool, fired2: bool|
            #[trigger] stage.s0.run_post(world, &after.s0, world1, fired0)
                && #[trigger] stage.s1.run_post(world1, &after.s1, world2, fired1)
                && #[trigger] stage.s2.run_post(world2, &after.s2, world_after, fired2)
                && fired == seq![fired0, fired1, fired2].contains(true),
{
    let (world1, world2, fired0, fired1, fired2) = choose|
        world1: World<R>,
        world2: World<R>,
        fired0: bool,
        fired1: bool,
        fired2: bool,
    |
        #[trigger] stage.s0.run_post(world, &after.s0, world1, fired0)
            && #[trigger] stage.s1.run_post(world1, &after.s1, world2, fired1)
            && #[trigger] stage.s2.run_post(world2, &after.s2, world_after, fired2)
            && fired == (fired0 || fired1 || fired2);
    let answers = seq![fired0, fired1, fired2];
    assert(stage.s0.run_post(world, &after.s0, world1, fired0));
    assert(stage.s1.run_post(world1, &after.s1, world2, fired1));
    assert(stage.s2.run_post(world2, &after.s2, world_after, fired2));
    assert(answers[0] == fired0);
    assert(answers[1] == fired1);
    assert(answers[2] == fired2);
    if answers.contains(true) {
        let k = choose|k: int| 0 <= k < answers.len() && answers[k];
        assert(k == 0 || k == 1 || k == 2);
    }
}

/// Systems that may run in any world make up a stage that may run in any world.
pub proof fn lemma_stage3_ready<R, S0: System<R>, S1: System<R>, S2: System<R>>(
    stage: Stage3<S0, S1, S2>,
    world: World<R>,
)
    requires
        forall|w: World<R>| #[trigger] stage.s0.run_pre(w),
        forall|w: World<R>| #[trigger] stage.s1.run_pre(w),
        forall|w: World<R>| #[trigger] stage.s2.run_pre(w),
    ensures
        stage.run_all_pre(world),
{
}

impl<
    R,
    P0,
    P1,
    P2,
    F0: IntoSystem<R, P0>,
    F1: IntoSystem<R, P1>,
    F2: IntoSystem<R, P2>,
> IntoStage<R, (P0, P1, P2)> for (F0, F1, F2) {
    type Stage = Stage3<F0::System, F1::System, F2::System>;

    open spec fn staged(self) -> Stage3<F0::System, F1::System, F2::System> {
        Stage3 { s0: self.0.resolved(), s1: self.1.resolved(), s2: self.2.resolved() }
    }

    fn into_stage(
        self,
        registry: &Registry<R>,
    ) -> (stage: Stage3<F0::System, F1::System, F2::System>) {
        Stage3 {
            s0: self.0.into_system(registry),
            s1: self.1.into_system(registry),
            s2: self.2.into_system(registry),
        }
    }
}

/// A stage of four systems.
pub struct Stage4<S0, S1, S2, S3> {
    pub s0: S0,
    pub s1: S1,
    pub s2: S2,
    pub s3: S3,
}

impl<
    R,
    S0: System<R>,
    S1: System<R>,
    S2: System<R>,
    S3: System<R>,
> StageRunner<R> for Stage4<S0, S1, S2, S3> {
    open spec fn size() -> nat {
        4
    }

    open spec fn run_all_pre(&self, world: World<R>) -> bool {
        &&& self.s0.run_pre(world)
        &&& forall|s: S0, world1: World<R>, fired0: bool|
            #[trigger] self.s0.run_post(world, &s, world1, fired0) ==> {
                &&& self.s1.run_pre(world1)
                &&& forall|s: S1, world2: World<R>, fired1: bool|
                    #[trigger] self.s1.run_post(world1, &s, world2, fired1) ==> {
                        &&& self.s2.run_pre(world2)
                        &&& forall|s: S2, world3: World<R>, fired2: bool|
                            #[trigger] self.s2.run_post(world2, &s, world3, fired2) ==> {
                                self.s3.run_pre(world3)
                            }
                    }
            }
    }

    open spec fn run_all_post(
        &self,
        world: World<R>,
        after: Self,
        world_after: World<R>,
        fired: bool,
    ) -> bool {
        exists|
            world1: World<R>,
            world2: World<R>,
            world3: World<R>,
            fired0: bool,
            fired1: bool,
            fired2: bool,
            fired3: bool,
        |
            #[trigger] self.s0.run_post(world, &after.s0, world1, fired0)
                && #[trigger] self.s1.run_post(world1, &after.s1, world2, fired1)
                && #[trigger] self.s2.run_post(world2, &after.s2, world3, fired2)
                && #[trigger] self.s3.run_post(world3, &after.s3, world_after, fired3)
                && fired == (fired0 || fired1 || fired2 || fired3)
    }

    fn run_all(&mut self, world: &mut World<R>) -> (result: (usize, bool)) {
        let fired0 = self.s0.run(world);
        let ghost world1 = *world;
        let fired1 = self.s1.run(world);
        let ghost world2 = *world;
        let fired2 = self.s2.run(world);
        let ghost world3 = *world;
        let fired3 = self.s3.run(world);
        assert(old(self).s0.run_post(*old(world), &self.s0, world1, fired0));
        assert(old(self).s1.run_post(world1, &self.s1, world2, fired1));
        assert(old(self).s2.run_post(world2, &self.s2, world3, fired2));
        assert(old(self).s3.run_post(world3, &self.s3, *world, fired3));
        (4, fired0 || fired1 || fired2 || fired3)
    }

    fn system_count(&self) -> (count: usize) {
        4
    }
}

/// A stage of four systems counts four systems. Each runs once, in order, and the stage fires exactly where one
/// of the answers is `true`, whichever it is.
pub proof fn lemma_stage4_fires<R, S0: System<R>, S1: System<R>, S2: System<R>, S3: System<R>>(
    stage: Stage4<S0, S1, S2, S3>,
    world: World<R>,
    after: Stage4<S0, S1, S2, S3>,
    world_after: World<R>,
    fired: bool,
)
    requires
        stage.run_all_post(world, after, world_after, fired),
    ensures
        <Stage4<S0, S1, S2, S3> as StageRunner<R>>::size() == 4,
        exists|
            world1: World<R>,
            world2: World<R>,
            world3: World<R>,
            fired0: bool,
            fired1: bool,
            fired2: bool,
            fired3: bool,
        |
            #[trigger] stage.s0.run_post(world, &after.s0, world1, fired0)
                && #[trigger] stage.s1.run_post(world1, &after.s1, world2, fired1)
                && #[trigger] stage.s2.run_post(world2, &after.s2, world3, fired2)
                && #[trigger] stage.s3.run_post(world3, &after.s3, world_after, fired3)
                && fired == seq![fired0, fired1, fired2, fired3].contains(true),
{
    let (world1, world2, world3, fired0, fired1, fired2, fired3) = choose|
        world1: World<R>,
        world2: World<R>,
        world3: World<R>,
        fired0: bool,
        fired1: bool,
        fired2: bool,
        fired3: bool,
    |
        #[trigger] stage.s0.run_post(world, &after.s0, world1, fired0)
            && #[trigger] stage.s1.run_post(world1, &after.s1, world2, fired1)
            && #[trigger] stage.s2.run_post(world2, &after.s2, world3, fired2)
            && #[trigger] stage.s3.run_post(world3, &after.s3, world_after, fired3)
            && fired == (fired0 || fired1 || fired2 || fired3);
    let answers = seq![fired0, fired1, fired2, fired3];
    assert(stage.s0.run_post(world, &after.s0, world1, fired0));
    assert(stage.s1.run_post(world1, &after.s1, world2, fired1));
    assert(stage.s2.run_post(world2, &after.s2, world3, fired2));
    assert(stage.s3.run_post(world3, &after.s3, world_after, fired3));
    assert(answers[0] == fired0);
    assert(answers[1] == fired1);
    assert(answers[2] == fired2);
    assert(answers[3] == fired3);
    if answers.contains(true) {
        let k = choose|k: int| 0 <= k < answers.len() && answers[k];
        assert(k == 0 || k == 1 || k == 2 || k == 3);
    }
}

/// Systems that may run in any world make up a stage that may run in any world.
pub proof fn lemma_stage4_ready<R, S0: System<R>, S1: System<R>, S2: System<R>, S3: System<R>>(
    stage: Stage4<S0, S1, S2, S3>,
    world: World<R>,
)
    requires
        forall|w: World<R>| #[trigger] stage.s0.run_pre(w),
        forall|w: World<R>| #[trigger] stage.s1.run_pre(w),
        forall|w: World<R>| #[trigger] stage.s2.run_pre(w),
        forall|w: World<R>| #[trigger] stage.s3.run_pre(w),
    ensures
        stage.run_all_pre(world),
{
}

impl<
    R,
    P0,
    P1,
    P2,
    P3,
    F0: IntoSystem<R, P0>,
    F1: IntoSystem<R, P1>,
    F2: IntoSystem<R, P2>,
    F3: IntoSystem<R, P3>,
> IntoStage<R, (P0, P1, P2, P3)> for (F0, F1, F2, F3) {
    type Stage = Stage4<F0::System, F1::System, F2::System, F3::System>;

    open spec fn staged(self) -> Stage4<F0::System, F1::System, F2::System, F3::System> {
        Stage4 {
            s0: self.0.resolved(),
            s1: self.1.resolved(),
            s2: self.2.resolved(),
            s3: self.3.resolved(),
        }
    }

    fn into_stage(
        self,
        registry: &Registry<R>,
    ) -> (stage: Stage4<F0::System, F1::System, F2::System, F3::System>) {
        Stage4 {
            s0: self.0.into_system(registry),
            s1: self.1.into_system(registry),
            s2: self.2.into_system(registry),
            s3: self.3.into_system(registry),
        }
    }
}

/// A stage of five systems.
pub struct Stage5<S0, S1, S2, S3, S4> {
    pub s0: S0,
    pub s1: S1,
    pub s2: S2,
    pub s3: S3,
    pub s4: S4,
}

impl<
    R,
    S0: System<R>,
    S1: System<R>,
    S2: System<R>,
    S3: System<R>,
    S4: System<R>,
> StageRunner<R> for Stage5<S0, S1, S2, S3, S4> {
    open spec fn size() -> nat {
        5
    }

    open spec fn run_all_pre(&self, world: World<R>) -> bool {
        &&& self.s0.run_pre(world)
        &&& forall|s: S0, world1: World<R>, fired0: bool|
            #[trigger] self.s0.run_post(world, &s, world1, fired0) ==> {
                &&& self.s1.run_pre(world1)
                &&& forall|s: S1, world2: World<R>, fired1: bool|
                    #[trigger] self.s1.run_post(world1, &s, world2, fired1) ==> {
                        &&& self.s2.run_pre(world2)
                        &&& forall|s: S2, world3: World<R>, fired2: bool|
                            #[trigger] self.s2.run_post(world2, &s, world3, fired2) ==> {
                                &&& self.s3.run_pre(world3)
                                &&& forall|s: S3, world4: World<R>, fired3: bool|
                                    #[trigger] self.s3.run_post(world3, &s, world4, fired3) ==> {
                                        self.s4.run_pre(world4)
                                    }
                            }
                    }
            }
    }

    open spec fn run_all_post(
        &self,
        world: World<R>,
        after: Self,
        world_after: World<R>,
        fired: bool,
    ) -> bool {
        exists|
            world1: World<R>,
            world2: World<R>,
            world3: World<R>,
            world4: World<R>,
            fired0: bool,
            fired1: bool,
            fired2: bool,
            fired3: bool,
            fired4: bool,
        |
            #[trigger] self.s0.run_post(world, &after.s0, world1, fired0)
                && #[trigger] self.s1.run_post(world1, &after.s1, world2, fired1)
                && #[trigger] self.s2.run_post(world2, &after.s2, world3, fired2)
                && #[trigger] self.s3.run_post(world3, &after.s3, world4, fired3)
                && #[trigger] self.s4.run_post(world4, &after.s4, world_after, fired4)
                && fired == (fired0 || fired1 || fired2 || fired3 || fired4)
    }

    fn run_all(&mut self, world: &mut World<R>) -> (result: (usize, bool)) {
        let fired0 = self.s0.run(world);
        let ghost world1 = *world;
        let fired1 = self.s1.run(world);
        let ghost world2 = *world;
        let fired2 = self.s2.run(world);
        let ghost world3 = *world;
        let fired3 = self.s3.run(world);
        let ghost world4 = *world;
        let fired4 = self.s4.run(world);
        assert(old(self).s0.run_post(*old(world), &self.s0, world1, fired0));
        assert(old(self).s1.run_post(world1, &self.s1, world2, fired1));
        assert(old(self).s2.run_post(world2, &self.s2, world3, fired2));
        assert(old(self).s3.run_post(world3, &self.s3, world4, fired3));
        assert(old(self).s4.run_post(world4, &self.s4, *world, fired4));
        (5, fired0 || fired1 || fired2 || fired3 || fired4)
    }

    fn system_count(&self) -> (count: usize) {
        5
    }
}

/// A stage of five systems counts five systems. Each runs once, in order, and the stage fires exactly where one
/// of the answers is `true`, whichever it is.
pub proof fn lemma_stage5_fires<
    R,
    S0: System<R>,
    S1: System<R>,
    S2: System<R>,
    S3: System<R>,
    S4: System<R>,
>(
    stage: Stage5<S0, S1, S2, S3, S4>,
    world: World<R>,
    after: Stage5<S0, S1, S2, S3, S4>,
    world_after: World<R>,
    fired: bool,
)
    requires
        stage.run_all_post(world, after, world_after, fired),
    ensures
        <Stage5<S0, S1, S2, S3, S4> as StageRunner<R>>::size() == 5,
        exists|
            world1: World<R>,
            world2: World<R>,
            world3: World<R>,
            world4: World<R>,
            fired0: bool,
            fired1: bool,
            fired2: bool,
            fired3: bool,
            fired4: bool,
        |
            #[trigger] stage.s0.run_post(world, &after.s0, world1, fired0)
                && #[trigger] stage.s1.run_post(world1, &after.s1, world2, fired1)
                && #[trigger] stage.s2.run_post(world2, &after.s2, world3, fired2)
                && #[trigger] stage.s3.run_post(world3, &after.s3, world4, fired3)
                && #[trigger] stage.s4.run_post(world4, &after.s4, world_after, fired4)
                && fired == seq![fired0, fired1, fired2, fired3, fired4].contains(true),
{
    let (world1, world2, world3, world4, fired0, fired1, fired2, fired3, fired4) = choose|
        world1: World<R>,
        world2: World<R>,
        world3: World<R>,
        world4: World<R>,
        fired0: bool,
        fired1: bool,
        fired2: bool,
        fired3: bool,
        fired4: bool,
    |
        #[trigger] stage.s0.run_post(world, &after.s0, world1, fired0)
            && #[trigger] stage.s1.run_post(world1, &after.s1, world2, fired1)
            && #[trigger] stage.s2.run_post(world2, &after.s2, world3, fired2)
            && #[trigger] stage.s3.run_post(world3, &after.s3, world4, fired3)
            && #[trigger] stage.s4.run_post(world4, &after.s4, world_after, fired4)
            && fired == (fired0 || fired1 || fired2 || fired3 || fired4);
    let answers = seq![fired0, fired1, fired2, fired3, fired4];
    assert(stage.s0.run_post(world, &after.s0, world1, fired0));
    assert(stage.s1.run_post(world1, &after.s1, world2, fired1));
    assert(stage.s2.run_post(world2, &after.s2, world3, fired2));
    assert(stage.s3.run_post(world3, &after.s3, world4, fired3));
    assert(stage.s4.run_post(world4, &after.s4, world_after, fired4));
    assert(answers[0] == fired0);
    assert(answers[1] == fired1);
    assert(answers[2] == fired2);
    assert(answers[3] == fired3);
    assert(answers[4] == fired4);
    if answers.contains(true) {
        let k = choose|k: int| 0 <= k < answers.len() && answers[k];
        assert(k == 0 || k == 1 || k == 2 || k == 3 || k == 4);
    }
}

/// Systems that may run in any world make up a stage that may run in any world.
pub proof fn lemma_stage5_ready<
    R,
    S0: System<R>,
    S1: System<R>,
    S2: System<R>,
    S3: System<R>,
    S4: System<R>,
>(stage: Stage5<S0, S1, S2, S3, S4>, world: World<R>)
    requires
        forall|w: World<R>| #[trigger] stage.s0.run_pre(w),
        forall|w: World<R>| #[trigger] stage.s1.run_pre(w),
        forall|w: World<R>| #[trigger] stage.s2.run_pre(w),
        forall|w: World<R>| #[trigger] stage.s3.run_pre(w),
        forall|w: World<R>| #[trigger] stage.s4.run_pre(w),
    ensures
        stage.run_all_pre(world),
{
}

impl<
    R,
    P0,
    P1,
    P2,
    P3,
    P4,
    F0: IntoSystem<R, P0>,
    F1: IntoSystem<R, P1>,
    F2: IntoSystem<R, P2>,
    F3: IntoSystem<R, P3>,
    F4: IntoSystem<R, P4>,
> IntoStage<R, (P0, P1, P2, P3, P4)> for (F0, F1, F2, F3, F4) {
    type Stage = Stage5<F0::System, F1::System, F2::System, F3::System, F4::System>;

    open spec fn staged(
        self,
    ) -> Stage5<F0::System, F1::System, F2::System, F3::System, F4::System> {
        Stage5 {
            s0: self.0.resolved(),
            s1: self.1.resolved(),
            s2: self.2.resolved(),
            s3: self.3.resolved(),
            s4: self.4.resolved(),
        }
    }

    fn into_stage(
        self,
        registry: &Registry<R>,
    ) -> (stage: Stage5<F0::System, F1::System, F2::System, F3::System, F4::System>) {
        Stage5 {
            s0: self.0.into_system(registry),
            s1: self.1.into_system(registry),
            s2: self.2.into_system(registry),
            s3: self.3.into_system(registry),
            s4: self.4.into_system(registry),
        }
    }
}

/// A stage of six systems.
pub struct Stage6<S0, S1, S2, S3, S4, S5> {
    pub s0: S0,
    pub s1: S1,
    pub s2: S2,
    pub s3: S3,
    pub s4: S4,
    pub s5: S5,
}

impl<
    R,
    S0: System<R>,
    S1: System<R>,
    S2: System<R>,
    S3: System<R>,
    S4: System<R>,
    S5: System<R>,
> StageRunner<R> for Stage6<S0, S1, S2, S3, S4, S5> {
    open spec fn size() -> nat {
        6
    }

    open spec fn run_all_pre(&self, world: World<R>) -> bool {
        &&& self.s0.run_pre(world)
        &&& forall|s: S0, world1: World<R>, fired0: bool|
            #[trigger] self.s0.run_post(world, &s, world1, fired0) ==> {
                &&& self.s1.run_pre(world1)
                &&& forall|s: S1, world2: World<R>, fired1: bool|
                    #[trigger] self.s1.run_post(world1, &s, world2, fired1) ==> {
                        &&& self.s2.run_pre(world2)
                        &&& forall|s: S2, world3: World<R>, fired2: bool|
                            #[trigger] self.s2.run_post(world2, &s, world3, fired2) ==> {
                                &&& self.s3.run_pre(world3)
                                &&& forall|s: S3, world4: World<R>, fired3: bool|
                                    #[trigger] self.s3.run_post(world3, &s, world4, fired3) ==> {
                                        &&& self.s4.run_pre(world4)
                                        &&& forall|s: S4, world5: World<R>, fired4: bool|
                                            #[trigger] self.s4.run_post(world4, &s, world5, fired4)
                                                ==> {
                                                self.s5.run_pre(world5)
                                            }
                                    }
                            }
                    }
            }
    }

    open spec fn run_all_post(
        &self,
        world: World<R>,
        after: Self,
        world_after: World<R>,
        fired: bool,
    ) -> bool {
        exists|
            world1: World<R>,
            world2: World<R>,
            world3: World<R>,
            world4: World<R>,
            world5: World<R>,
            fired0: bool,
            fired1: bool,
            fired2: bool,
            fired3: bool,
            fired4: bool,
            fired5: bool,
        |
            #[trigger] self.s0.run_post(world, &after.s0, world1, fired0)
                && #[trigger] self.s1.run_post(world1, &after.s1, world2, fired1)
                && #[trigger] self.s2.run_post(world2, &after.s2, world3, fired2)
                && #[trigger] self.s3.run_post(world3, &after.s3, world4, fired3)
                && #[trigger] self.s4.run_post(world4, &after.s4, world5, fired4)
                && #[trigger] self.s5.run_post(world5, &after.s5, world_after, fired5)
                && fired == (fired0 || fired1 || fired2 || fired3 || fired4 || fired5)
    }

    fn run_all(&mut self, world: &mut World<R>) -> (result: (usize, bool)) {
        let fired0 = self.s0.run(world);
        let ghost world1 = *world;
        let fired1 = self.s1.run(world);
        let ghost world2 = *world;
        let fired2 = self.s2.run(world);
        let ghost world3 = *world;
        let fired3 = self.s3.run(world);
        let ghost world4 = *world;
        let fired4 = self.s4.run(world);
        let ghost world5 = *world;
        let fired5 = self.s5.run(world);
        assert(old(self).s0.run_post(*old(world), &self.s0, world1, fired0));
        assert(old(self).s1.run_post(world1, &self.s1, world2, fired1));
        assert(old(self).s2.run_post(world2, &self.s2, world3, fired2));
        assert(old(self).s3.run_post(world3, &self.s3, world4, fired3));
        assert(old(self).s4.run_post(world4, &self.s4, world5, fired4));
        assert(old(self).s5.run_post(world5, &self.s5, *world, fired5));
        (6, fired0 || fired1 || fired2 || fired3 || fired4 || fired5)
    }

    fn system_count(&self) -> (count: usize) {
        6
    }
}

/// A stage of six systems counts six systems. Each runs once, in order, and the stage fires exactly where one
/// of the answers is `true`, whichever it is.
pub proof fn lemma_stage6_fires<
    R,
    S0: System<R>,
    S1: System<R>,
    S2: System<R>,
    S3: System<R>,
    S4: System<R>,
    S5: System<R>,
>(
    stage: Stage6<S0, S1, S2, S3, S4, S5>,
    world: World<R>,
    after: Stage6<S0, S1, S2, S3, S4, S5>,
    world_after: World<R>,
    fired: bool,
)
    requires
        stage.run_all_post(world, after, world_after, fired),
    ensures
        <Stage6<S0, S1, S2, S3, S4, S5> as StageRunner<R>>::size() == 6,
        exists|
            world1: World<R>,
            world2: World<R>,
            world3: World<R>,
            world4: World<R>,
            world5: World<R>,
            fired0: bool,
            fired1: bool,
            fired2: bool,
            fired3: bool,
            fired4: bool,
            fired5: bool,
        |
            #[trigger] stage.s0.run_post(world, &after.s0, world1, fired0)
                && #[trigger] stage.s1.run_post(world1, &after.s1, world2, fired1)
                && #[trigger] stage.s2.run_post(world2, &after.s2, world3, fired2)
                && #[trigger] stage.s3.run_post(world3, &after.s3, world4, fired3)
                && #[trigger] stage.s4.run_post(world4, &after.s4, world5, fired4)
                && #[trigger] stage.s5.run_post(world5, &after.s5, world_after, fired5)
                && fired == seq![fired0, fired1, fired2, fired3, fired4, fired5].contains(true),
{
    let (world1, world2, world3, world4, world5, fired0, fired1, fired2, fired3, fired4, fired5) = choose|
        world1: World<R>,
        world2: World<R>,
        world3: World<R>,
        world4: World<R>,
        world5: World<R>,
        fired0: bool,
        fired1: bool,
        fired2: bool,
        fired3: bool,
        fired4: bool,
        fired5: bool,
    |
        #[trigger] stage.s0.run_post(world, &after.s0, world1, fired0)
            && #[trigger] stage.s1.run_post(world1, &after.s1, world2, fired1)
            && #[trigger] stage.s2.run_post(world2, &after.s2, world3, fired2)
            && #[trigger] stage.s3.run_post(world3, &after.s3, world4, fired3)
            && #[trigger] stage.s4.run_post(world4, &after.s4, world5, fired4)
            && #[trigger] stage.s5.run_post(world5, &after.s5, world_after, fired5)
            && fired == (fired0 || fired1 || fired2 || fired3 || fired4 || fired5);
    let answers = seq![fired0, fired1, fired2, fired3, fired4, fired5];
    assert(stage.s0.run_post(world, &after.s0, world1, fired0));
    assert(stage.s1.run_post(world1, &after.s1, world2, fired1));
    assert(stage.s2.run_post(world2, &after.s2, world3, fired2));
    assert(stage.s3.run_post(world3, &after.s3, world4, fired3));
    assert(stage.s4.run_post(world4, &after.s4, world5, fired4));
    assert(stage.s5.run_post(world5, &after.s5, world_after, fired5));
    assert(answers[0] == fired0);
    assert(answers[1] == fired1);
    assert(answers[2] == fired2);
    assert(answers[3] == fired3);
    assert(answers[4] == fired4);
    assert(answers[5] == fired5);
    if answers.contains(true) {
        let k = choose|k: int| 0 <= k < answers.len() && answers[k];
        assert(k == 0 || k == 1 || k == 2 || k == 3 || k == 4 || k == 5);
    }
}

/// Systems that may run in any world make up a stage that may run in any world.
pub proof fn lemma_stage6_ready<
    R,
    S0: System<R>,
    S1: System<R>,
    S2: System<R>,
    S3: System<R>,
    S4: System<R>,
    S5: System<R>,
>(stage: Stage6<S0, S1, S2, S3, S4, S5>, world: World<R>)
    requires
        forall|w: World<R>| #[trigger] stage.s0.run_pre(w),
        forall|w: World<R>| #[trigger] stage.s1.run_pre(w),
        forall|w: World<R>| #[trigger] stage.s2.run_pre(w),
        forall|w: World<R>| #[trigger] stage.s3.run_pre(w),
        forall|w: World<R>| #[trigger] stage.s4.run_pre(w),
        forall|w: World<R>| #[trigger] stage.s5.run_pre(w),
    ensures
        stage.run_all_pre(world),
{
}

impl<
    R,
    P0,
    P1,
    P2,
    P3,
    P4,
    P5,
    F0: IntoSystem<R, P0>,
    F1: IntoSystem<R, P1>,
    F2: IntoSystem<R, P2>,
    F3: IntoSystem<R, P3>,
    F4: IntoSystem<R, P4>,
    F5: IntoSystem<R, P5>,
> IntoStage<R, (P0, P1, P2, P3, P4, P5)> for (F0, F1, F2, F3, F4, F5) {
    type Stage = Stage6<F0::System, F1::System, F2::System, F3::System, F4::System, F5::System>;

    open spec fn staged(
        self,
    ) -> Stage6<F0::System, F1::System, F2::System, F3::System, F4::System, F5::System> {
        Stage6 {
            s0: self.0.resolved(),
            s1: self.1.resolved(),
            s2: self.2.resolved(),
            s3: self.3.resolved(),
            s4: self.4.resolved(),
            s5: self.5.resolved(),
        }
    }

    fn into_stage(
        self,
        registry: &Registry<R>,
    ) -> (stage: Stage6<F0::System, F1::System, F2::System, F3::System, F4::System, F5::System>) {
        Stage6 {
            s0: self.0.into_system(registry),
            s1: self.1.into_system(registry),
            s2: self.2.into_system(registry),
            s3: self.3.into_system(registry),
            s4: self.4.into_system(registry),
            s5: self.5.into_system(registry),
        }
    }
}

/// A stage of seven systems.
pub struct Stage7<S0, S1, S2, S3, S4, S5, S6> {
    pub s0: S0,
    pub s1: S1,
    pub s2: S2,
    pub s3: S3,
    pub s4: S4,
    pub s5: S5,
    pub s6: S6,
}

impl<
    R,
    S0: System<R>,
    S1: System<R>,
    S2: System<R>,
    S3: System<R>,
    S4: System<R>,
    S5: System<R>,
    S6: System<R>,
> StageRunner<R> for Stage7<S0, S1, S2, S3, S4, S5, S6> {
    open spec fn size() -> nat {
        7
    }

    open spec fn run_all_pre(&self, world: World<R>) -> bool {
        &&& self.s0.run_pre(world)
        &&& forall|s: S0, world1: World<R>, fired0: bool|
            #[trigger] self.s0.run_post(world, &s, world1, fired0) ==> {
                &&& self.s1.run_pre(world1)
                &&& forall|s: S1, world2: World<R>, fired1: bool|
                    #[trigger] self.s1.run_post(world1, &s, world2, fired1) ==> {
                        &&& self.s2.run_pre(world2)
                        &&& forall|s: S2, world3: World<R>, fired2: bool|
                            #[trigger] self.s2.run_post(world2, &s, world3, fired2) ==> {
                                &&& self.s3.run_pre(world3)
                                &&& forall|s: S3, world4: World<R>, fired3: bool|
                                    #[trigger] self.s3.run_post(world3, &s, world4, fired3) ==> {
                                        &&& self.s4.run_pre(world4)
                                        &&& forall|s: S4, world5: World<R>, fired4: bool|
                                            #[trigger] self.s4.run_post(world4, &s, world5, fired4)
                                                ==> {
                                                &&& self.s5.run_pre(world5)
                                                &&& forall|s: S5, world6: World<R>, fired5: bool|
                                                    #[trigger] self.s5.run_post(world5, &s, world6, fired5)
                                                        ==> {
                                                        self.s6.run_pre(world6)
                                                    }
                                            }
                                    }
                            }
                    }
            }
    }

    open spec fn run_all_post(
        &self,
        world: World<R>,
        after: Self,
        world_after: World<R>,
        fired: bool,
    ) -> bool {
        exists|
            world1: World<R>,
            world2: World<R>,
            world3: World<R>,
            world4: World<R>,
            world5: World<R>,
            world6: World<R>,
            fired0: bool,
            fired1: bool,
            fired2: bool,
            fired3: bool,
            fired4: bool,
            fired5: bool,
            fired6: bool,
        |
            #[trigger] self.s0.run_post(world, &after.s0, world1, fired0)
                && #[trigger] self.s1.run_post(world1, &after.s1, world2, fired1)
                && #[trigger] self.s2.run_post(world2, &after.s2, world3, fired2)
                && #[trigger] self.s3.run_post(world3, &after.s3, world4, fired3)
                && #[trigger] self.s4.run_post(world4, &after.s4, world5, fired4)
                && #[trigger] self.s5.run_post(world5, &after.s5, world6, fired5)
                && #[trigger] self.s6.run_post(world6, &after.s6, world_after, fired6)
                && fired == (fired0 || fired1 || fired2 || fired3 || fired4 || fired5 || fired6)
    }

    fn run_all(&mut self, world: &mut World<R>) -> (result: (usize, bool)) {
        let fired0 = self.s0.run(world);
        let ghost world1 = *world;
        let fired1 = self.s1.run(world);
        let ghost world2 = *world;
        let fired2 = self.s2.run(world);
        let ghost world3 = *world;
        let fired3 = self.s3.run(world);
        let ghost world4 = *world;
        let fired4 = self.s4.run(world);
        let ghost world5 = *world;
        let fired5 = self.s5.run(world);
        let ghost world6 = *world;
        let fired6 = self.s6.run(world);
        assert(old(self).s0.run_post(*old(world), &self.s0, world1, fired0));
        assert(old(self).s1.run_post(world1, &self.s1, world2, fired1));
        assert(old(self).s2.run_post(world2, &self.s2, world3, fired2));
        assert(old(self).s3.run_post(world3, &self.s3, world4, fired3));
        assert(old(self).s4.run_post(world4, &self.s4, world5, fired4));
        assert(old(self).s5.run_post(world5, &self.s5, world6, fired5));
        assert(old(self).s6.run_post(world6, &self.s6, *world, fired6));
        (7, fired0 || fired1 || fired2 || fired3 || fired4 || fired5 || fired6)
    }

    fn system_count(&self) -> (count: usize) {
        7
    }
}

/// A stage of seven systems counts seven systems. Each runs once, in order, and the stage fires exactly where one
/// of the answers is `true`, whichever it is.
pub proof fn lemma_stage7_fires<
    R,
    S0: System<R>,
    S1: System<R>,
    S2: System<R>,
    S3: System<R>,
    S4: System<R>,
    S5: System<R>,
    S6: System<R>,
>(
    stage: Stage7<S0, S1, S2, S3, S4, S5, S6>,
    world: World<R>,
    after: Stage7<S0, S1, S2, S3, S4, S5, S6>,
    world_after: World<R>,
    fired: bool,
)
    requires
        stage.run_all_post(world, after, world_after, fired),
    ensures
        <Stage7<S0, S1, S2, S3, S4, S5, S6> as StageRunner<R>>::size() == 7,
        exists|
            world1: World<R>,
            world2: World<R>,
            world3: World<R>,
            world4: World<R>,
            world5: World<R>,
            world6: World<R>,
            fired0: bool,
            fired1: bool,
            fired2: bool,
            fired3: bool,
            fired4: bool,
            fired5: bool,
            fired6: bool,
        |
            #[trigger] stage.s0.run_post(world, &after.s0, world1, fired0)
                && #[trigger] stage.s1.run_post(world1, &after.s1, world2, fired1)
                && #[trigger] stage.s2.run_post(world2, &after.s2, world3, fired2)
                && #[trigger] stage.s3.run_post(world3, &after.s3, world4, fired3)
                && #[trigger] stage.s4.run_post(world4, &after.s4, world5, fired4)
                && #[trigger] stage.s5.run_post(world5, &after.s5, world6, fired5)
                && #[trigger] stage.s6.run_post(world6, &after.s6, world_after, fired6)
                && fired == seq![fired0, fired1, fired2, fired3, fired4, fired5, fired6].contains(true),
{
    let (world1, world2, world3, world4, world5, world6, fired0, fired1, fired2, fired3, fired4, fired5, fired6) = choose|
        world1: World<R>,
        world2: World<R>,
        world3: World<R>,
        world4: World<R>,
        world5: World<R>,
        world6: World<R>,
        fired0: bool,
        fired1: bool,
        fired2: bool,
        fired3: bool,
        fired4: bool,
        fired5: bool,
        fired6: bool,
    |
        #[trigger] stage.s0.run_post(world, &after.s0, world1, fired0)
            && #[trigger] stage.s1.run_post(world1, &after.s1, world2, fired1)
            && #[trigger] stage.s2.run_post(world2, &after.s2, world3, fired2)
            && #[trigger] stage.s3.run_post(world3, &after.s3, world4, fired3)
            && #[trigger] stage.s4.run_post(world4, &after.s4, world5, fired4)
            && #[trigger] stage.s5.run_post(world5, &after.s5, world6, fired5)
            && #[trigger] stage.s6.run_post(world6, &after.s6, world_after, fired6)
            && fired == (fired0 || fired1 || fired2 || fired3 || fired4 || fired5 || fired6);
    let answers = seq![fired0, fired1, fired2, fired3, fired4, fired5, fired6];
    assert(stage.s0.run_post(world, &after.s0, world1, fired0));
    assert(stage.s1.run_post(world1, &after.s1, world2, fired1));
    assert(stage.s2.run_post(world2, &after.s2, world3, fired2));
    assert(stage.s3.run_post(world3, &after.s3, world4, fired3));
    assert(stage.s4.run_post(world4, &after.s4, world5, fired4));
    assert(stage.s5.run_post(world5, &after.s5, world6, fired5));
    assert(stage.s6.run_post(world6, &after.s6, world_after, fired6));
    assert(answers[0] == fired0);
    assert(answers[1] == fired1);
    assert(answers[2] == fired2);
    assert(answers[3] == fired3);
    assert(answers[4] == fired4);
    assert(answers[5] == fired5);
    assert(answers[6] == fired6);
    if answers.contains(true) {
        let k = choose|k: int| 0 <= k < answers.len() && answers[k];
        assert(k == 0 || k == 1 || k == 2 || k == 3 || k == 4 || k == 5 || k == 6);
    }
}

/// Systems that may run in any world make up a stage that may run in any world.
pub proof fn lemma_stage7_ready<
    R,
    S0: System<R>,
    S1: System<R>,
    S2: System<R>,
    S3: System<R>,
    S4: System<R>,
    S5: System<R>,
    S6: System<R>,
>(stage: Stage7<S0, S1, S2, S3, S4, S5, S6>, world: World<R>)
    requires
        forall|w: World<R>| #[trigger] stage.s0.run_pre(w),
        forall|w: World<R>| #[trigger] stage.s1.run_pre(w),
        forall|w: World<R>| #[trigger] stage.s2.run_pre(w),
        forall|w: World<R>| #[trigger] stage.s3.run_pre(w),
        forall|w: World<R>| #[trigger] stage.s4.run_pre(w),
        forall|w: World<R>| #[trigger] stage.s5.run_pre(w),
        forall|w: World<R>| #[trigger] stage.s6.run_pre(w),
    ensures
        stage.run_all_pre(world),
{
}

impl<
    R,
    P0,
    P1,
    P2,
    P3,
    P4,
    P5,
    P6,
    F0: IntoSystem<R, P0>,
    F1: IntoSystem<R, P1>,
    F2: IntoSystem<R, P2>,
    F3: IntoSystem<R, P3>,
    F4: IntoSystem<R, P4>,
    F5: IntoSystem<R, P5>,
    F6: IntoSystem<R, P6>,
> IntoStage<R, (P0, P1, P2, P3, P4, P5, P6)> for (F0, F1, F2, F3, F4, F5, F6) {
    type Stage = Stage7<
        F0::System,
        F1::System,
        F2::System,
        F3::System,
        F4::System,
        F5::System,
        F6::System,
    >;

    open spec fn staged(
        self,
    ) -> Stage7<
        F0::System,
        F1::System,
        F2::System,
        F3::System,
        F4::System,
        F5::System,
        F6::System,
    > {
        Stage7 {
            s0: self.0.resolved(),
            s1: self.1.resolved(),
            s2: self.2.resolved(),
            s3: self.3.resolved(),
            s4: self.4.resolved(),
            s5: self.5.resolved(),
            s6: self.6.resolved(),
        }
    }

    fn into_stage(
        self,
        registry: &Registry<R>,
    ) -> (stage: Stage7<
        F0::System,
        F1::System,
        F2::System,
        F3::System,
        F4::System,
        F5::System,
        F6::System,
    >) {
        Stage7 {
            s0: self.0.into_system(registry),
            s1: self.1.into_system(registry),
            s2: self.2.into_system(registry),
            s3: self.3.into_system(registry),
            s4: self.4.into_system(registry),
            s5: self.5.into_system(registry),
            s6: self.6.into_system(registry),
        }
    }
}

/// A stage of eight systems.
pub struct Stage8<S0, S1, S2, S3, S4, S5, S6, S7> {
    pub s0: S0,
    pub s1: S1,
    pub s2: S2,
    pub s3: S3,
    pub s4: S4,
    pub s5: S5,
    pub s6: S6,
    pub s7: S7,
}

impl<
    R,
    S0: System<R>,
    S1: System<R>,
    S2: System<R>,
    S3: System<R>,
    S4: System<R>,
    S5: System<R>,
    S6: System<R>,
    S7: System<R>,
> StageRunner<R> for Stage8<S0, S1, S2, S3, S4, S5, S6, S7> {
    open spec fn size() -> nat {
        8
    }

    open spec fn run_all_pre(&self, world: World<R>) -> bool {
        &&& self.s0.run_pre(world)
        &&& forall|s: S0, world1: World<R>, fired0: bool|
            #[trigger] self.s0.run_post(world, &s, world1, fired0) ==> {
                &&& self.s1.run_pre(world1)
                &&& forall|s: S1, world2: World<R>, fired1: bool|
                    #[trigger] self.s1.run_post(world1, &s, world2, fired1) ==> {
                        &&& self.s2.run_pre(world2)
                        &&& forall|s: S2, world3: World<R>, fired2: bool|
                            #[trigger] self.s2.run_post(world2, &s, world3, fired2) ==> {
                                &&& self.s3.run_pre(world3)
                                &&& forall|s: S3, world4: World<R>, fired3: bool|
                                    #[trigger] self.s3.run_post(world3, &s, world4, fired3) ==> {
                                        &&& self.s4.run_pre(world4)
                                        &&& forall|s: S4, world5: World<R>, fired4: bool|
                                            #[trigger] self.s4.run_post(world4, &s, world5, fired4)
                                                ==> {
                                                &&& self.s5.run_pre(world5)
                                                &&& forall|s: S5, world6: World<R>, fired5: bool|
                                                    #[trigger] self.s5.run_post(world5, &s, world6, fired5)
                                                        ==> {
                                                        &&& self.s6.run_pre(world6)
                                                        &&& forall|s: S6, world7: World<R>, fired6: bool|
                                                            #[trigger] self.s6.run_post(world6, &s, world7, fired6)
                                                                ==> {
                                                                self.s7.run_pre(world7)
                                                            }
                                                    }
                                            }
                                    }
                            }
                    }
            }
    }

    open spec fn run_all_post(
        &self,
        world: World<R>,
        after: Self,
        world_after: World<R>,
        fired: bool,
    ) -> bool {
        exists|
            world1: World<R>,
            world2: World<R>,
            world3: World<R>,
            world4: World<R>,
            world5: World<R>,
            world6: World<R>,
            world7: World<R>,
            fired0: bool,
            fired1: bool,
            fired2: bool,
            fired3: bool,
            fired4: bool,
            fired5: bool,
            fired6: bool,
            fired7: bool,
        |
            #[trigger] self.s0.run_post(world, &after.s0, world1, fired0)
                && #[trigger] self.s1.run_post(world1, &after.s1, world2, fired1)
                && #[trigger] self.s2.run_post(world2, &after.s2, world3, fired2)
                && #[trigger] self.s3.run_post(world3, &after.s3, world4, fired3)
                && #[trigger] self.s4.run_post(world4, &after.s4, world5, fired4)
                && #[trigger] self.s5.run_post(world5, &after.s5, world6, fired5)
                && #[trigger] self.s6.run_post(world6, &after.s6, world7, fired6)
                && #[trigger] self.s7.run_post(world7, &after.s7, world_after, fired7)
                && fired == (fired0 || fired1 || fired2 || fired3 || fired4 || fired5 || fired6 || fired7)
    }

    fn run_all(&mut self, world: &mut World<R>) -> (result: (usize, bool)) {
        let fired0 = self.s0.run(world);
        let ghost world1 = *world;
        let fired1 = self.s1.run(world);
        let ghost world2 = *world;
        let fired2 = self.s2.run(world);
        let ghost world3 = *world;
        let fired3 = self.s3.run(world);
        let ghost world4 = *world;
        let fired4 = self.s4.run(world);
        let ghost world5 = *world;
        let fired5 = self.s5.run(world);
        let ghost world6 = *world;
        let fired6 = self.s6.run(world);
        let ghost world7 = *world;
        let fired7 = self.s7.run(world);
        assert(old(self).s0.run_post(*old(world), &self.s0, world1, fired0));
        assert(old(self).s1.run_post(world1, &self.s1, world2, fired1));
        assert(old(self).s2.run_post(world2, &self.s2, world3, fired2));
        assert(old(self).s3.run_post(world3, &self.s3, world4, fired3));
        assert(old(self).s4.run_post(world4, &self.s4, world5, fired4));
        assert(old(self).s5.run_post(world5, &self.s5, world6, fired5));
        assert(old(self).s6.run_post(world6, &self.s6, world7, fired6));
        assert(old(self).s7.run_post(world7, &self.s7, *world, fired7));
        (8, fired0 || fired1 || fired2 || fired3 || fired4 || fired5 || fired6 || fired7)
    }

    fn system_count(&self) -> (count: usize) {
        8
    }
}

/// A stage of eight systems counts eight systems. Each runs once, in order, and the stage fires exactly where one
/// of the answers is `true`, whichever it is.
pub proof fn lemma_stage8_fires<
    R,
    S0: System<R>,
    S1: System<R>,
    S2: System<R>,
    S3: System<R>,
    S4: System<R>,
    S5: System<R>,
    S6: System<R>,
    S7: System<R>,
>(
    stage: Stage8<S0, S1, S2, S3, S4, S5, S6, S7>,
    world: World<R>,
    after: Stage8<S0, S1, S2, S3, S4, S5, S6, S7>,
    world_after: World<R>,
    fired: bool,
)
    requires
        stage.run_all_post(world, after, world_after, fired),
    ensures
        <Stage8<S0, S1, S2, S3, S4, S5, S6, S7> as StageRunner<R>>::size() == 8,
        exists|
            world1: World<R>,
            world2: World<R>,
            world3: World<R>,
            world4: World<R>,
            world5: World<R>,
            world6: World<R>,
            world7: World<R>,
            fired0: bool,
            fired1: bool,
            fired2: bool,
            fired3: bool,
            fired4: bool,
            fired5: bool,
            fired6: bool,
            fired7: bool,
        |
            #[trigger] stage.s0.run_post(world, &after.s0, world1, fired0)
                && #[trigger] stage.s1.run_post(world1, &after.s1, world2, fired1)
                && #[trigger] stage.s2.run_post(world2, &after.s2, world3, fired2)
                && #[trigger] stage.s3.run_post(world3, &after.s3, world4, fired3)
                && #[trigger] stage.s4.run_post(world4, &after.s4, world5, fired4)
                && #[trigger] stage.s5.run_post(world5, &after.s5, world6, fired5)
                && #[trigger] stage.s6.run_post(world6, &after.s6, world7, fired6)
                && #[trigger] stage.s7.run_post(world7, &after.s7, world_after, fired7)
                && fired == seq![fired0, fired1, fired2, fired3, fired4, fired5, fired6, fired7].contains(true),
{
    let (world1, world2, world3, world4, world5, world6, world7, fired0, fired1, fired2, fired3, fired4, fired5, fired6, fired7) = choose|
        world1: World<R>,
        world2: World<R>,
        world3: World<R>,
        world4: World<R>,
        world5: World<R>,
        world6: World<R>,
        world7: World<R>,
        fired0: bool,
        fired1: bool,
        fired2: bool,
        fired3: bool,
        fired4: bool,
        fired5: bool,
        fired6: bool,
        fired7: bool,
    |
        #[trigger] stage.s0.run_post(world, &after.s0, world1, fired0)
            && #[trigger] stage.s1.run_post(world1, &after.s1, world2, fired1)
            && #[trigger] stage.s2.run_post(world2, &after.s2, world3, fired2)
            && #[trigger] stage.s3.run_post(world3, &after.s3, world4, fired3)
            && #[trigger] stage.s4.run_post(world4, &after.s4, world5, fired4)
            && #[trigger] stage.s5.run_post(world5, &after.s5, world6, fired5)
            && #[trigger] stage.s6.run_post(world6, &after.s6, world7, fired6)
            && #[trigger] stage.s7.run_post(world7, &after.s7, world_after, fired7)
            && fired == (fired0 || fired1 || fired2 || fired3 || fired4 || fired5 || fired6 || fired7);
    let answers = seq![fired0, fired1, fired2, fired3, fired4, fired5, fired6, fired7];
    assert(stage.s0.run_post(world, &after.s0, world1, fired0));
    assert(stage.s1.run_post(world1, &after.s1, world2, fired1));
    assert(stage.s2.run_post(world2, &after.s2, world3, fired2));
    assert(stage.s3.run_post(world3, &after.s3, world4, fired3));
    assert(stage.s4.run_post(world4, &after.s4, world5, fired4));
    assert(stage.s5.run_post(world5, &after.s5, world6, fired5));
    assert(stage.s6.run_post(world6, &after.s6, world7, fired6));
    assert(stage.s7.run_post(world7, &after.s7, world_after, fired7));
    assert(answers[0] == fired0);
    assert(answers[1] == fired1);
    assert(answers[2] == fired2);
    assert(answers[3] == fired3);
    assert(answers[4] == fired4);
    assert(answers[5] == fired5);
    assert(answers[6] == fired6);
    assert(answers[7] == fired7);
    if answers.contains(true) {
        let k = choose|k: int| 0 <= k < answers.len() && answers[k];
        assert(k == 0 || k == 1 || k == 2 || k == 3 || k == 4 || k == 5 || k == 6 || k == 7);
    }
}

/// Systems that may run in any world make up a stage that may run in any world.
pub proof fn lemma_stage8_ready<
    R,
    S0: System<R>,
    S1: System<R>,
    S2: System<R>,
    S3: System<R>,
    S4: System<R>,
    S5: System<R>,
    S6: System<R>,
    S7: System<R>,
>(stage: Stage8<S0, S1, S2, S3, S4, S5, S6, S7>, world: World<R>)
    requires
        forall|w: World<R>| #[trigger] stage.s0.run_pre(w),
        forall|w: World<R>| #[trigger] stage.s1.run_pre(w),
        forall|w: World<R>| #[trigger] stage.s2.run_pre(w),
        forall|w: World<R>| #[trigger] stage.s3.run_pre(w),
        forall|w: World<R>| #[trigger] stage.s4.run_pre(w),
        forall|w: World<R>| #[trigger] stage.s5.run_pre(w),
        forall|w: World<R>| #[trigger] stage.s6.run_pre(w),
        forall|w: World<R>| #[trigger] stage.s7.run_pre(w),
    ensures
        stage.run_all_pre(world),
{
}

impl<
    R,
    P0,
    P1,
    P2,
    P3,
    P4,
    P5,
    P6,
    P7,
    F0: IntoSystem<R, P0>,
    F1: IntoSystem<R, P1>,
    F2: IntoSystem<R, P2>,
    F3: IntoSystem<R, P3>,
    F4: IntoSystem<R, P4>,
    F5: IntoSystem<R, P5>,
    F6: IntoSystem<R, P6>,
    F7: IntoSystem<R, P7>,
> IntoStage<R, (P0, P1, P2, P3, P4, P5, P6, P7)> for (F0, F1, F2, F3, F4, F5, F6, F7) {
    type Stage = Stage8<
        F0::System,
        F1::System,
        F2::System,
        F3::System,
        F4::System,
        F5::System,
        F6::System,
        F7::System,
    >;

    open spec fn staged(
        self,
    ) -> Stage8<
        F0::System,
        F1::System,
        F2::System,
        F3::System,
        F4::System,
        F5::System,
        F6::System,
        F7::System,
    > {
        Stage8 {
            s0: self.0.resolved(),
            s1: self.1.resolved(),
            s2: self.2.resolved(),
            s3: self.3.resolved(),
            s4: self.4.resolved(),
            s5: self.5.resolved(),
            s6: self.6.resolved(),
            s7: self.7.resolved(),
        }
    }

    fn into_stage(
        self,
        registry: &Registry<R>,
    ) -> (stage: Stage8<
        F0::System,
        F1::System,
        F2::System,
        F3::System,
        F4::System,
        F5::System,
        F6::System,
        F7::System,
    >) {
        Stage8 {
            s0: self.0.into_system(registry),
            s1: self.1.into_system(registry),
            s2: self.2.into_system(registry),
            s3: self.3.into_system(registry),
            s4: self.4.into_system(registry),
            s5: self.5.into_system(registry),
            s6: self.6.into_system(registry),
            s7: self.7.into_system(registry),
        }
    }
}

/// The start of a schedule.
pub struct SchedulerBuilder {}

impl SchedulerBuilder {
    pub fn new() -> (builder: Self) {
        SchedulerBuilder {}
    }

    /// Adds the first stage.
    pub fn root<R, S: IntoStage<R, Params>, Params>(
        self,
        stage: S,
        registry: &Registry<R>,
    ) -> (next: StageNode<StageEnd, S::Stage>)
        ensures
            next.prev == (StageEnd {}),
            next.stage == stage.staged(),
    {
        StageNode { prev: StageEnd {}, stage: stage.into_stage(registry) }
    }
}

impl Default for SchedulerBuilder {
    fn default() -> (builder: Self) {
        SchedulerBuilder {}
    }
}

impl<Prev, S> StageNode<Prev, S> {
    /// Appends a stage, which runs where the stage before it fired.
    pub fn then<R, Next: IntoStage<R, Params>, Params>(
        self,
        stage: Next,
        registry: &Registry<R>,
    ) -> (next: StageNode<Self, Next::Stage>)
        ensures
            next.prev == self,
            next.stage == stage.staged(),
    {
        StageNode { prev: self, stage: stage.into_stage(registry) }
    }
}

impl<R, Prev, S> Installer<R> for StageNode<Prev, S> {
    type Poller = SystemScheduler<StageNode<Prev, S>>;

    open spec fn installed(self) -> SystemScheduler<StageNode<Prev, S>> {
        SystemScheduler { chain: self }
    }

    fn install(
        self,
        builder: &mut WorldBuilder<R>,
    ) -> (poller: SystemScheduler<StageNode<Prev, S>>) {
        SystemScheduler { chain: self }
    }
}

/// A finished schedule.
pub struct SystemScheduler<Chain> {
    pub chain: Chain,
}

impl<Chain> SystemScheduler<Chain> {
    /// Runs the stages in order, up to the first in which no system fires. Returns how many
    /// systems ran.
    pub fn run<R>(&mut self, world: &mut World<R>) -> (ran: usize) where Chain: RunSchedule<R>
        requires
            Chain::size() <= usize::MAX,
            old(self).chain.run_schedule_pre(*old(world)),
        ensures
            exists|fired: bool| #[trigger] old(self).chain.run_schedule_post(
                *old(world),
                final(self).chain,
                *final(world),
                ran as nat,
                fired,
            ),
            Chain::first_size() <= ran <= Chain::size(),
    {
        let (ran, fired) = self.chain.run_schedule(world);
        assert(old(self).chain.run_schedule_post(
            *old(world),
            self.chain,
            *world,
            ran as nat,
            fired,
        ));
        ran
    }

    /// How many systems the stages have.
    pub fn len<R>(&self) -> (len: usize) where Chain: RunSchedule<R>
        requires
            Chain::size() <= usize::MAX,
        ensures
            len == Chain::size(),
    {
        self.chain.system_count()
    }

    /// Whether there is no system.
    pub fn is_empty<R>(&self) -> (empty: bool) where Chain: RunSchedule<R>
        requires
            Chain::size() <= usize::MAX,
        ensures
            empty == (Chain::size() == 0),
    {
        self.chain.system_count() == 0
    }
}

/// The first stage always runs.
pub proof fn lemma_first_stage_runs<R, S: StageRunner<R>>(
    node: StageNode<StageEnd, S>,
    world: World<R>,
    after: StageNode<StageEnd, S>,
    world_after: World<R>,
    ran: nat,
    fired: bool,
)
    requires
        node.run_schedule_post(world, after, world_after, ran, fired),
    ensures
        ran == S::size(),
        node.stage.run_all_post(world, after.stage, world_after, fired),
{
}

/// A stage that follows one in which no system fired does not run: it stays as it is, the
/// world stays as the stages before it left it, and what follows the stage does not run either.
pub proof fn lemma_skipped_stage<R, Prev: RunSchedule<R>, S: StageRunner<R>>(
    node: StageNode<Prev, S>,
    world: World<R>,
    after: StageNode<Prev, S>,
    world_after: World<R>,
    ran: nat,
    fired: bool,
)
    requires
        node.run_schedule_post(world, after, world_after, ran, fired),
        forall|prev: Prev, world_mid: World<R>, prev_ran: nat|
            !#[trigger] node.prev.run_schedule_post(world, prev, world_mid, prev_ran, true),
    ensures
        node.prev.run_schedule_post(world, after.prev, world_after, ran, false),
        after.stage == node.stage,
        !fired,
{
}

/// Whatever the number of stages, a run counts at least the systems of the first stage and at
/// most those of all stages. The length of a schedule is the sum over its stages, and is the same
/// after a run: it depends on the type of the chain alone.
pub proof fn lemma_length<R, Prev: RunSchedule<R>, S: StageRunner<R>>(
    node: StageNode<Prev, S>,
    world: World<R>,
    after: StageNode<Prev, S>,
    world_after: World<R>,
    ran: nat,
    fired: bool,
)
    requires
        node.run_schedule_post(world, after, world_after, ran, fired),
    ensures
        <StageNode<Prev, S> as RunSchedule<R>>::first_size() <= ran,
        ran <= <StageNode<Prev, S> as RunSchedule<R>>::size(),
        fired ==> ran == <StageNode<Prev, S> as RunSchedule<R>>::size(),
        <StageNode<Prev, S> as RunSchedule<R>>::size() == Prev::size() + S::size(),
        Prev::stages() == 0
            ==> <StageNode<Prev, S> as RunSchedule<R>>::first_size() == S::size()
            && Prev::size() == 0,
        Prev::stages() > 0
            ==> <StageNode<Prev, S> as RunSchedule<R>>::first_size() == Prev::first_size(),
{
    node.lemma_ran(world, after, world_after, ran, fired);
    let (prev, world_mid, prev_ran, prev_fired) = choose|
        prev: Prev,
        world_mid: World<R>,
        prev_ran: nat,
        prev_fired: bool,
    |
        #[trigger] node.prev.run_schedule_post(world, prev, world_mid, prev_ran, prev_fired);
    node.prev.lemma_ran(world, prev, world_mid, prev_ran, prev_fired);
}

/// Two stages run all their systems where the first one fires, and those of the first stage
/// alone where it does not.
pub proof fn lemma_systems_run<R, S0: StageRunner<R>, S1: StageRunner<R>>(
    node: StageNode<StageNode<StageEnd, S0>, S1>,
    world: World<R>,
    after: StageNode<StageNode<StageEnd, S0>, S1>,
    world_after: World<R>,
    ran: nat,
    fired: bool,
)
    requires
        node.run_schedule_post(world, after, world_after, ran, fired),
    ensures
        ran == S0::size() || ran == S0::size() + S1::size(),
        fired ==> ran == S0::size() + S1::size(),
        ran > S0::size() ==> exists|world_mid: World<R>|
            #[trigger] node.prev.stage.run_all_post(world, after.prev.stage, world_mid, true),
{
}

/// A stage that follows one that fires runs, once: the systems counted are those that ran before
/// and all of the stage, and the stage answers for whether the next is to run.
pub proof fn lemma_stage_runs<R, Prev: RunSchedule<R>, S: StageRunner<R>>(
    node: StageNode<Prev, S>,
    world: World<R>,
    after: StageNode<Prev, S>,
    world_after: World<R>,
    ran: nat,
    fired: bool,
)
    requires
        node.run_schedule_post(world, after, world_after, ran, fired),
        forall|prev: Prev, world_mid: World<R>, prev_ran: nat|
            !#[trigger] node.prev.run_schedule_post(world, prev, world_mid, prev_ran, false),
    ensures
        exists|world_mid: World<R>, prev_ran: nat|
            #[trigger] node.prev.run_schedule_post(world, after.prev, world_mid, prev_ran, true)
                && node.stage.run_all_post(world_mid, after.stage, world_after, fired)
                && ran == prev_ran + S::size(),
{
}

/// A schedule may run where its stages may, each in the worlds that the stages before it leave
/// when they fire. A schedule without stages may always run, runs nothing, and lets the first
/// stage run.
pub proof fn lemma_schedule_ready<R, Prev: RunSchedule<R>, S: StageRunner<R>>(
    node: StageNode<Prev, S>,
    world: World<R>,
    end: StageEnd,
    after: StageEnd,
    world_after: World<R>,
    ran: nat,
    fired: bool,
)
    ensures
        node.prev.run_schedule_pre(world) && (forall|prev: Prev, world_mid: World<R>, prev_ran: nat|
            #[trigger] node.prev.run_schedule_post(world, prev, world_mid, prev_ran, true)
                ==> node.stage.run_all_pre(world_mid)) ==> node.run_schedule_pre(world),
        end.run_schedule_pre(world),
        end.run_schedule_post(world, after, world_after, ran, fired) ==> world_after == world
            && ran == 0 && fired,
{
}

/// What every stage leaves as it is, the schedule leaves as it is. In particular the schedule
/// changes the sequence number only where a system does.
pub proof fn lemma_schedule_keeps<R, Prev: RunSchedule<R>, S: StageRunner<R>>(
    keeps: spec_fn(World<R>, World<R>) -> bool,
    node: StageNode<Prev, S>,
    world: World<R>,
    after: StageNode<Prev, S>,
    world_after: World<R>,
    ran: nat,
    fired: bool,
)
    requires
        node.run_schedule_post(world, after, world_after, ran, fired),
        forall|a: World<R>, b: World<R>, c: World<R>| #[trigger] keeps(a, b)
            && #[trigger] keeps(b, c)
            ==> keeps(a, c),
        forall|prev: Prev, world_mid: World<R>, prev_ran: nat, prev_fired: bool|
            #[trigger] node.prev.run_schedule_post(world, prev, world_mid, prev_ran, prev_fired)
                ==> keeps(world, world_mid),
        forall|a: World<R>, stage: S, b: World<R>, stage_fired: bool|
            #[trigger] node.stage.run_all_post(a, stage, b, stage_fired) ==> keeps(a, b),
    ensures
        keeps(world, world_after),
{
}

} // verus!
