//! Bring-up of secondary processors.
//!
//! The primary processor boots one secondary after the other and waits for each to enter the
//! runtime. A secondary goes through numbered stages, so that the primary can tell how far one is
//! that does not come up.

use vstd::prelude::*;

verus! {

/// The processor has not started.
pub const SECONDARY_STAGE_NONE: usize = 0;

/// The processor has entered the runtime.
pub const SECONDARY_STAGE_ENTERED: usize = 1;

/// Per-processor data is being set up.
pub const SECONDARY_STAGE_PERCPU_INIT_BEGIN: usize = 2;

/// Per-processor data is set up.
pub const SECONDARY_STAGE_PERCPU_READY: usize = 3;

/// The per-processor allocator is being set up.
pub const SECONDARY_STAGE_SLAB_INIT_BEGIN: usize = 4;

/// The per-processor allocator is set up.
pub const SECONDARY_STAGE_SLAB_READY: usize = 5;

/// Early platform initialisation is going on.
pub const SECONDARY_STAGE_EARLY_INIT_BEGIN: usize = 6;

/// Early platform initialisation is done.
pub const SECONDARY_STAGE_EARLY_READY: usize = 7;

/// The primary processor is told that this one is here.
pub const SECONDARY_STAGE_ENTERED_PUBLISHED: usize = 8;

/// Memory management is being set up.
pub const SECONDARY_STAGE_MEMORY_INIT_BEGIN: usize = 9;

/// Memory management is set up.
pub const SECONDARY_STAGE_MEMORY_READY: usize = 10;

/// Late platform initialisation is going on.
pub const SECONDARY_STAGE_LATER_INIT_BEGIN: usize = 11;

/// Late platform initialisation is done.
pub const SECONDARY_STAGE_LATER_READY: usize = 12;

/// The scheduler is being set up.
pub const SECONDARY_STAGE_SCHEDULER_INIT_BEGIN: usize = 13;

/// The scheduler is set up.
pub const SECONDARY_STAGE_SCHEDULER_READY: usize = 14;

/// Interrupt delivery is being set up.
pub const SECONDARY_STAGE_IRQ_INIT_BEGIN: usize = 15;

/// Interrupt delivery is set up.
pub const SECONDARY_STAGE_IRQ_READY: usize = 16;

/// The processor is up.
pub const SECONDARY_STAGE_INITED_PUBLISHED: usize = 17;

/// Last stage that each processor was seen in.
#[derive(Debug)]
pub struct SecondaryStages {
    /// The stages, by processor.
    pub by_cpu: Vec<usize>,
}

impl SecondaryStages {
    /// Creates the table for `capacity` processors that have not started.
    pub fn new(capacity: usize) -> (stages: SecondaryStages)
        ensures
            stages.by_cpu@ == Seq::new(capacity as nat, |i: int| SECONDARY_STAGE_NONE),
    {
        let mut by_cpu: Vec<usize> = Vec::new();
        while by_cpu.len() < capacity
            invariant
                by_cpu@ == Seq::new(by_cpu@.len(), |i: int| SECONDARY_STAGE_NONE),
                by_cpu@.len() <= capacity,
            decreases capacity - by_cpu@.len(),
        {
            by_cpu.push(SECONDARY_STAGE_NONE);
            assert(by_cpu@ =~= Seq::new(by_cpu@.len(), |i: int| SECONDARY_STAGE_NONE));
        }
        SecondaryStages { by_cpu }
    }

    /// Notes the stage of a processor; one that the table has no place for is passed over.
    pub fn set_secondary_stage(&mut self, cpu_id: usize, stage: usize)
        ensures
            final(self).by_cpu@ == (if cpu_id < old(self).by_cpu@.len() {
                old(self).by_cpu@.update(cpu_id as int, stage)
            } else {
                old(self).by_cpu@
            }),
    {
        if cpu_id < self.by_cpu.len() {
            self.by_cpu.set(cpu_id, stage);
        }
    }

    /// Returns the last stage that a processor was seen in.
    pub fn secondary_stage(&self, cpu_id: usize) -> (stage: usize)
        ensures
            stage == (if cpu_id < self.by_cpu@.len() {
                self.by_cpu@[cpu_id as int]
            } else {
                SECONDARY_STAGE_NONE
            }),
    {
        if cpu_id < self.by_cpu.len() {
            self.by_cpu[cpu_id]
        } else {
            SECONDARY_STAGE_NONE
        }
    }
}

/// A secondary processor that is booted next.
#[derive(Clone, Copy, Debug, PartialEq, Eq, Structural)]
pub struct SecondaryBoot {
    /// The processor.
    pub cpu_id: usize,
    /// Its place in the boot order.
    pub slot: usize,
}

/// The processor with the given place in the boot order: all but the primary, in order.
pub open spec fn secondary_at(primary_cpu_id: usize, slot: int) -> int {
    if slot < primary_cpu_id {
        slot
    } else {
        slot + 1
    }
}

/// Whether a processor has a place in the boot order.
pub open spec fn has_place(primary_cpu_id: usize, cpu_num: usize, cpu: int) -> bool {
    exists|slot: int|
        0 <= slot < cpu_num - 1 && #[trigger] secondary_at(primary_cpu_id, slot) == cpu
}

/// The primary processor's round over the secondaries.
#[derive(Clone, Copy, Debug, PartialEq, Eq, Structural)]
pub struct PrimaryBoot {
    /// The primary processor.
    pub primary_cpu_id: usize,
    /// Number of processors.
    pub cpu_num: usize,
    /// Number of secondaries that were booted.
    pub slot: usize,
}

/// Starts the round over the secondary processors.
///
/// Processors share memory in a coherent way.
pub fn start_secondary_cpus(primary_cpu_id: usize, cpu_num: usize, coherent: bool) -> (boot:
    PrimaryBoot)
    requires
        coherent,
    ensures
        boot == (PrimaryBoot { primary_cpu_id, cpu_num, slot: 0 }),
        boot.wf(),
{
    PrimaryBoot { primary_cpu_id, cpu_num, slot: 0 }
}

impl PrimaryBoot {
    /// No more secondaries were booted than there are.
    pub open spec fn wf(self) -> bool {
        self.slot == 0 || self.slot < self.cpu_num
    }

    /// Boots the next secondary processor, if one is left.
    pub fn next_secondary(&mut self) -> (next: Option<SecondaryBoot>)
        requires
            old(self).wf(),
        ensures
            final(self).wf(),
            next is Some <==> old(self).slot + 1 < old(self).cpu_num,
            next matches Some(boot) ==> {
                &&& boot.slot == old(self).slot
                &&& boot.cpu_id == secondary_at(old(self).primary_cpu_id, boot.slot as int)
                &&& boot.cpu_id < old(self).cpu_num
                &&& *final(self) == (PrimaryBoot {
                    slot: (old(self).slot + 1) as usize,
                    ..*old(self)
                })
            },
            next is None ==> *final(self) == *old(self),
    {
        if self.cpu_num == 0 || self.slot >= self.cpu_num - 1 {
            return None;
        }
        let slot: usize = self.slot;
        let cpu_id: usize = if slot < self.primary_cpu_id {
            slot
        } else {
            slot + 1
        };
        self.slot = slot + 1;
        Some(SecondaryBoot { cpu_id, slot })
    }

    /// Returns whether the last secondary that was booted has entered the runtime, where
    /// `entered_cpus` processors have, the primary among them.
    pub fn has_entered(&self, entered_cpus: usize) -> (entered: bool)
        ensures
            entered == (entered_cpus > self.slot),
    {
        entered_cpus > self.slot
    }
}

/// No secondary is booted twice, the primary is none of them, and with the primary among the
/// processors every other one has a place.
pub proof fn law_boot_order_covers_secondaries(primary_cpu_id: usize, cpu_num: usize)
    requires
        primary_cpu_id < cpu_num,
    ensures
        forall|slot: int|
            #![trigger secondary_at(primary_cpu_id, slot)]
            0 <= slot < cpu_num - 1 ==> 0 <= secondary_at(primary_cpu_id, slot) < cpu_num
                && secondary_at(primary_cpu_id, slot) != primary_cpu_id,
        forall|a: int, b: int|
            #![trigger secondary_at(primary_cpu_id, a), secondary_at(primary_cpu_id, b)]
            0 <= a < b ==> secondary_at(primary_cpu_id, a) < secondary_at(primary_cpu_id, b),
        forall|cpu: int|
            0 <= cpu < cpu_num && cpu != primary_cpu_id ==> #[trigger] has_place(
                primary_cpu_id,
                cpu_num,
                cpu,
            ),
{
    assert forall|cpu: int| 0 <= cpu < cpu_num && cpu != primary_cpu_id implies #[trigger] has_place(
        primary_cpu_id,
        cpu_num,
        cpu,
    ) by {
        let slot = if cpu < primary_cpu_id {
            cpu
        } else {
            cpu - 1
        };
        assert(secondary_at(primary_cpu_id, slot) == cpu);
    }
}

/// Places of the secondaries' boot stacks.
#[derive(Debug)]
pub struct SecondarySlots {
    /// Processor of each place, `usize::MAX` while there is none.
    pub cpu_by_slot: Vec<usize>,
}

impl SecondarySlots {
    /// Creates empty places.
    pub fn new(count: usize) -> (slots: SecondarySlots)
        ensures
            slots.cpu_by_slot@ == Seq::new(count as nat, |i: int| usize::MAX),
    {
        let mut cpu_by_slot: Vec<usize> = Vec::new();
        while cpu_by_slot.len() < count
            invariant
                cpu_by_slot@ == Seq::new(cpu_by_slot@.len(), |i: int| usize::MAX),
                cpu_by_slot@.len() <= count,
            decreases count - cpu_by_slot@.len(),
        {
            cpu_by_slot.push(usize::MAX);
            assert(cpu_by_slot@ =~= Seq::new(cpu_by_slot@.len(), |i: int| usize::MAX));
        }
        SecondarySlots { cpu_by_slot }
    }

    /// Gives a place to a processor.
    pub fn prepare_secondary_boot_stack(&mut self, slot: usize, cpu_id: usize)
        requires
            slot < old(self).cpu_by_slot@.len(),
        ensures
            final(self).cpu_by_slot@ == old(self).cpu_by_slot@.update(slot as int, cpu_id),
    {
        self.cpu_by_slot.set(slot, cpu_id);
    }
}

/// What the runtime was built with.
#[derive(Clone, Copy, Debug, PartialEq, Eq, Structural)]
pub struct SecondaryFeatures {
    /// Whether processors have memory management of their own.
    pub paging: bool,
    /// Whether processors interrupt each other.
    pub ipi: bool,
}

/// One thing that a secondary processor does on its way up.
#[derive(Clone, Copy, Debug, PartialEq, Eq, Structural)]
pub enum SecondaryAction {
    /// Announce a stage.
    Stage(usize),
    /// Wait for interrupts for ever.
    Park,
    /// Set up per-processor data.
    InitPercpu,
    /// Set up the per-processor allocator.
    InitSlab,
    /// Initialise the platform before the scheduler.
    InitEarly,
    /// Count this processor among those that entered.
    PublishEntered,
    /// Set up memory management.
    InitMemory,
    /// Initialise the rest of the platform.
    InitLater,
    /// Set up the scheduler on the boot stack.
    InitScheduler,
    /// Allow preemption.
    ReleaseBootstrap,
    /// Set up interrupts between processors.
    InitIpi,
    /// Set up interrupt delivery.
    InitPercpuIrq,
    /// Enable interrupts.
    EnableIrqs,
    /// Drop stale address translations.
    FlushTlb,
    /// Accept interrupts from other processors.
    MarkIpiReady,
    /// Accept wake-ups for log records.
    MarkLogWakeReady,
    /// Count this processor among those that are up.
    PublishInited,
    /// Wait until all processors are up.
    WaitForInit,
    /// Run the idle loop.
    RunIdle,
}

/// What a processor does in a stage.
pub open spec fn stage_work(stage: usize, features: SecondaryFeatures) -> Seq<SecondaryAction> {
    if stage == SECONDARY_STAGE_PERCPU_INIT_BEGIN {
        seq![SecondaryAction::InitPercpu]
    } else if stage == SECONDARY_STAGE_SLAB_INIT_BEGIN {
        seq![SecondaryAction::InitSlab]
    } else if stage == SECONDARY_STAGE_EARLY_INIT_BEGIN {
        seq![SecondaryAction::InitEarly]
    } else if stage == SECONDARY_STAGE_ENTERED_PUBLISHED {
        seq![SecondaryAction::PublishEntered]
    } else if stage == SECONDARY_STAGE_MEMORY_INIT_BEGIN {
        seq![SecondaryAction::InitMemory]
    } else if stage == SECONDARY_STAGE_LATER_INIT_BEGIN {
        seq![SecondaryAction::InitLater]
    } else if stage == SECONDARY_STAGE_SCHEDULER_INIT_BEGIN {
        seq![SecondaryAction::InitScheduler]
    } else if stage == SECONDARY_STAGE_SCHEDULER_READY {
        if features.ipi {
            seq![SecondaryAction::ReleaseBootstrap, SecondaryAction::InitIpi]
        } else {
            seq![SecondaryAction::ReleaseBootstrap]
        }
    } else if stage == SECONDARY_STAGE_IRQ_INIT_BEGIN {
        if features.ipi {
            seq![
                SecondaryAction::InitPercpuIrq,
                SecondaryAction::EnableIrqs,
                SecondaryAction::FlushTlb,
                SecondaryAction::MarkIpiReady,
            ]
        } else {
            seq![SecondaryAction::InitPercpuIrq, SecondaryAction::EnableIrqs]
        }
    } else if stage == SECONDARY_STAGE_IRQ_READY {
        seq![SecondaryAction::MarkLogWakeReady]
    } else if stage == SECONDARY_STAGE_INITED_PUBLISHED {
        seq![
            SecondaryAction::PublishInited,
            SecondaryAction::WaitForInit,
            SecondaryAction::RunIdle,
        ]
    } else {
        Seq::empty()
    }
}

/// Adds what a processor does in a stage.
pub fn push_stage_work(stage: usize, features: SecondaryFeatures, plan: &mut Vec<SecondaryAction>)
    ensures
        final(plan)@ == old(plan)@ + stage_work(stage, features),
{
    if stage == SECONDARY_STAGE_PERCPU_INIT_BEGIN {
        plan.push(SecondaryAction::InitPercpu);
    } else if stage == SECONDARY_STAGE_SLAB_INIT_BEGIN {
        plan.push(SecondaryAction::InitSlab);
    } else if stage == SECONDARY_STAGE_EARLY_INIT_BEGIN {
        plan.push(SecondaryAction::InitEarly);
    } else if stage == SECONDARY_STAGE_ENTERED_PUBLISHED {
        plan.push(SecondaryAction::PublishEntered);
    } else if stage == SECONDARY_STAGE_MEMORY_INIT_BEGIN {
        plan.push(SecondaryAction::InitMemory);
    } else if stage == SECONDARY_STAGE_LATER_INIT_BEGIN {
        plan.push(SecondaryAction::InitLater);
    } else if stage == SECONDARY_STAGE_SCHEDULER_INIT_BEGIN {
        plan.push(SecondaryAction::InitScheduler);
    } else if stage == SECONDARY_STAGE_SCHEDULER_READY {
        plan.push(SecondaryAction::ReleaseBootstrap);
        if features.ipi {
            plan.push(SecondaryAction::InitIpi);
        }
    } else if stage == SECONDARY_STAGE_IRQ_INIT_BEGIN {
        plan.push(SecondaryAction::InitPercpuIrq);
        plan.push(SecondaryAction::EnableIrqs);
        if features.ipi {
            plan.push(SecondaryAction::FlushTlb);
            plan.push(SecondaryAction::MarkIpiReady);
        }
    } else if stage == SECONDARY_STAGE_IRQ_READY {
        plan.push(SecondaryAction::MarkLogWakeReady);
    } else if stage == SECONDARY_STAGE_INITED_PUBLISHED {
        plan.push(SecondaryAction::PublishInited);
        plan.push(SecondaryAction::WaitForInit);
        plan.push(SecondaryAction::RunIdle);
    }
    assert(plan@ =~= old(plan)@ + stage_work(stage, features));
}

/// The stage that follows a stage: the next one, past those of memory management where there is
/// none.
pub open spec fn stage_after(stage: usize, features: SecondaryFeatures) -> usize {
    if stage == SECONDARY_STAGE_ENTERED_PUBLISHED && !features.paging {
        SECONDARY_STAGE_LATER_INIT_BEGIN
    } else {
        (stage + 1) as usize
    }
}

/// What a processor does from a stage on.
pub open spec fn plan_from(stage: usize, features: SecondaryFeatures) -> Seq<SecondaryAction>
    decreases 18 - stage,
{
    if stage > SECONDARY_STAGE_INITED_PUBLISHED {
        Seq::empty()
    } else {
        seq![SecondaryAction::Stage(stage)] + stage_work(stage, features) + plan_from(
            stage_after(stage, features),
            features,
        )
    }
}

/// What a secondary processor does: one that the runtime has no place for is parked, every other one
/// goes through the stages.
pub open spec fn secondary_plan(cpu_id: usize, capacity: usize, features: SecondaryFeatures) -> Seq<
    SecondaryAction,
> {
    if cpu_id >= capacity {
        seq![SecondaryAction::Stage(SECONDARY_STAGE_ENTERED), SecondaryAction::Park]
    } else {
        plan_from(SECONDARY_STAGE_ENTERED, features)
    }
}

/// Returns what a secondary processor does, from its entry to the idle loop.
///
/// Machines may start more processors than the runtime was built for. Those are parked before
/// anything is indexed with their number.
pub fn rust_main_secondary(cpu_id: usize, capacity: usize, features: SecondaryFeatures) -> (plan: Vec<
    SecondaryAction,
>)
    ensures
        plan@ == secondary_plan(cpu_id, capacity, features),
{
    let mut plan: Vec<SecondaryAction> = Vec::new();
    if cpu_id >= capacity {
        plan.push(SecondaryAction::Stage(SECONDARY_STAGE_ENTERED));
        plan.push(SecondaryAction::Park);
        assert(plan@ =~= secondary_plan(cpu_id, capacity, features));
        return plan;
    }
    let ghost whole = plan_from(SECONDARY_STAGE_ENTERED, features);
    let mut stage: usize = SECONDARY_STAGE_ENTERED;
    assert(plan@ + plan_from(stage, features) =~= whole);
    while stage <= SECONDARY_STAGE_INITED_PUBLISHED
        invariant
            stage <= 18,
            plan@ + plan_from(stage, features) == whole,
        decreases 18 - stage,
    {
        let ghost before = plan@;
        let ghost rest = plan_from(stage_after(stage, features), features);
        plan.push(SecondaryAction::Stage(stage));
        push_stage_work(stage, features, &mut plan);
        assert(plan@ + rest =~= before + (seq![SecondaryAction::Stage(stage)] + stage_work(
            stage,
            features,
        ) + rest));
        stage = if stage == SECONDARY_STAGE_ENTERED_PUBLISHED && !features.paging {
            SECONDARY_STAGE_LATER_INIT_BEGIN
        } else {
            stage + 1
        };
    }
    assert(plan@ =~= plan@ + plan_from(stage, features));
    plan
}

/// The stage that an action belongs to.
pub open spec fn stage_of(action: SecondaryAction) -> int {
    match action {
        SecondaryAction::Stage(stage) => stage as int,
        SecondaryAction::Park => 1,
        SecondaryAction::InitPercpu => 2,
        SecondaryAction::InitSlab => 4,
        SecondaryAction::InitEarly => 6,
        SecondaryAction::PublishEntered => 8,
        SecondaryAction::InitMemory => 9,
        SecondaryAction::InitLater => 11,
        SecondaryAction::InitScheduler => 13,
        SecondaryAction::ReleaseBootstrap => 14,
        SecondaryAction::InitIpi => 14,
        SecondaryAction::InitPercpuIrq => 15,
        SecondaryAction::EnableIrqs => 15,
        SecondaryAction::FlushTlb => 15,
        SecondaryAction::MarkIpiReady => 15,
        SecondaryAction::MarkLogWakeReady => 16,
        SecondaryAction::PublishInited => 17,
        SecondaryAction::WaitForInit => 17,
        SecondaryAction::RunIdle => 17,
    }
}

/// What a processor does from a stage on belongs to that stage and later ones, in order, and each
/// stage is announced before anything of it is done.
pub proof fn lemma_plan_is_ordered(stage: usize, features: SecondaryFeatures)
    requires
        1 <= stage <= 18,
    ensures
        forall|i: int|
            #![trigger plan_from(stage, features)[i]]
            0 <= i < plan_from(stage, features).len() ==> stage_of(plan_from(stage, features)[i])
                >= stage,
        forall|i: int, j: int|
            #![trigger plan_from(stage, features)[i], plan_from(stage, features)[j]]
            0 <= i < j < plan_from(stage, features).len() ==> stage_of(
                plan_from(stage, features)[i],
            ) <= stage_of(plan_from(stage, features)[j]),
        forall|i: int, j: int|
            #![trigger plan_from(stage, features)[i], plan_from(stage, features)[j]]
            0 <= i < j < plan_from(stage, features).len() && plan_from(stage, features)[j] is Stage
                ==> stage_of(plan_from(stage, features)[i]) < stage_of(
                plan_from(stage, features)[j],
            ),
    decreases 18 - stage,
{
    if stage < 18 {
        let next = stage_after(stage, features);
        let head = seq![SecondaryAction::Stage(stage)] + stage_work(stage, features);
        let rest = plan_from(next, features);
        let plan = plan_from(stage, features);
        lemma_plan_is_ordered(next, features);
        assert(plan =~= head + rest);
        assert forall|i: int| #![trigger head[i]] 0 <= i < head.len() implies stage_of(head[i])
            == stage && (i > 0 ==> !(head[i] is Stage)) by {}
        assert forall|i: int| #![trigger plan[i]] head.len() <= i < plan.len() implies plan[i]
            == rest[i - head.len()] by {}
        assert forall|i: int| #![trigger plan[i]] 0 <= i < head.len() implies plan[i] == head[i] by {
        }
    }
}

/// A processor that the runtime has a place for announces its stages in increasing order, does the
/// work of a stage after announcing it and before announcing the next one, and is counted as
/// entered only after early initialisation, and as up only after interrupt delivery works.
pub proof fn law_secondary_plan_is_ordered(
    cpu_id: usize,
    capacity: usize,
    features: SecondaryFeatures,
)
    requires
        cpu_id < capacity,
    ensures
        ({
            let plan = secondary_plan(cpu_id, capacity, features);
            &&& forall|i: int, j: int|
                #![trigger plan[i], plan[j]]
                0 <= i < j < plan.len() ==> stage_of(plan[i]) <= stage_of(plan[j])
            &&& forall|i: int, j: int|
                #![trigger plan[i], plan[j]]
                0 <= i < j < plan.len() && plan[j] is Stage ==> stage_of(plan[i]) < stage_of(
                    plan[j],
                )
        }),
{
    lemma_plan_is_ordered(SECONDARY_STAGE_ENTERED, features);
}

/// A processor that the runtime has no place for does nothing but announce its entry and park.
pub proof fn law_excess_cpu_parks(cpu_id: usize, capacity: usize, features: SecondaryFeatures)
    requires
        cpu_id >= capacity,
    ensures
        secondary_plan(cpu_id, capacity, features).len() == 2,
        secondary_plan(cpu_id, capacity, features)[1] == SecondaryAction::Park,
{
}

/// What a secondary does, in order: each step is announced before it is taken and, where it takes
/// long, after it; memory is only set up with paging, and the interrupts between processors only where
/// there are any.
pub proof fn law_secondary_plan_has_every_step(
    cpu_id: usize,
    capacity: usize,
    features: SecondaryFeatures,
    plan: Vec<SecondaryAction>,
)
    requires
        cpu_id < capacity,
        call_ensures(rust_main_secondary, (cpu_id, capacity, features), plan),
    ensures
        plan@ == seq![
            SecondaryAction::Stage(1),
            SecondaryAction::Stage(2),
            SecondaryAction::InitPercpu,
            SecondaryAction::Stage(3),
            SecondaryAction::Stage(4),
            SecondaryAction::InitSlab,
            SecondaryAction::Stage(5),
            SecondaryAction::Stage(6),
            SecondaryAction::InitEarly,
            SecondaryAction::Stage(7),
            SecondaryAction::Stage(8),
            SecondaryAction::PublishEntered,
        ] + (if features.paging {
            seq![
                SecondaryAction::Stage(9),
                SecondaryAction::InitMemory,
                SecondaryAction::Stage(10),
            ]
        } else {
            Seq::empty()
        }) + seq![
            SecondaryAction::Stage(11),
            SecondaryAction::InitLater,
            SecondaryAction::Stage(12),
            SecondaryAction::Stage(13),
            SecondaryAction::InitScheduler,
            SecondaryAction::Stage(14),
            SecondaryAction::ReleaseBootstrap,
        ] + (if features.ipi {
            seq![
                SecondaryAction::InitIpi,
                SecondaryAction::Stage(15),
                SecondaryAction::InitPercpuIrq,
                SecondaryAction::EnableIrqs,
                SecondaryAction::FlushTlb,
                SecondaryAction::MarkIpiReady,
            ]
        } else {
            seq![
                SecondaryAction::Stage(15),
                SecondaryAction::InitPercpuIrq,
                SecondaryAction::EnableIrqs,
            ]
        }) + seq![
            SecondaryAction::Stage(16),
            SecondaryAction::MarkLogWakeReady,
            SecondaryAction::Stage(17),
            SecondaryAction::PublishInited,
            SecondaryAction::WaitForInit,
            SecondaryAction::RunIdle,
        ],
{
    lemma_plan_from_entered(features);
    assert(entering_steps() + (memory_steps(features) + (later_steps() + (irq_steps(features)
        + last_steps()))) =~= entering_steps() + memory_steps(features) + later_steps() + irq_steps(
        features,
    ) + last_steps());
}

/// The steps up to the one that tells the primary.
spec fn entering_steps() -> Seq<SecondaryAction> {
    seq![
        SecondaryAction::Stage(1),
        SecondaryAction::Stage(2),
        SecondaryAction::InitPercpu,
        SecondaryAction::Stage(3),
        SecondaryAction::Stage(4),
        SecondaryAction::InitSlab,
        SecondaryAction::Stage(5),
        SecondaryAction::Stage(6),
        SecondaryAction::InitEarly,
        SecondaryAction::Stage(7),
        SecondaryAction::Stage(8),
        SecondaryAction::PublishEntered,
    ]
}

/// The steps that set up memory.
spec fn memory_steps(features: SecondaryFeatures) -> Seq<SecondaryAction> {
    if features.paging {
        seq![SecondaryAction::Stage(9), SecondaryAction::InitMemory, SecondaryAction::Stage(10)]
    } else {
        Seq::empty()
    }
}

/// The steps up to the release of the bootstrap.
spec fn later_steps() -> Seq<SecondaryAction> {
    seq![
        SecondaryAction::Stage(11),
        SecondaryAction::InitLater,
        SecondaryAction::Stage(12),
        SecondaryAction::Stage(13),
        SecondaryAction::InitScheduler,
        SecondaryAction::Stage(14),
        SecondaryAction::ReleaseBootstrap,
    ]
}

/// The steps that set up interrupts.
spec fn irq_steps(features: SecondaryFeatures) -> Seq<SecondaryAction> {
    if features.ipi {
        seq![
            SecondaryAction::InitIpi,
            SecondaryAction::Stage(15),
            SecondaryAction::InitPercpuIrq,
            SecondaryAction::EnableIrqs,
            SecondaryAction::FlushTlb,
            SecondaryAction::MarkIpiReady,
        ]
    } else {
        seq![
            SecondaryAction::Stage(15),
            SecondaryAction::InitPercpuIrq,
            SecondaryAction::EnableIrqs,
        ]
    }
}

/// The last steps.
spec fn last_steps() -> Seq<SecondaryAction> {
    seq![
        SecondaryAction::Stage(16),
        SecondaryAction::MarkLogWakeReady,
        SecondaryAction::Stage(17),
        SecondaryAction::PublishInited,
        SecondaryAction::WaitForInit,
        SecondaryAction::RunIdle,
    ]
}

/// The plan from the setup of interrupts on.
proof fn lemma_plan_from_irq(features: SecondaryFeatures)
    ensures
        plan_from(15, features) == irq_steps(features).skip(
            if features.ipi {
                1
            } else {
                0
            },
        ) + last_steps(),
{
    assert(plan_from(18, features) =~= Seq::empty());
    assert(plan_from(17, features) =~= last_steps().skip(2));
    assert(plan_from(16, features) =~= last_steps());
    assert(plan_from(15, features) =~= irq_steps(features).skip(
        if features.ipi {
            1
        } else {
            0
        },
    ) + last_steps());
}

/// The plan behind the setup of memory.
proof fn lemma_plan_from_later(features: SecondaryFeatures)
    ensures
        plan_from(11, features) == later_steps() + (irq_steps(features) + last_steps()),
{
    lemma_plan_from_irq(features);
    let rest = irq_steps(features) + last_steps();
    let begin: int = if features.ipi {
        1
    } else {
        0
    };
    assert(rest.skip(begin) =~= irq_steps(features).skip(begin) + last_steps());
    assert(plan_from(14, features) =~= later_steps().skip(5) + rest);
    assert(plan_from(13, features) =~= later_steps().skip(3) + rest);
    assert(plan_from(12, features) =~= later_steps().skip(2) + rest);
    assert(plan_from(11, features) =~= later_steps() + rest);
}

/// The plan behind the step that tells the primary.
proof fn lemma_plan_from_memory(features: SecondaryFeatures)
    ensures
        plan_from(stage_after(8, features), features) == memory_steps(features) + (later_steps() + (
        irq_steps(features) + last_steps())),
{
    lemma_plan_from_later(features);
    let rest = later_steps() + (irq_steps(features) + last_steps());
    if features.paging {
        assert(plan_from(10, features) =~= seq![SecondaryAction::Stage(10)] + rest);
        assert(plan_from(9, features) =~= memory_steps(features) + rest);
    } else {
        assert(memory_steps(features) + rest =~= rest);
    }
}

/// The whole plan.
proof fn lemma_plan_from_entered(features: SecondaryFeatures)
    ensures
        plan_from(1, features) == entering_steps() + (memory_steps(features) + (later_steps() + (
        irq_steps(features) + last_steps()))),
{
    lemma_plan_from_memory(features);
    let rest = plan_from(stage_after(8, features), features);
    assert(plan_from(8, features) =~= entering_steps().skip(10) + rest);
    assert(plan_from(7, features) =~= entering_steps().skip(9) + rest);
    assert(plan_from(6, features) =~= entering_steps().skip(7) + rest);
    assert(plan_from(5, features) =~= entering_steps().skip(6) + rest);
    assert(plan_from(4, features) =~= entering_steps().skip(4) + rest);
    assert(plan_from(3, features) =~= entering_steps().skip(3) + rest);
    assert(plan_from(2, features) =~= entering_steps().skip(1) + rest);
    assert(plan_from(1, features) =~= entering_steps() + rest);
}

/// A processor that there is no room for announces itself and stops.
pub proof fn law_excess_cpu_only_parks(
    cpu_id: usize,
    capacity: usize,
    features: SecondaryFeatures,
    plan: Vec<SecondaryAction>,
)
    requires
        cpu_id >= capacity,
        call_ensures(rust_main_secondary, (cpu_id, capacity, features), plan),
    ensures
        plan@ == seq![SecondaryAction::Stage(1), SecondaryAction::Park],
{
}

/// The primary boots the other processors in the order of their numbers, leaving itself out, each with
/// the next free stack, until none is left; the next one waits until this one has entered.
pub proof fn law_primary_boots_in_order(
    boot: &mut PrimaryBoot,
    next: Option<SecondaryBoot>,
    entered_cpus: usize,
    entered: bool,
)
    requires
        old(boot).wf(),
        call_ensures(PrimaryBoot::next_secondary, (boot,), next),
        call_ensures(PrimaryBoot::has_entered, (&*old(boot), entered_cpus), entered),
    ensures
        next is Some <==> old(boot).slot + 1 < old(boot).cpu_num,
        next matches Some(secondary) ==> secondary.slot == old(boot).slot && final(boot).slot == old(
            boot).slot + 1,
        next is Some && old(boot).slot < old(boot).primary_cpu_id ==> next->0.cpu_id == old(
            boot).slot,
        next is Some && old(boot).slot >= old(boot).primary_cpu_id ==> next->0.cpu_id == old(
            boot).slot + 1,
        final(boot).primary_cpu_id == old(boot).primary_cpu_id,
        final(boot).cpu_num == old(boot).cpu_num,
        entered <==> entered_cpus >= old(boot).slot + 1,
{
}

/// A stage that was set is the stage that is read, of that processor only; a processor without a place
/// has stage 0.
pub proof fn law_stage_reads_back(
    stages: &mut SecondaryStages,
    after: SecondaryStages,
    cpu_id: usize,
    stage: usize,
    other: usize,
    read: usize,
    before: usize,
)
    requires
        call_ensures(SecondaryStages::set_secondary_stage, (stages, cpu_id, stage), ()),
        after == *final(stages),
        call_ensures(SecondaryStages::secondary_stage, (&after, other), read),
        call_ensures(SecondaryStages::secondary_stage, (&*old(stages), other), before),
    ensures
        other == cpu_id && cpu_id < old(stages).by_cpu@.len() ==> read == stage,
        other != cpu_id ==> read == before,
        other >= old(stages).by_cpu@.len() ==> read == 0,
        after.by_cpu@.len() == old(stages).by_cpu@.len(),
{
}

} // verus!
