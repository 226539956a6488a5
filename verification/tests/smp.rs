use axvisor::smp::{
    rust_main_secondary, start_secondary_cpus, SecondaryAction, SecondaryBoot, SecondaryFeatures,
    SecondarySlots, SecondaryStages, SECONDARY_STAGE_ENTERED, SECONDARY_STAGE_IRQ_READY,
    SECONDARY_STAGE_LATER_INIT_BEGIN, SECONDARY_STAGE_MEMORY_INIT_BEGIN, SECONDARY_STAGE_NONE,
};

#[test]
fn stages_of_unknown_cpus_are_passed_over() {
    let mut stages = SecondaryStages::new(2);
    assert_eq!(stages.secondary_stage(1), SECONDARY_STAGE_NONE);
    stages.set_secondary_stage(1, SECONDARY_STAGE_IRQ_READY);
    stages.set_secondary_stage(7, SECONDARY_STAGE_IRQ_READY);
    assert_eq!(stages.secondary_stage(0), SECONDARY_STAGE_NONE);
    assert_eq!(stages.secondary_stage(1), SECONDARY_STAGE_IRQ_READY);
    assert_eq!(stages.secondary_stage(7), SECONDARY_STAGE_NONE);
}

#[test]
fn secondaries_are_booted_one_after_the_other() {
    let mut boot = start_secondary_cpus(1, 4, true);
    let mut slots = SecondarySlots::new(3);
    let mut order = Vec::new();
    let mut entered = 1;
    while let Some(SecondaryBoot { cpu_id, slot }) = boot.next_secondary() {
        slots.prepare_secondary_boot_stack(slot, cpu_id);
        assert!(!boot.has_entered(entered));
        entered += 1;
        assert!(boot.has_entered(entered));
        order.push(cpu_id);
    }
    assert_eq!(order, vec![0, 2, 3]);
    assert_eq!(slots.cpu_by_slot, vec![0, 2, 3]);
}

#[test]
fn no_more_secondaries_than_places_are_booted() {
    let mut boot = start_secondary_cpus(9, 3, true);
    assert_eq!(
        boot.next_secondary(),
        Some(SecondaryBoot { cpu_id: 0, slot: 0 })
    );
    assert_eq!(
        boot.next_secondary(),
        Some(SecondaryBoot { cpu_id: 1, slot: 1 })
    );
    assert_eq!(boot.next_secondary(), None);
    assert_eq!(start_secondary_cpus(0, 1, true).next_secondary(), None);
    assert_eq!(start_secondary_cpus(0, 0, true).next_secondary(), None);
}

#[test]
fn excess_cpus_are_parked() {
    let features = SecondaryFeatures {
        paging: true,
        ipi: true,
    };
    assert_eq!(
        rust_main_secondary(4, 4, features),
        vec![
            SecondaryAction::Stage(SECONDARY_STAGE_ENTERED),
            SecondaryAction::Park
        ]
    );
}

#[test]
fn secondary_goes_through_the_stages_in_order() {
    let features = SecondaryFeatures {
        paging: true,
        ipi: true,
    };
    let plan = rust_main_secondary(3, 4, features);
    let stages: Vec<usize> = plan
        .iter()
        .filter_map(|action| match action {
            SecondaryAction::Stage(stage) => Some(*stage),
            _ => Option::None,
        })
        .collect();
    assert_eq!(stages, (1..=17).collect::<Vec<usize>>());
    let work: Vec<SecondaryAction> = plan
        .into_iter()
        .filter(|action| !matches!(action, SecondaryAction::Stage(_)))
        .collect();
    assert_eq!(
        work,
        vec![
            SecondaryAction::InitPercpu,
            SecondaryAction::InitSlab,
            SecondaryAction::InitEarly,
            SecondaryAction::PublishEntered,
            SecondaryAction::InitMemory,
            SecondaryAction::InitLater,
            SecondaryAction::InitScheduler,
            SecondaryAction::ReleaseBootstrap,
            SecondaryAction::InitIpi,
            SecondaryAction::InitPercpuIrq,
            SecondaryAction::EnableIrqs,
            SecondaryAction::FlushTlb,
            SecondaryAction::MarkIpiReady,
            SecondaryAction::MarkLogWakeReady,
            SecondaryAction::PublishInited,
            SecondaryAction::WaitForInit,
            SecondaryAction::RunIdle,
        ]
    );
}

#[test]
fn stages_of_missing_features_are_left_out() {
    let features = SecondaryFeatures {
        paging: false,
        ipi: false,
    };
    let plan = rust_main_secondary(0, 1, features);
    assert!(!plan.contains(&SecondaryAction::Stage(SECONDARY_STAGE_MEMORY_INIT_BEGIN)));
    assert!(plan.contains(&SecondaryAction::Stage(SECONDARY_STAGE_LATER_INIT_BEGIN)));
    for missing in [
        SecondaryAction::InitMemory,
        SecondaryAction::InitIpi,
        SecondaryAction::FlushTlb,
        SecondaryAction::MarkIpiReady,
    ] {
        assert!(!plan.contains(&missing));
    }
    assert_eq!(plan.last(), Some(&SecondaryAction::RunIdle));
}
