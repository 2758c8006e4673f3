use vkscaffold::errors::Error;
use vkscaffold::queue::{
    default_queue_mapper, queue_flags_to_op_index, QueueFamily, QueueHandles, QueueSelections,
    COMPUTE, COUNT, DEFAULT_QUEUE_PRIORITY, GRAPHICS, PRESENT, QUEUE_FLAG_COMPUTE,
    QUEUE_FLAG_GRAPHICS, QUEUE_FLAG_TRANSFER, TRANSFER,
};

#[test]
fn test_queue_flags_to_op_index() {
    assert_eq!(queue_flags_to_op_index(QUEUE_FLAG_GRAPHICS), GRAPHICS);
    assert_eq!(queue_flags_to_op_index(QUEUE_FLAG_COMPUTE), COMPUTE);
    assert_eq!(queue_flags_to_op_index(QUEUE_FLAG_TRANSFER), TRANSFER);
    // A combined or unknown flags word maps to COUNT.
    assert_eq!(
        queue_flags_to_op_index(QUEUE_FLAG_GRAPHICS | QUEUE_FLAG_COMPUTE),
        COUNT
    );
    assert_eq!(queue_flags_to_op_index(0), COUNT);
}

#[test]
fn test_queue_family_single() {
    let family = QueueFamily::single();
    assert_eq!(family.count, 1);
    assert_eq!(family.priorities, vec![DEFAULT_QUEUE_PRIORITY]);
}

#[test]
fn test_queue_handles_new() {
    let handles = QueueHandles::new();
    assert_eq!(handles.queues.len(), COUNT);
    assert!(handles.queues.iter().all(|q| q.is_none()));
}

#[test]
fn test_insert_operation_no_collision() {
    // Distinct operations inserted into the same family get distinct offsets.
    let mut selections = QueueSelections::new(2);
    selections.insert_operation(GRAPHICS as u8, 1).unwrap();
    selections.insert_operation(PRESENT as u8, 1).unwrap();
    selections.insert_operation(COMPUTE as u8, 0).unwrap();

    let g = selections.operations[GRAPHICS].as_ref().unwrap();
    let p = selections.operations[PRESENT].as_ref().unwrap();
    let c = selections.operations[COMPUTE].as_ref().unwrap();
    assert_eq!((g.index, g.offset), (1, 0));
    assert_eq!((p.index, p.offset), (1, 1));
    assert_eq!((c.index, c.offset), (0, 0));

    let family1 = selections.families[1].as_ref().unwrap();
    assert_eq!(family1.count, 2);
    assert_eq!(
        family1.priorities,
        vec![DEFAULT_QUEUE_PRIORITY, DEFAULT_QUEUE_PRIORITY]
    );
}

#[test]
fn test_insert_operation_twice_fails() {
    let mut selections = QueueSelections::new(1);
    selections.insert_operation(GRAPHICS as u8, 0).unwrap();
    let err = selections.insert_operation(GRAPHICS as u8, 0).unwrap_err();
    assert_eq!(err, Error::OperationAlreadyAssigned);
    // The failed insertion left the selection unchanged.
    assert_eq!(selections.families[0].as_ref().unwrap().count, 1);
}

#[test]
fn test_to_vk_creation_info_ascending() {
    let mut selections = QueueSelections::new(3);
    selections.insert_operation(GRAPHICS as u8, 2).unwrap();
    selections.insert_operation(PRESENT as u8, 0).unwrap();
    selections.insert_operation(TRANSFER as u8, 2).unwrap();

    let infos = selections.to_vk_creation_info();
    assert_eq!(infos.len(), 2);
    assert_eq!(infos[0].queue_family_index, 0);
    assert_eq!(infos[0].queue_count, 1);
    assert_eq!(infos[1].queue_family_index, 2);
    assert_eq!(infos[1].queue_count, 2);
    assert_eq!(
        infos[1].queue_priorities,
        vec![DEFAULT_QUEUE_PRIORITY, DEFAULT_QUEUE_PRIORITY]
    );
}

#[test]
fn test_default_queue_mapper_deduplicates() {
    // The same operation feasible on two families is assigned exactly once;
    // if the extraction pass handed its input back unchanged, the second
    // insertion of GRAPHICS would fail and this call would panic.
    let ops = [GRAPHICS as u8, GRAPHICS as u8, PRESENT as u8];
    let fams = [0u32, 1u32, 1u32];
    let selections = default_queue_mapper(&ops, &fams, 2);

    let g = selections.operations[GRAPHICS].as_ref().unwrap();
    let p = selections.operations[PRESENT].as_ref().unwrap();
    assert!(g.index == 0 || g.index == 1);
    assert_eq!(p.index, 1);
    assert!(selections.operations[COMPUTE].is_none());
    assert!(selections.operations[TRANSFER].is_none());
    // No two assigned operations share a (family, offset) slot.
    assert!((g.index, g.offset) != (p.index, p.offset));
}
