use micro_core::priority_ops::{
    EventKind, L1FactoryDep, PriorityOp, PriorityOpsError, PriorityOpsEventProcessor,
};

fn op(serial_id: u64, eth_block: u64, source_index: usize) -> PriorityOp {
    PriorityOp { serial_id, eth_block, source_index }
}

fn dep(serial_id: u64, dep_index: u32, splitted_index: u32, bytes: &[u8]) -> L1FactoryDep {
    L1FactoryDep { serial_id, dep_index, splitted_index, bytes: bytes.to_vec() }
}

fn processor(next: u64) -> PriorityOpsEventProcessor {
    PriorityOpsEventProcessor::new(next, [1u8; 32], [2u8; 32])
}

#[test]
fn relevant_topics_and_classification() {
    let p = processor(0);
    assert_eq!(p.relevant_topic(), vec![[1u8; 32], [2u8; 32]]);
    assert_eq!(p.classify_event(&[1u8; 32]), EventKind::PriorityRequest);
    assert_eq!(p.classify_event(&[2u8; 32]), EventKind::FactoryDeps);
    assert_eq!(p.classify_event(&[3u8; 32]), EventKind::Other);
}

#[test]
fn ops_are_deduplicated_sorted_and_assembled() {
    let mut p = processor(5);
    let ops = vec![op(6, 101, 0), op(5, 100, 1), op(6, 102, 2), op(7, 103, 3)];
    let deps = vec![
        dep(5, 0, 1, &[3, 4]),
        dep(5, 0, 0, &[1, 2]),
        dep(5, 0, 1, &[9, 9]),
        dep(5, 1, 0, &[7]),
        dep(7, 0, 0, &[8]),
    ];
    assert_eq!(p.check_events(&ops, &deps), Ok(()));
    let out = p.process_events(ops, deps);
    assert_eq!(out.len(), 3);
    assert_eq!(out[0].serial_id, 5);
    assert_eq!(out[0].eth_block, 100);
    assert_eq!(out[0].source_index, 1);
    assert_eq!(out[0].factory_deps, vec![vec![1, 2, 3, 4], vec![7]]);
    assert_eq!(out[1].serial_id, 6);
    // the first occurrence of a serial id is kept
    assert_eq!(out[1].eth_block, 101);
    assert_eq!(out[1].source_index, 0);
    assert_eq!(out[1].factory_deps, Vec::<Vec<u8>>::new());
    assert_eq!(out[2].serial_id, 7);
    assert_eq!(out[2].factory_deps, vec![vec![8]]);
    assert_eq!(p.next_expected_priority_id, 8);
}

#[test]
fn already_seen_ops_are_skipped() {
    let mut p = processor(7);
    let out = p.process_events(vec![op(5, 1, 0), op(6, 1, 1), op(7, 2, 2)], vec![]);
    assert_eq!(out.len(), 1);
    assert_eq!(out[0].serial_id, 7);
    assert_eq!(p.next_expected_priority_id, 8);

    let mut q = processor(9);
    let none = q.process_events(vec![op(5, 1, 0), op(6, 1, 1)], vec![]);
    assert!(none.is_empty());
    assert_eq!(q.next_expected_priority_id, 9);

    let mut e = processor(3);
    assert!(e.process_events(vec![], vec![]).is_empty());
    assert_eq!(e.next_expected_priority_id, 3);
}

#[test]
fn gap_in_serial_ids() {
    let mut p = processor(1);
    assert_eq!(
        p.check_events(&vec![op(1, 1, 0), op(3, 1, 1)], &vec![]),
        Err::<(), _>(PriorityOpsError::Gap)
    );
    assert_eq!(p.next_expected_priority_id, 1);
}

#[test]
fn first_new_op_is_not_the_expected_one() {
    let mut p = processor(1);
    assert_eq!(
        p.check_events(&vec![op(2, 1, 0), op(3, 1, 1)], &vec![]),
        Err::<(), _>(PriorityOpsError::SerialIdMismatch)
    );
    assert_eq!(p.next_expected_priority_id, 1);
}

#[test]
fn dependency_index_out_of_range() {
    let mut p = processor(1);
    assert_eq!(
        p.check_events(&vec![op(1, 1, 0)], &vec![dep(1, 1, 0, &[1])]),
        Err::<(), _>(PriorityOpsError::DepIndexOutOfRange)
    );
    assert_eq!(p.next_expected_priority_id, 1);
}

#[test]
fn last_serial_id_has_no_successor() {
    let mut p = processor(u64::MAX);
    assert_eq!(
        p.check_events(&vec![op(u64::MAX, 1, 0)], &vec![]),
        Err::<(), _>(PriorityOpsError::SerialIdOverflow)
    );
}

#[test]
fn replaying_events_adds_nothing() {
    let mut p = processor(10);
    let ops = vec![op(11, 2, 0), op(10, 1, 1), op(12, 3, 2)];
    assert_eq!(p.check_events(&ops, &vec![]), Ok(()));
    let first = p.process_events(ops.clone(), vec![]);
    let ids: Vec<u64> = first.iter().map(|o| o.serial_id).collect();
    assert_eq!(ids, vec![10, 11, 12]);
    assert_eq!(p.next_expected_priority_id, 13);
    assert_eq!(p.check_events(&ops, &vec![]), Ok(()));
    let again = p.process_events(ops, vec![]);
    assert!(again.is_empty());
    assert_eq!(p.next_expected_priority_id, 13);
}
