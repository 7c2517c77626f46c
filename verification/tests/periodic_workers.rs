use micro_core::workers::{
    allowed_circuit_types, assembly_debug_blob_url, assembly_send_action, blob_size_in_gb, call_output,
    can_be_retried, check_commit_tx, commit_tx_problem, report_action, AssemblyDelivery, AssemblySendAction, CommitTxError,
    penalty_calls, Bucket, DeliveryStep, IdleWaiter, JobReport, JobStage, LogQuery, PenaltyCall, ProverAddress,
    ProverLockRequest, ReportAction, failed_l1_transactions_check, filter_live_nodes, penalty_tx_hash,
    punishment_order, storage_invocations_status, AssignmentsManager, CheckerAction,
    CheckerOutcome, CircuitBreakerError, CircuitSynthesizerError, ConsistencyChecker, IoErrorKind,
    L2ChainId, MonitorTransactions, NetNamespace, NodeInfo, ProverStatsReporter,
    PunishedAssignment, SendRetry, SendStep, TracerExecutionStatus, SCAN_WINDOW,
};

#[test]
fn test_group_logs() {}

#[test]
fn reporter_and_monitor_intervals() {
    let r = ProverStatsReporter::new(5000);
    assert_eq!(r.polling_interval_ms(), 5000);
    let m = MonitorTransactions::new((), 60, 1000);
    assert_eq!(m.polling_interval_ms(), 1000);
    assert!(m.is_stalled(61));
    assert!(!m.is_stalled(60));
    assert!(!m.is_stalled(-5));
}

#[test]
fn assignment_scan_ranges() {
    let mut a = AssignmentsManager::new(30, 1000, (), (), [1; 32], [2; 32]);
    assert_eq!(a.event_signatures, vec![[1; 32], [2; 32]]);
    assert_eq!(a.polling_interval_ms(), 1000);
    assert!(a.needs_start_block());
    assert_eq!(a.next_scan_range(Some(100), 5000), (100, 100 + SCAN_WINDOW));
    assert!(!a.needs_start_block());
    // the stored start is read only once
    assert_eq!(a.next_scan_range(Some(7), 1500), (100 + SCAN_WINDOW, 1500));
    assert_eq!(a.next_scan_range(None, 1500), (1500, 1500));
    let mut b = AssignmentsManager::new(30, 1000, (), (), [1; 32], [2; 32]);
    assert_eq!(b.next_scan_range(None, 10), (0, 10));
}

#[test]
fn penalties() {
    assert_eq!(penalty_tx_hash(None), None);
    assert_eq!(penalty_tx_hash(Some([0; 32])), None);
    assert_eq!(penalty_tx_hash(Some([5; 32])), Some([5; 32]));
    let list: Vec<PunishedAssignment> = (1..=3)
        .map(|i| PunishedAssignment { id: i, address: [i as u8; 20], l1_batch_number: i as u32, event_index: i })
        .collect();
    let order: Vec<u64> = punishment_order(list).iter().map(|p| p.id).collect();
    assert_eq!(order, vec![3, 2, 1]);
}

#[test]
fn consistency_checker_steps() {
    let mut c = ConsistencyChecker::new(100, 10);
    assert_eq!(c.batch_number, 90);
    assert_eq!(ConsistencyChecker::new(5, 10).batch_number, 1);
    assert_eq!(ConsistencyChecker::new(11, 10).batch_number, 1);
    assert_eq!(c.next_action(false, 100), CheckerAction::Sleep);
    assert_eq!(c.next_action(true, 89), CheckerAction::Sleep);
    assert_eq!(c.next_action(true, 90), CheckerAction::Check(90));
    assert_eq!(c.on_commitment_checked(None), CheckerOutcome::Retry);
    assert_eq!(c.batch_number, 90);
    assert_eq!(c.on_commitment_checked(Some(true)), CheckerOutcome::Advanced);
    assert_eq!(c.batch_number, 91);
}

#[test]
fn assembly_sending() {
    assert_eq!(assembly_debug_blob_url(7, 3), "assembly_debugging_7_3.bin");
    assert_eq!(assembly_debug_blob_url(0, 255), "assembly_debugging_0_255.bin");
    assert!(can_be_retried(IoErrorKind::TimedOut));
    assert!(can_be_retried(IoErrorKind::ConnectionRefused));
    assert!(!can_be_retried(IoErrorKind::Other));
    let mut s = SendRetry::new();
    for _ in 0..9 {
        assert_eq!(s.on_copy_error(IoErrorKind::TimedOut), SendStep::Retry);
    }
    assert_eq!(s.on_copy_error(IoErrorKind::ConnectionRefused), SendStep::GiveUp);
    let mut t = SendRetry::new();
    assert_eq!(t.on_copy_error(IoErrorKind::Other), SendStep::GiveUp);
    assert_eq!(t.attempts_left, 10);
    assert_eq!(blob_size_in_gb(3 * 1024 * 1024 * 1024 + 5), 3);
    assert_eq!(blob_size_in_gb(1023), 0);
}

#[test]
fn circuit_types_of_a_group() {
    assert_eq!(allowed_circuit_types(0, false, None), Ok(None));
    assert_eq!(allowed_circuit_types(4, true, None), Err(CircuitSynthesizerError::InvalidGroupCircuits(4)));
    let named = vec![(1u8, Some("Main VM".to_string())), (2u8, Some("Decommitter".to_string()))];
    assert_eq!(
        allowed_circuit_types(1, true, Some(named)),
        Ok(Some(vec!["Main VM".to_string(), "Decommitter".to_string()]))
    );
    let unnamed = vec![(1u8, Some("Main VM".to_string())), (9u8, None), (10u8, None)];
    assert_eq!(allowed_circuit_types(1, true, Some(unnamed)), Err(CircuitSynthesizerError::InvalidCircuitId(9)));
}

#[test]
fn small_checks() {
    assert_eq!(failed_l1_transactions_check(0), Ok(()));
    assert_eq!(failed_l1_transactions_check(2), Err(CircuitBreakerError::FailedL1Transaction));
    assert_eq!(storage_invocations_status(3, 5), TracerExecutionStatus::Continue);
    assert_eq!(
        storage_invocations_status(5, 5),
        TracerExecutionStatus::Abort("Storage invocations limit reached".to_string())
    );
    let net = NetNamespace::new(L2ChainId(270));
    assert_eq!(net.version_impl(), "270");
    assert_eq!(net.peer_count_impl(), 0);
    assert!(!net.is_listening_impl());
}

#[test]
fn live_node_filter() {
    let list = vec![
        NodeInfo { node_address: [1; 20], info: "a" },
        NodeInfo { node_address: [2; 20], info: "b" },
        NodeInfo { node_address: [3; 20], info: "c" },
    ];
    let live = vec![[3; 20], [1; 20]];
    let kept: Vec<&str> = filter_live_nodes(list, &live).iter().map(|n| n.info).collect();
    assert_eq!(kept, vec!["a", "c"]);
    let list = vec![NodeInfo { node_address: [1; 20], info: "a" }];
    assert_eq!(filter_live_nodes(list, &vec![]).len(), 1);
    let list = vec![NodeInfo { node_address: [1; 20], info: "a" }];
    assert_eq!(filter_live_nodes(list, &vec![[9; 20]]).len(), 0);
}

#[test]
fn system_call_output() {
    let mut w = [0u8; 32];
    w[31] = 1;
    assert_eq!(call_output(Some(vec![9, 9]), &vec![w]), vec![9, 9]);
    let out = call_output(None, &vec![w, [2; 32]]);
    assert_eq!(out.len(), 64);
    assert_eq!(out[31], 1);
    assert_eq!(out[32], 2);
    assert!(call_output(None, &vec![]).is_empty());
}

#[test]
fn commit_tx_checks() {
    let contract = [7u8; 20];
    assert_eq!(commit_tx_problem(Some(1), Some(contract), &contract), None);
    assert_eq!(commit_tx_problem(Some(0), Some(contract), &contract), Some(CommitTxError::Failed));
    assert_eq!(commit_tx_problem(None, Some([8; 20]), &contract), Some(CommitTxError::Failed));
    assert_eq!(commit_tx_problem(Some(1), Some([8; 20]), &contract), Some(CommitTxError::WrongAddress));
    assert_eq!(commit_tx_problem(Some(1), None, &contract), Some(CommitTxError::WrongAddress));
    let commitments = vec![vec![1, 2], vec![3, 4], vec![5]];
    assert!(check_commit_tx(Some(1), Some(contract), &contract, 11, 10, &commitments, &vec![3, 4]));
    assert!(!check_commit_tx(Some(1), Some(contract), &contract, 12, 10, &commitments, &vec![3, 4]));
    assert!(check_commit_tx(Some(1), Some(contract), &contract, 10, 10, &commitments, &vec![1, 2]));
}

fn prover() -> ProverAddress {
    ProverAddress { host: "10.0.0.7".to_string(), port: 3316 }
}

#[test]
fn assembly_delivery_steps() {
    let mut d = AssemblyDelivery::new(42, 3, "us-1".to_string(), "a".to_string(), 60, 1000);
    assert_eq!(
        d.lock_request(10),
        Some(ProverLockRequest { queue_timeout_secs: 60, group_id: 3, region: "us-1".to_string(), zone: "a".to_string() })
    );
    assert_eq!(d.lock_request(1000), None);
    assert_eq!(d.on_lock(Some(prover())), DeliveryStep::Send(prover()));
    assert_eq!(d.on_lock(None), DeliveryStep::Sleep);
    let (delivered, record) = d.on_sent(prover(), None, 5);
    assert!(!delivered);
    assert_eq!(d.failed_sends, 1);
    assert_eq!(
        record,
        AssemblySendAction::MarkProverDead {
            address: prover(),
            free_slots: 0,
            region: "us-1".to_string(),
            zone: "a".to_string(),
            job_id: 42,
            job_error: "prover instance unreachable".to_string(),
            max_attempts: 5,
        }
    );
    let (delivered, record) = d.on_sent(prover(), Some(3 * 1024 * 1024 * 1024), 5);
    assert!(delivered);
    assert_eq!(d.failed_sends, 1);
    assert_eq!(record, AssemblySendAction::MarkSent { job_id: 42, job_status: "in_gpu_proof".to_string(), size_in_gb: 3 });
}

#[test]
fn assembly_send_outcomes() {
    assert_eq!(
        assembly_send_action(7, prover(), "r", "z", Some(2 * 1024 * 1024 * 1024 + 7), 2),
        AssemblySendAction::MarkSent { job_id: 7, job_status: "in_gpu_proof".to_string(), size_in_gb: 2 }
    );
    assert_eq!(
        assembly_send_action(7, prover(), "r", "z", None, 2),
        AssemblySendAction::MarkProverDead {
            address: prover(),
            free_slots: 0,
            region: "r".to_string(),
            zone: "z".to_string(),
            job_id: 7,
            job_error: "prover instance unreachable".to_string(),
            max_attempts: 2,
        }
    );
}

#[test]
fn penalty_calls_and_scan_query() {
    let list: Vec<PunishedAssignment> = (1..=2)
        .map(|i| PunishedAssignment { id: i, address: [i as u8; 20], l1_batch_number: 10 + i as u32, event_index: 100 + i })
        .collect();
    assert_eq!(
        penalty_calls(list, [9; 20]),
        vec![
            PenaltyCall { to: [9; 20], l1_batch_number: 12, address: [2; 20], event_index: 102 },
            PenaltyCall { to: [9; 20], l1_batch_number: 11, address: [1; 20], event_index: 101 },
        ]
    );
    let a = AssignmentsManager::new(30, 1000, (), (), [1; 32], [2; 32]);
    assert_eq!(
        a.scan_query((5, 9), [7; 20], [8; 20]),
        LogQuery { from_block: 5, to_block: 9, addresses: vec![[7; 20], [8; 20]], topics: vec![(1, vec![[1; 32], [2; 32]])] }
    );
}

#[test]
fn prover_report_actions() {
    assert_eq!(
        report_action(JobReport::Failure { job_id: 4, error: "out of memory".to_string() }, 3),
        ReportAction::SaveProofError { job_id: 4, error: "out of memory".to_string(), max_attempts: 3 }
    );
    assert_eq!(
        report_action(JobReport::Failure { job_id: (1usize << 32) + 5, error: "e".to_string() }, 1),
        ReportAction::SaveProofError { job_id: 5, error: "e".to_string(), max_attempts: 1 }
    );
    assert_eq!(report_action(JobReport::ProofGenerated { job_id: 4 }, 3), ReportAction::SaveProof { job_id: 4 });
    assert_eq!(
        report_action(JobReport::FailureWithDebugging { job_id: 12, circuit_id: 5, assembly: vec![1, 2, 3] }, 3),
        ReportAction::StoreDebugAssembly {
            bucket: Bucket::ProverJobs,
            blob_url: "assembly_debugging_12_5.bin".to_string(),
            assembly: vec![1, 2, 3],
        }
    );
    assert_eq!(
        report_action(JobReport::SetupLoaded { job_id: 1 }, 3),
        ReportAction::TimeJobStage { job_id: 1, stage: JobStage::SetupLoading }
    );
    assert_eq!(
        report_action(JobReport::AssemblyEncoded { job_id: 2 }, 3),
        ReportAction::TimeJobStage { job_id: 2, stage: JobStage::AssemblyEncoding }
    );
    assert_eq!(report_action(JobReport::SchedulerWaitedIdle, 3), ReportAction::TimeIdle { waiter: IdleWaiter::Scheduler });
    assert_eq!(report_action(JobReport::ProverWaitedIdle, 3), ReportAction::TimeIdle { waiter: IdleWaiter::Prover });
}
