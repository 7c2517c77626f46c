use micro_core::dal::{
    show_statuses, AppMonitorStatus, ApplicationMonitorDal, AssignmentsDal, ConnectionPoolHealthCheck,
    ProverResultStatus, QueryStatus,
};

fn filter(ip: bool, app: bool, start: bool, end: bool) -> QueryStatus {
    QueryStatus {
        ip: if ip { Some("10.0.0.1".to_string()) } else { None },
        app_name: if app { Some("prover".to_string()) } else { None },
        start_time: if start { Some(1) } else { None },
        end_time: if end { Some(2) } else { None },
    }
}

#[test]
fn where_clause_numbers_arguments_in_order() {
    let dal = ApplicationMonitorDal::new(());
    assert_eq!(dal.build_where_clause(&filter(false, false, false, false)), ("(1=1)".to_string(), 1));
    assert_eq!(
        dal.build_where_clause(&filter(true, true, true, true)),
        (
            "(1=1) AND (ip like $1) AND (app_name = $2) AND (start_at >= $3) AND (start_at <= $4)".to_string(),
            5
        )
    );
    assert_eq!(
        dal.build_where_clause(&filter(false, true, false, true)),
        ("(1=1) AND (app_name = $1) AND (start_at <= $2)".to_string(), 3)
    );
}

#[test]
fn listing_and_count_queries() {
    let dal = ApplicationMonitorDal::new(());
    let q = dal.app_monitors_query(&filter(true, false, false, false));
    assert!(q.contains("where (1=1) AND (ip like $1)\n"));
    assert!(q.contains("OFFSET $2 LIMIT $3"));
    let c = dal.count_query(&filter(false, false, true, false));
    assert!(c.contains("WHERE (1=1) AND (start_at >= $1)\n"));
    assert!(c.starts_with("select count(1) AS \"total\" from ("));
    assert_eq!(micro_core::dal::ip_like_pattern("10.0"), "10.0%");
}

#[test]
fn status_names() {
    let all = [
        ProverResultStatus::AssignedNotCertified,
        ProverResultStatus::BePunished,
        ProverResultStatus::PickedByProver,
        ProverResultStatus::Successful,
        ProverResultStatus::Failed,
    ];
    for s in all {
        assert_eq!(ProverResultStatus::from_str(s.as_str()), Some(s));
    }
    assert_eq!(ProverResultStatus::BePunished.as_str(), "be_punished");
    assert_eq!(ProverResultStatus::from_str("done"), None);
    assert_eq!(AssignmentsDal::<()>::last_status(Some("successful")), ProverResultStatus::Successful);
    assert_eq!(AssignmentsDal::<()>::last_status(None), ProverResultStatus::Failed);
}

#[test]
fn show_statuses_keep_rows_in_order() {
    let rows = vec![
        AppMonitorStatus { app_name: "a".into(), ip: "1".into(), start_time: 1, heartbeat_update_at: 2, heartbeat_time: 3 },
        AppMonitorStatus { app_name: "b".into(), ip: "2".into(), start_time: 4, heartbeat_update_at: 5, heartbeat_time: 6 },
    ];
    let shown = show_statuses(rows);
    assert_eq!(shown.len(), 2);
    assert_eq!(shown[0].app_name, "a");
    assert_eq!(shown[1].ip, "2");
    assert_eq!(shown[1].heartbeat_time, 6);
    let check = ConnectionPoolHealthCheck::new(7u32);
    assert_eq!(check.connection_pool, 7);
}
