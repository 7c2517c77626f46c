use micro_core::node_check::{
    connect_failure_message, on_ping_message, ping_address, prune_heartbeats, sub, CheckNode,
    HeartbeatClient, HeartbeatRegistry, HeartbeatStep, PingReply, CLIENT_PING_INTERVAL,
    MAX_RETRIES,
};

const SEC: u64 = 1_000_000_000;

#[test]
fn whole_seconds_between_times() {
    assert_eq!(sub(10 * SEC, 4 * SEC), 6);
    assert_eq!(sub(10 * SEC + SEC - 1, 4 * SEC), 6);
    assert_eq!(sub(3 * SEC, 4 * SEC), 0);
    assert_eq!(sub(5, 5), 0);
}

#[test]
fn registry_records_and_prunes() {
    let mut reg = HeartbeatRegistry::new();
    assert!(reg.is_empty());
    reg.add_address([1; 20], 0);
    reg.add_address([2; 20], 4 * SEC);
    reg.add_address([1; 20], 2 * SEC);
    let all = reg.get_all_addresses();
    assert_eq!(all.len(), 2);
    assert!(all.contains(&[1; 20]) && all.contains(&[2; 20]));
    // at 8 s: node 1 pinged 6 s ago (forgotten), node 2 4 s ago (kept)
    reg.delete_heartbeat_info_before_time(8 * SEC);
    assert_eq!(reg.get_all_addresses(), vec![[2; 20]]);
    // exactly the interval old is kept
    reg.delete_heartbeat_info_before_time(9 * SEC + SEC - 1);
    assert_eq!(reg.get_all_addresses(), vec![[2; 20]]);
    reg.delete_heartbeat_info_before_time(10 * SEC);
    assert!(reg.is_empty());
}

#[test]
fn ping_messages() {
    let mut reg = HeartbeatRegistry::new();
    assert_eq!(on_ping_message(&mut reg, Some([3; 20]), b"ping", 1), PingReply::Pong);
    assert_eq!(on_ping_message(&mut reg, Some([4; 20]), b"hello", 1), PingReply::Silent);
    assert_eq!(on_ping_message(&mut reg, None, b"ping", 1), PingReply::Shutdown);
    assert_eq!(reg.get_all_addresses().len(), 2);
    prune_heartbeats(&mut reg, 100 * SEC);
    assert!(reg.is_empty());
    prune_heartbeats(&mut reg, 200 * SEC);
    assert!(reg.is_empty());
}

#[test]
fn server_and_client_addresses() {
    assert_eq!(CheckNode::new(String::new()).server_address, "0.0.0.0:3052");
    assert_eq!(CheckNode::new("1.2.3.4:1".to_string()).server_address, "1.2.3.4:1");
    assert_eq!(ping_address(""), "127.0.0.1:3052");
    assert_eq!(ping_address("h:1"), "h:1");
    assert_eq!(connect_failure_message(0), "Failed to receive PONG");
    assert_eq!(connect_failure_message(MAX_RETRIES), "Failed to connect  and reached maximum retry limit");
}

#[test]
fn client_backs_off_and_gives_up() {
    let mut c = HeartbeatClient::new();
    for k in 1..=MAX_RETRIES {
        let step = c.on_ping_result(false);
        assert_eq!(step, HeartbeatStep { backoff_secs: CLIENT_PING_INTERVAL * k as u64, stop: false, interval_secs: CLIENT_PING_INTERVAL });
    }
    let last = c.on_ping_result(false);
    assert!(last.stop);
    assert_eq!(last.backoff_secs, CLIENT_PING_INTERVAL * (MAX_RETRIES as u64 + 1));
    let mut d = HeartbeatClient::new();
    d.on_ping_result(false);
    assert_eq!(d.on_ping_result(true), HeartbeatStep { backoff_secs: 0, stop: false, interval_secs: CLIENT_PING_INTERVAL });
    assert_eq!(d.retries, 0);
}
