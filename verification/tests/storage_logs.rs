use micro_core::storage::{
    revert_step, storage_logs_copy_payload, storage_revert_plan, unique_storage_updates,
    RevertStep, StorageKey, StorageLog,
};

fn log(address: u8, key: u8, value: u8) -> StorageLog {
    StorageLog {
        key: StorageKey { address: [address; 20], key: [key; 32] },
        hashed_key: [key ^ 0xff; 32],
        value: [value; 32],
    }
}

fn bytea(byte: &str, n: usize) -> String {
    format!("\\\\x{}", byte.repeat(n))
}

#[test]
fn copy_payload_rows() {
    let logs = vec![([0xabu8; 32], vec![log(1, 2, 3)]), ([0xcdu8; 32], vec![log(4, 5, 6), log(1, 2, 7)])];
    let payload = storage_logs_copy_payload(12, &logs, 0, "2024-01-01 00:00:00");
    let now = "2024-01-01 00:00:00";
    let expected = format!(
        "{}|{}|{}|{}|0|{}|12|{now}|{now}\n{}|{}|{}|{}|1|{}|12|{now}|{now}\n{}|{}|{}|{}|2|{}|12|{now}|{now}\n",
        bytea("fd", 32), bytea("01", 20), bytea("02", 32), bytea("03", 32), bytea("ab", 32),
        bytea("fa", 32), bytea("04", 20), bytea("05", 32), bytea("06", 32), bytea("cd", 32),
        bytea("fd", 32), bytea("01", 20), bytea("02", 32), bytea("07", 32), bytea("cd", 32),
    );
    assert_eq!(payload, expected);
    assert_eq!(storage_logs_copy_payload(1, &vec![], 0, "t"), "");
}

#[test]
fn copy_payload_numbers_continue() {
    let logs = vec![([0u8; 32], vec![log(1, 1, 1)])];
    let payload = storage_logs_copy_payload(7, &logs, 41, "now");
    assert!(payload.contains("|41|"));
    assert!(payload.ends_with("|7|now|now\n"));
}

#[test]
fn unique_updates_keep_first_position_and_last_write() {
    let updates = vec![
        ([1u8; 32], vec![log(1, 1, 10), log(2, 2, 20)]),
        ([2u8; 32], vec![log(1, 1, 11)]),
        ([3u8; 32], vec![log(3, 3, 30), log(2, 2, 21)]),
    ];
    let r = unique_storage_updates(&updates);
    assert_eq!(r.len(), 3);
    assert_eq!((r[0].0.address, r[0].0.key), ([1u8; 20], [1u8; 32]));
    assert_eq!(r[0].1, ([2u8; 32], [11u8; 32]));
    assert_eq!((r[1].0.address, r[1].0.key), ([2u8; 20], [2u8; 32]));
    assert_eq!(r[1].1, ([3u8; 32], [21u8; 32]));
    assert_eq!((r[2].0.address, r[2].0.key), ([3u8; 20], [3u8; 32]));
    assert_eq!(r[2].1, ([3u8; 32], [30u8; 32]));
    assert!(unique_storage_updates(&vec![]).is_empty());
}

#[test]
fn same_key_other_account_is_another_slot() {
    let updates = vec![([1u8; 32], vec![log(1, 1, 10), log(2, 1, 20)])];
    assert_eq!(unique_storage_updates(&updates).len(), 2);
}

#[test]
fn revert_steps() {
    assert_eq!(revert_step(None, 5), None);
    assert_eq!(revert_step(Some(6), 5), Some(RevertStep::Remove));
    assert_eq!(revert_step(Some(5), 5), Some(RevertStep::RestorePrevious));
    assert_eq!(revert_step(Some(2), 5), Some(RevertStep::RestorePrevious));
    let keys = vec![[1u8; 32], [2u8; 32], [3u8; 32]];
    let written = vec![Some(9), None, Some(1)];
    assert_eq!(
        storage_revert_plan(&keys, &written, 5),
        vec![([1u8; 32], RevertStep::Remove), ([3u8; 32], RevertStep::RestorePrevious)]
    );
}
