use micro_core::l2_sender::{
    l2_send_step, prepare_send_request, Fee, L2CallRequest, L2SendAction, TransactionParameters,
    EIP_1559_TX_TYPE,
};

fn request() -> L2CallRequest {
    L2CallRequest { from: None, to: Some([4; 20]), nonce: None, value: None, data: Some(vec![1, 2]), transaction_type: None }
}

#[test]
fn request_is_completed_for_the_operator() {
    let r = prepare_send_request(request(), [9; 20], [3; 32]);
    assert_eq!(r.from, Some([9; 20]));
    assert_eq!(r.nonce, Some([3; 32]));
    assert_eq!(r.transaction_type, Some(EIP_1559_TX_TYPE));
    assert_eq!(r.to, Some([4; 20]));
    assert_eq!(r.data, Some(vec![1, 2]));
}

#[test]
fn send_step_after_fee_estimation() {
    let fee = Fee { gas_limit: [5; 32], max_fee_per_gas: [6; 32], max_priority_fee_per_gas: [7; 32] };
    let prepared = prepare_send_request(request(), [9; 20], [3; 32]);
    assert_eq!(
        l2_send_step(prepared, Ok(fee), 270),
        L2SendAction::Sign(TransactionParameters {
            nonce: [3; 32],
            to: Some([4; 20]),
            gas: [5; 32],
            value: [0; 32],
            data: vec![1, 2],
            chain_id: 270,
            max_priority_fee_per_gas: [7; 32],
            max_fee_per_gas: [6; 32],
            transaction_type: Some(2),
        })
    );
    let bare = L2CallRequest { from: None, to: None, nonce: None, value: None, data: None, transaction_type: None };
    match l2_send_step(bare, Ok(fee), 1) {
        L2SendAction::Sign(p) => {
            assert_eq!(p.nonce, [0; 32]);
            assert!(p.data.is_empty());
        }
        other => panic!("unexpected {other:?}"),
    }
    assert_eq!(
        l2_send_step(request(), Err("no funds".to_string()), 270),
        L2SendAction::ReplyError("no funds".to_string())
    );
}
