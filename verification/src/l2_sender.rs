//! The L2 sender's decisions: how a call request is completed before fee estimation,
//! and the transaction parameters it is signed with once the fee is known.
use vstd::prelude::*;
use crate::types::{Address, H256};

verus! {

/// A 256-bit number as its 32 big-endian bytes.
pub type U256Bytes = H256;

/// The transaction type of EIP-1559 transactions.
pub const EIP_1559_TX_TYPE: u64 = 2;

/// The zero 256-bit number.
pub const U256_ZERO: U256Bytes = [0u8, 0u8, 0u8, 0u8, 0u8, 0u8, 0u8, 0u8, 0u8, 0u8, 0u8, 0u8, 0u8, 0u8, 0u8, 0u8, 0u8, 0u8, 0u8, 0u8, 0u8, 0u8, 0u8, 0u8, 0u8, 0u8, 0u8, 0u8, 0u8, 0u8, 0u8, 0u8];

/// A call request handed to the sender, as far as sending reads it.
#[derive(Clone, Debug, PartialEq, Eq)]
pub struct L2CallRequest {
    pub from: Option<Address>,
    pub to: Option<Address>,
    pub nonce: Option<U256Bytes>,
    pub value: Option<U256Bytes>,
    pub data: Option<Vec<u8>>,
    pub transaction_type: Option<u64>,
}

/// The fee estimated for a transaction.
#[derive(Clone, Copy, Debug, PartialEq, Eq)]
pub struct Fee {
    pub gas_limit: U256Bytes,
    pub max_fee_per_gas: U256Bytes,
    pub max_priority_fee_per_gas: U256Bytes,
}

/// The parameters a transaction is signed with (no gas price, no access list).
#[derive(Clone, Debug, PartialEq, Eq)]
pub struct TransactionParameters {
    pub nonce: U256Bytes,
    pub to: Option<Address>,
    pub gas: U256Bytes,
    pub value: U256Bytes,
    pub data: Vec<u8>,
    pub chain_id: u64,
    pub max_priority_fee_per_gas: U256Bytes,
    pub max_fee_per_gas: U256Bytes,
    pub transaction_type: Option<u64>,
}

/// What the sender does once the fee estimation is done.
#[derive(Clone, Debug, PartialEq, Eq)]
pub enum L2SendAction {
    /// The estimation failed: answer the caller with this error and send nothing.
    ReplyError(String),
    /// Sign these parameters, then submit the transaction and answer with its hash.
    Sign(TransactionParameters),
}

/// The request completed for sending: from the operator `signer`, with its next
/// `nonce`, as an EIP-1559 transaction; the other fields as given.
pub fn prepare_send_request(req: L2CallRequest, signer: Address, nonce: U256Bytes) -> (r: L2CallRequest)
    ensures
        r == (L2CallRequest {
            from: Some(signer),
            nonce: Some(nonce),
            transaction_type: Some(EIP_1559_TX_TYPE),
            to: req.to,
            value: req.value,
            data: req.data,
        }),
{
    L2CallRequest {
        from: Some(signer),
        nonce: Some(nonce),
        transaction_type: Some(EIP_1559_TX_TYPE),
        to: req.to,
        value: req.value,
        data: req.data,
    }
}

/// The step after fee estimation for the completed request `req` on chain `chain_id`:
/// a failed estimation is answered with its error; otherwise the transaction
/// parameters take the nonce, recipient, value and data of the request (zero, zero and
/// empty when absent), the gas limit and fee caps of the estimate, and the chain id.
pub fn l2_send_step(req: L2CallRequest, fee: Result<Fee, String>, chain_id: u64) -> (r: L2SendAction)
    ensures
        match fee {
            Err(e) => r == L2SendAction::ReplyError(e),
            Ok(f) => r matches L2SendAction::Sign(p) && {
                &&& p.nonce == (match req.nonce { Some(n) => n, None => U256_ZERO })
                &&& p.to == req.to
                &&& p.gas == f.gas_limit
                &&& p.value == (match req.value { Some(v) => v, None => U256_ZERO })
                &&& p.data@ == (match req.data { Some(d) => d@, None => Seq::<u8>::empty() })
                &&& p.chain_id == chain_id
                &&& p.max_priority_fee_per_gas == f.max_priority_fee_per_gas
                &&& p.max_fee_per_gas == f.max_fee_per_gas
                &&& p.transaction_type == req.transaction_type
            },
        },
{
    match fee {
        Err(e) => L2SendAction::ReplyError(e),
        Ok(f) => {
            let nonce = match req.nonce {
                Some(n) => n,
                None => U256_ZERO,
            };
            let value = match req.value {
                Some(v) => v,
                None => U256_ZERO,
            };
            let data = match req.data {
                Some(d) => d,
                None => Vec::new(),
            };
            L2SendAction::Sign(TransactionParameters {
                nonce,
                to: req.to,
                gas: f.gas_limit,
                value,
                data,
                chain_id,
                max_priority_fee_per_gas: f.max_priority_fee_per_gas,
                max_fee_per_gas: f.max_fee_per_gas,
                transaction_type: req.transaction_type,
            })
        },
    }
}

} // verus!
