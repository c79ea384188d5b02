use vstd::prelude::*;

use crate::words::{Address, Word256};

verus! {

/// The transaction type recorded in a legacy receipt.
#[derive(Clone, Copy, Debug, PartialEq, Eq, Structural)]
pub enum LegacyTxType {
    Legacy,
    Eip2930,
    Eip1559,
    Eip4844,
    Eip7702,
}

/// The transaction type of a current receipt.
#[derive(Clone, Copy, Debug, PartialEq, Eq, Structural)]
pub enum TxType {
    Legacy,
    Eip2930,
    Eip1559,
    Eip4844,
    Eip7702,
}

/// An event log: the emitting contract, its topics and its data.
#[derive(Clone, Debug)]
pub struct Log {
    pub address: Address,
    pub topics: Vec<Word256>,
    pub data: Vec<u8>,
}

/// A receipt in the legacy snapshot layout.
#[derive(Clone, Debug)]
pub struct LegacyReceipt {
    pub tx_type: LegacyTxType,
    pub success: bool,
    pub cumulative_gas_used: u64,
    pub logs: Vec<Log>,
}

/// A receipt in the current layout.
#[derive(Clone, Debug)]
pub struct Receipt {
    pub tx_type: TxType,
    pub success: bool,
    pub cumulative_gas_used: u64,
    pub logs: Vec<Log>,
}

/// The current transaction type that a legacy one stands for.
pub open spec fn tx_type_of(t: LegacyTxType) -> TxType {
    match t {
        LegacyTxType::Legacy => TxType::Legacy,
        LegacyTxType::Eip2930 => TxType::Eip2930,
        LegacyTxType::Eip1559 => TxType::Eip1559,
        LegacyTxType::Eip4844 => TxType::Eip4844,
        LegacyTxType::Eip7702 => TxType::Eip7702,
    }
}

impl From<LegacyReceipt> for Receipt {
    fn from(value: LegacyReceipt) -> (r: Receipt) {
        let LegacyReceipt { tx_type, success, cumulative_gas_used, logs } = value;
        let tx_type = match tx_type {
            LegacyTxType::Legacy => TxType::Legacy,
            LegacyTxType::Eip2930 => TxType::Eip2930,
            LegacyTxType::Eip1559 => TxType::Eip1559,
            LegacyTxType::Eip4844 => TxType::Eip4844,
            LegacyTxType::Eip7702 => TxType::Eip7702,
        };
        Receipt { tx_type, success, cumulative_gas_used, logs }
    }
}

impl vstd::std_specs::convert::FromSpecImpl<LegacyReceipt> for Receipt {
    open spec fn obeys_from_spec() -> bool {
        true
    }

    open spec fn from_spec(v: LegacyReceipt) -> Receipt {
        Receipt {
            tx_type: tx_type_of(v.tx_type),
            success: v.success,
            cumulative_gas_used: v.cumulative_gas_used,
            logs: v.logs,
        }
    }
}

/// The input of a call to a read precompile.
#[derive(Clone, Debug, PartialEq, Eq)]
pub struct ReadPrecompileInput {
    pub input: Vec<u8>,
    pub gas_limit: u64,
}

/// The outcome of a call to a read precompile; `Success` carries the gas used and
/// the returned bytes.
#[derive(Clone, Debug)]
pub enum ReadPrecompileResult {
    Success { gas_used: u64, bytes: Vec<u8> },
    OutOfGas,
    Error,
    UnexpectedError,
}

} // verus!
