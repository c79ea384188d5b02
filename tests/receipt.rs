use state_export::receipt::{LegacyReceipt, LegacyTxType, Log, ReadPrecompileInput, ReadPrecompileResult, Receipt, TxType};
use state_export::words::{Address, Word256};

#[test]
fn legacy_receipt_converts_field_by_field() {
    let log = Log {
        address: Address { high: 1, low: 2 },
        topics: vec![Word256 { high: 0, low: 3 }],
        data: vec![4, 5],
    };
    let legacy = LegacyReceipt {
        tx_type: LegacyTxType::Eip1559,
        success: true,
        cumulative_gas_used: 21000,
        logs: vec![log],
    };
    let r = Receipt::from(legacy);
    assert_eq!(r.tx_type, TxType::Eip1559);
    assert!(r.success);
    assert_eq!(r.cumulative_gas_used, 21000);
    assert_eq!(r.logs.len(), 1);
    assert_eq!(r.logs[0].data, vec![4, 5]);
    assert_eq!(r.logs[0].topics, vec![Word256 { high: 0, low: 3 }]);
}

#[test]
fn every_legacy_tx_type_maps_to_its_namesake() {
    let pairs = [
        (LegacyTxType::Legacy, TxType::Legacy),
        (LegacyTxType::Eip2930, TxType::Eip2930),
        (LegacyTxType::Eip1559, TxType::Eip1559),
        (LegacyTxType::Eip4844, TxType::Eip4844),
        (LegacyTxType::Eip7702, TxType::Eip7702),
    ];
    for (legacy, current) in pairs {
        let r = Receipt::from(LegacyReceipt {
            tx_type: legacy,
            success: false,
            cumulative_gas_used: 0,
            logs: vec![],
        });
        assert_eq!(r.tx_type, current);
        assert!(!r.success);
    }
}

#[test]
fn precompile_values_hold_their_fields() {
    let input = ReadPrecompileInput { input: vec![1, 2], gas_limit: 50 };
    assert_eq!(input.clone(), input);
    match (ReadPrecompileResult::Success { gas_used: 7, bytes: vec![9] }) {
        ReadPrecompileResult::Success { gas_used, bytes } => {
            assert_eq!(gas_used, 7);
            assert_eq!(bytes, vec![9]);
        }
        _ => panic!("expected success"),
    }
}
