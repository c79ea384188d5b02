use state_export::account::{DbAccountInfo, RawAccount, RawAccountInfo};
use state_export::export::{export_account, find_code, Bytecode, ExportError};
use state_export::state::{
    collect_last_wins, AbciState, EvmBlock, EvmDb, EvmState, Exchange, HyperEvm, InMemoryDb,
    SealedBlock,
};
use state_export::words::{keccak_empty, Address, Word256};

fn word(v: u128) -> Word256 {
    Word256::from_u128(v)
}

fn addr(v: u128) -> Address {
    Address { high: 0, low: v }
}

fn code_hash_h() -> Word256 {
    Word256 { high: 0xabcd, low: 0x1234 }
}

fn short_info(balance: u128, nonce: u64, code_hash: Word256) -> RawAccountInfo {
    RawAccountInfo {
        b: Some(word(balance)),
        n: Some(nonce),
        c: Some(code_hash),
        balance: None,
        nonce: None,
        code_hash: None,
    }
}

fn raw_account(info: RawAccountInfo, storage: Vec<(Word256, Word256)>) -> RawAccount {
    RawAccount { i: Some(info), s: Some(storage), info: None, storage: None }
}

fn snapshot(
    number: u64,
    accounts: Vec<(Address, RawAccount)>,
    contracts: Vec<(Word256, Bytecode)>,
) -> AbciState {
    AbciState {
        exchange: Exchange {
            hyper_evm: HyperEvm {
                state2: EvmState {
                    evm_db: EvmDb::InMemory { accounts, contracts },
                    block_hashes: vec![(word(number as u128), word(77))],
                },
                latest_block2: EvmBlock::Reth115(SealedBlock { number, hash: word(77) }),
            },
        },
    }
}

#[test]
fn one_eoa_and_one_contract() {
    let eoa = raw_account(short_info(5, 1, keccak_empty()), vec![]);
    let contract = raw_account(short_info(0, 0, code_hash_h()), vec![(word(1), word(2))]);
    let state = snapshot(
        9,
        vec![(addr(0x11), eoa), (addr(0x22), contract)],
        vec![(code_hash_h(), Bytecode::LegacyRaw(vec![0x60, 0x01]))],
    );
    let out = state.export().unwrap();
    assert_eq!(out.next_block_number, 10);
    assert_eq!(out.accounts.len(), 2);
    let first = &out.accounts[0];
    assert_eq!(first.address, addr(0x11));
    assert_eq!(first.balance, word(5));
    assert_eq!(first.nonce, Some(1));
    assert!(first.code.is_none());
    assert!(first.storage.is_none());
    let second = &out.accounts[1];
    assert_eq!(second.address, addr(0x22));
    assert_eq!(second.balance, word(0));
    assert_eq!(second.nonce, Some(0));
    assert_eq!(second.code, Some(vec![0x60, 0x01]));
    assert_eq!(second.storage, Some(vec![(word(1), word(2))]));
}

#[test]
fn contract_with_empty_storage_keeps_storage() {
    let contract = raw_account(short_info(3, 2, code_hash_h()), vec![]);
    let state = snapshot(
        0,
        vec![(addr(1), contract)],
        vec![(code_hash_h(), Bytecode::LegacyAnalyzed(vec![0x00, 0x00]))],
    );
    let out = state.export().unwrap();
    assert_eq!(out.next_block_number, 1);
    assert_eq!(out.accounts[0].code, Some(vec![0x00, 0x00]));
    assert_eq!(out.accounts[0].storage, Some(vec![]));
}

#[test]
fn missing_code_fails() {
    let eoa = raw_account(short_info(5, 1, keccak_empty()), vec![]);
    let contract = raw_account(short_info(0, 0, code_hash_h()), vec![]);
    let state = snapshot(9, vec![(addr(1), eoa), (addr(2), contract)], vec![]);
    match state.export() {
        Err(ExportError::MissingCode { address, code_hash }) => {
            assert_eq!(address, addr(2));
            assert_eq!(code_hash, code_hash_h());
        }
        _ => panic!("expected a missing-code error"),
    }
}

#[test]
fn unsupported_bytecode_fails() {
    let contract = raw_account(short_info(0, 0, code_hash_h()), vec![]);
    let state = snapshot(9, vec![(addr(2), contract)], vec![(code_hash_h(), Bytecode::Other)]);
    match state.export() {
        Err(ExportError::UnsupportedBytecode { address, code_hash }) => {
            assert_eq!(address, addr(2));
            assert_eq!(code_hash, code_hash_h());
        }
        _ => panic!("expected an unsupported-bytecode error"),
    }
}

#[test]
fn export_is_repeatable() {
    let build = || {
        snapshot(
            4,
            vec![
                (addr(3), raw_account(short_info(1, 1, keccak_empty()), vec![])),
                (addr(1), raw_account(short_info(2, 0, code_hash_h()), vec![(word(5), word(6))])),
            ],
            vec![(code_hash_h(), Bytecode::LegacyRaw(vec![0xfe]))],
        )
    };
    let a = build().export().unwrap();
    let b = build().export().unwrap();
    assert_eq!(a.next_block_number, b.next_block_number);
    assert_eq!(a.accounts.len(), b.accounts.len());
    for (x, y) in a.accounts.iter().zip(b.accounts.iter()) {
        assert_eq!(x.address, y.address);
        assert_eq!(x.balance, y.balance);
        assert_eq!(x.nonce, y.nonce);
        assert_eq!(x.code, y.code);
        assert_eq!(x.storage, y.storage);
    }
    assert_eq!(a.accounts[0].address, addr(3));
    assert_eq!(a.accounts[1].address, addr(1));
}

#[test]
fn missing_fields_take_defaults() {
    let empty = RawAccountInfo {
        b: None,
        n: None,
        c: None,
        balance: None,
        nonce: None,
        code_hash: None,
    };
    let info = empty.resolve();
    assert_eq!(info, DbAccountInfo::default());
    assert_eq!(info.balance, Word256 { high: 0, low: 0 });
    assert_eq!(info.nonce, 0);
    assert_eq!(
        info.code_hash,
        Word256 {
            high: 0xc5d2460186f7233c927e7db2dcc703c0,
            low: 0xe500b653ca82273b7bfad8045d85a470
        }
    );
    let bare = RawAccount { i: None, s: None, info: None, storage: None }.resolve();
    assert_eq!(bare.info, DbAccountInfo::default());
    assert!(bare.storage.is_empty());
}

#[test]
fn short_and_long_names_agree() {
    let short = short_info(42, 7, code_hash_h());
    let long = RawAccountInfo {
        b: None,
        n: None,
        c: None,
        balance: Some(word(42)),
        nonce: Some(7),
        code_hash: Some(code_hash_h()),
    };
    assert_eq!(short.resolve(), long.resolve());
    assert_eq!(short.resolve().nonce, 7);
    let a = RawAccount { i: Some(short), s: Some(vec![(word(1), word(9))]), info: None, storage: None };
    let b = RawAccount { i: None, s: None, info: Some(long), storage: Some(vec![(word(1), word(9))]) };
    let (ra, rb) = (a.resolve(), b.resolve());
    assert_eq!(ra.info, rb.info);
    assert_eq!(ra.storage, rb.storage);
}

#[test]
fn short_name_wins_over_long_name() {
    let both = RawAccountInfo {
        b: Some(word(1)),
        n: None,
        c: None,
        balance: Some(word(2)),
        nonce: Some(3),
        code_hash: None,
    };
    let info = both.resolve();
    assert_eq!(info.balance, word(1));
    assert_eq!(info.nonce, 3);
    assert_eq!(info.code_hash, keccak_empty());
}

#[test]
fn last_bytecode_entry_wins() {
    let table = vec![
        (code_hash_h(), Bytecode::LegacyRaw(vec![1])),
        (word(5), Bytecode::LegacyRaw(vec![2])),
        (code_hash_h(), Bytecode::LegacyRaw(vec![3])),
    ];
    match find_code(&table, &code_hash_h()) {
        Some(Bytecode::LegacyRaw(v)) => assert_eq!(v, &vec![3]),
        _ => panic!("expected the last entry"),
    }
    assert!(find_code(&table, &word(6)).is_none());
    let account = RawAccount { i: Some(short_info(0, 0, code_hash_h())), s: None, info: None, storage: None }
        .resolve();
    let rec = export_account(addr(8), &account, &table).unwrap();
    assert_eq!(rec.code, Some(vec![3]));
}

#[test]
fn tables_keep_last_entry_per_key() {
    let pairs = vec![(word(1), word(10)), (word(2), word(20)), (word(1), word(11))];
    let mut table = collect_last_wins(pairs);
    table.sort_by_key(|p| p.0.low);
    assert_eq!(table, vec![(word(1), word(11)), (word(2), word(20))]);
}

#[test]
fn canonical_state_from_snapshot() {
    let first = raw_account(short_info(1, 1, keccak_empty()), vec![]);
    let second = raw_account(short_info(2, 2, keccak_empty()), vec![(word(4), word(4))]);
    let other = raw_account(short_info(3, 3, keccak_empty()), vec![]);
    let state = snapshot(
        41,
        vec![(addr(1), first), (addr(2), other), (addr(1), second)],
        vec![(code_hash_h(), Bytecode::LegacyRaw(vec![1])), (code_hash_h(), Bytecode::Other)],
    );
    let (next, db) = state.into_next_block_num_and_in_memory_db();
    assert_eq!(next, 42);
    assert_eq!(db.accounts.len(), 2);
    let one = db.accounts.iter().find(|p| p.0 == addr(1)).unwrap();
    assert_eq!(one.1.info.balance, word(2));
    assert_eq!(one.1.storage, vec![(word(4), word(4))]);
    assert_eq!(db.contracts.len(), 1);
    assert!(matches!(db.contracts[0].1, Bytecode::Other));
    assert_eq!(db.block_hashes, vec![(word(41), word(77))]);
    let db2 = InMemoryDb::from_abci_state(snapshot(1, vec![], vec![]));
    assert!(db2.accounts.is_empty());
}

#[test]
fn code_hashes_sharing_lower_half_resolve_exactly() {
    let h1 = Word256 { high: 1, low: 5 };
    let h2 = Word256 { high: 2, low: 5 };
    let state = snapshot(
        2,
        vec![
            (addr(1), raw_account(short_info(0, 0, h1), vec![])),
            (addr(2), raw_account(short_info(0, 0, h2), vec![])),
        ],
        vec![(h1, Bytecode::LegacyRaw(vec![1])), (h2, Bytecode::LegacyRaw(vec![2]))],
    );
    let out = state.export().unwrap();
    assert_eq!(out.accounts[0].code, Some(vec![1]));
    assert_eq!(out.accounts[1].code, Some(vec![2]));
}
