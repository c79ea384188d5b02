use vstd::prelude::*;

use crate::account::{raw_info_of, raw_storage_of, DbAccount, RawAccount};
use crate::export::{
    account_rows, export_accounts, spec_export_table, views_of, AccountRow, Bytecode, ExportAccount,
    ExportError, ExportView,
};
use crate::words::{Address, Word256};

verus! {

/// A key of a snapshot table, compared by value.
pub trait TableKey: Copy + Sized {
    fn same_key(&self, other: &Self) -> (r: bool)
        ensures
            r == (*self == *other),
    ;
}

impl TableKey for Word256 {
    fn same_key(&self, other: &Self) -> (r: bool) {
        *self == *other
    }
}

impl TableKey for Address {
    fn same_key(&self, other: &Self) -> (r: bool) {
        *self == *other
    }
}

/// The mapping that a sequence of pairs stands for: where a key occurs more than
/// once, its last pair wins.
pub open spec fn table_map<K, V>(s: Seq<(K, V)>) -> Map<K, V>
    decreases s.len(),
{
    if s.len() == 0 {
        Map::empty()
    } else {
        table_map(s.drop_last()).insert(s.last().0, s.last().1)
    }
}

/// No key occurs twice.
pub open spec fn keys_unique<K, V>(s: Seq<(K, V)>) -> bool {
    forall|i: int, j: int| 0 <= i < j < s.len() ==> #[trigger] s[i].0 != #[trigger] s[j].0
}

/// Whether a key occurs in a sequence of pairs.
pub open spec fn has_key<K, V>(s: Seq<(K, V)>, k: K) -> bool {
    exists|i: int| 0 <= i < s.len() && #[trigger] s[i].0 == k
}

proof fn lemma_table_map_has_key<K, V>(s: Seq<(K, V)>, k: K)
    ensures
        table_map(s).contains_key(k) <==> has_key(s, k),
    decreases s.len(),
{
    if s.len() > 0 {
        lemma_table_map_has_key(s.drop_last(), k);
        if has_key(s, k) && s.last().0 != k {
            let i = choose|i: int| 0 <= i < s.len() && #[trigger] s[i].0 == k;
            assert(s.drop_last()[i].0 == k);
        }
        if has_key(s.drop_last(), k) {
            let i = choose|i: int| 0 <= i < s.len() - 1 && #[trigger] s.drop_last()[i].0 == k;
            assert(s[i].0 == k);
        }
    }
}

fn contains_key<K: TableKey, V>(s: &Vec<(K, V)>, k: &K) -> (r: bool)
    ensures
        r == has_key(s@, *k),
{
    let mut i: usize = 0;
    while i < s.len()
        invariant
            i <= s.len(),
            forall|j: int| 0 <= j < i ==> #[trigger] s@[j].0 != *k,
        decreases s.len() - i,
    {
        if s[i].0.same_key(k) {
            return true;
        }
        i = i + 1;
    }
    false
}

/// Turns a sequence of pairs into a table without repeated keys, keeping for each key
/// the value of its last pair.
pub fn collect_last_wins<K: TableKey, V>(pairs: Vec<(K, V)>) -> (r: Vec<(K, V)>)
    ensures
        keys_unique(r@),
        table_map(r@) == table_map(pairs@),
{
    let ghost original = pairs@;
    let mut rest = pairs;
    let mut out: Vec<(K, V)> = Vec::new();
    while rest.len() > 0
        invariant
            keys_unique(out@),
            table_map(original) == table_map(rest@).union_prefer_right(table_map(out@)),
        decreases rest.len(),
    {
        let ghost before_rest = rest@;
        let ghost before_out = out@;
        let pair = rest.pop().unwrap();
        assert(before_rest.drop_last() =~= rest@);
        proof {
            lemma_table_map_has_key(before_out, pair.0);
        }
        if !contains_key(&out, &pair.0) {
            out.push(pair);
            assert(out@.drop_last() =~= before_out);
            assert(keys_unique(out@)) by {
                assert forall|i: int, j: int| 0 <= i < j < out@.len() implies #[trigger] out@[i].0
                    != #[trigger] out@[j].0 by {
                    if j == out@.len() - 1 {
                        assert(before_out[i].0 == out@[i].0);
                    } else {
                        assert(before_out[i].0 == out@[i].0);
                        assert(before_out[j].0 == out@[j].0);
                    }
                }
            }
            assert(table_map(original) =~= table_map(rest@).union_prefer_right(table_map(out@)));
        } else {
            assert(table_map(original) =~= table_map(rest@).union_prefer_right(table_map(out@)));
        }
    }
    assert(table_map(rest@) =~= Map::<K, V>::empty());
    assert(table_map(original) =~= table_map(out@));
    out
}

/// The latest sealed block of a snapshot, as far as this library reads it.
#[derive(Clone, Copy, Debug, PartialEq, Eq, Structural)]
pub struct SealedBlock {
    pub number: u64,
    pub hash: Word256,
}

/// The latest block of a snapshot; one version of the block format is known.
#[derive(Clone, Copy, Debug, PartialEq, Eq, Structural)]
pub enum EvmBlock {
    Reth115(SealedBlock),
}

/// The account and bytecode tables of a snapshot, as decoded.
#[derive(Debug)]
pub enum EvmDb {
    InMemory { accounts: Vec<(Address, RawAccount)>, contracts: Vec<(Word256, Bytecode)> },
}

/// The execution state of a snapshot: its tables and its block-hash history.
#[derive(Debug)]
pub struct EvmState {
    pub evm_db: EvmDb,
    pub block_hashes: Vec<(Word256, Word256)>,
}

/// The execution part of a snapshot.
#[derive(Debug)]
pub struct HyperEvm {
    pub state2: EvmState,
    pub latest_block2: EvmBlock,
}

/// The exchange part of a snapshot.
#[derive(Debug)]
pub struct Exchange {
    pub hyper_evm: HyperEvm,
}

/// A decoded snapshot.
#[derive(Debug)]
pub struct AbciState {
    pub exchange: Exchange,
}

/// The canonical state: accounts, code and block hashes, each keyed uniquely.
#[derive(Debug)]
pub struct InMemoryDb {
    pub accounts: Vec<(Address, DbAccount)>,
    pub contracts: Vec<(Word256, Bytecode)>,
    pub block_hashes: Vec<(Word256, Word256)>,
}

/// Whether `account` is what the record `raw` resolves to.
pub open spec fn resolves_to(raw: RawAccount, account: DbAccount) -> bool {
    &&& account.info == raw_info_of(raw).spec_resolve()
    &&& account.storage@ == raw_storage_of(raw)
}

/// Whether `accounts` holds, once each, every address of the record table `raw`, each
/// with what the last record for that address resolves to.
pub open spec fn accounts_resolved(
    raw: Seq<(Address, RawAccount)>,
    accounts: Seq<(Address, DbAccount)>,
) -> bool {
    &&& keys_unique(accounts)
    &&& forall|k: Address| has_key(raw, k) <==> has_key(accounts, k)
    &&& forall|j: int|
        0 <= j < accounts.len() ==> resolves_to(
            table_map(raw)[#[trigger] accounts[j].0],
            accounts[j].1,
        )
}

impl InMemoryDb {
    /// No table holds a key twice.
    pub open spec fn wf(&self) -> bool {
        &&& keys_unique(self.accounts@)
        &&& keys_unique(self.contracts@)
        &&& keys_unique(self.block_hashes@)
    }

    /// Builds the canonical state from a snapshot's tables: each table keeps one
    /// entry per key, the last one of the snapshot, and each account record is
    /// resolved.
    pub fn from_tables(
        accounts: Vec<(Address, RawAccount)>,
        contracts: Vec<(Word256, Bytecode)>,
        block_hashes: Vec<(Word256, Word256)>,
    ) -> (r: InMemoryDb)
        ensures
            r.wf(),
            accounts_resolved(accounts@, r.accounts@),
            table_map(r.contracts@) == table_map(contracts@),
            table_map(r.block_hashes@) == table_map(block_hashes@),
    {
        let ghost raw = accounts@;
        let mut uniq = collect_last_wins(accounts);
        let ghost orig = uniq@;
        let ghost len = orig.len();
        let mut out: Vec<(Address, DbAccount)> = Vec::new();
        while uniq.len() > 0
            invariant
                keys_unique(orig),
                uniq@ == orig.subrange(0, uniq@.len() as int),
                uniq@.len() + out@.len() == len,
                len == orig.len(),
                forall|j: int|
                    0 <= j < out@.len() ==> (#[trigger] out@[j]).0 == orig[len - 1 - j].0
                        && resolves_to(orig[len - 1 - j].1, out@[j].1),
            decreases uniq.len(),
        {
            let ghost before = out@;
            let (k, a) = uniq.pop().unwrap();
            let acct = a.resolve();
            out.push((k, acct));
            assert(forall|j: int| 0 <= j < before.len() ==> out@[j] == before[j]);
            assert(uniq@ =~= orig.subrange(0, uniq@.len() as int));
        }
        proof {
            lemma_table_map_unique(orig);
            assert forall|i: int, j: int| 0 <= i < j < out@.len() implies #[trigger] out@[i].0
                != #[trigger] out@[j].0 by {
                assert(out@[i].0 == orig[len - 1 - i].0);
                assert(out@[j].0 == orig[len - 1 - j].0);
            }
            assert forall|k: Address| has_key(raw, k) <==> has_key(out@, k) by {
                lemma_table_map_has_key(raw, k);
                lemma_table_map_has_key(orig, k);
                if has_key(orig, k) {
                    let m = choose|m: int| 0 <= m < orig.len() && #[trigger] orig[m].0 == k;
                    assert(out@[len - 1 - m].0 == k);
                }
                if has_key(out@, k) {
                    let j = choose|j: int| 0 <= j < out@.len() && #[trigger] out@[j].0 == k;
                    assert(orig[len - 1 - j].0 == k);
                }
            }
            assert forall|j: int| 0 <= j < out@.len() implies resolves_to(
                table_map(raw)[#[trigger] out@[j].0],
                out@[j].1,
            ) by {
                assert(out@[j].0 == orig[len - 1 - j].0);
            }
        }
        let contracts = collect_last_wins(contracts);
        let block_hashes = collect_last_wins(block_hashes);
        InMemoryDb { accounts: out, contracts, block_hashes }
    }

    /// Builds the canonical state of a snapshot.
    pub fn from_abci_state(state: AbciState) -> (r: InMemoryDb)
        ensures
            r.wf(),
            match state.exchange.hyper_evm.state2.evm_db {
                EvmDb::InMemory { accounts, contracts } => {
                    &&& accounts_resolved(accounts@, r.accounts@)
                    &&& table_map(r.contracts@) == table_map(contracts@)
                },
            },
            table_map(r.block_hashes@) == table_map(state.exchange.hyper_evm.state2.block_hashes@),
    {
        let EvmState { evm_db, block_hashes } = state.exchange.hyper_evm.state2;
        let EvmDb::InMemory { accounts, contracts } = evm_db;
        InMemoryDb::from_tables(accounts, contracts, block_hashes)
    }
}

/// Where no key occurs twice, each pair's value is what the mapping holds for its key.
proof fn lemma_table_map_unique<K, V>(s: Seq<(K, V)>)
    requires
        keys_unique(s),
    ensures
        forall|i: int|
            0 <= i < s.len() ==> table_map(s).contains_key(#[trigger] s[i].0) && table_map(s)[s[i].0]
                == s[i].1,
    decreases s.len(),
{
    if s.len() > 0 {
        let d = s.drop_last();
        assert(keys_unique(d)) by {
            assert forall|i: int, j: int| 0 <= i < j < d.len() implies #[trigger] d[i].0
                != #[trigger] d[j].0 by {
                assert(s[i].0 != s[j].0);
            }
        }
        lemma_table_map_unique(d);
        assert forall|i: int| 0 <= i < s.len() implies table_map(s).contains_key(
            #[trigger] s[i].0,
        ) && table_map(s)[s[i].0] == s[i].1 by {
            if i < s.len() - 1 {
                assert(d[i] == s[i]);
                assert(s[i].0 != s[s.len() - 1].0);
            }
        }
    }
}

impl AbciState {
    /// The number of the latest block.
    pub open spec fn spec_latest_number(&self) -> u64 {
        match self.exchange.hyper_evm.latest_block2 {
            EvmBlock::Reth115(b) => b.number,
        }
    }

    /// The number of the block that follows the snapshot, and the canonical state.
    pub fn into_next_block_num_and_in_memory_db(self) -> (r: (u64, InMemoryDb))
        requires
            self.spec_latest_number() < u64::MAX,
        ensures
            r.0 == self.spec_latest_number() + 1,
            r.1.wf(),
            match self.exchange.hyper_evm.state2.evm_db {
                EvmDb::InMemory { accounts, contracts } => {
                    &&& accounts_resolved(accounts@, r.1.accounts@)
                    &&& table_map(r.1.contracts@) == table_map(contracts@)
                },
            },
            table_map(r.1.block_hashes@) == table_map(self.exchange.hyper_evm.state2.block_hashes@),
    {
        let HyperEvm { state2, latest_block2 } = self.exchange.hyper_evm;
        let EvmBlock::Reth115(sealed_block) = latest_block2;
        let next_block_num = sealed_block.number + 1;
        let EvmState { evm_db, block_hashes } = state2;
        let EvmDb::InMemory { accounts, contracts } = evm_db;
        let db = InMemoryDb::from_tables(accounts, contracts, block_hashes);
        (next_block_num, db)
    }
}

/// The rows that a table of account records resolves to, in its order.
pub open spec fn raw_rows(raw: Seq<(Address, RawAccount)>) -> Seq<AccountRow> {
    raw.map_values(
        |p: (Address, RawAccount)| (p.0, raw_info_of(p.1).spec_resolve(), raw_storage_of(p.1)),
    )
}

/// Resolves every record of an account table, keeping the table's order.
pub fn resolve_accounts(raw: &Vec<(Address, RawAccount)>) -> (r: Vec<(Address, DbAccount)>)
    ensures
        account_rows(r@) == raw_rows(raw@),
{
    let mut out: Vec<(Address, DbAccount)> = Vec::with_capacity(raw.len());
    let mut i: usize = 0;
    while i < raw.len()
        invariant
            i <= raw.len(),
            account_rows(out@) == raw_rows(raw@).subrange(0, i as int),
        decreases raw.len() - i,
    {
        let ghost before = out@;
        let acct = raw[i].1.resolve();
        let ghost row = (raw@[i as int].0, acct.info, acct.storage@);
        out.push((raw[i].0, acct));
        assert(out@ =~= before.push((raw@[i as int].0, acct)));
        assert(account_rows(out@) =~= account_rows(before).push(row));
        assert(raw_rows(raw@)[i as int] == row);
        assert(account_rows(out@) =~= raw_rows(raw@).subrange(0, i + 1));
        i = i + 1;
    }
    assert(raw_rows(raw@).subrange(0, i as int) =~= raw_rows(raw@));
    out
}

/// What a snapshot exports: the number of the block that follows it, and one record
/// per account.
#[derive(Debug)]
pub struct SnapshotExport {
    pub next_block_number: u64,
    pub accounts: Vec<ExportAccount>,
}

impl AbciState {
    /// Exports every account of the snapshot in the order of its account table, or
    /// fails with the error of the first account whose code cannot be resolved.
    pub fn export(&self) -> (r: Result<SnapshotExport, ExportError>)
        requires
            self.spec_latest_number() < u64::MAX,
        ensures
            match self.exchange.hyper_evm.state2.evm_db {
                EvmDb::InMemory { accounts, contracts } => match r {
                    Ok(e) => {
                        &&& e.next_block_number == self.spec_latest_number() + 1
                        &&& spec_export_table(raw_rows(accounts@), contracts@) == Ok::<
                            Seq<ExportView>,
                            ExportError,
                        >(views_of(e.accounts@))
                    },
                    Err(e) => spec_export_table(raw_rows(accounts@), contracts@) == Err::<
                        Seq<ExportView>,
                        ExportError,
                    >(e),
                },
            },
    {
        let EvmBlock::Reth115(block) = &self.exchange.hyper_evm.latest_block2;
        let next_block_number = block.number + 1;
        let EvmDb::InMemory { accounts, contracts } = &self.exchange.hyper_evm.state2.evm_db;
        let resolved = resolve_accounts(accounts);
        match export_accounts(&resolved, contracts) {
            Ok(records) => Ok(SnapshotExport { next_block_number, accounts: records }),
            Err(e) => Err(e),
        }
    }
}

} // verus!
