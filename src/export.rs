use std::collections::HashMap;
use vstd::prelude::*;

use crate::account::{DbAccount, DbAccountInfo};
use crate::words::{copy_vec, empty_code_hash, Address, Word256};

verus! {

/// Contract code as stored in a snapshot's bytecode table.
#[derive(Clone, Debug)]
pub enum Bytecode {
    /// The code bytes as deployed.
    LegacyRaw(Vec<u8>),
    /// The code bytes of an analysed contract; its jump table is not kept.
    LegacyAnalyzed(Vec<u8>),
    /// Any other representation, which this library does not read.
    Other,
}

/// Why an account table could not be exported.
#[derive(Clone, Copy, Debug, PartialEq, Eq, Structural)]
pub enum ExportError {
    /// A contract account's code hash is not in the bytecode table.
    MissingCode { address: Address, code_hash: Word256 },
    /// A contract account's code is stored in a representation that is not read.
    UnsupportedBytecode { address: Address, code_hash: Word256 },
}

/// One exported account: code and storage are present for contracts only.
#[derive(Clone, Debug)]
pub struct ExportAccount {
    pub address: Address,
    pub balance: Word256,
    pub nonce: Option<u64>,
    pub code: Option<Vec<u8>>,
    pub storage: Option<Vec<(Word256, Word256)>>,
}

/// What an exported account holds, as plain values.
pub ghost struct ExportView {
    pub address: Address,
    pub balance: Word256,
    pub nonce: Option<u64>,
    pub code: Option<Seq<u8>>,
    pub storage: Option<Seq<(Word256, Word256)>>,
}

impl View for ExportAccount {
    type V = ExportView;

    open spec fn view(&self) -> ExportView {
        ExportView {
            address: self.address,
            balance: self.balance,
            nonce: self.nonce,
            code: match self.code {
                Some(c) => Some(c@),
                None => None,
            },
            storage: match self.storage {
                Some(s) => Some(s@),
                None => None,
            },
        }
    }
}

/// An account as the export reads it: address, information and storage slots.
pub type AccountRow = (Address, DbAccountInfo, Seq<(Word256, Word256)>);

/// The rows of a table of resolved accounts.
pub open spec fn account_rows(accounts: Seq<(Address, DbAccount)>) -> Seq<AccountRow> {
    accounts.map_values(|p: (Address, DbAccount)| (p.0, p.1.info, p.1.storage@))
}

/// The entry for `hash` in a bytecode table; where the hash occurs more than once,
/// the last occurrence wins.
pub open spec fn lookup_code(contracts: Seq<(Word256, Bytecode)>, hash: Word256) -> Option<
    Bytecode,
>
    decreases contracts.len(),
{
    if contracts.len() == 0 {
        None
    } else if contracts.last().0 == hash {
        Some(contracts.last().1)
    } else {
        lookup_code(contracts.drop_last(), hash)
    }
}

/// The code bytes that a bytecode entry holds, if it is in a readable representation.
pub open spec fn code_bytes(b: Bytecode) -> Option<Seq<u8>> {
    match b {
        Bytecode::LegacyRaw(v) => Some(v@),
        Bytecode::LegacyAnalyzed(v) => Some(v@),
        Bytecode::Other => None,
    }
}

/// The exported form of one account, or why it cannot be exported.
pub open spec fn spec_export_account(
    address: Address,
    info: DbAccountInfo,
    storage: Seq<(Word256, Word256)>,
    contracts: Seq<(Word256, Bytecode)>,
) -> Result<ExportView, ExportError> {
    let hash = info.code_hash;
    if hash == empty_code_hash() {
        Ok(
            ExportView {
                address,
                balance: info.balance,
                nonce: Some(info.nonce),
                code: None,
                storage: None,
            },
        )
    } else {
        match lookup_code(contracts, hash) {
            None => Err(ExportError::MissingCode { address, code_hash: hash }),
            Some(b) => match code_bytes(b) {
                None => Err(ExportError::UnsupportedBytecode { address, code_hash: hash }),
                Some(code) => Ok(
                    ExportView {
                        address,
                        balance: info.balance,
                        nonce: Some(info.nonce),
                        code: Some(code),
                        storage: Some(storage),
                    },
                ),
            },
        }
    }
}

/// The exported forms of a whole account table, in its order, or the error of the
/// first account that cannot be exported.
pub open spec fn spec_export_table(
    accounts: Seq<AccountRow>,
    contracts: Seq<(Word256, Bytecode)>,
) -> Result<Seq<ExportView>, ExportError>
    decreases accounts.len(),
{
    if accounts.len() == 0 {
        Ok(Seq::empty())
    } else {
        match spec_export_table(accounts.drop_last(), contracts) {
            Err(e) => Err(e),
            Ok(prefix) => match spec_export_account(
                accounts.last().0,
                accounts.last().1,
                accounts.last().2,
                contracts,
            ) {
                Err(e) => Err(e),
                Ok(v) => Ok(prefix.push(v)),
            },
        }
    }
}

/// Finds the entry for `hash` in a bytecode table, the last one where it occurs twice.
pub fn find_code<'a>(contracts: &'a Vec<(Word256, Bytecode)>, hash: &Word256) -> (r: Option<
    &'a Bytecode,
>)
    ensures
        match r {
            Some(b) => lookup_code(contracts@, *hash) == Some(*b),
            None => lookup_code(contracts@, *hash).is_none(),
        },
{
    let mut i: usize = contracts.len();
    assert(contracts@.subrange(0, i as int) =~= contracts@);
    while i > 0
        invariant
            i <= contracts.len(),
            lookup_code(contracts@, *hash) == lookup_code(contracts@.subrange(0, i as int), *hash),
        decreases i,
    {
        let ghost prefix = contracts@.subrange(0, i as int);
        if contracts[i - 1].0 == *hash {
            return Some(&contracts[i - 1].1);
        }
        assert(prefix.drop_last() =~= contracts@.subrange(0, i - 1));
        i = i - 1;
    }
    assert(contracts@.subrange(0, 0) =~= Seq::<(Word256, Bytecode)>::empty());
    None
}

/// Exports one account from the entry that its code hash names, as found by the caller.
fn export_resolved(
    address: Address,
    account: &DbAccount,
    found: Option<&Bytecode>,
    Ghost(contracts): Ghost<Seq<(Word256, Bytecode)>>,
) -> (r: Result<ExportAccount, ExportError>)
    requires
        account.info.code_hash != empty_code_hash() ==> match found {
            Some(b) => lookup_code(contracts, account.info.code_hash) == Some(*b),
            None => lookup_code(contracts, account.info.code_hash).is_none(),
        },
    ensures
        match r {
            Ok(rec) => spec_export_account(address, account.info, account.storage@, contracts)
                == Ok::<ExportView, ExportError>(rec@),
            Err(e) => spec_export_account(address, account.info, account.storage@, contracts)
                == Err::<ExportView, ExportError>(e),
        },
{
    let hash = account.info.code_hash;
    if hash.is_empty_code_hash() {
        let rec = ExportAccount {
            address,
            balance: account.info.balance,
            nonce: Some(account.info.nonce),
            code: None,
            storage: None,
        };
        return Ok(rec);
    }
    match found {
        None => Err(ExportError::MissingCode { address, code_hash: hash }),
        Some(b) => {
            let code = match b {
                Bytecode::LegacyRaw(v) => copy_vec(v),
                Bytecode::LegacyAnalyzed(v) => copy_vec(v),
                Bytecode::Other => {
                    return Err(ExportError::UnsupportedBytecode { address, code_hash: hash });
                },
            };
            let rec = ExportAccount {
                address,
                balance: account.info.balance,
                nonce: Some(account.info.nonce),
                code: Some(code),
                storage: Some(copy_vec(&account.storage)),
            };
            Ok(rec)
        },
    }
}

/// Exports one account: an account whose code hash is the hash of empty code is
/// exported without code and storage; any other gets the code that its hash names
/// in the bytecode table and all its storage.
pub fn export_account(
    address: Address,
    account: &DbAccount,
    contracts: &Vec<(Word256, Bytecode)>,
) -> (r: Result<ExportAccount, ExportError>)
    ensures
        match r {
            Ok(rec) => spec_export_account(address, account.info, account.storage@, contracts@)
                == Ok::<ExportView, ExportError>(rec@),
            Err(e) => spec_export_account(address, account.info, account.storage@, contracts@)
                == Err::<ExportView, ExportError>(e),
        },
{
    let found = find_code(contracts, &account.info.code_hash);
    export_resolved(address, account, found, Ghost(contracts@))
}

/// Whether `index` maps the lower half of each code hash in `contracts` to the last
/// position where it occurs, and holds no other key.
pub open spec fn index_wf(index: Map<u128, usize>, contracts: Seq<(Word256, Bytecode)>, n: int) -> bool {
    &&& forall|k: u128|
        index.contains_key(k) <==> exists|i: int| 0 <= i < n && #[trigger] contracts[i].0.low == k
    &&& forall|k: u128|
        #[trigger] index.contains_key(k) ==> {
            &&& index[k] < n
            &&& contracts[index[k] as int].0.low == k
            &&& forall|j: int| index[k] < j < n ==> #[trigger] contracts[j].0.low != k
        }
}

/// Where the last entry for `hash` is at `i`, the lookup finds it.
proof fn lemma_lookup_at(contracts: Seq<(Word256, Bytecode)>, hash: Word256, i: int)
    requires
        0 <= i < contracts.len(),
        contracts[i].0 == hash,
        forall|j: int| i < j < contracts.len() ==> #[trigger] contracts[j].0 != hash,
    ensures
        lookup_code(contracts, hash) == Some(contracts[i].1),
    decreases contracts.len(),
{
    if i < contracts.len() - 1 {
        assert(contracts[contracts.len() - 1].0 != hash);
        lemma_lookup_at(contracts.drop_last(), hash, i);
    }
}

/// Where no entry has `hash`, the lookup finds nothing.
proof fn lemma_lookup_absent(contracts: Seq<(Word256, Bytecode)>, hash: Word256)
    requires
        forall|j: int| 0 <= j < contracts.len() ==> #[trigger] contracts[j].0 != hash,
    ensures
        lookup_code(contracts, hash).is_none(),
    decreases contracts.len(),
{
    if contracts.len() > 0 {
        assert(contracts[contracts.len() - 1].0 != hash);
        lemma_lookup_absent(contracts.drop_last(), hash);
    }
}

/// Indexes a bytecode table by the lower half of each code hash.
fn build_code_index(contracts: &Vec<(Word256, Bytecode)>) -> (r: HashMap<u128, usize>)
    ensures
        index_wf(r@, contracts@, contracts@.len() as int),
{
    broadcast use vstd::std_specs::hash::group_hash_axioms;

    let mut index: HashMap<u128, usize> = HashMap::new();
    let mut i: usize = 0;
    while i < contracts.len()
        invariant
            i <= contracts.len(),
            index_wf(index@, contracts@, i as int),
        decreases contracts.len() - i,
    {
        let ghost before = index@;
        let k = contracts[i].0.low;
        index.insert(k, i);
        assert forall|key: u128|
            index@.contains_key(key) <==> exists|m: int|
                0 <= m < i + 1 && #[trigger] contracts@[m].0.low == key by {
            if key != k && before.contains_key(key) {
                let m = choose|m: int| 0 <= m < i && #[trigger] contracts@[m].0.low == key;
                assert(0 <= m < i + 1 && contracts@[m].0.low == key);
            }
            if key != k && exists|m: int| 0 <= m < i + 1 && #[trigger] contracts@[m].0.low == key {
                let m = choose|m: int| 0 <= m < i + 1 && #[trigger] contracts@[m].0.low == key;
                assert(0 <= m < i && contracts@[m].0.low == key);
            }
            if key == k {
                assert(contracts@[i as int].0.low == key);
            }
        }
        i = i + 1;
    }
    index
}

/// Finds the entry for `hash` through an index of the table, scanning the table only
/// where two code hashes share their lower half.
fn find_code_indexed<'a>(
    contracts: &'a Vec<(Word256, Bytecode)>,
    index: &HashMap<u128, usize>,
    hash: &Word256,
) -> (r: Option<&'a Bytecode>)
    requires
        index_wf(index@, contracts@, contracts@.len() as int),
    ensures
        match r {
            Some(b) => lookup_code(contracts@, *hash) == Some(*b),
            None => lookup_code(contracts@, *hash).is_none(),
        },
{
    broadcast use vstd::std_specs::hash::group_hash_axioms;

    match index.get(&hash.low) {
        None => {
            proof {
                assert forall|j: int| 0 <= j < contracts@.len() implies #[trigger] contracts@[j].0
                    != *hash by {
                    if contracts@[j].0 == *hash {
                        assert(contracts@[j].0.low == hash.low);
                    }
                }
                lemma_lookup_absent(contracts@, *hash);
            }
            None
        },
        Some(i) => {
            let i = *i;
            if contracts[i].0 == *hash {
                proof {
                    assert forall|j: int| i < j < contracts@.len() implies #[trigger] contracts@[j].0
                        != *hash by {
                        assert(contracts@[j].0.low != hash.low);
                    }
                    lemma_lookup_at(contracts@, *hash, i as int);
                }
                Some(&contracts[i].1)
            } else {
                find_code(contracts, hash)
            }
        },
    }
}

/// The plain values of a sequence of exported accounts.
pub open spec fn views_of(records: Seq<ExportAccount>) -> Seq<ExportView> {
    records.map_values(|rec: ExportAccount| rec@)
}

/// Exports every account of the table, in the table's order; fails with the error of
/// the first account that cannot be exported.
pub fn export_accounts(
    accounts: &Vec<(Address, DbAccount)>,
    contracts: &Vec<(Word256, Bytecode)>,
) -> (r: Result<Vec<ExportAccount>, ExportError>)
    ensures
        match r {
            Ok(recs) => spec_export_table(account_rows(accounts@), contracts@) == Ok::<
                Seq<ExportView>,
                ExportError,
            >(views_of(recs@)),
            Err(e) => spec_export_table(account_rows(accounts@), contracts@) == Err::<Seq<ExportView>, ExportError>(
                e,
            ),
        },
{
    let index = build_code_index(contracts);
    let mut out: Vec<ExportAccount> = Vec::with_capacity(accounts.len());
    let mut i: usize = 0;
    let ghost rows = account_rows(accounts@);
    assert(rows.subrange(0, 0) =~= Seq::<AccountRow>::empty());
    assert(views_of(out@) =~= Seq::<ExportView>::empty());
    while i < accounts.len()
        invariant
            i <= accounts.len(),
            index_wf(index@, contracts@, contracts@.len() as int),
            rows == account_rows(accounts@),
            rows.len() == accounts@.len(),
            spec_export_table(rows.subrange(0, i as int), contracts@) == Ok::<
                Seq<ExportView>,
                ExportError,
            >(views_of(out@)),
        decreases accounts.len() - i,
    {
        let ghost before = out@;
        let ghost next = rows.subrange(0, i + 1);
        assert(next.last() == rows[i as int]);
        assert(next.drop_last() =~= rows.subrange(0, i as int));
        let found = if accounts[i].1.info.code_hash.is_empty_code_hash() {
            None
        } else {
            find_code_indexed(contracts, &index, &accounts[i].1.info.code_hash)
        };
        let rec = export_resolved(accounts[i].0, &accounts[i].1, found, Ghost(contracts@));
        match rec {
            Err(e) => {
                proof {
                    lemma_export_table_error_extends(rows, contracts@, i + 1);
                }
                return Err(e);
            },
            Ok(rec) => {
                out.push(rec);
                assert(views_of(out@) =~= views_of(before).push(rec@));
            },
        }
        i = i + 1;
    }
    assert(rows.subrange(0, i as int) =~= rows);
    Ok(out)
}

/// An error on a prefix of the account table is the error of the whole table.
proof fn lemma_export_table_error_extends(
    accounts: Seq<AccountRow>,
    contracts: Seq<(Word256, Bytecode)>,
    n: int,
)
    requires
        0 <= n <= accounts.len(),
        spec_export_table(accounts.subrange(0, n), contracts) is Err,
    ensures
        spec_export_table(accounts, contracts) == spec_export_table(
            accounts.subrange(0, n),
            contracts,
        ),
    decreases accounts.len() - n,
{
    if n == accounts.len() {
        assert(accounts.subrange(0, n) =~= accounts);
    } else {
        assert(accounts.subrange(0, n + 1).drop_last() =~= accounts.subrange(0, n));
        lemma_export_table_error_extends(accounts, contracts, n + 1);
    }
}

/// An exported account has neither code nor storage exactly when its code hash is the
/// hash of empty code; otherwise it has both, the storage possibly empty.
pub proof fn lemma_eoa_contract_partition(
    address: Address,
    info: DbAccountInfo,
    storage: Seq<(Word256, Word256)>,
    contracts: Seq<(Word256, Bytecode)>,
)
    ensures
        match spec_export_account(address, info, storage, contracts) {
            Ok(v) => {
                &&& v.code.is_none() <==> info.code_hash == empty_code_hash()
                &&& v.storage.is_none() <==> info.code_hash == empty_code_hash()
                &&& v.storage.is_some() ==> v.storage == Some(storage)
            },
            Err(_) => info.code_hash != empty_code_hash(),
        },
{
}

/// A contract account whose code hash is not in the bytecode table makes the export
/// of any table that holds it fail.
pub proof fn lemma_unresolvable_code_fails(
    accounts: Seq<AccountRow>,
    contracts: Seq<(Word256, Bytecode)>,
    i: int,
)
    requires
        0 <= i < accounts.len(),
        accounts[i].1.code_hash != empty_code_hash(),
        lookup_code(contracts, accounts[i].1.code_hash).is_none(),
    ensures
        spec_export_table(accounts, contracts) is Err,
    decreases accounts.len(),
{
    if i == accounts.len() - 1 {
        assert(accounts.last() == accounts[i]);
    } else {
        lemma_unresolvable_code_fails(accounts.drop_last(), contracts, i);
    }
}

/// A successful export has one record per account, in the table's order, and the
/// record at each position is the export of the account at that position.
pub proof fn lemma_export_order(
    accounts: Seq<AccountRow>,
    contracts: Seq<(Word256, Bytecode)>,
)
    ensures
        match spec_export_table(accounts, contracts) {
            Ok(vs) => {
                &&& vs.len() == accounts.len()
                &&& forall|j: int|
                    0 <= j < accounts.len() ==> spec_export_account(
                        #[trigger] accounts[j].0,
                        accounts[j].1,
                        accounts[j].2,
                        contracts,
                    ) == Ok::<ExportView, ExportError>(vs[j])
            },
            Err(_) => true,
        },
    decreases accounts.len(),
{
    if accounts.len() > 0 {
        lemma_export_order(accounts.drop_last(), contracts);
        match spec_export_table(accounts, contracts) {
            Ok(vs) => {
                assert forall|j: int| 0 <= j < accounts.len() implies spec_export_account(
                    #[trigger] accounts[j].0,
                    accounts[j].1,
                    accounts[j].2,
                    contracts,
                ) == Ok::<ExportView, ExportError>(vs[j]) by {
                    if j < accounts.len() - 1 {
                        assert(accounts.drop_last()[j] == accounts[j]);
                    }
                }
            },
            Err(_) => {},
        }
    }
}

/// Exporting the same table against the same bytecode table twice gives the same
/// records, in the same order.
pub proof fn lemma_export_deterministic(
    accounts1: Seq<AccountRow>,
    contracts1: Seq<(Word256, Bytecode)>,
    accounts2: Seq<AccountRow>,
    contracts2: Seq<(Word256, Bytecode)>,
)
    requires
        accounts1 == accounts2,
        contracts1 == contracts2,
    ensures
        spec_export_table(accounts1, contracts1) == spec_export_table(accounts2, contracts2),
{
}

} // verus!
