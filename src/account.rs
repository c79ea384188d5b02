use vstd::prelude::*;

use crate::words::{copy_vec, empty_code_hash, keccak_empty, zero_word, Address, Word256};

verus! {

/// Balance, nonce and code hash of an account, as decoded from a snapshot.
#[derive(Clone, Copy, Debug, PartialEq, Eq, Structural)]
pub struct DbAccountInfo {
    pub balance: Word256,
    pub nonce: u64,
    pub code_hash: Word256,
}

/// The account information a record stands for when it carries no fields.
pub open spec fn default_info() -> DbAccountInfo {
    DbAccountInfo { balance: zero_word(), nonce: 0, code_hash: empty_code_hash() }
}

impl Default for DbAccountInfo {
    fn default() -> (r: DbAccountInfo)
        ensures
            r == default_info(),
    {
        DbAccountInfo { balance: Word256::zero(), nonce: 0, code_hash: keccak_empty() }
    }
}

/// The value a field takes: its short name first, then its long name, then the default.
pub open spec fn resolve_field<T>(short: Option<T>, long: Option<T>, default: T) -> T {
    match short {
        Some(v) => v,
        None => match long {
            Some(v) => v,
            None => default,
        },
    }
}

/// Account information as it appears in a record: each field may stand under its
/// short name (`b`, `n`, `c`) or its long name (`balance`, `nonce`, `code_hash`).
#[derive(Clone, Copy, Debug, PartialEq, Eq, Structural)]
pub struct RawAccountInfo {
    pub b: Option<Word256>,
    pub n: Option<u64>,
    pub c: Option<Word256>,
    pub balance: Option<Word256>,
    pub nonce: Option<u64>,
    pub code_hash: Option<Word256>,
}

impl RawAccountInfo {
    /// The account information this record decodes to.
    pub open spec fn spec_resolve(self) -> DbAccountInfo {
        DbAccountInfo {
            balance: resolve_field(self.b, self.balance, zero_word()),
            nonce: resolve_field(self.n, self.nonce, 0u64),
            code_hash: resolve_field(self.c, self.code_hash, empty_code_hash()),
        }
    }

    /// A record with no fields at all.
    pub open spec fn spec_empty() -> RawAccountInfo {
        RawAccountInfo { b: None, n: None, c: None, balance: None, nonce: None, code_hash: None }
    }

    /// A record carrying the given fields under their short names.
    pub open spec fn spec_short(info: DbAccountInfo) -> RawAccountInfo {
        RawAccountInfo {
            b: Some(info.balance),
            n: Some(info.nonce),
            c: Some(info.code_hash),
            balance: None,
            nonce: None,
            code_hash: None,
        }
    }

    /// A record carrying the given fields under their long names.
    pub open spec fn spec_long(info: DbAccountInfo) -> RawAccountInfo {
        RawAccountInfo {
            b: None,
            n: None,
            c: None,
            balance: Some(info.balance),
            nonce: Some(info.nonce),
            code_hash: Some(info.code_hash),
        }
    }

    /// Resolves each field from its short name, else its long name, else its default.
    pub fn resolve(&self) -> (r: DbAccountInfo)
        ensures
            r == self.spec_resolve(),
    {
        let balance = match self.b {
            Some(v) => v,
            None => match self.balance {
                Some(v) => v,
                None => Word256::zero(),
            },
        };
        let nonce: u64 = match self.n {
            Some(v) => v,
            None => match self.nonce {
                Some(v) => v,
                None => 0,
            },
        };
        let code_hash = match self.c {
            Some(v) => v,
            None => match self.code_hash {
                Some(v) => v,
                None => keccak_empty(),
            },
        };
        DbAccountInfo { balance, nonce, code_hash }
    }
}

/// An account as decoded from a snapshot: its information and its storage slots.
#[derive(Clone, Debug)]
pub struct DbAccount {
    pub info: DbAccountInfo,
    pub storage: Vec<(Word256, Word256)>,
}

/// An account as it appears in a record: information under `i` or `info`, storage
/// under `s` or `storage`.
#[derive(Clone, Debug)]
pub struct RawAccount {
    pub i: Option<RawAccountInfo>,
    pub s: Option<Vec<(Word256, Word256)>>,
    pub info: Option<RawAccountInfo>,
    pub storage: Option<Vec<(Word256, Word256)>>,
}

/// The raw information record that stands for an account, if any.
pub open spec fn raw_info_of(a: RawAccount) -> RawAccountInfo {
    resolve_field(a.i, a.info, RawAccountInfo::spec_empty())
}

/// The storage slots that stand for an account.
pub open spec fn raw_storage_of(a: RawAccount) -> Seq<(Word256, Word256)> {
    match a.s {
        Some(v) => v@,
        None => match a.storage {
            Some(v) => v@,
            None => Seq::empty(),
        },
    }
}

impl RawAccount {
    /// Resolves the information and storage of a record, each from its short name,
    /// else its long name, else its default.
    pub fn resolve(&self) -> (r: DbAccount)
        ensures
            r.info == raw_info_of(*self).spec_resolve(),
            r.storage@ == raw_storage_of(*self),
    {
        let info = match &self.i {
            Some(v) => v.resolve(),
            None => match &self.info {
                Some(v) => v.resolve(),
                None => DbAccountInfo::default(),
            },
        };
        let storage = match &self.s {
            Some(v) => copy_vec(v),
            None => match &self.storage {
                Some(v) => copy_vec(v),
                None => Vec::new(),
            },
        };
        DbAccount { info, storage }
    }
}

/// A record that lacks the nonce, balance or code hash decodes to zero, zero and the
/// hash of empty code in their place; a record lacking all three decodes to the default.
pub proof fn lemma_missing_fields_default(raw: RawAccountInfo)
    ensures
        raw.b.is_none() && raw.balance.is_none() ==> raw.spec_resolve().balance == zero_word(),
        raw.n.is_none() && raw.nonce.is_none() ==> raw.spec_resolve().nonce == 0,
        raw.c.is_none() && raw.code_hash.is_none() ==> raw.spec_resolve().code_hash
            == empty_code_hash(),
        RawAccountInfo::spec_empty().spec_resolve() == default_info(),
{
}

/// A record that writes an account's fields under their short names and one that
/// writes them under their long names decode to the same account information, and
/// that is the information written.
pub proof fn lemma_alias_equivalence(info: DbAccountInfo)
    ensures
        RawAccountInfo::spec_short(info).spec_resolve() == RawAccountInfo::spec_long(
            info,
        ).spec_resolve(),
        RawAccountInfo::spec_short(info).spec_resolve() == info,
{
}

} // verus!
