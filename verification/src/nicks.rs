//! The storage migration of the nicks pallet to version 1: every stored
//! nickname becomes a real name, split at its last space into a first and a
//! last name, and the names are counted.
use vstd::prelude::*;

use crate::search::{is_last, last_index, lemma_last_index_is, lemma_last_index_none};
use crate::types::{AccountId, Balance};

verus! {

/// A name split into a first name and, where it had a space, a last name.
pub struct Nickname {
    pub first: Vec<u8>,
    pub last: Option<Vec<u8>>,
}

/// The view of a [`Nickname`]: its parts as byte sequences.
pub struct NicknameView {
    pub first: Seq<u8>,
    pub last: Option<Seq<u8>>,
}

impl View for Nickname {
    type V = NicknameView;

    open spec fn view(&self) -> NicknameView {
        NicknameView {
            first: self.first@,
            last: match self.last {
                Some(l) => Some(l@),
                None => None,
            },
        }
    }
}

/// A stored nickname: the account, its name and the deposit held for it.
pub struct NameRecord {
    pub account: AccountId,
    pub nick: Vec<u8>,
    pub deposit: Balance,
}

/// A stored real name: the account, its split name and the deposit held for it.
pub struct RealnameRecord {
    pub account: AccountId,
    pub name: Nickname,
    pub deposit: Balance,
}

/// The weight of one storage read and of one storage write.
#[derive(Clone, Copy, Debug)]
pub struct RuntimeDbWeight {
    pub read: u64,
    pub write: u64,
}

/// `x`, or `u64::MAX` where `x` is larger.
pub open spec fn saturate(x: int) -> u64 {
    if x > u64::MAX {
        u64::MAX
    } else {
        x as u64
    }
}

impl RuntimeDbWeight {
    /// The weight of `reads` reads and `writes` writes, each product and their
    /// sum saturating at `u64::MAX`.
    pub fn reads_writes(&self, reads: u64, writes: u64) -> (r: u64)
        ensures
            r == saturate(saturate(self.read * reads) + saturate(self.write * writes)),
    {
        let read_weight = match self.read.checked_mul(reads) {
            Some(w) => w,
            None => u64::MAX,
        };
        let write_weight = match self.write.checked_mul(writes) {
            Some(w) => w,
            None => u64::MAX,
        };
        match read_weight.checked_add(write_weight) {
            Some(w) => w,
            None => u64::MAX,
        }
    }
}

/// Whether a byte is a space.
pub open spec fn is_space() -> spec_fn(u8) -> bool {
    |b: u8| b == 0x20u8
}

/// The split of a nickname at its last space: the bytes before it, and the
/// bytes after it; with no space, the whole nickname and no last name.
pub open spec fn split_at_last_space(nick: Seq<u8>) -> NicknameView {
    match last_index(nick, is_space()) {
        Some(i) => NicknameView {
            first: nick.subrange(0, i),
            last: Some(nick.subrange(i + 1, nick.len() as int)),
        },
        None => NicknameView { first: nick, last: None },
    }
}

/// The bytes of `v` from `lo` up to `hi`.
fn copy_range(v: &Vec<u8>, lo: usize, hi: usize) -> (r: Vec<u8>)
    requires
        lo <= hi <= v.len(),
    ensures
        r@ == v@.subrange(lo as int, hi as int),
{
    let mut r: Vec<u8> = Vec::new();
    let mut i: usize = lo;
    while i < hi
        invariant
            lo <= i <= hi,
            hi <= v.len(),
            r@ == v@.subrange(lo as int, i as int),
        decreases hi - i,
    {
        r.push(v[i]);
        i = i + 1;
        assert(r@ =~= v@.subrange(lo as int, i as int));
    }
    r
}

/// Splits a nickname at its last space (see [`split_at_last_space`]).
pub fn split_nickname(nick: Vec<u8>) -> (r: Nickname)
    ensures
        r@ == split_at_last_space(nick@),
{
    let mut i: usize = nick.len();
    while i > 0
        invariant
            i <= nick.len(),
            forall|k: int| i <= k < nick.len() ==> !is_space()(#[trigger] nick@[k]),
        decreases i,
    {
        i = i - 1;
        if nick[i] == 0x20 {
            proof {
                assert(is_last(nick@, is_space(), i as int));
                lemma_last_index_is(nick@, is_space(), i as int);
            }
            let first = copy_range(&nick, 0, i);
            let last = copy_range(&nick, i + 1, nick.len());
            return Nickname { first, last: Some(last) };
        }
    }
    proof {
        lemma_last_index_none(nick@, is_space());
    }
    Nickname { first: nick, last: None }
}

/// Splitting loses nothing: the first name, a space and the last name make
/// the nickname again, and the last name holds no space; a nickname with no
/// space is its own first name.
pub proof fn lemma_split_rejoins(nick: Seq<u8>)
    ensures
        split_at_last_space(nick) matches NicknameView { first, last: Some(last) } ==> {
            &&& first + seq![0x20u8] + last == nick
            &&& forall|k: int| 0 <= k < last.len() ==> last[k] != 0x20u8
        },
        split_at_last_space(nick).last is None ==> {
            &&& split_at_last_space(nick).first == nick
            &&& forall|k: int| 0 <= k < nick.len() ==> nick[k] != 0x20u8
        },
{
    match last_index(nick, is_space()) {
        Some(i) => {
            let j = choose|j: int| #[trigger] is_last(nick, is_space(), j);
            assert(is_last(nick, is_space(), j));
            lemma_last_index_is(nick, is_space(), j);
            assert(nick.subrange(0, i) + seq![0x20u8] + nick.subrange(i + 1, nick.len() as int)
                =~= nick);
            let last = nick.subrange(i + 1, nick.len() as int);
            assert forall|k: int| 0 <= k < last.len() implies #[trigger] last[k] != 0x20u8 by {
                assert(!is_space()(nick[i + 1 + k]));
            }
        },
        None => {
            assert forall|k: int| 0 <= k < nick.len() implies nick[k] != 0x20u8 by {
                if nick[k] == 0x20u8 {
                    lemma_last_of_any(nick, k);
                }
            }
        },
    }
}

/// Where some byte is a space, there is a last one.
proof fn lemma_last_of_any(nick: Seq<u8>, k: int)
    requires
        0 <= k < nick.len(),
        nick[k] == 0x20u8,
    ensures
        last_index(nick, is_space()) is Some,
    decreases nick.len() - k,
{
    if forall|m: int| k < m < nick.len() ==> !is_space()(#[trigger] nick[m]) {
        assert(is_last(nick, is_space(), k));
    } else {
        let m = choose|m: int| k < m < nick.len() && #[trigger] is_space()(nick[m]);
        lemma_last_of_any(nick, m);
    }
}

/// What the migration to version 1 writes: the count of names, the real
/// names in the order the names were read, and the weight it used.
pub struct MigrationV1 {
    pub count_for_names: u32,
    pub realnames: Vec<RealnameRecord>,
    pub weight: u64,
}

/// Whether `m` is the migration of `names` to version 1: the count of the
/// names truncated to `u32`; for each name in order, a real name for the same
/// account and deposit, split at its last space; and the weight of as many
/// reads and writes as there are names, plus two.
pub open spec fn is_v1_migration(m: MigrationV1, names: Seq<NameRecord>, db_weight: RuntimeDbWeight) -> bool {
    &&& m.count_for_names == names.len() as u32
    &&& m.realnames@.len() == names.len()
    &&& forall|i: int|
        0 <= i < names.len() ==> {
            &&& (#[trigger] m.realnames@[i]).account == names[i].account
            &&& m.realnames@[i].deposit == names[i].deposit
            &&& m.realnames@[i].name@ == split_at_last_space(names[i].nick@)
        }
    &&& m.weight == saturate(
        saturate(db_weight.read * (names.len() + 2)) + saturate(db_weight.write * (names.len() + 2)),
    )
}

/// Migrates the stored names: counts them (the count truncated to `u32`), and
/// turns each into a real name for the same account and deposit. It reads and
/// writes once for the count, once per name and once for the storage version.
pub fn migrate_v1(names: Vec<NameRecord>, db_weight: RuntimeDbWeight) -> (r: MigrationV1)
    requires
        names.len() + 2 <= u64::MAX,
    ensures
        is_v1_migration(r, names@, db_weight),
{
    let count_for_names = names.len() as u32;
    let mut reads_writes: u64 = 1;
    let ghost stored = names@;
    let mut names = names;
    let mut reversed: Vec<RealnameRecord> = Vec::new();
    let n = names.len();
    while names.len() > 0
        invariant
            names@ == stored.take(names.len() as int),
            stored.len() == n,
            n + 2 <= u64::MAX,
            reads_writes == 1 + (n - names.len()),
            reversed@.len() == n - names.len(),
            forall|j: int|
                0 <= j < reversed@.len() ==> {
                    let i = n - 1 - j;
                    &&& (#[trigger] reversed@[j]).account == stored[i].account
                    &&& reversed@[j].deposit == stored[i].deposit
                    &&& reversed@[j].name@ == split_at_last_space(stored[i].nick@)
                },
        decreases names.len(),
    {
        let record = names.pop().unwrap();
        proof {
            assert(names@ =~= stored.take(names.len() as int));
        }
        reads_writes = reads_writes + 1;
        let name = split_nickname(record.nick);
        reversed.push(RealnameRecord { account: record.account, name, deposit: record.deposit });
    }
    let mut realnames: Vec<RealnameRecord> = Vec::new();
    while reversed.len() > 0
        invariant
            stored.len() == n,
            reversed@.len() + realnames@.len() == n,
            forall|j: int|
                0 <= j < reversed@.len() ==> {
                    let i = n - 1 - j;
                    &&& (#[trigger] reversed@[j]).account == stored[i].account
                    &&& reversed@[j].deposit == stored[i].deposit
                    &&& reversed@[j].name@ == split_at_last_space(stored[i].nick@)
                },
            forall|i: int|
                0 <= i < realnames@.len() ==> {
                    &&& (#[trigger] realnames@[i]).account == stored[i].account
                    &&& realnames@[i].deposit == stored[i].deposit
                    &&& realnames@[i].name@ == split_at_last_space(stored[i].nick@)
                },
        decreases reversed.len(),
    {
        let record = reversed.pop().unwrap();
        realnames.push(record);
    }
    reads_writes = reads_writes + 1;
    let weight = db_weight.reads_writes(reads_writes, reads_writes);
    MigrationV1 { count_for_names, realnames, weight }
}

/// What the migration did: the weight it used, the storage version it
/// leaves, and, where the storage was older than version 1, what the migration
/// to version 1 writes.
pub struct Migration {
    pub weight: u64,
    pub version: u16,
    pub v1: Option<MigrationV1>,
}

/// The storage version after a migration from version `version`.
pub open spec fn version_after(version: u16) -> u16 {
    if version < 1 {
        1
    } else {
        version
    }
}

/// Migrates the storage of version `version`: to version 1 where it is older,
/// otherwise not at all, at no weight.
pub fn migrate(version: u16, names: Vec<NameRecord>, db_weight: RuntimeDbWeight) -> (r: Migration)
    requires
        names.len() + 2 <= u64::MAX,
    ensures
        r.version == version_after(version),
        version >= 1 ==> r.weight == 0 && r.v1 is None,
        version < 1 ==> (r.v1 matches Some(v1) && r.weight == v1.weight && is_v1_migration(
            v1,
            names@,
            db_weight,
        )),
{
    let mut weight: u64 = 0;
    if version < 1 {
        let v1 = migrate_v1(names, db_weight);
        weight = weight.saturating_add(v1.weight);
        return Migration { weight, version: 1, v1: Some(v1) };
    }
    Migration { weight, version, v1: None }
}

/// A migration runs once: it leaves the storage at version 1 or later, from
/// where a second migration writes nothing and weighs nothing (see the
/// contract of [`migrate`]).
pub proof fn lemma_migration_runs_once(version: u16)
    ensures
        version_after(version) >= 1,
        version_after(version_after(version)) == version_after(version),
{
}

/// After the migration to version 1, each real name is the stored nickname
/// split at its last space, for the same account and deposit: the first name,
/// a space and the last name make the nickname again, and the last name holds
/// no space; a nickname with no space is kept whole as the first name.
pub proof fn lemma_migrated_names_rejoin(m: MigrationV1, names: Seq<NameRecord>, db_weight: RuntimeDbWeight)
    requires
        is_v1_migration(m, names, db_weight),
    ensures
        forall|i: int|
            0 <= i < names.len() ==> {
                let name = (#[trigger] m.realnames@[i]).name@;
                let nick = names[i].nick@;
                &&& m.realnames@[i].account == names[i].account
                &&& m.realnames@[i].deposit == names[i].deposit
                &&& match name.last {
                    Some(last) => name.first + seq![0x20u8] + last == nick && forall|k: int|
                        0 <= k < last.len() ==> last[k] != 0x20u8,
                    None => name.first == nick && forall|k: int|
                        0 <= k < nick.len() ==> nick[k] != 0x20u8,
                }
            },
{
    assert forall|i: int| 0 <= i < names.len() implies {
        let name = (#[trigger] m.realnames@[i]).name@;
        let nick = names[i].nick@;
        &&& m.realnames@[i].account == names[i].account
        &&& m.realnames@[i].deposit == names[i].deposit
        &&& match name.last {
            Some(last) => name.first + seq![0x20u8] + last == nick && forall|k: int|
                0 <= k < last.len() ==> last[k] != 0x20u8,
            None => name.first == nick && forall|k: int| 0 <= k < nick.len() ==> nick[k] != 0x20u8,
        }
    } by {
        lemma_split_rejoins(names[i].nick@);
    }
}

} // verus!
