//! The accounts that the pallet derives from its module identifier: the pot
//! that holds the matching pool, and one account per project that holds the
//! contributions made to it.
//!
//! An account is derived as the chain's `AccountIdConversion` derives it for a
//! `ModuleId` and a 32-byte account: the type tag `modl`, the eight bytes of the
//! identifier, the SCALE encoding of the sub-account index (nothing for the pot,
//! four little-endian bytes for a project), then zeros up to 32 bytes.
use vstd::prelude::*;

use crate::types::{AccountId, ProjectIndex};

verus! {

/// The type tag that precedes a module identifier in a derived account.
pub open spec fn module_tag() -> Seq<u8> {
    seq![0x6du8, 0x6fu8, 0x64u8, 0x6cu8]
}

/// `n` zero bytes.
pub open spec fn zeros(n: nat) -> Seq<u8> {
    Seq::new(n, |i: int| 0u8)
}

/// The four little-endian bytes of a `u32`.
pub open spec fn le_bytes(x: u32) -> Seq<u8> {
    seq![
        (x % 0x100) as u8,
        ((x / 0x100) % 0x100) as u8,
        ((x / 0x1_0000) % 0x100) as u8,
        (x / 0x100_0000) as u8,
    ]
}

/// The bytes of the pot account of the module `module_id`.
pub open spec fn pot_account(module_id: [u8; 8]) -> Seq<u8> {
    module_tag() + module_id@ + zeros(20)
}

/// The bytes of the account of project `index` of the module `module_id`.
pub open spec fn project_account(module_id: [u8; 8], index: ProjectIndex) -> Seq<u8> {
    module_tag() + module_id@ + le_bytes(index) + zeros(16)
}

/// The pot account of the module `module_id`, as an account.
pub open spec fn pot_account_id(module_id: [u8; 8]) -> AccountId {
    choose|a: AccountId| #[trigger] a@ == pot_account(module_id)
}

/// The account of project `index` of the module `module_id`, as an account.
pub open spec fn project_account_id_of(module_id: [u8; 8], index: ProjectIndex) -> AccountId {
    choose|a: AccountId| #[trigger] a@ == project_account(module_id, index)
}

/// The pot account of the module.
pub fn derive_pot_account(module_id: &[u8; 8]) -> (r: AccountId)
    ensures
        r@ == pot_account(*module_id),
        r == pot_account_id(*module_id),
{
    let m = *module_id;
    let r: AccountId = [
        0x6d, 0x6f, 0x64, 0x6c,
        m[0], m[1], m[2], m[3], m[4], m[5], m[6], m[7],
        0, 0, 0, 0, 0, 0, 0, 0, 0, 0,
        0, 0, 0, 0, 0, 0, 0, 0, 0, 0,
    ];
    assert(r@ =~= pot_account(m));
    proof {
        broadcast use vstd::array::group_array_axioms;

        let c = pot_account_id(m);
        assert(c@ == pot_account(m));
        assert(c =~= r);
    }
    r
}

/// The account of project `index` of the module.
pub fn derive_project_account(module_id: &[u8; 8], index: ProjectIndex) -> (r: AccountId)
    ensures
        r@ == project_account(*module_id, index),
        r == project_account_id_of(*module_id, index),
{
    let m = *module_id;
    let b0 = (index % 0x100) as u8;
    let b1 = ((index / 0x100) % 0x100) as u8;
    let b2 = ((index / 0x1_0000) % 0x100) as u8;
    let b3 = (index / 0x100_0000) as u8;
    let r: AccountId = [
        0x6d, 0x6f, 0x64, 0x6c,
        m[0], m[1], m[2], m[3], m[4], m[5], m[6], m[7],
        b0, b1, b2, b3,
        0, 0, 0, 0, 0, 0, 0, 0,
        0, 0, 0, 0, 0, 0, 0, 0,
    ];
    assert(r@ =~= project_account(m, index));
    proof {
        broadcast use vstd::array::group_array_axioms;

        let c = project_account_id_of(m, index);
        assert(c@ == project_account(m, index));
        assert(c =~= r);
    }
    r
}

/// Whether two accounts are the same account.
pub fn same_account(a: &AccountId, b: &AccountId) -> (r: bool)
    ensures
        r <==> *a == *b,
{
    let mut i: usize = 0;
    while i < 32
        invariant
            i <= 32,
            forall|k: int| 0 <= k < i ==> a@[k] == b@[k],
        decreases 32 - i,
    {
        if a[i] != b[i] {
            return false;
        }
        i = i + 1;
    }
    proof {
        broadcast use vstd::array::group_array_axioms;

        assert(*a =~= *b);
    }
    true
}

/// Different projects have different accounts, and the account of project 0
/// is the pot account itself: the encoding of index 0 is four zero bytes, as
/// are the bytes that follow the identifier in the pot account.
pub proof fn lemma_project_accounts_distinct(module_id: [u8; 8], i: ProjectIndex, j: ProjectIndex)
    ensures
        i != j ==> project_account(module_id, i) != project_account(module_id, j),
        project_account(module_id, 0) == pot_account(module_id),
{
    if i != j && project_account(module_id, i) == project_account(module_id, j) {
        let a = project_account(module_id, i);
        let b = project_account(module_id, j);
        assert(a[12] == b[12] && a[13] == b[13] && a[14] == b[14] && a[15] == b[15]);
        assert(a[12] == (i % 0x100) as u8);
        assert(b[12] == (j % 0x100) as u8);
        assert(a[13] == ((i / 0x100) % 0x100) as u8);
        assert(b[13] == ((j / 0x100) % 0x100) as u8);
        assert(a[14] == ((i / 0x1_0000) % 0x100) as u8);
        assert(b[14] == ((j / 0x1_0000) % 0x100) as u8);
        assert(a[15] == (i / 0x100_0000) as u8);
        assert(b[15] == (j / 0x100_0000) as u8);
        assert(i % 0x100 == j % 0x100);
        assert((i / 0x100) % 0x100 == (j / 0x100) % 0x100);
        assert((i / 0x1_0000) % 0x100 == (j / 0x1_0000) % 0x100);
        assert(i / 0x100_0000 == j / 0x100_0000);
        assert(i == j) by (bit_vector)
            requires
                i % 0x100 == j % 0x100,
                (i / 0x100) % 0x100 == (j / 0x100) % 0x100,
                (i / 0x1_0000) % 0x100 == (j / 0x1_0000) % 0x100,
                i / 0x100_0000 == j / 0x100_0000,
        ;
    }
    assert(le_bytes(0) =~= zeros(4));
    assert(project_account(module_id, 0) =~= pot_account(module_id));
}

/// The derived accounts exist: the pot account and every project account
/// hold exactly the bytes their derivation gives.
pub proof fn lemma_derived_accounts(module_id: [u8; 8], index: ProjectIndex)
    ensures
        pot_account_id(module_id)@ == pot_account(module_id),
        project_account_id_of(module_id, index)@ == project_account(module_id, index),
{
    let m = module_id;
    let pot: AccountId = [
        0x6d, 0x6f, 0x64, 0x6c,
        m[0], m[1], m[2], m[3], m[4], m[5], m[6], m[7],
        0, 0, 0, 0, 0, 0, 0, 0, 0, 0,
        0, 0, 0, 0, 0, 0, 0, 0, 0, 0,
    ];
    assert(pot@ =~= pot_account(m));
    let b = le_bytes(index);
    let project: AccountId = [
        0x6d, 0x6f, 0x64, 0x6c,
        m[0], m[1], m[2], m[3], m[4], m[5], m[6], m[7],
        b[0], b[1], b[2], b[3],
        0, 0, 0, 0, 0, 0, 0, 0,
        0, 0, 0, 0, 0, 0, 0, 0,
    ];
    assert(project@ =~= project_account(m, index));
}

} // verus!
