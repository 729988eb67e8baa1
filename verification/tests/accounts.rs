use open_grant::pallet::{Config, GenesisConfig, Module};
use sp_runtime::codec::{Decode, Encode, Error as CodecError, Input, Output};
use sp_runtime::traits::AccountIdConversion;
use sp_runtime::{AccountId32, TypeId};

/// A module identifier as the chain's runtime defines one.
struct ChainModuleId([u8; 8]);

impl Encode for ChainModuleId {
    fn encode_to<O: Output + ?Sized>(&self, dest: &mut O) {
        self.0.encode_to(dest)
    }
}

impl Decode for ChainModuleId {
    fn decode<I: Input>(input: &mut I) -> Result<Self, CodecError> {
        Ok(ChainModuleId(<[u8; 8]>::decode(input)?))
    }
}

impl TypeId for ChainModuleId {
    const TYPE_ID: [u8; 4] = *b"modl";
}

fn module(id: [u8; 8]) -> Module {
    Module::new(
        Config { module_id: id },
        GenesisConfig { max_round_grants: 60, withdrawal_period: 1000, is_identity_needed: false },
    )
}

#[test]
fn pot_account_matches_the_chain() {
    for id in [*b"py/opgrt", [0u8; 8], [0xff; 8]] {
        let chain: AccountId32 = ChainModuleId(id).into_account_truncating();
        let chain: [u8; 32] = chain.into();
        assert_eq!(module(id).account_id(), chain);
    }
}

#[test]
fn project_accounts_match_the_chain() {
    for id in [*b"py/opgrt", [7u8; 8]] {
        let m = module(id);
        for index in [0u32, 1, 2, 255, 256, 0x0102_0304, u32::MAX] {
            let chain: AccountId32 = ChainModuleId(id).into_sub_account_truncating(index);
            let chain: [u8; 32] = chain.into();
            assert_eq!(m.project_account_id(index), chain);
        }
    }
}
