use vstd::prelude::*;
use crate::ident::Identifier;

verus! {

/// One liquidity-mining reward stream of the pool.
#[derive(Clone, Debug)]
pub struct RewardInfo {
    pub reward_state: u8,
    pub open_time: u64,
    pub end_time: u64,
    pub last_update_time: u64,
    pub emissions_per_second_x64: u128,
    pub reward_total_emissioned: u64,
    pub reward_claimed: u64,
    pub token_mint: Identifier,
    pub token_vault: Identifier,
    pub authority: Identifier,
    pub reward_growth_global_x64: u128,
}

/// Mathematical model of a reward stream: unbounded integers and byte
/// sequences.
#[verifier::ext_equal]
pub ghost struct RewardInfoView {
    pub reward_state: nat,
    pub open_time: nat,
    pub end_time: nat,
    pub last_update_time: nat,
    pub emissions_per_second_x64: nat,
    pub reward_total_emissioned: nat,
    pub reward_claimed: nat,
    pub token_mint: Seq<u8>,
    pub token_vault: Seq<u8>,
    pub authority: Seq<u8>,
    pub reward_growth_global_x64: nat,
}

impl View for RewardInfo {
    type V = RewardInfoView;

    open spec fn view(&self) -> RewardInfoView {
        RewardInfoView {
            reward_state: self.reward_state as nat,
            open_time: self.open_time as nat,
            end_time: self.end_time as nat,
            last_update_time: self.last_update_time as nat,
            emissions_per_second_x64: self.emissions_per_second_x64 as nat,
            reward_total_emissioned: self.reward_total_emissioned as nat,
            reward_claimed: self.reward_claimed as nat,
            token_mint: self.token_mint@,
            token_vault: self.token_vault@,
            authority: self.authority@,
            reward_growth_global_x64: self.reward_growth_global_x64 as nat,
        }
    }
}

impl RewardInfo {
    pub open spec fn wf(self) -> bool {
        &&& self.token_mint.wf()
        &&& self.token_vault.wf()
        &&& self.authority.wf()
    }
}

/// Number of reward streams carried by every pool record.
pub const REWARD_STREAMS: usize = 3;

/// Number of 64-bit words in the tick-array bitmap.
pub const TICK_ARRAY_BITMAP_WORDS: usize = 16;

/// The decoded pool account record. Reserved padding regions of the wire
/// layout are consumed during decoding but carry no value, so they do not
/// appear here.
#[derive(Clone, Debug)]
pub struct PoolState {
    pub bump: u8,
    pub amm_config: Identifier,
    pub owner: Identifier,
    pub token_mint_0: Identifier,
    pub token_mint_1: Identifier,
    pub token_vault_0: Identifier,
    pub token_vault_1: Identifier,
    pub observation_key: Identifier,
    pub mint_decimals_0: u8,
    pub mint_decimals_1: u8,
    pub tick_spacing: u16,
    pub liquidity: u128,
    pub sqrt_price_x64: u128,
    pub tick_current: i32,
    pub fee_growth_global_0_x64: u128,
    pub fee_growth_global_1_x64: u128,
    pub protocol_fees_token_0: u64,
    pub protocol_fees_token_1: u64,
    pub swap_in_amount_token_0: u128,
    pub swap_out_amount_token_1: u128,
    pub swap_in_amount_token_1: u128,
    pub swap_out_amount_token_0: u128,
    pub status: u8,
    pub reward_infos: Vec<RewardInfo>,
    pub tick_array_bitmap: Vec<u64>,
    pub total_fees_token_0: u64,
    pub total_fees_claimed_token_0: u64,
    pub total_fees_token_1: u64,
    pub total_fees_claimed_token_1: u64,
    pub fund_fees_token_0: u64,
    pub fund_fees_token_1: u64,
    pub open_time: u64,
    pub recent_epoch: u64,
}

/// Mathematical model of the pool record.
#[verifier::ext_equal]
pub ghost struct PoolStateView {
    pub bump: nat,
    pub amm_config: Seq<u8>,
    pub owner: Seq<u8>,
    pub token_mint_0: Seq<u8>,
    pub token_mint_1: Seq<u8>,
    pub token_vault_0: Seq<u8>,
    pub token_vault_1: Seq<u8>,
    pub observation_key: Seq<u8>,
    pub mint_decimals_0: nat,
    pub mint_decimals_1: nat,
    pub tick_spacing: nat,
    pub liquidity: nat,
    pub sqrt_price_x64: nat,
    pub tick_current: int,
    pub fee_growth_global_0_x64: nat,
    pub fee_growth_global_1_x64: nat,
    pub protocol_fees_token_0: nat,
    pub protocol_fees_token_1: nat,
    pub swap_in_amount_token_0: nat,
    pub swap_out_amount_token_1: nat,
    pub swap_in_amount_token_1: nat,
    pub swap_out_amount_token_0: nat,
    pub status: nat,
    pub reward_infos: Seq<RewardInfoView>,
    pub tick_array_bitmap: Seq<nat>,
    pub total_fees_token_0: nat,
    pub total_fees_claimed_token_0: nat,
    pub total_fees_token_1: nat,
    pub total_fees_claimed_token_1: nat,
    pub fund_fees_token_0: nat,
    pub fund_fees_token_1: nat,
    pub open_time: nat,
    pub recent_epoch: nat,
}

impl View for PoolState {
    type V = PoolStateView;

    open spec fn view(&self) -> PoolStateView {
        PoolStateView {
            bump: self.bump as nat,
            amm_config: self.amm_config@,
            owner: self.owner@,
            token_mint_0: self.token_mint_0@,
            token_mint_1: self.token_mint_1@,
            token_vault_0: self.token_vault_0@,
            token_vault_1: self.token_vault_1@,
            observation_key: self.observation_key@,
            mint_decimals_0: self.mint_decimals_0 as nat,
            mint_decimals_1: self.mint_decimals_1 as nat,
            tick_spacing: self.tick_spacing as nat,
            liquidity: self.liquidity as nat,
            sqrt_price_x64: self.sqrt_price_x64 as nat,
            tick_current: self.tick_current as int,
            fee_growth_global_0_x64: self.fee_growth_global_0_x64 as nat,
            fee_growth_global_1_x64: self.fee_growth_global_1_x64 as nat,
            protocol_fees_token_0: self.protocol_fees_token_0 as nat,
            protocol_fees_token_1: self.protocol_fees_token_1 as nat,
            swap_in_amount_token_0: self.swap_in_amount_token_0 as nat,
            swap_out_amount_token_1: self.swap_out_amount_token_1 as nat,
            swap_in_amount_token_1: self.swap_in_amount_token_1 as nat,
            swap_out_amount_token_0: self.swap_out_amount_token_0 as nat,
            status: self.status as nat,
            reward_infos: self.reward_infos@.map_values(|r: RewardInfo| r@),
            tick_array_bitmap: self.tick_array_bitmap@.map_values(|w: u64| w as nat),
            total_fees_token_0: self.total_fees_token_0 as nat,
            total_fees_claimed_token_0: self.total_fees_claimed_token_0 as nat,
            total_fees_token_1: self.total_fees_token_1 as nat,
            total_fees_claimed_token_1: self.total_fees_claimed_token_1 as nat,
            fund_fees_token_0: self.fund_fees_token_0 as nat,
            fund_fees_token_1: self.fund_fees_token_1 as nat,
            open_time: self.open_time as nat,
            recent_epoch: self.recent_epoch as nat,
        }
    }
}

impl PoolState {
    pub open spec fn wf(self) -> bool {
        &&& self.amm_config.wf()
        &&& self.owner.wf()
        &&& self.token_mint_0.wf()
        &&& self.token_mint_1.wf()
        &&& self.token_vault_0.wf()
        &&& self.token_vault_1.wf()
        &&& self.observation_key.wf()
        &&& self.reward_infos@.len() == REWARD_STREAMS
        &&& forall|i: int| 0 <= i < REWARD_STREAMS ==> self.reward_infos@[i].wf()
        &&& self.tick_array_bitmap@.len() == TICK_ARRAY_BITMAP_WORDS
    }
}

} // verus!
