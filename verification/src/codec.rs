use vstd::prelude::*;
use crate::ident::Identifier;
use crate::state::{PoolState, PoolStateView, RewardInfo, RewardInfoView};

verus! {

/// Width of the leading layout-version discriminator tag.
pub const DISCRIMINATOR_BYTES: usize = 8;

/// Exact byte width of the pool record body, padding regions included.
pub const RECORD_BYTES: usize = 1536;

/// Exact byte width of a whole pool account buffer.
pub const ACCOUNT_BYTES: usize = DISCRIMINATOR_BYTES + RECORD_BYTES;

/// Byte width of one reward stream inside the record body.
pub const REWARD_BYTES: usize = 169;

/// Structural decode failures.
#[derive(PartialEq, Eq, Structural, Clone, Copy, Debug)]
pub enum DecodeError {
    /// The buffer is shorter than the discriminator tag.
    TooShort,
    /// The buffer does not hold exactly one discriminator plus one record.
    LayoutMismatch,
}

/// The unsigned little-endian value of the n bytes of s starting at off.
pub open spec fn le_at(s: Seq<u8>, off: int, n: int) -> nat
    decreases n,
{
    if n <= 0 {
        0
    } else {
        (s[off] + 256 * le_at(s, off + 1, n - 1)) as nat
    }
}

/// 256^n, the exclusive upper bound of an n-byte little-endian value.
pub open spec fn pow256(n: nat) -> nat
    decreases n,
{
    if n == 0 {
        1
    } else {
        pow256((n - 1) as nat) * 256
    }
}

/// The two's-complement value of the 4 bytes of s starting at off.
pub open spec fn i32_at(s: Seq<u8>, off: int) -> int {
    if le_at(s, off, 4) < 0x8000_0000 {
        le_at(s, off, 4) as int
    } else {
        le_at(s, off, 4) - 0x1_0000_0000
    }
}

/// The 32 identifier bytes of s starting at off.
pub open spec fn ident_at(s: Seq<u8>, off: int) -> Seq<u8> {
    s.subrange(off, off + 32)
}

proof fn lemma_pow256_le(a: nat, b: nat)
    requires
        a <= b,
    ensures
        pow256(a) <= pow256(b),
    decreases b,
{
    if a < b {
        lemma_pow256_le(a, (b - 1) as nat);
    }
}

proof fn lemma_pow256_vals()
    ensures
        pow256(1) == 0x100,
        pow256(2) == 0x1_0000,
        pow256(4) == 0x1_0000_0000,
        pow256(8) == 0x1_0000_0000_0000_0000,
        pow256(16) == 0x1_0000_0000_0000_0000_0000_0000_0000_0000,
{
    assert(pow256(0) == 1);
    assert(pow256(1) == 0x100);
    assert(pow256(2) == 0x1_0000);
    assert(pow256(3) == 0x100_0000);
    assert(pow256(4) == 0x1_0000_0000);
    assert(pow256(5) == 0x100_0000_0000);
    assert(pow256(6) == 0x1_0000_0000_0000);
    assert(pow256(7) == 0x100_0000_0000_0000);
    assert(pow256(8) == 0x1_0000_0000_0000_0000);
    assert(pow256(9) == 0x100_0000_0000_0000_0000);
    assert(pow256(10) == 0x1_0000_0000_0000_0000_0000);
    assert(pow256(11) == 0x100_0000_0000_0000_0000_0000);
    assert(pow256(12) == 0x1_0000_0000_0000_0000_0000_0000);
    assert(pow256(13) == 0x100_0000_0000_0000_0000_0000_0000);
    assert(pow256(14) == 0x1_0000_0000_0000_0000_0000_0000_0000);
    assert(pow256(15) == 0x100_0000_0000_0000_0000_0000_0000_0000);
    assert(pow256(16) == 0x1_0000_0000_0000_0000_0000_0000_0000_0000);
}

/// Reads an n-byte little-endian unsigned integer.
fn read_le(b: &Vec<u8>, off: usize, n: usize) -> (r: u128)
    requires
        off + n <= b@.len(),
        n <= 16,
    ensures
        r as nat == le_at(b@, off as int, n as int),
        (r as nat) < pow256(n as nat),
{
    let _blen: usize = b.len();
    let mut r: u128 = 0;
    let mut j: usize = n;
    while j > 0
        invariant
            off + n <= b@.len(),
            off + n <= usize::MAX,
            n <= 16,
            j <= n,
            r as nat == le_at(b@, (off + j) as int, (n - j) as int),
            (r as nat) < pow256((n - j) as nat),
        decreases j,
    {
        j = j - 1;
        proof {
            lemma_pow256_le((n - j) as nat, 16);
            lemma_pow256_vals();
            assert(pow256((n - j) as nat) == pow256((n - j - 1) as nat) * 256);
        }
        let byte = b[off + j];
        r = r * 256 + (byte as u128);
        proof {
            assert(le_at(b@, (off + j) as int, (n - j) as int) == (b@[(off + j) as int] + 256
                * le_at(b@, (off + j + 1) as int, (n - j - 1) as int)) as nat);
        }
    }
    r
}

fn read_u8(b: &Vec<u8>, off: usize) -> (r: u8)
    requires
        off < b@.len(),
    ensures
        r as nat == le_at(b@, off as int, 1),
{
    let r = b[off];
    proof {
        assert(le_at(b@, off as int + 1, 0) == 0);
    }
    r
}

fn read_u16(b: &Vec<u8>, off: usize) -> (r: u16)
    requires
        off + 2 <= b@.len(),
    ensures
        r as nat == le_at(b@, off as int, 2),
{
    let v = read_le(b, off, 2);
    proof {
        lemma_pow256_vals();
    }
    v as u16
}

fn read_u64(b: &Vec<u8>, off: usize) -> (r: u64)
    requires
        off + 8 <= b@.len(),
    ensures
        r as nat == le_at(b@, off as int, 8),
{
    let v = read_le(b, off, 8);
    proof {
        lemma_pow256_vals();
    }
    v as u64
}

fn read_u128(b: &Vec<u8>, off: usize) -> (r: u128)
    requires
        off + 16 <= b@.len(),
    ensures
        r as nat == le_at(b@, off as int, 16),
{
    read_le(b, off, 16)
}

fn read_i32(b: &Vec<u8>, off: usize) -> (r: i32)
    requires
        off + 4 <= b@.len(),
    ensures
        r as int == i32_at(b@, off as int),
{
    let v = read_le(b, off, 4);
    proof {
        lemma_pow256_vals();
    }
    if v < 0x8000_0000 {
        v as i32
    } else {
        ((v as i64) - 0x1_0000_0000i64) as i32
    }
}

fn read_ident(b: &Vec<u8>, off: usize) -> (r: Identifier)
    requires
        off + 32 <= b@.len(),
    ensures
        r.wf(),
        r@ == ident_at(b@, off as int),
{
    let _blen: usize = b.len();
    let mut bytes: Vec<u8> = Vec::new();
    let mut i: usize = 0;
    while i < 32
        invariant
            i <= 32,
            off + 32 <= b@.len(),
            off + 32 <= usize::MAX,
            bytes@ == b@.subrange(off as int, off as int + i as int),
        decreases 32 - i,
    {
        bytes.push(b[off + i]);
        proof {
            assert(bytes@ =~= b@.subrange(off as int, off as int + i + 1));
        }
        i += 1;
    }
    Identifier { bytes }
}

/// The reward stream encoded at byte offset off of the record body.
pub open spec fn spec_reward_at(s: Seq<u8>, off: int) -> RewardInfoView {
    RewardInfoView {
        reward_state: le_at(s, off, 1),
        open_time: le_at(s, off + 1, 8),
        end_time: le_at(s, off + 9, 8),
        last_update_time: le_at(s, off + 17, 8),
        emissions_per_second_x64: le_at(s, off + 25, 16),
        reward_total_emissioned: le_at(s, off + 41, 8),
        reward_claimed: le_at(s, off + 49, 8),
        token_mint: ident_at(s, off + 57),
        token_vault: ident_at(s, off + 89),
        authority: ident_at(s, off + 121),
        reward_growth_global_x64: le_at(s, off + 153, 16),
    }
}

fn decode_reward_at(b: &Vec<u8>, off: usize) -> (r: RewardInfo)
    requires
        off + REWARD_BYTES <= b@.len(),
    ensures
        r.wf(),
        r@ == spec_reward_at(b@, off as int),
{
    let _blen: usize = b.len();
    let r = RewardInfo {
        reward_state: read_u8(b, off),
        open_time: read_u64(b, off + 1),
        end_time: read_u64(b, off + 9),
        last_update_time: read_u64(b, off + 17),
        emissions_per_second_x64: read_u128(b, off + 25),
        reward_total_emissioned: read_u64(b, off + 41),
        reward_claimed: read_u64(b, off + 49),
        token_mint: read_ident(b, off + 57),
        token_vault: read_ident(b, off + 89),
        authority: read_ident(b, off + 121),
        reward_growth_global_x64: read_u128(b, off + 153),
    };
    proof {
        assert(r@ =~~= spec_reward_at(b@, off as int));
    }
    r
}

/// The pool record encoded by the 1536 bytes of the record body s, every
/// field at its documented offset.
pub open spec fn spec_record(s: Seq<u8>) -> PoolStateView {
    PoolStateView {
        bump: le_at(s, 0, 1),
        amm_config: ident_at(s, 1),
        owner: ident_at(s, 33),
        token_mint_0: ident_at(s, 65),
        token_mint_1: ident_at(s, 97),
        token_vault_0: ident_at(s, 129),
        token_vault_1: ident_at(s, 161),
        observation_key: ident_at(s, 193),
        mint_decimals_0: le_at(s, 225, 1),
        mint_decimals_1: le_at(s, 226, 1),
        tick_spacing: le_at(s, 227, 2),
        liquidity: le_at(s, 229, 16),
        sqrt_price_x64: le_at(s, 245, 16),
        tick_current: i32_at(s, 261),
        fee_growth_global_0_x64: le_at(s, 269, 16),
        fee_growth_global_1_x64: le_at(s, 285, 16),
        protocol_fees_token_0: le_at(s, 301, 8),
        protocol_fees_token_1: le_at(s, 309, 8),
        swap_in_amount_token_0: le_at(s, 317, 16),
        swap_out_amount_token_1: le_at(s, 333, 16),
        swap_in_amount_token_1: le_at(s, 349, 16),
        swap_out_amount_token_0: le_at(s, 365, 16),
        status: le_at(s, 381, 1),
        reward_infos: Seq::new(3, |i: int| spec_reward_at(s, 389 + i * 169)),
        tick_array_bitmap: Seq::new(16, |i: int| le_at(s, 896 + i * 8, 8)),
        total_fees_token_0: le_at(s, 1024, 8),
        total_fees_claimed_token_0: le_at(s, 1032, 8),
        total_fees_token_1: le_at(s, 1040, 8),
        total_fees_claimed_token_1: le_at(s, 1048, 8),
        fund_fees_token_0: le_at(s, 1056, 8),
        fund_fees_token_1: le_at(s, 1064, 8),
        open_time: le_at(s, 1072, 8),
        recent_epoch: le_at(s, 1080, 8),
    }
}

fn bytes_from(b: &Vec<u8>, off: usize, n: usize) -> (r: Vec<u8>)
    requires
        off + n <= b@.len(),
    ensures
        r@ == b@.subrange(off as int, off as int + n as int),
{
    let _blen: usize = b.len();
    let mut r: Vec<u8> = Vec::new();
    let mut i: usize = 0;
    while i < n
        invariant
            i <= n,
            off + n <= b@.len(),
            off + n <= usize::MAX,
            r@ == b@.subrange(off as int, off as int + i as int),
        decreases n - i,
    {
        r.push(b[off + i]);
        proof {
            assert(r@ =~= b@.subrange(off as int, off as int + i + 1));
        }
        i += 1;
    }
    r
}

fn decode_record(b: &Vec<u8>) -> (r: PoolState)
    requires
        b@.len() == RECORD_BYTES,
    ensures
        r.wf(),
        r@ == spec_record(b@),
{
    let mut reward_infos: Vec<RewardInfo> = Vec::new();
    let mut i: usize = 0;
    while i < 3
        invariant
            i <= 3,
            b@.len() == RECORD_BYTES,
            reward_infos@.len() == i,
            forall|k: int|
                0 <= k < i ==> (#[trigger] reward_infos@[k]).wf() && reward_infos@[k]@
                    == spec_reward_at(b@, 389 + k * 169),
        decreases 3 - i,
    {
        let ri = decode_reward_at(b, 389 + i * 169);
        reward_infos.push(ri);
        i += 1;
    }
    let mut tick_array_bitmap: Vec<u64> = Vec::new();
    let mut j: usize = 0;
    while j < 16
        invariant
            j <= 16,
            b@.len() == RECORD_BYTES,
            tick_array_bitmap@.len() == j,
            forall|k: int|
                0 <= k < j ==> (#[trigger] tick_array_bitmap@[k]) as nat == le_at(
                    b@,
                    896 + k * 8,
                    8,
                ),
        decreases 16 - j,
    {
        let w = read_u64(b, 896 + j * 8);
        tick_array_bitmap.push(w);
        j += 1;
    }
    let r = PoolState {
        bump: read_u8(b, 0),
        amm_config: read_ident(b, 1),
        owner: read_ident(b, 33),
        token_mint_0: read_ident(b, 65),
        token_mint_1: read_ident(b, 97),
        token_vault_0: read_ident(b, 129),
        token_vault_1: read_ident(b, 161),
        observation_key: read_ident(b, 193),
        mint_decimals_0: read_u8(b, 225),
        mint_decimals_1: read_u8(b, 226),
        tick_spacing: read_u16(b, 227),
        liquidity: read_u128(b, 229),
        sqrt_price_x64: read_u128(b, 245),
        tick_current: read_i32(b, 261),
        fee_growth_global_0_x64: read_u128(b, 269),
        fee_growth_global_1_x64: read_u128(b, 285),
        protocol_fees_token_0: read_u64(b, 301),
        protocol_fees_token_1: read_u64(b, 309),
        swap_in_amount_token_0: read_u128(b, 317),
        swap_out_amount_token_1: read_u128(b, 333),
        swap_in_amount_token_1: read_u128(b, 349),
        swap_out_amount_token_0: read_u128(b, 365),
        status: read_u8(b, 381),
        reward_infos,
        tick_array_bitmap,
        total_fees_token_0: read_u64(b, 1024),
        total_fees_claimed_token_0: read_u64(b, 1032),
        total_fees_token_1: read_u64(b, 1040),
        total_fees_claimed_token_1: read_u64(b, 1048),
        fund_fees_token_0: read_u64(b, 1056),
        fund_fees_token_1: read_u64(b, 1064),
        open_time: read_u64(b, 1072),
        recent_epoch: read_u64(b, 1080),
    };
    proof {
        assert(r@.reward_infos =~= spec_record(b@).reward_infos);
        assert(r@.tick_array_bitmap =~= spec_record(b@).tick_array_bitmap);
        assert(r@ =~~= spec_record(b@));
    }
    r
}

/// Decodes one raw account buffer: strips the 8-byte discriminator and maps
/// the remaining bytes onto the fixed record layout. Succeeds exactly on
/// buffers of the exact account width; every field of the result is the
/// value encoded at its documented offset.
pub fn decode(buffer: &Vec<u8>) -> (r: Result<PoolState, DecodeError>)
    ensures
        r is Ok <==> buffer@.len() == ACCOUNT_BYTES,
        r matches Ok(p) ==> p.wf() && p@ == spec_record(
            buffer@.skip(DISCRIMINATOR_BYTES as int),
        ),
        r == Err::<PoolState, DecodeError>(DecodeError::TooShort) <==> buffer@.len()
            < DISCRIMINATOR_BYTES,
        r == Err::<PoolState, DecodeError>(DecodeError::LayoutMismatch) <==> (buffer@.len()
            >= DISCRIMINATOR_BYTES && buffer@.len() != ACCOUNT_BYTES),
{
    if buffer.len() < DISCRIMINATOR_BYTES {
        return Err(DecodeError::TooShort);
    }
    if buffer.len() != ACCOUNT_BYTES {
        return Err(DecodeError::LayoutMismatch);
    }
    let body = bytes_from(buffer, DISCRIMINATOR_BYTES, RECORD_BYTES);
    proof {
        assert(body@ =~= buffer@.skip(DISCRIMINATOR_BYTES as int));
    }
    let p = decode_record(&body);
    Ok(p)
}

} // verus!
