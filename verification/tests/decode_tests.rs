use pool_price::codec::{decode, DecodeError, ACCOUNT_BYTES};

fn put_le(buf: &mut Vec<u8>, off: usize, width: usize, val: u128) {
    for i in 0..width {
        buf[off + i] = (val >> (8 * i)) as u8;
    }
}

fn put_bytes(buf: &mut Vec<u8>, off: usize, bytes: &[u8]) {
    for (i, b) in bytes.iter().enumerate() {
        buf[off + i] = *b;
    }
}

fn blank_account() -> Vec<u8> {
    vec![0u8; ACCOUNT_BYTES]
}

#[test]
fn too_short_buffers_rejected() {
    for len in 0..8 {
        let buf = vec![0u8; len];
        assert_eq!(decode(&buf).unwrap_err(), DecodeError::TooShort);
    }
}

#[test]
fn short_record_rejected() {
    for len in [8usize, 9, 100, 1000, ACCOUNT_BYTES - 1] {
        let buf = vec![0u8; len];
        assert_eq!(decode(&buf).unwrap_err(), DecodeError::LayoutMismatch);
    }
}

#[test]
fn oversized_buffer_rejected() {
    let buf = vec![0u8; ACCOUNT_BYTES + 1];
    assert_eq!(decode(&buf).unwrap_err(), DecodeError::LayoutMismatch);
}

#[test]
fn exact_width_accepted() {
    let buf = blank_account();
    assert!(decode(&buf).is_ok());
}

#[test]
fn field_roundtrip() {
    let mut buf = blank_account();
    put_le(&mut buf, 8, 1, 0xfe); // bump
    put_bytes(&mut buf, 9, &[1u8; 32]); // amm_config
    put_bytes(&mut buf, 41, &[2u8; 32]); // owner
    put_bytes(&mut buf, 73, &[3u8; 32]); // token_mint_0
    put_bytes(&mut buf, 105, &[4u8; 32]); // token_mint_1
    put_bytes(&mut buf, 137, &[5u8; 32]); // token_vault_0
    put_bytes(&mut buf, 169, &[6u8; 32]); // token_vault_1
    put_bytes(&mut buf, 201, &[7u8; 32]); // observation_key
    put_le(&mut buf, 233, 1, 9); // mint_decimals_0
    put_le(&mut buf, 234, 1, 6); // mint_decimals_1
    put_le(&mut buf, 235, 2, 0xbeef); // tick_spacing
    put_le(&mut buf, 237, 16, 0x1122_3344_5566_7788_99aa_bbcc_ddee_ff01); // liquidity
    put_le(&mut buf, 253, 16, 0x0123_4567_89ab_cdef_0123_4567_89ab_cdef); // sqrt_price_x64
    put_le(&mut buf, 269, 4, 123456); // tick_current
    put_le(&mut buf, 277, 16, 11); // fee_growth_global_0_x64
    put_le(&mut buf, 293, 16, 12); // fee_growth_global_1_x64
    put_le(&mut buf, 309, 8, 13); // protocol_fees_token_0
    put_le(&mut buf, 317, 8, 14); // protocol_fees_token_1
    put_le(&mut buf, 325, 16, 15); // swap_in_amount_token_0
    put_le(&mut buf, 341, 16, 16); // swap_out_amount_token_1
    put_le(&mut buf, 357, 16, 17); // swap_in_amount_token_1
    put_le(&mut buf, 373, 16, 18); // swap_out_amount_token_0
    put_le(&mut buf, 389, 1, 1); // status
    for k in 0..3usize {
        let base = 397 + 169 * k;
        let k128 = k as u128;
        put_le(&mut buf, base, 1, 2 + k128); // reward_state
        put_le(&mut buf, base + 1, 8, 100 + k128); // open_time
        put_le(&mut buf, base + 9, 8, 200 + k128); // end_time
        put_le(&mut buf, base + 17, 8, 300 + k128); // last_update_time
        put_le(&mut buf, base + 25, 16, 400 + k128); // emissions_per_second_x64
        put_le(&mut buf, base + 41, 8, 500 + k128); // reward_total_emissioned
        put_le(&mut buf, base + 49, 8, 600 + k128); // reward_claimed
        put_bytes(&mut buf, base + 57, &[10 + k as u8; 32]); // token_mint
        put_bytes(&mut buf, base + 89, &[20 + k as u8; 32]); // token_vault
        put_bytes(&mut buf, base + 121, &[30 + k as u8; 32]); // authority
        put_le(&mut buf, base + 153, 16, 700 + k128); // reward_growth_global_x64
    }
    for w in 0..16usize {
        put_le(&mut buf, 904 + 8 * w, 8, 1000 + w as u128); // tick_array_bitmap
    }
    put_le(&mut buf, 1032, 8, 21); // total_fees_token_0
    put_le(&mut buf, 1040, 8, 22); // total_fees_claimed_token_0
    put_le(&mut buf, 1048, 8, 23); // total_fees_token_1
    put_le(&mut buf, 1056, 8, 24); // total_fees_claimed_token_1
    put_le(&mut buf, 1064, 8, 25); // fund_fees_token_0
    put_le(&mut buf, 1072, 8, 26); // fund_fees_token_1
    put_le(&mut buf, 1080, 8, 1_700_000_000); // open_time
    put_le(&mut buf, 1088, 8, 451); // recent_epoch

    let p = decode(&buf).unwrap();
    assert_eq!(p.bump, 0xfe);
    assert_eq!(p.amm_config.bytes, vec![1u8; 32]);
    assert_eq!(p.owner.bytes, vec![2u8; 32]);
    assert_eq!(p.token_mint_0.bytes, vec![3u8; 32]);
    assert_eq!(p.token_mint_1.bytes, vec![4u8; 32]);
    assert_eq!(p.token_vault_0.bytes, vec![5u8; 32]);
    assert_eq!(p.token_vault_1.bytes, vec![6u8; 32]);
    assert_eq!(p.observation_key.bytes, vec![7u8; 32]);
    assert_eq!(p.mint_decimals_0, 9);
    assert_eq!(p.mint_decimals_1, 6);
    assert_eq!(p.tick_spacing, 0xbeef);
    assert_eq!(p.liquidity, 0x1122_3344_5566_7788_99aa_bbcc_ddee_ff01);
    assert_eq!(p.sqrt_price_x64, 0x0123_4567_89ab_cdef_0123_4567_89ab_cdef);
    assert_eq!(p.tick_current, 123456);
    assert_eq!(p.fee_growth_global_0_x64, 11);
    assert_eq!(p.fee_growth_global_1_x64, 12);
    assert_eq!(p.protocol_fees_token_0, 13);
    assert_eq!(p.protocol_fees_token_1, 14);
    assert_eq!(p.swap_in_amount_token_0, 15);
    assert_eq!(p.swap_out_amount_token_1, 16);
    assert_eq!(p.swap_in_amount_token_1, 17);
    assert_eq!(p.swap_out_amount_token_0, 18);
    assert_eq!(p.status, 1);
    assert_eq!(p.reward_infos.len(), 3);
    for k in 0..3usize {
        let r = &p.reward_infos[k];
        let k64 = k as u64;
        assert_eq!(r.reward_state, 2 + k as u8);
        assert_eq!(r.open_time, 100 + k64);
        assert_eq!(r.end_time, 200 + k64);
        assert_eq!(r.last_update_time, 300 + k64);
        assert_eq!(r.emissions_per_second_x64, 400 + k as u128);
        assert_eq!(r.reward_total_emissioned, 500 + k64);
        assert_eq!(r.reward_claimed, 600 + k64);
        assert_eq!(r.token_mint.bytes, vec![10 + k as u8; 32]);
        assert_eq!(r.token_vault.bytes, vec![20 + k as u8; 32]);
        assert_eq!(r.authority.bytes, vec![30 + k as u8; 32]);
        assert_eq!(r.reward_growth_global_x64, 700 + k as u128);
    }
    assert_eq!(p.tick_array_bitmap.len(), 16);
    for w in 0..16usize {
        assert_eq!(p.tick_array_bitmap[w], 1000 + w as u64);
    }
    assert_eq!(p.total_fees_token_0, 21);
    assert_eq!(p.total_fees_claimed_token_0, 22);
    assert_eq!(p.total_fees_token_1, 23);
    assert_eq!(p.total_fees_claimed_token_1, 24);
    assert_eq!(p.fund_fees_token_0, 25);
    assert_eq!(p.fund_fees_token_1, 26);
    assert_eq!(p.open_time, 1_700_000_000);
    assert_eq!(p.recent_epoch, 451);
}

#[test]
fn negative_tick_roundtrip() {
    let mut buf = blank_account();
    put_le(&mut buf, 269, 4, 0xffff_fffb); // -5 in two's complement
    let p = decode(&buf).unwrap();
    assert_eq!(p.tick_current, -5);
}
