use pool_price::codec::{decode, ACCOUNT_BYTES};
use pool_price::ident::Identifier;
use pool_price::price::{DerivedPrice, Orientation};
use pool_price::state::PoolState;
use pool_price::validate::{validate_and_price, ValidationConfig, ValidationError, Warning};

const PROGRAM_ID: [u8; 32] = [0xaa; 32];
const SOL_MINT: [u8; 32] = [0x01; 32];
const USDC_MINT: [u8; 32] = [0x02; 32];

fn ident(bytes: [u8; 32]) -> Identifier {
    Identifier::from_bytes(bytes.to_vec()).unwrap()
}

fn put_le(buf: &mut Vec<u8>, off: usize, width: usize, val: u128) {
    for i in 0..width {
        buf[off + i] = (val >> (8 * i)) as u8;
    }
}

fn put_bytes(buf: &mut Vec<u8>, off: usize, bytes: &[u8]) {
    for (i, b) in bytes.iter().enumerate() {
        buf[off + i] = *b;
    }
}

/// A healthy SOL/USDC pool whose price is about 150 USDC per SOL.
fn healthy_pool() -> PoolState {
    let mut buf = vec![0u8; ACCOUNT_BYTES];
    put_bytes(&mut buf, 73, &SOL_MINT); // token_mint_0
    put_bytes(&mut buf, 105, &USDC_MINT); // token_mint_1
    put_le(&mut buf, 233, 1, 9); // mint_decimals_0 (SOL)
    put_le(&mut buf, 234, 1, 6); // mint_decimals_1 (USDC)
    put_le(&mut buf, 237, 16, 1); // liquidity
    // sqrt_price such that (s / 2^64)^2 * 10^(9-6) is about 150
    let s = ((150.0f64 / 1000.0).sqrt() * 2f64.powi(64)) as u128;
    put_le(&mut buf, 253, 16, s);
    put_le(&mut buf, 389, 1, 0); // status
    put_le(&mut buf, 1088, 8, 450); // recent_epoch
    decode(&buf).unwrap()
}

fn config() -> ValidationConfig {
    ValidationConfig { min_recent_epoch: 400, min_price: 10 }
}

fn price_f64(p: &DerivedPrice) -> f64 {
    let raw = p.raw_hi as f64 + p.raw_lo as f64 / 2f64.powi(128);
    let oriented = if p.inverted { 1.0 / raw } else { raw };
    oriented * 10f64.powi(p.dec_exp)
}

#[test]
fn wrong_owner_rejected() {
    let pool = healthy_pool();
    let r = validate_and_price(
        &pool,
        &ident([0xbb; 32]),
        &ident(PROGRAM_ID),
        &ident(SOL_MINT),
        &ident(USDC_MINT),
        &config(),
    );
    assert_eq!(r.unwrap_err(), ValidationError::WrongProgramOwner);
}

#[test]
fn owner_checked_before_pair() {
    // Wrong owner and a wrong pair: the ownership gate decides first.
    let pool = healthy_pool();
    let r = validate_and_price(
        &pool,
        &ident([0xbb; 32]),
        &ident(PROGRAM_ID),
        &ident([0x55; 32]),
        &ident([0x66; 32]),
        &config(),
    );
    assert_eq!(r.unwrap_err(), ValidationError::WrongProgramOwner);
}

#[test]
fn pair_mismatch_rejected() {
    let pool = healthy_pool();
    let r = validate_and_price(
        &pool,
        &ident(PROGRAM_ID),
        &ident(PROGRAM_ID),
        &ident([0x55; 32]),
        &ident(USDC_MINT),
        &config(),
    );
    assert_eq!(r.unwrap_err(), ValidationError::UnexpectedTradingPair);
}

#[test]
fn orientation_ab_selected() {
    let pool = healthy_pool();
    let r = validate_and_price(
        &pool,
        &ident(PROGRAM_ID),
        &ident(PROGRAM_ID),
        &ident(SOL_MINT),
        &ident(USDC_MINT),
        &config(),
    )
    .unwrap();
    assert_eq!(r.orientation, Orientation::AB);
    assert!(!r.price.inverted);
    assert_eq!(r.price.dec_exp, 3);
}

#[test]
fn orientation_ba_reciprocal() {
    let pool = healthy_pool();
    let ab = validate_and_price(
        &pool,
        &ident(PROGRAM_ID),
        &ident(PROGRAM_ID),
        &ident(SOL_MINT),
        &ident(USDC_MINT),
        &config(),
    )
    .unwrap();
    let ba = validate_and_price(
        &pool,
        &ident(PROGRAM_ID),
        &ident(PROGRAM_ID),
        &ident(USDC_MINT),
        &ident(SOL_MINT),
        &config(),
    )
    .unwrap();
    assert_eq!(ba.orientation, Orientation::BA);
    assert!(ba.price.inverted);
    assert_eq!(ba.price.dec_exp, -3);
    let pa = price_f64(&ab.price);
    let pb = price_f64(&ba.price);
    assert!((pa * pb - 1.0).abs() < 1e-9);
}

#[test]
fn inactive_pool_warning() {
    let mut pool = healthy_pool();
    pool.liquidity = 0;
    let r = validate_and_price(
        &pool,
        &ident(PROGRAM_ID),
        &ident(PROGRAM_ID),
        &ident(SOL_MINT),
        &ident(USDC_MINT),
        &config(),
    )
    .unwrap();
    assert_eq!(r.warnings, vec![Warning::InactivePool]);
}

#[test]
fn paused_warning_iff_status_nonzero() {
    let mut pool = healthy_pool();
    pool.status = 0;
    let ok = validate_and_price(
        &pool,
        &ident(PROGRAM_ID),
        &ident(PROGRAM_ID),
        &ident(SOL_MINT),
        &ident(USDC_MINT),
        &config(),
    )
    .unwrap();
    assert!(!ok.warnings.contains(&Warning::PoolPaused));
    pool.status = 3;
    let paused = validate_and_price(
        &pool,
        &ident(PROGRAM_ID),
        &ident(PROGRAM_ID),
        &ident(SOL_MINT),
        &ident(USDC_MINT),
        &config(),
    )
    .unwrap();
    assert_eq!(paused.warnings, vec![Warning::PoolPaused]);
}

#[test]
fn stale_epoch_warning() {
    let mut pool = healthy_pool();
    pool.recent_epoch = 399;
    let r = validate_and_price(
        &pool,
        &ident(PROGRAM_ID),
        &ident(PROGRAM_ID),
        &ident(SOL_MINT),
        &ident(USDC_MINT),
        &config(),
    )
    .unwrap();
    assert_eq!(r.warnings, vec![Warning::StaleEpoch]);
}

#[test]
fn low_price_warning() {
    let mut pool = healthy_pool();
    pool.sqrt_price_x64 = 2u128.pow(64) / 100; // price about 10^3 / 10^4 = 0.1
    let r = validate_and_price(
        &pool,
        &ident(PROGRAM_ID),
        &ident(PROGRAM_ID),
        &ident(SOL_MINT),
        &ident(USDC_MINT),
        &config(),
    )
    .unwrap();
    assert_eq!(r.warnings, vec![Warning::AbnormallyLowPrice]);
}

#[test]
fn warnings_keep_report_order() {
    let mut pool = healthy_pool();
    pool.liquidity = 0;
    pool.status = 1;
    pool.recent_epoch = 10;
    pool.sqrt_price_x64 = 0;
    let r = validate_and_price(
        &pool,
        &ident(PROGRAM_ID),
        &ident(PROGRAM_ID),
        &ident(SOL_MINT),
        &ident(USDC_MINT),
        &config(),
    )
    .unwrap();
    assert_eq!(
        r.warnings,
        vec![
            Warning::InactivePool,
            Warning::PoolPaused,
            Warning::StaleEpoch,
            Warning::AbnormallyLowPrice,
        ]
    );
}

#[test]
fn sol_usdc_scenario() {
    // End to end: decode, validate, and derive about 150 USDC per SOL with
    // no warnings.
    let mut buf = vec![0u8; ACCOUNT_BYTES];
    put_bytes(&mut buf, 73, &SOL_MINT);
    put_bytes(&mut buf, 105, &USDC_MINT);
    put_le(&mut buf, 233, 1, 9);
    put_le(&mut buf, 234, 1, 6);
    put_le(&mut buf, 237, 16, 1);
    let s = ((150.0f64 / 1000.0).sqrt() * 2f64.powi(64)) as u128;
    put_le(&mut buf, 253, 16, s);
    put_le(&mut buf, 389, 1, 0);
    put_le(&mut buf, 1088, 8, 450);
    let pool = decode(&buf).unwrap();
    let r = validate_and_price(
        &pool,
        &ident(PROGRAM_ID),
        &ident(PROGRAM_ID),
        &ident(SOL_MINT),
        &ident(USDC_MINT),
        &config(),
    )
    .unwrap();
    assert_eq!(r.orientation, Orientation::AB);
    assert!(r.warnings.is_empty());
    let price = price_f64(&r.price);
    assert!((price - 150.0).abs() < 0.01, "price was {price}");
}

#[test]
fn sol_usdc_scenario_wrong_owner() {
    // The same pool fails the ownership gate when the account owner is not
    // the expected program.
    let pool = healthy_pool();
    let r = validate_and_price(
        &pool,
        &ident([0xcc; 32]),
        &ident(PROGRAM_ID),
        &ident(SOL_MINT),
        &ident(USDC_MINT),
        &config(),
    );
    assert_eq!(r.unwrap_err(), ValidationError::WrongProgramOwner);
}
