use vstd::prelude::*;
use crate::ident::Identifier;
use crate::price::{derive_price, spec_derive, DerivedPrice, Orientation};
use crate::state::PoolState;

verus! {

/// Fatal per-account validation failures.
#[derive(PartialEq, Eq, Structural, Clone, Copy, Debug)]
pub enum ValidationError {
    /// The account is not owned by the expected program.
    WrongProgramOwner,
    /// The record's mint pair matches the configured pair in neither order.
    UnexpectedTradingPair,
}

/// Advisory, non-fatal conditions attached to a successful report.
#[derive(PartialEq, Eq, Structural, Clone, Copy, Debug)]
pub enum Warning {
    /// The pool holds zero liquidity.
    InactivePool,
    /// The pool's status byte is non-zero: paused or restricted.
    PoolPaused,
    /// The record's recent epoch is below the configured freshness floor.
    StaleEpoch,
    /// The derived price is below the configured sanity floor.
    AbnormallyLowPrice,
}

/// Configurable thresholds of the advisory checks.
#[derive(Clone, Copy, Debug)]
pub struct ValidationConfig {
    /// A record whose recent_epoch is below this is flagged stale.
    pub min_recent_epoch: u64,
    /// A derived price strictly below this integer floor is flagged
    /// abnormally low.
    pub min_price: u64,
}

/// The successful outcome: the selected orientation, the exact derived
/// price, and the ordered advisory warnings.
#[derive(Clone, Debug)]
pub struct PriceReport {
    pub orientation: Orientation,
    pub price: DerivedPrice,
    pub warnings: Vec<Warning>,
}

/// Which orientation, if any, matches the configured mint pair against the
/// record's mint slots. When both match (a pool of one mint against
/// itself), AB is selected.
pub open spec fn spec_orientation(
    token_mint_0: Seq<u8>,
    token_mint_1: Seq<u8>,
    mint_a: Seq<u8>,
    mint_b: Seq<u8>,
) -> Option<Orientation> {
    if mint_a == token_mint_0 && mint_b == token_mint_1 {
        Some(Orientation::AB)
    } else if mint_a == token_mint_1 && mint_b == token_mint_0 {
        Some(Orientation::BA)
    } else {
        None
    }
}

/// The ordered advisory warnings owed to a record, its config, and its
/// derived price.
pub open spec fn spec_warnings(
    record: PoolState,
    config: ValidationConfig,
    price: DerivedPrice,
) -> Seq<Warning> {
    (if record.liquidity == 0 {
        seq![Warning::InactivePool]
    } else {
        Seq::<Warning>::empty()
    }) + (if record.status != 0 {
        seq![Warning::PoolPaused]
    } else {
        Seq::<Warning>::empty()
    }) + (if record.recent_epoch < config.min_recent_epoch {
        seq![Warning::StaleEpoch]
    } else {
        Seq::<Warning>::empty()
    }) + (if price.spec_below(config.min_price as nat) {
        seq![Warning::AbnormallyLowPrice]
    } else {
        Seq::<Warning>::empty()
    })
}

/// Validates a decoded record against the expected program owner and
/// trading pair, and derives the exact oriented spot price.
///
/// The ownership gate is checked first: a wrong owner fails before any
/// orientation or price work. A successful report carries the selected
/// orientation, the price of `spec_derive`, and exactly the warnings of
/// `spec_warnings`, in that order.
pub fn validate_and_price(
    record: &PoolState,
    account_owner: &Identifier,
    expected_program_id: &Identifier,
    mint_a: &Identifier,
    mint_b: &Identifier,
    config: &ValidationConfig,
) -> (r: Result<PriceReport, ValidationError>)
    ensures
        r == Err::<PriceReport, ValidationError>(ValidationError::WrongProgramOwner)
            <==> account_owner@ != expected_program_id@,
        r == Err::<PriceReport, ValidationError>(ValidationError::UnexpectedTradingPair)
            <==> (account_owner@ == expected_program_id@ && spec_orientation(
            record.token_mint_0@,
            record.token_mint_1@,
            mint_a@,
            mint_b@,
        ) is None),
        r is Ok <==> (account_owner@ == expected_program_id@ && spec_orientation(
            record.token_mint_0@,
            record.token_mint_1@,
            mint_a@,
            mint_b@,
        ) is Some),
        r matches Ok(rep) ==> {
            &&& Some(rep.orientation) == spec_orientation(
                record.token_mint_0@,
                record.token_mint_1@,
                mint_a@,
                mint_b@,
            )
            &&& rep.price == spec_derive(
                record.sqrt_price_x64,
                record.mint_decimals_0,
                record.mint_decimals_1,
                rep.orientation,
            )
            &&& rep.warnings@ == spec_warnings(*record, *config, rep.price)
        },
{
    if !account_owner.same(expected_program_id) {
        return Err(ValidationError::WrongProgramOwner);
    }
    let orientation: Orientation = if mint_a.same(&record.token_mint_0) && mint_b.same(
        &record.token_mint_1,
    ) {
        Orientation::AB
    } else if mint_a.same(&record.token_mint_1) && mint_b.same(&record.token_mint_0) {
        Orientation::BA
    } else {
        return Err(ValidationError::UnexpectedTradingPair);
    };
    let price = derive_price(
        record.sqrt_price_x64,
        record.mint_decimals_0,
        record.mint_decimals_1,
        orientation,
    );
    let mut warnings: Vec<Warning> = Vec::new();
    if record.liquidity == 0 {
        warnings.push(Warning::InactivePool);
    }
    if record.status != 0 {
        warnings.push(Warning::PoolPaused);
    }
    if record.recent_epoch < config.min_recent_epoch {
        warnings.push(Warning::StaleEpoch);
    }
    if price.below_floor(config.min_price) {
        warnings.push(Warning::AbnormallyLowPrice);
    }
    proof {
        assert(warnings@ =~= spec_warnings(*record, *config, price));
    }
    Ok(PriceReport { orientation, price, warnings })
}

} // verus!
