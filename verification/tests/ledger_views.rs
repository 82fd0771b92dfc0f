//! The balance oracle, the investment ledger, the derived views and the
//! identifier sequence.

use real_estate_backend::ledger::InvestmentLedger;
use real_estate_backend::marketplace::{is_authenticated, validate_kyc, Marketplace};
use real_estate_backend::seq_gen::SequenceGenerator;
use real_estate_backend::types::CreateOrderPayload;
use real_estate_backend::types::EntityKind;
use real_estate_backend::types::EntityState;
use real_estate_backend::types::Error;
use real_estate_backend::types::Investment;
use real_estate_backend::types::InvestmentPayload;
use real_estate_backend::types::InvestmentStatus;
use real_estate_backend::types::KycStatus;
use real_estate_backend::types::OrderType;
use real_estate_backend::types::PropertyStatus;
use real_estate_backend::types::PropertyType;

const NOW: u64 = 1_700_000_000_000_000_000;
const ALICE: u64 = 1001;
const BOB: u64 = 1002;

fn verified() -> Option<KycStatus> {
    Some(KycStatus::Verified)
}

fn listed_market() -> Marketplace {
    let mut m = Marketplace::new();
    m.create_property(Some(ALICE), verified(), NOW, 1000, 100, PropertyType::Commercial).unwrap();
    m
}

#[test]
fn identifiers_increase_strictly() {
    let mut seq = SequenceGenerator::new();
    assert_eq!(seq.current(), 0);
    assert_eq!(seq.get_next_id(), 1);
    assert_eq!(seq.get_next_id(), 2);
    assert_eq!(seq.get_next_id(), 3);
    assert_eq!(seq.current(), 3);
}

#[test]
fn entities_share_the_sequence() {
    let mut m = listed_market();
    let inv = m
        .invest_in_property(
            Some(ALICE),
            verified(),
            NOW,
            InvestmentPayload { property_id: 1, token_amount: 5 },
        )
        .unwrap();
    assert_eq!(inv.id, 2);
    let order = m
        .create_token_order(
            Some(ALICE),
            verified(),
            NOW,
            CreateOrderPayload {
                property_id: 1,
                token_amount: 5,
                price_per_token: 3,
                order_type: OrderType::Sell,
                expires_in_hours: 1,
            },
        )
        .unwrap();
    assert_eq!(order.id, 3);
}

#[test]
fn balance_is_the_sum_of_confirmed_grants_only() {
    let mut m = listed_market();
    m.invest_in_property(
        Some(ALICE),
        verified(),
        NOW,
        InvestmentPayload { property_id: 1, token_amount: 30 },
    )
    .unwrap();
    m.invest_in_property(
        Some(ALICE),
        verified(),
        NOW + 1,
        InvestmentPayload { property_id: 1, token_amount: 25 },
    )
    .unwrap();
    assert_eq!(m.balance_of(ALICE, 1), 55);

    // A record that is not Confirmed does not count.
    m.ledger.records.push(Investment {
        id: 999,
        investor: ALICE,
        property_id: 1,
        token_amount: 1000,
        investment_amount: 0,
        timestamp: NOW,
        status: InvestmentStatus::Pending,
    });
    assert_eq!(m.balance_of(ALICE, 1), 55);

    // Another holder's or another property's grants do not count.
    assert_eq!(m.balance_of(BOB, 1), 0);
    assert_eq!(m.balance_of(ALICE, 2), 0);
}

#[test]
fn balance_of_empty_ledger_is_zero() {
    let l = InvestmentLedger::new();
    assert_eq!(l.balance_of(ALICE, 1), 0);
}

#[test]
fn investing_needs_a_listed_active_property() {
    let mut m = Marketplace::new();
    let payload = InvestmentPayload { property_id: 1, token_amount: 5 };
    assert_eq!(
        m.invest_in_property(Some(ALICE), verified(), NOW, payload),
        Err(Error::NotFound(EntityKind::Property))
    );

    // A listing outside its Active status refuses purchases.
    let mut m = listed_market();
    m.registry.properties[0].status = PropertyStatus::UnderMaintenance;
    assert_eq!(
        m.invest_in_property(Some(ALICE), verified(), NOW, payload),
        Err(Error::InvalidState(
            EntityState::Asset(PropertyStatus::Active),
            EntityState::Asset(PropertyStatus::UnderMaintenance),
        ))
    );
}

#[test]
fn investing_over_the_available_supply_fails() {
    let mut m = listed_market();
    let r = m.invest_in_property(
        Some(ALICE),
        verified(),
        NOW,
        InvestmentPayload { property_id: 1, token_amount: 101 },
    );
    assert_eq!(r, Err(Error::InsufficientBalance));
    assert_eq!(m.balance_of(ALICE, 1), 0);
}

#[test]
fn investment_price_overflow_is_answered() {
    let mut m = Marketplace::new();
    // Price per token is u64::MAX, so two tokens overflow.
    m.create_property(Some(ALICE), verified(), NOW, u64::MAX, 1, PropertyType::Land).unwrap();
    m.registry.properties[0].available_tokens = 10;
    let r = m.invest_in_property(
        Some(ALICE),
        verified(),
        NOW,
        InvestmentPayload { property_id: 1, token_amount: 2 },
    );
    assert_eq!(r, Err(Error::ArithmeticOverflow));
}

#[test]
fn investments_for_a_user_lists_their_grants_in_order() {
    let mut m = listed_market();
    m.invest_in_property(
        Some(ALICE),
        verified(),
        NOW,
        InvestmentPayload { property_id: 1, token_amount: 10 },
    )
    .unwrap();
    m.invest_in_property(
        Some(BOB),
        verified(),
        NOW + 1,
        InvestmentPayload { property_id: 1, token_amount: 20 },
    )
    .unwrap();
    m.invest_in_property(
        Some(ALICE),
        verified(),
        NOW + 2,
        InvestmentPayload { property_id: 1, token_amount: 30 },
    )
    .unwrap();
    let mine = m.get_investments_by_user(ALICE);
    assert_eq!(mine.len(), 2);
    assert_eq!(mine[0].token_amount, 10);
    assert_eq!(mine[1].token_amount, 30);
    assert_eq!(m.get_investments_by_user(BOB).len(), 1);
}

#[test]
fn property_listing_and_lookup() {
    let mut m = Marketplace::new();
    let p = m
        .create_property(Some(ALICE), verified(), NOW, 900, 90, PropertyType::Trophy)
        .unwrap();
    assert_eq!(p.price_per_token, 10);
    assert_eq!(p.available_tokens, 90);
    assert_eq!(p.status, PropertyStatus::Active);
    assert_eq!(p.owner, ALICE);
    assert_eq!(m.get_property(p.id), Some(p));
    assert_eq!(m.get_property(42), None);
    assert_eq!(m.get_all_properties(), vec![p]);
    assert_eq!(
        m.create_property(None, verified(), NOW, 1, 1, PropertyType::Land),
        Err(Error::AuthenticationRequired)
    );
}

#[test]
fn the_identity_gate_rejects_the_anonymous_caller() {
    assert_eq!(is_authenticated(Some(ALICE)), Ok(ALICE));
    assert_eq!(is_authenticated(None), Err(Error::AuthenticationRequired));
}

#[test]
fn the_compliance_gate_only_passes_verified() {
    assert_eq!(validate_kyc(Some(KycStatus::Verified)), Ok(()));
    assert_eq!(validate_kyc(Some(KycStatus::Pending)), Err(Error::KycNotVerified(KycStatus::Pending)));
    assert_eq!(validate_kyc(Some(KycStatus::Rejected)), Err(Error::KycNotVerified(KycStatus::Rejected)));
    assert_eq!(validate_kyc(Some(KycStatus::Expired)), Err(Error::KycNotVerified(KycStatus::Expired)));
    assert_eq!(validate_kyc(None), Err(Error::NotFound(EntityKind::User)));
}
