//! Order placement, execution and cancellation through the engine.

use real_estate_backend::marketplace::{Marketplace, NANOS_PER_HOUR};
use real_estate_backend::types::CreateOrderPayload;
use real_estate_backend::types::EntityKind;
use real_estate_backend::types::EntityState;
use real_estate_backend::types::Error;
use real_estate_backend::types::InvestmentPayload;
use real_estate_backend::types::KycStatus;
use real_estate_backend::types::OrderStatus;
use real_estate_backend::types::OrderType;
use real_estate_backend::types::PropertyType;

const NOW: u64 = 1_700_000_000_000_000_000;
const ALICE: u64 = 1001;
const BOB: u64 = 1002;
const CARA: u64 = 1003;

fn verified() -> Option<KycStatus> {
    Some(KycStatus::Verified)
}

/// A marketplace with one listed property (id 1): 100 tokens over a
/// total value of 1000, so 10 per token, and ALICE holding 100 tokens.
fn funded_market() -> Marketplace {
    let mut m = Marketplace::new();
    let p = m
        .create_property(Some(ALICE), verified(), NOW, 1000, 100, PropertyType::Residential)
        .unwrap();
    assert_eq!(p.id, 1);
    assert_eq!(p.price_per_token, 10);
    let inv = m
        .invest_in_property(
            Some(ALICE),
            verified(),
            NOW,
            InvestmentPayload { property_id: 1, token_amount: 100 },
        )
        .unwrap();
    assert_eq!(inv.token_amount, 100);
    assert_eq!(inv.investment_amount, 1000);
    m
}

fn sell_40_at_12() -> CreateOrderPayload {
    CreateOrderPayload {
        property_id: 1,
        token_amount: 40,
        price_per_token: 12,
        order_type: OrderType::Sell,
        expires_in_hours: 24,
    }
}

#[test]
fn invest_then_sell_then_execute_settles_everything() {
    // The full trade scenario: invest, place a sell, execute it.
    let mut m = funded_market();
    assert_eq!(m.balance_of(ALICE, 1), 100);

    let order = m.create_token_order(Some(ALICE), verified(), NOW, sell_40_at_12()).unwrap();
    assert_eq!(order.status, OrderStatus::Active);
    assert_eq!(order.total_price, 480);
    assert_eq!(order.expires_at, NOW + 24 * NANOS_PER_HOUR);

    let filled = m.execute_order(Some(BOB), verified(), NOW + 1, order.id).unwrap();
    assert_eq!(filled.status, OrderStatus::Filled);
    assert_eq!(filled.buyer, Some(BOB));

    // A new confirmed record credits BOB with 40 tokens of property 1.
    assert_eq!(m.balance_of(BOB, 1), 40);
    let grants = m.get_investments_by_user(BOB);
    assert_eq!(grants.len(), 1);
    assert_eq!(grants[0].token_amount, 40);
    assert_eq!(grants[0].investment_amount, 480);

    // BOB's portfolio now carries the 40 tokens.
    let portfolio = m.get_portfolio(BOB).unwrap();
    assert_eq!(portfolio.owner, BOB);
    assert_eq!(portfolio.properties.len(), 1);
    assert_eq!(portfolio.properties[0].property_id, 1);
    assert_eq!(portfolio.properties[0].token_amount, 40);

    // The market snapshot shows the trade price and the volume.
    let snapshot = m.get_market_data(1).unwrap();
    assert_eq!(snapshot.current_price, 12);
    assert_eq!(snapshot.trading_volume_24h, 40);

    // The stored order is closed.
    let stored = m.get_order(order.id).unwrap();
    assert_eq!(stored.status, OrderStatus::Filled);
    assert_eq!(stored.buyer, Some(BOB));
}

#[test]
fn executing_a_filled_order_fails_with_invalid_state() {
    let mut m = funded_market();
    let order = m.create_token_order(Some(ALICE), verified(), NOW, sell_40_at_12()).unwrap();
    m.execute_order(Some(BOB), verified(), NOW + 1, order.id).unwrap();

    let ledger_before = m.get_investments_by_user(BOB).len();
    let r = m.execute_order(Some(CARA), verified(), NOW + 2, order.id);
    assert_eq!(
        r,
        Err(Error::InvalidState(
            EntityState::Order(OrderStatus::Active),
            EntityState::Order(OrderStatus::Filled),
        ))
    );
    // No ledger or portfolio mutation happened.
    assert_eq!(m.get_investments_by_user(BOB).len(), ledger_before);
    assert_eq!(m.balance_of(CARA, 1), 0);
    assert!(m.get_portfolio(CARA).is_none());
}

#[test]
fn expired_order_fails_expired_and_is_materialized() {
    // The order expires immediately; execution past the instant fails
    // with Expired and rewrites only the stored status.
    let mut m = funded_market();
    let mut payload = sell_40_at_12();
    payload.expires_in_hours = 0;
    let order = m.create_token_order(Some(ALICE), verified(), NOW, payload).unwrap();
    assert_eq!(order.expires_at, NOW);

    let r = m.execute_order(Some(BOB), verified(), NOW + 1, order.id);
    assert_eq!(r, Err(Error::Expired));
    assert_eq!(m.get_order(order.id).unwrap().status, OrderStatus::Expired);
    assert_eq!(m.balance_of(BOB, 1), 0);

    // A second call answers the same way without further mutation.
    let stored_before = m.get_order(order.id).unwrap();
    let r2 = m.execute_order(Some(BOB), verified(), NOW + 2, order.id);
    assert_eq!(r2, Err(Error::Expired));
    assert_eq!(m.get_order(order.id).unwrap(), stored_before);
}

#[test]
fn order_at_exact_expiry_instant_still_executes() {
    // Expiry is strict: an order is stale only once `expires_at < now`.
    let mut m = funded_market();
    let mut payload = sell_40_at_12();
    payload.expires_in_hours = 0;
    let order = m.create_token_order(Some(ALICE), verified(), NOW, payload).unwrap();
    let filled = m.execute_order(Some(BOB), verified(), NOW, order.id).unwrap();
    assert_eq!(filled.status, OrderStatus::Filled);
}

#[test]
fn oversized_sell_order_is_refused_without_a_trace() {
    // BOB holds nothing, so a sell over 40 tokens creates no order.
    let mut m = funded_market();
    let r = m.create_token_order(Some(BOB), verified(), NOW, sell_40_at_12());
    assert_eq!(r, Err(Error::InsufficientBalance));
    assert!(m.get_user_orders(BOB).is_empty());
    assert!(m.get_active_orders(1, NOW).is_empty());
}

#[test]
fn buy_order_takes_tokens_from_the_executing_caller() {
    // ALICE places a buy order; CARA, who holds tokens, supplies them.
    let mut m = funded_market();
    let buy = CreateOrderPayload {
        property_id: 1,
        token_amount: 25,
        price_per_token: 11,
        order_type: OrderType::Buy,
        expires_in_hours: 24,
    };
    let order = m.create_token_order(Some(ALICE), verified(), NOW, buy).unwrap();

    // A caller without tokens cannot fill the buy order.
    let r = m.execute_order(Some(BOB), verified(), NOW + 1, order.id);
    assert_eq!(r, Err(Error::InsufficientBalance));
    assert_eq!(m.get_order(order.id).unwrap().status, OrderStatus::Active);

    // CARA acquires tokens first, then supplies the buy order.
    m.invest_in_property(
        Some(CARA),
        verified(),
        NOW,
        InvestmentPayload { property_id: 1, token_amount: 30 },
    )
    .unwrap();
    let filled = m.execute_order(Some(CARA), verified(), NOW + 2, order.id).unwrap();
    // The order's creator is the acquiring party of a buy order, so the
    // buyer field names the placer, not the supplying caller.
    assert_eq!(filled.buyer, Some(ALICE));
    assert_eq!(m.balance_of(ALICE, 1), 125);
}

#[test]
fn cancel_order_closes_it_and_only_once() {
    let mut m = funded_market();
    let order = m.create_token_order(Some(ALICE), verified(), NOW, sell_40_at_12()).unwrap();
    let cancelled = m.cancel_order(Some(ALICE), order.id).unwrap();
    assert_eq!(cancelled.status, OrderStatus::Cancelled);
    assert_eq!(m.get_order(order.id).unwrap().status, OrderStatus::Cancelled);

    let r = m.cancel_order(Some(ALICE), order.id);
    assert_eq!(
        r,
        Err(Error::InvalidState(
            EntityState::Order(OrderStatus::Active),
            EntityState::Order(OrderStatus::Cancelled),
        ))
    );
}

#[test]
fn cancelled_order_cannot_be_executed() {
    let mut m = funded_market();
    let order = m.create_token_order(Some(ALICE), verified(), NOW, sell_40_at_12()).unwrap();
    m.cancel_order(Some(ALICE), order.id).unwrap();
    let r = m.execute_order(Some(BOB), verified(), NOW + 1, order.id);
    assert_eq!(
        r,
        Err(Error::InvalidState(
            EntityState::Order(OrderStatus::Active),
            EntityState::Order(OrderStatus::Cancelled),
        ))
    );
}

#[test]
fn only_the_seller_may_cancel() {
    let mut m = funded_market();
    let order = m.create_token_order(Some(ALICE), verified(), NOW, sell_40_at_12()).unwrap();
    assert_eq!(m.cancel_order(Some(BOB), order.id), Err(Error::NotFound(EntityKind::Order)));
    assert_eq!(m.cancel_order(None, order.id), Err(Error::AuthenticationRequired));
    assert_eq!(m.get_order(order.id).unwrap().status, OrderStatus::Active);
}

#[test]
fn execute_order_not_found() {
    let mut m = funded_market();
    assert_eq!(
        m.execute_order(Some(BOB), verified(), NOW, 77),
        Err(Error::NotFound(EntityKind::Order))
    );
}

#[test]
fn order_arithmetic_overflow_is_answered_not_raised() {
    let mut m = funded_market();
    // Total price would overflow.
    let huge = CreateOrderPayload {
        property_id: 1,
        token_amount: u64::MAX,
        price_per_token: 2,
        order_type: OrderType::Buy,
        expires_in_hours: 1,
    };
    assert_eq!(
        m.create_token_order(Some(ALICE), verified(), NOW, huge),
        Err(Error::ArithmeticOverflow)
    );
    // The expiry horizon would overflow.
    let forever = CreateOrderPayload {
        property_id: 1,
        token_amount: 1,
        price_per_token: 1,
        order_type: OrderType::Buy,
        expires_in_hours: u64::MAX,
    };
    assert_eq!(
        m.create_token_order(Some(ALICE), verified(), NOW, forever),
        Err(Error::ArithmeticOverflow)
    );
}

#[test]
fn gate_errors_come_before_anything_else() {
    let mut m = funded_market();
    let r = m.create_token_order(None, verified(), NOW, sell_40_at_12());
    assert_eq!(r, Err(Error::AuthenticationRequired));
    let r = m.create_token_order(Some(ALICE), Some(KycStatus::Pending), NOW, sell_40_at_12());
    assert_eq!(r, Err(Error::KycNotVerified(KycStatus::Pending)));
    let r = m.create_token_order(Some(ALICE), Some(KycStatus::Rejected), NOW, sell_40_at_12());
    assert_eq!(r, Err(Error::KycNotVerified(KycStatus::Rejected)));
    let r = m.create_token_order(Some(ALICE), Some(KycStatus::Expired), NOW, sell_40_at_12());
    assert_eq!(r, Err(Error::KycNotVerified(KycStatus::Expired)));
    let r = m.create_token_order(Some(ALICE), None, NOW, sell_40_at_12());
    assert_eq!(r, Err(Error::NotFound(EntityKind::User)));
    assert!(m.get_active_orders(1, NOW).is_empty());
}

#[test]
fn placing_an_order_needs_a_listed_property() {
    let mut m = Marketplace::new();
    let mut payload = sell_40_at_12();
    payload.order_type = OrderType::Buy;
    assert_eq!(
        m.create_token_order(Some(ALICE), verified(), NOW, payload),
        Err(Error::NotFound(EntityKind::Property))
    );
}
