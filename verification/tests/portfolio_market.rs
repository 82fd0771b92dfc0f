//! The derived views: portfolio projection, market snapshots and the
//! order filters.

use real_estate_backend::marketplace::Marketplace;
use real_estate_backend::types::CreateOrderPayload;
use real_estate_backend::types::InvestmentPayload;
use real_estate_backend::types::KycStatus;
use real_estate_backend::types::OrderStatus;
use real_estate_backend::types::OrderType;
use real_estate_backend::types::PropertyType;

const NOW: u64 = 1_700_000_000_000_000_000;
const ALICE: u64 = 1001;
const BOB: u64 = 1002;
const CARA: u64 = 1003;

fn verified() -> Option<KycStatus> {
    Some(KycStatus::Verified)
}

fn sell(amount: u64, price: u64, hours: u64) -> CreateOrderPayload {
    CreateOrderPayload {
        property_id: 1,
        token_amount: amount,
        price_per_token: price,
        order_type: OrderType::Sell,
        expires_in_hours: hours,
    }
}

fn funded_market() -> Marketplace {
    let mut m = Marketplace::new();
    m.create_property(Some(ALICE), verified(), NOW, 1000, 100, PropertyType::Residential)
        .unwrap();
    m.invest_in_property(
        Some(ALICE),
        verified(),
        NOW,
        InvestmentPayload { property_id: 1, token_amount: 100 },
    )
    .unwrap();
    m
}

#[test]
fn portfolio_debit_is_floored_at_zero() {
    // BOB acquires a 25-token line, then sells 40: his ledger balance of
    // 25 is checked only at placement time against the offered 40, so he
    // cannot offer 40 — he offers 20 twice instead. The second settlement
    // debits a 5-token line by 20 and floors it at zero.
    let mut m = funded_market();
    let order = m.create_token_order(Some(ALICE), verified(), NOW, sell(25, 10, 24)).unwrap();
    m.execute_order(Some(BOB), verified(), NOW + 1, order.id).unwrap();
    assert_eq!(m.get_portfolio(BOB).unwrap().properties[0].token_amount, 25);

    let first = m.create_token_order(Some(BOB), verified(), NOW, sell(20, 10, 24)).unwrap();
    m.execute_order(Some(CARA), verified(), NOW + 2, first.id).unwrap();
    assert_eq!(m.get_portfolio(BOB).unwrap().properties[0].token_amount, 5);

    // BOB's ledger balance is still 25 (settlement never debits the
    // ledger), so a second 20-token sell may be placed and filled.
    assert_eq!(m.balance_of(BOB, 1), 25);
    let second = m.create_token_order(Some(BOB), verified(), NOW, sell(20, 10, 24)).unwrap();
    m.execute_order(Some(CARA), verified(), NOW + 3, second.id).unwrap();
    assert_eq!(m.get_portfolio(BOB).unwrap().properties[0].token_amount, 0);
    assert_eq!(m.get_portfolio(CARA).unwrap().properties[0].token_amount, 40);
}

#[test]
fn seller_without_a_portfolio_absorbs_the_debit() {
    // ALICE holds 100 on the ledger but never traded into a portfolio;
    // settling her sell order must not create or corrupt one for her.
    let mut m = funded_market();
    let order = m.create_token_order(Some(ALICE), verified(), NOW, sell(40, 12, 24)).unwrap();
    m.execute_order(Some(BOB), verified(), NOW + 1, order.id).unwrap();
    assert!(m.get_portfolio(ALICE).is_none());
    assert_eq!(m.get_portfolio(BOB).unwrap().properties[0].token_amount, 40);
}

#[test]
fn lazily_created_portfolio_has_zeroed_aggregates() {
    let mut m = funded_market();
    let order = m.create_token_order(Some(ALICE), verified(), NOW, sell(40, 12, 24)).unwrap();
    m.execute_order(Some(BOB), verified(), NOW + 7, order.id).unwrap();
    let p = m.get_portfolio(BOB).unwrap();
    assert_eq!(p.total_value, 0);
    assert_eq!(p.total_tokens, 0);
    assert_eq!(p.total_dividends_received, 0);
    assert_eq!(p.properties[0].purchase_date, NOW + 7);
    assert_eq!(p.properties[0].initial_investment, 0);
}

#[test]
fn market_snapshot_tracks_last_price_and_accumulates_volume() {
    let mut m = funded_market();
    let first = m.create_token_order(Some(ALICE), verified(), NOW, sell(10, 12, 24)).unwrap();
    m.execute_order(Some(BOB), verified(), NOW + 1, first.id).unwrap();
    let snap = m.get_market_data(1).unwrap();
    assert_eq!(snap.current_price, 12);
    assert_eq!(snap.trading_volume_24h, 10);
    assert_eq!(snap.market_cap, 0);
    assert_eq!(snap.last_updated, NOW + 1);

    let second = m.create_token_order(Some(ALICE), verified(), NOW, sell(5, 9, 24)).unwrap();
    m.execute_order(Some(BOB), verified(), NOW + 2, second.id).unwrap();
    let snap = m.get_market_data(1).unwrap();
    assert_eq!(snap.current_price, 9);
    assert_eq!(snap.trading_volume_24h, 15);
    assert_eq!(snap.last_updated, NOW + 2);

    assert!(m.get_market_data(2).is_none());
}

#[test]
fn active_orders_filters_status_property_and_expiry() {
    let mut m = funded_market();
    let fresh = m.create_token_order(Some(ALICE), verified(), NOW, sell(10, 12, 24)).unwrap();
    let stale = m.create_token_order(Some(ALICE), verified(), NOW, sell(10, 12, 0)).unwrap();
    let cancelled = m.create_token_order(Some(ALICE), verified(), NOW, sell(5, 12, 24)).unwrap();
    m.cancel_order(Some(ALICE), cancelled.id).unwrap();

    let open = m.get_active_orders(1, NOW + 1);
    assert_eq!(open.len(), 1);
    assert_eq!(open[0].id, fresh.id);
    // The stale order was filtered by its instant, not rewritten.
    assert_eq!(m.get_order(stale.id).unwrap().status, OrderStatus::Active);
    // Another property has no open orders.
    assert!(m.get_active_orders(2, NOW + 1).is_empty());
}

#[test]
fn user_orders_cover_both_sides_of_a_trade() {
    let mut m = funded_market();
    let order = m.create_token_order(Some(ALICE), verified(), NOW, sell(40, 12, 24)).unwrap();
    m.execute_order(Some(BOB), verified(), NOW + 1, order.id).unwrap();

    let of_seller = m.get_user_orders(ALICE);
    assert_eq!(of_seller.len(), 1);
    assert_eq!(of_seller[0].id, order.id);

    let of_buyer = m.get_user_orders(BOB);
    assert_eq!(of_buyer.len(), 1);
    assert_eq!(of_buyer[0].status, OrderStatus::Filled);

    assert!(m.get_user_orders(CARA).is_empty());
}

#[test]
fn self_trade_debits_and_credits_the_same_portfolio() {
    // ALICE fills her own sell order: her portfolio line is debited
    // (absent, so absorbed) and credited in one settlement.
    let mut m = funded_market();
    let order = m.create_token_order(Some(ALICE), verified(), NOW, sell(40, 12, 24)).unwrap();
    let filled = m.execute_order(Some(ALICE), verified(), NOW + 1, order.id).unwrap();
    assert_eq!(filled.buyer, Some(ALICE));
    assert_eq!(m.get_portfolio(ALICE).unwrap().properties[0].token_amount, 40);
    assert_eq!(m.balance_of(ALICE, 1), 140);
}

#[test]
fn updating_a_line_keeps_its_other_fields() {
    // BOB's line is created at the first settlement instant; a later
    // settlement raises only its token amount.
    let mut m = funded_market();
    let first = m.create_token_order(Some(ALICE), verified(), NOW, sell(10, 12, 24)).unwrap();
    m.execute_order(Some(BOB), verified(), NOW + 5, first.id).unwrap();
    let line = m.get_portfolio(BOB).unwrap().properties[0];
    assert_eq!(line.purchase_date, NOW + 5);
    assert_eq!(line.token_amount, 10);

    let second = m.create_token_order(Some(ALICE), verified(), NOW, sell(7, 12, 24)).unwrap();
    m.execute_order(Some(BOB), verified(), NOW + 9, second.id).unwrap();
    let line = m.get_portfolio(BOB).unwrap().properties[0];
    assert_eq!(line.token_amount, 17);
    assert_eq!(line.purchase_date, NOW + 5);
    assert_eq!(line.initial_investment, 0);
    assert_eq!(line.current_value, 0);
    assert_eq!(line.dividends_received, 0);
}
