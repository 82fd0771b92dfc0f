use vstd::prelude::*;

verus! {

/// Lifecycle of a listed property in the asset registry.
#[derive(Clone, Copy, PartialEq, Eq, Structural, Debug)]
pub enum PropertyStatus {
    Active,
    Sold,
    Pending,
    Inactive,
    UnderMaintenance,
}

/// Broad category of a listed property.
#[derive(Clone, Copy, PartialEq, Eq, Structural, Debug)]
pub enum PropertyType {
    Residential,
    Commercial,
    Industrial,
    Land,
    Trophy,
}

/// A registered property divided into a fixed token supply.
///
/// The engine reads only the numeric fields of a listing: supply totals,
/// the unit price derived at listing time, and the lifecycle status.
#[derive(Clone, Copy, PartialEq, Eq, Structural, Debug)]
pub struct Property {
    pub id: u64,
    pub owner: u64,
    pub total_value: u64,
    pub total_tokens: u64,
    pub available_tokens: u64,
    pub price_per_token: u64,
    pub property_type: PropertyType,
    pub status: PropertyStatus,
    pub created_at: u64,
    pub updated_at: u64,
}

/// Status of one ownership grant in the investment ledger.
#[derive(Clone, Copy, PartialEq, Eq, Structural, Debug)]
pub enum InvestmentStatus {
    Pending,
    Confirmed,
    Cancelled,
}

/// One confirmed acquisition event: `investor` was credited
/// `token_amount` tokens of `property_id` against `investment_amount` paid.
#[derive(Clone, Copy, PartialEq, Eq, Structural, Debug)]
pub struct Investment {
    pub id: u64,
    pub investor: u64,
    pub property_id: u64,
    pub token_amount: u64,
    pub investment_amount: u64,
    pub timestamp: u64,
    pub status: InvestmentStatus,
}

/// Whether an order offers to buy tokens or to sell them.
#[derive(Clone, Copy, PartialEq, Eq, Structural, Debug)]
pub enum OrderType {
    Buy,
    Sell,
}

/// Order lifecycle: `Active` until one terminal status is reached.
#[derive(Clone, Copy, PartialEq, Eq, Structural, Debug)]
pub enum OrderStatus {
    Active,
    Filled,
    Cancelled,
    Expired,
}

/// A standing offer over a fixed token amount of one property at a fixed
/// unit price, with an expiry instant in nanoseconds.
#[derive(Clone, Copy, PartialEq, Eq, Structural, Debug)]
pub struct TokenOrder {
    pub id: u64,
    pub property_id: u64,
    pub seller: u64,
    pub buyer: Option<u64>,
    pub token_amount: u64,
    pub price_per_token: u64,
    pub total_price: u64,
    pub order_type: OrderType,
    pub status: OrderStatus,
    pub created_at: u64,
    pub expires_at: u64,
}

impl TokenOrder {
    /// A terminal status is never left again.
    pub open spec fn is_terminal(self) -> bool {
        self.status != OrderStatus::Active
    }
}

/// Request body for placing an order.
#[derive(Clone, Copy, PartialEq, Eq, Structural, Debug)]
pub struct CreateOrderPayload {
    pub property_id: u64,
    pub token_amount: u64,
    pub price_per_token: u64,
    pub order_type: OrderType,
    pub expires_in_hours: u64,
}

/// Request body for a direct purchase from the available supply.
#[derive(Clone, Copy, PartialEq, Eq, Structural, Debug)]
pub struct InvestmentPayload {
    pub property_id: u64,
    pub token_amount: u64,
}

/// One per-property line of a holder's portfolio.
#[derive(Clone, Copy, PartialEq, Eq, Structural, Debug)]
pub struct PortfolioProperty {
    pub property_id: u64,
    pub token_amount: u64,
    pub initial_investment: u64,
    pub current_value: u64,
    pub dividends_received: u64,
    pub purchase_date: u64,
}

/// A holder's aggregated view over all properties. Aggregate totals are
/// zeroed at lazy creation and recomputed outside this engine.
#[derive(Clone, Debug)]
pub struct Portfolio {
    pub owner: u64,
    pub total_value: u64,
    pub total_tokens: u64,
    pub properties: Vec<PortfolioProperty>,
    pub total_dividends_received: u64,
}

/// Rolling per-property market snapshot: last trade price and a
/// monotonically accumulated trade volume.
#[derive(Clone, Copy, PartialEq, Eq, Structural, Debug)]
pub struct MarketData {
    pub property_id: u64,
    pub current_price: u64,
    pub trading_volume_24h: u64,
    pub market_cap: u64,
    pub last_updated: u64,
}

/// Answer of the compliance gate for one identity.
#[derive(Clone, Copy, PartialEq, Eq, Structural, Debug)]
pub enum KycStatus {
    Pending,
    Verified,
    Rejected,
    Expired,
}

/// Which entity a `NotFound` error speaks of.
#[derive(Clone, Copy, PartialEq, Eq, Structural, Debug)]
pub enum EntityKind {
    Property,
    User,
    Order,
}

/// A lifecycle status quoted inside an `InvalidState` error.
#[derive(Clone, Copy, PartialEq, Eq, Structural, Debug)]
pub enum EntityState {
    Order(OrderStatus),
    Asset(PropertyStatus),
}

/// Every failure an entry point can answer with. `InvalidState` carries
/// the expected and the actual lifecycle status.
#[derive(Clone, Copy, PartialEq, Eq, Structural, Debug)]
pub enum Error {
    AuthenticationRequired,
    KycNotVerified(KycStatus),
    NotFound(EntityKind),
    InsufficientBalance,
    InvalidState(EntityState, EntityState),
    Expired,
    ArithmeticOverflow,
}

} // verus!
