//! The trade execution engine and its entry points: placing, executing
//! and cancelling orders, direct purchases, and the derived read views.
//! Identity and compliance answers come in as arguments — the engine
//! consumes the collaborators' verdicts and fails closed on anything but
//! an authenticated, verified caller.

use vstd::prelude::*;

use crate::ledger::{lemma_balance_push, spec_balance, InvestmentLedger};
use crate::market::{snapshot_at, snapshot_ids_unique, spec_record_trade, spec_volume, has_snapshot, MarketTracker};
use crate::orders::{has_order, order_at, order_ids_unique, order_index, OrderBook};
use crate::portfolio::{
    has_line, has_portfolio, line_at, portfolio_at, portfolio_index, same_aggregates, sat_sub,
    spec_holding_amount, spec_new_holding, wf_portfolios, PortfolioStore,
};
use crate::registry::{has_property, property_at, property_ids_unique, PropertyRegistry};
use crate::seq_gen::SequenceGenerator;
use crate::types::{
    CreateOrderPayload, EntityKind, EntityState, Error, Investment, InvestmentPayload,
    InvestmentStatus, KycStatus, MarketData, OrderStatus, OrderType, Portfolio,
    PortfolioProperty, Property, PropertyStatus, PropertyType, TokenOrder,
};

verus! {

/// Nanoseconds in one hour; expiry horizons are given in hours.
pub const NANOS_PER_HOUR: u64 = 3_600_000_000_000;

/// The identity gate: an anonymous caller is turned away.
pub fn is_authenticated(caller: Option<u64>) -> (r: Result<u64, Error>)
    ensures
        match caller {
            Some(c) => r == Ok::<u64, Error>(c),
            None => r == Err::<u64, Error>(Error::AuthenticationRequired),
        },
{
    match caller {
        Some(c) => Ok(c),
        None => Err(Error::AuthenticationRequired),
    }
}

/// What the identity and compliance gates answer for a caller: `None`
/// when the caller may go on, the exact error otherwise.
pub open spec fn gate_error(caller: Option<u64>, kyc: Option<KycStatus>) -> Option<Error> {
    match (caller, kyc) {
        (None, _) => Some(Error::AuthenticationRequired),
        (Some(_), None) => Some(Error::NotFound(EntityKind::User)),
        (Some(_), Some(KycStatus::Verified)) => None,
        (Some(_), Some(st)) => Some(Error::KycNotVerified(st)),
    }
}

/// The compliance gate: only a `Verified` holder may mutate the ledger;
/// a missing profile fails closed.
pub fn validate_kyc(kyc: Option<KycStatus>) -> (r: Result<(), Error>)
    ensures
        match kyc {
            None => r == Err::<(), Error>(Error::NotFound(EntityKind::User)),
            Some(KycStatus::Verified) => r == Ok::<(), Error>(()),
            Some(st) => r == Err::<(), Error>(Error::KycNotVerified(st)),
        },
{
    match kyc {
        None => Err(Error::NotFound(EntityKind::User)),
        Some(KycStatus::Verified) => Ok(()),
        Some(st) => Err(Error::KycNotVerified(st)),
    }
}

/// No order in a terminal status is ever rewritten: wherever an order
/// stood as `Filled`, `Cancelled` or `Expired`, it still stands unchanged.
pub open spec fn terminal_orders_keep(before: Seq<TokenOrder>, after: Seq<TokenOrder>) -> bool {
    after.len() >= before.len() && (forall|i: int|
        0 <= i < before.len() && (#[trigger] before[i]).is_terminal() ==> after[i] == before[i])
}

/// The engine and the stores it mutates. Every store is owned here and
/// touched only through the entry points below.
pub struct Marketplace {
    pub seq: SequenceGenerator,
    pub registry: PropertyRegistry,
    pub ledger: InvestmentLedger,
    pub book: OrderBook,
    pub portfolios: PortfolioStore,
    pub market: MarketTracker,
}

impl Marketplace {
    /// Every identifier handed out so far is at most the counter, every
    /// store is keyed consistently, and every balance still fits a `u64`.
    pub open spec fn wf(self) -> bool {
        &&& property_ids_unique(self.registry.properties@)
        &&& order_ids_unique(self.book.orders@)
        &&& snapshot_ids_unique(self.market.snapshots@)
        &&& wf_portfolios(self.portfolios.items@)
        &&& 0 <= self.seq.counter() <= u64::MAX as int
        &&& forall|i: int|
            0 <= i < self.book.orders@.len() ==> (#[trigger] self.book.orders@[i]).id as int
                <= self.seq.counter()
        &&& forall|i: int|
            0 <= i < self.ledger.records@.len() ==> (#[trigger] self.ledger.records@[i]).id as int
                <= self.seq.counter()
        &&& forall|i: int|
            0 <= i < self.registry.properties@.len() ==> (
            #[trigger] self.registry.properties@[i]).id as int <= self.seq.counter()
        &&& forall|h: u64, a: u64|
            #[trigger] spec_balance(self.ledger.records@, h, a) <= u64::MAX as int
    }

    /// An empty marketplace: no listings, no grants, no orders, no
    /// derived views, and the identifier counter at zero.
    pub fn new() -> (m: Self)
        ensures
            m.wf(),
            m.seq.counter() == 0,
            m.registry.properties@ =~= Seq::<Property>::empty(),
            m.ledger.records@ =~= Seq::<Investment>::empty(),
            m.book.orders@ =~= Seq::<TokenOrder>::empty(),
            m.portfolios.items@ =~= Seq::<Portfolio>::empty(),
            m.market.snapshots@ =~= Seq::<MarketData>::empty(),
    {
        let m = Marketplace {
            seq: SequenceGenerator::new(),
            registry: PropertyRegistry::new(),
            ledger: InvestmentLedger::new(),
            book: OrderBook::new(),
            portfolios: PortfolioStore::new(),
            market: MarketTracker::new(),
        };
        proof {
            assert forall|h: u64, a: u64| #[trigger] spec_balance(m.ledger.records@, h, a)
                <= u64::MAX as int by {
                assert(spec_balance(m.ledger.records@, h, a) == 0);
            }
        }
        m
    }

    /// The balance oracle: the sum of confirmed grants for the pair,
    /// recomputed from the ledger on every call.
    pub fn balance_of(&self, holder: u64, property_id: u64) -> (r: u64)
        requires
            self.wf(),
        ensures
            r as int == spec_balance(self.ledger.records@, holder, property_id),
    {
        self.ledger.balance_of(holder, property_id)
    }

    /// All grants of one investor, in ledger order.
    pub fn get_investments_by_user(&self, user: u64) -> (out: Vec<Investment>)
        ensures
            out@ == self.ledger.records@.filter(|r: Investment| r.investor == user),
    {
        self.ledger.investments_of(user)
    }

    /// The still-open offers for one property.
    pub fn get_active_orders(&self, property_id: u64, now: u64) -> (out: Vec<TokenOrder>)
        ensures
            out@ == self.book.orders@.filter(
                |o: TokenOrder|
                    o.property_id == property_id && o.status == OrderStatus::Active
                        && o.expires_at > now,
            ),
    {
        self.book.active_orders(property_id, now)
    }

    /// Every order the holder stands in, as seller or as buyer.
    pub fn get_user_orders(&self, user: u64) -> (out: Vec<TokenOrder>)
        ensures
            out@ == self.book.orders@.filter(
                |o: TokenOrder| o.seller == user || o.buyer == Some(user),
            ),
    {
        self.book.orders_of(user)
    }

    /// The stored order under the identifier, if any.
    pub fn get_order(&self, order_id: u64) -> (r: Option<TokenOrder>)
        requires
            self.wf(),
        ensures
            r == if has_order(self.book.orders@, order_id) {
                Some(order_at(self.book.orders@, order_id))
            } else {
                None::<TokenOrder>
            },
    {
        match self.book.find_order(order_id) {
            Some(i) => Some(self.book.orders[i]),
            None => None,
        }
    }

    /// Every listing, in registry order.
    pub fn get_all_properties(&self) -> (out: Vec<Property>)
        ensures
            out@ == self.registry.properties@,
    {
        self.registry.all_properties()
    }

    /// The listing under the identifier, if any.
    pub fn get_property(&self, property_id: u64) -> (r: Option<Property>)
        requires
            self.wf(),
        ensures
            r == if has_property(self.registry.properties@, property_id) {
                Some(property_at(self.registry.properties@, property_id))
            } else {
                None::<Property>
            },
    {
        self.registry.get_property(property_id)
    }

    /// The holder's portfolio snapshot, if one was created.
    pub fn get_portfolio(&self, owner: u64) -> (r: Option<&Portfolio>)
        requires
            self.wf(),
        ensures
            match r {
                Some(p) => has_portfolio(self.portfolios.items@, owner) && *p == portfolio_at(
                    self.portfolios.items@,
                    owner,
                ),
                None => !has_portfolio(self.portfolios.items@, owner),
            },
    {
        self.portfolios.get_portfolio(owner)
    }

    /// The property's market snapshot, if any trade was recorded.
    pub fn get_market_data(&self, property_id: u64) -> (r: Option<MarketData>)
        requires
            self.wf(),
        ensures
            r == if has_snapshot(self.market.snapshots@, property_id) {
                Some(snapshot_at(self.market.snapshots@, property_id))
            } else {
                None::<MarketData>
            },
    {
        self.market.snapshot_of(property_id)
    }

    /// Lists a new property: the whole supply starts available, the unit
    /// price is the listed value split over the supply.
    pub fn create_property(
        &mut self,
        caller: Option<u64>,
        kyc: Option<KycStatus>,
        now: u64,
        total_value: u64,
        total_tokens: u64,
        property_type: PropertyType,
    ) -> (r: Result<Property, Error>)
        requires
            old(self).wf(),
            total_tokens >= 1,
        ensures
            final(self).wf(),
            final(self).ledger.records@ == old(self).ledger.records@,
            final(self).book.orders@ == old(self).book.orders@,
            final(self).portfolios.items@ == old(self).portfolios.items@,
            final(self).market.snapshots@ == old(self).market.snapshots@,
            match gate_error(caller, kyc) {
                Some(e) => r == Err::<Property, Error>(e) && final(self).registry.properties@
                    == old(self).registry.properties@ && final(self).seq.counter() == old(self).seq.counter(),
                None => if old(self).seq.counter() == u64::MAX as int {
                    r == Err::<Property, Error>(Error::ArithmeticOverflow) && final(self).registry.properties@ == old(self).registry.properties@ && final(self).seq.counter() == old(self).seq.counter()
                } else {
                    r is Ok && final(self).seq.counter() == old(self).seq.counter() + 1 && final(self).registry.properties@ == old(self).registry.properties@.push(r.unwrap())
                        && r.unwrap() == (Property {
                        id: (old(self).seq.counter() + 1) as u64,
                        owner: caller.unwrap(),
                        total_value,
                        total_tokens,
                        available_tokens: total_tokens,
                        price_per_token: total_value / total_tokens,
                        property_type,
                        status: PropertyStatus::Active,
                        created_at: now,
                        updated_at: now,
                    })
                },
            },
    {
        let who = match is_authenticated(caller) {
            Ok(c) => c,
            Err(e) => {
                return Err(e);
            },
        };
        match validate_kyc(kyc) {
            Ok(()) => (),
            Err(e) => {
                return Err(e);
            },
        };
        if self.seq.current() == u64::MAX {
            return Err(Error::ArithmeticOverflow);
        }
        let property_id = self.seq.get_next_id();
        let p = Property {
            id: property_id,
            owner: who,
            total_value,
            total_tokens,
            available_tokens: total_tokens,
            price_per_token: total_value / total_tokens,
            property_type,
            status: PropertyStatus::Active,
            created_at: now,
            updated_at: now,
        };
        let ghost s0 = self.registry.properties@;
        self.registry.push_property(p);
        proof {
            let s1 = self.registry.properties@;
            assert forall|i: int, j: int| 0 <= i < j < s1.len() implies #[trigger] s1[i].id
                != #[trigger] s1[j].id by {
                if j == s0.len() as int {
                    assert(s1[i] == s0[i]);
                }
            }
        }
        Ok(p)
    }

    /// The exact error `invest_in_property` answers with, `None` when the
    /// purchase goes through.
    pub open spec fn spec_invest_error(
        self,
        caller: Option<u64>,
        kyc: Option<KycStatus>,
        p: InvestmentPayload,
    ) -> Option<Error> {
        if gate_error(caller, kyc) is Some {
            gate_error(caller, kyc)
        } else if !has_property(self.registry.properties@, p.property_id) {
            Some(Error::NotFound(EntityKind::Property))
        } else {
            let prop = property_at(self.registry.properties@, p.property_id);
            if prop.status != PropertyStatus::Active {
                Some(
                    Error::InvalidState(
                        EntityState::Asset(PropertyStatus::Active),
                        EntityState::Asset(prop.status),
                    ),
                )
            } else if p.token_amount > prop.available_tokens {
                Some(Error::InsufficientBalance)
            } else if p.token_amount * prop.price_per_token > u64::MAX as int {
                Some(Error::ArithmeticOverflow)
            } else if spec_balance(self.ledger.records@, caller.unwrap(), p.property_id)
                + p.token_amount > u64::MAX as int {
                Some(Error::ArithmeticOverflow)
            } else if self.seq.counter() == u64::MAX as int {
                Some(Error::ArithmeticOverflow)
            } else {
                None
            }
        }
    }

    /// The grant a successful purchase appends.
    pub open spec fn spec_new_investment(
        self,
        who: u64,
        p: InvestmentPayload,
        now: u64,
    ) -> Investment {
        Investment {
            id: (self.seq.counter() + 1) as u64,
            investor: who,
            property_id: p.property_id,
            token_amount: p.token_amount,
            investment_amount: (p.token_amount * property_at(
                self.registry.properties@,
                p.property_id,
            ).price_per_token) as u64,
            timestamp: now,
            status: InvestmentStatus::Confirmed,
        }
    }

    /// A direct purchase from a listing's available supply: appends one
    /// confirmed grant priced at the listing's unit price. The available
    /// supply itself is owned by the registry and is not decremented here.
    pub fn invest_in_property(
        &mut self,
        caller: Option<u64>,
        kyc: Option<KycStatus>,
        now: u64,
        payload: InvestmentPayload,
    ) -> (r: Result<Investment, Error>)
        requires
            old(self).wf(),
            payload.token_amount >= 1,
        ensures
            final(self).wf(),
            final(self).registry.properties@ == old(self).registry.properties@,
            final(self).book.orders@ == old(self).book.orders@,
            final(self).portfolios.items@ == old(self).portfolios.items@,
            final(self).market.snapshots@ == old(self).market.snapshots@,
            r is Err ==> final(self).ledger.records@ == old(self).ledger.records@ && final(self).seq.counter() == old(self).seq.counter(),
            match old(self).spec_invest_error(caller, kyc, payload) {
                Some(e) => r == Err::<Investment, Error>(e),
                None => {
                    let grant = old(self).spec_new_investment(caller.unwrap(), payload, now);
                    &&& r == Ok::<Investment, Error>(grant)
                    &&& final(self).ledger.records@ == old(self).ledger.records@.push(grant)
                    &&& final(self).seq.counter() == old(self).seq.counter() + 1
                    &&& spec_balance(
                        final(self).ledger.records@,
                        caller.unwrap(),
                        payload.property_id,
                    ) == spec_balance(
                        old(self).ledger.records@,
                        caller.unwrap(),
                        payload.property_id,
                    ) + payload.token_amount
                    &&& forall|h: u64, a: u64|
                        !(h == caller.unwrap() && a == payload.property_id)
                            ==> #[trigger] spec_balance(final(self).ledger.records@, h, a)
                            == spec_balance(old(self).ledger.records@, h, a)
                },
            },
    {
        let who = match is_authenticated(caller) {
            Ok(c) => c,
            Err(e) => {
                return Err(e);
            },
        };
        match validate_kyc(kyc) {
            Ok(()) => (),
            Err(e) => {
                return Err(e);
            },
        };
        let prop = match self.get_property(payload.property_id) {
            Some(p) => p,
            None => {
                return Err(Error::NotFound(EntityKind::Property));
            },
        };
        if !(matches!(prop.status, PropertyStatus::Active)) {
            return Err(
                Error::InvalidState(
                    EntityState::Asset(PropertyStatus::Active),
                    EntityState::Asset(prop.status),
                ),
            );
        }
        if payload.token_amount > prop.available_tokens {
            return Err(Error::InsufficientBalance);
        }
        let investment_amount = match payload.token_amount.checked_mul(prop.price_per_token) {
            Some(v) => v,
            None => {
                return Err(Error::ArithmeticOverflow);
            },
        };
        let bal = self.ledger.balance_of(who, payload.property_id);
        if payload.token_amount > u64::MAX - bal {
            return Err(Error::ArithmeticOverflow);
        }
        if self.seq.current() == u64::MAX {
            return Err(Error::ArithmeticOverflow);
        }
        let investment_id = self.seq.get_next_id();
        let inv = Investment {
            id: investment_id,
            investor: who,
            property_id: payload.property_id,
            token_amount: payload.token_amount,
            investment_amount,
            timestamp: now,
            status: InvestmentStatus::Confirmed,
        };
        let ghost r0 = self.ledger.records@;
        self.ledger.append(inv);
        proof {
            assert forall|h: u64, a: u64| #[trigger] spec_balance(self.ledger.records@, h, a)
                <= u64::MAX as int by {
                lemma_balance_push(r0, inv, h, a);
            }
            lemma_balance_push(r0, inv, who, payload.property_id);
            assert forall|h: u64, a: u64| !(h == who && a == payload.property_id)
                implies #[trigger] spec_balance(self.ledger.records@, h, a) == spec_balance(
                r0,
                h,
                a,
            ) by {
                lemma_balance_push(r0, inv, h, a);
            }
        }
        Ok(inv)
    }

    /// The exact error `create_token_order` answers with, `None` when the
    /// order is placed. A sell offer over more tokens than the seller's
    /// balance is refused outright and no order is created.
    pub open spec fn spec_place_error(
        self,
        caller: Option<u64>,
        kyc: Option<KycStatus>,
        now: u64,
        p: CreateOrderPayload,
    ) -> Option<Error> {
        if gate_error(caller, kyc) is Some {
            gate_error(caller, kyc)
        } else if !has_property(self.registry.properties@, p.property_id) {
            Some(Error::NotFound(EntityKind::Property))
        } else if p.order_type == OrderType::Sell && spec_balance(
            self.ledger.records@,
            caller.unwrap(),
            p.property_id,
        ) < p.token_amount {
            Some(Error::InsufficientBalance)
        } else if p.token_amount * p.price_per_token > u64::MAX as int {
            Some(Error::ArithmeticOverflow)
        } else if p.expires_in_hours * NANOS_PER_HOUR > u64::MAX as int || now
            + p.expires_in_hours * NANOS_PER_HOUR > u64::MAX as int {
            Some(Error::ArithmeticOverflow)
        } else if self.seq.counter() == u64::MAX as int {
            Some(Error::ArithmeticOverflow)
        } else {
            None
        }
    }

    /// The order a successful placement stores: `Active`, without a
    /// buyer, priced at amount times unit price, expiring after the
    /// requested number of hours.
    pub open spec fn spec_new_order(self, who: u64, p: CreateOrderPayload, now: u64) -> TokenOrder {
        TokenOrder {
            id: (self.seq.counter() + 1) as u64,
            property_id: p.property_id,
            seller: who,
            buyer: None,
            token_amount: p.token_amount,
            price_per_token: p.price_per_token,
            total_price: (p.token_amount * p.price_per_token) as u64,
            order_type: p.order_type,
            status: OrderStatus::Active,
            created_at: now,
            expires_at: (now + p.expires_in_hours * NANOS_PER_HOUR) as u64,
        }
    }

    /// Places a buy or sell order against a listed property. For a sell
    /// order the caller must hold at least the offered amount.
    pub fn create_token_order(
        &mut self,
        caller: Option<u64>,
        kyc: Option<KycStatus>,
        now: u64,
        payload: CreateOrderPayload,
    ) -> (r: Result<TokenOrder, Error>)
        requires
            old(self).wf(),
            payload.token_amount >= 1,
            payload.price_per_token >= 1,
        ensures
            final(self).wf(),
            final(self).registry.properties@ == old(self).registry.properties@,
            final(self).ledger.records@ == old(self).ledger.records@,
            final(self).portfolios.items@ == old(self).portfolios.items@,
            final(self).market.snapshots@ == old(self).market.snapshots@,
            terminal_orders_keep(old(self).book.orders@, final(self).book.orders@),
            r is Err ==> final(self).book.orders@ == old(self).book.orders@ && final(
                self).seq.counter() == old(self).seq.counter(),
            match old(self).spec_place_error(caller, kyc, now, payload) {
                Some(e) => r == Err::<TokenOrder, Error>(e),
                None => {
                    let o = old(self).spec_new_order(caller.unwrap(), payload, now);
                    &&& r == Ok::<TokenOrder, Error>(o)
                    &&& final(self).book.orders@ == old(self).book.orders@.push(o)
                    &&& final(self).seq.counter() == old(self).seq.counter() + 1
                },
            },
    {
        let who = match is_authenticated(caller) {
            Ok(c) => c,
            Err(e) => {
                return Err(e);
            },
        };
        match validate_kyc(kyc) {
            Ok(()) => (),
            Err(e) => {
                return Err(e);
            },
        };
        if self.get_property(payload.property_id).is_none() {
            return Err(Error::NotFound(EntityKind::Property));
        }
        if matches!(payload.order_type, OrderType::Sell) {
            let user_tokens = self.ledger.balance_of(who, payload.property_id);
            if user_tokens < payload.token_amount {
                return Err(Error::InsufficientBalance);
            }
        }
        let total_price = match payload.token_amount.checked_mul(payload.price_per_token) {
            Some(v) => v,
            None => {
                return Err(Error::ArithmeticOverflow);
            },
        };
        let span = match payload.expires_in_hours.checked_mul(NANOS_PER_HOUR) {
            Some(v) => v,
            None => {
                return Err(Error::ArithmeticOverflow);
            },
        };
        let expires_at = match now.checked_add(span) {
            Some(v) => v,
            None => {
                return Err(Error::ArithmeticOverflow);
            },
        };
        if self.seq.current() == u64::MAX {
            return Err(Error::ArithmeticOverflow);
        }
        let order_id = self.seq.get_next_id();
        let order = TokenOrder {
            id: order_id,
            property_id: payload.property_id,
            seller: who,
            buyer: None,
            token_amount: payload.token_amount,
            price_per_token: payload.price_per_token,
            total_price,
            order_type: payload.order_type,
            status: OrderStatus::Active,
            created_at: now,
            expires_at,
        };
        let ghost b0 = self.book.orders@;
        self.book.push_order(order);
        proof {
            let b1 = self.book.orders@;
            assert forall|i: int, j: int| 0 <= i < j < b1.len() implies #[trigger] b1[i].id
                != #[trigger] b1[j].id by {
                if j == b0.len() as int {
                    assert(b1[i] == b0[i]);
                }
            }
        }
        Ok(order)
    }

    /// The exact error `cancel_order` answers with, `None` when the
    /// cancellation goes through. An order placed by someone else is not
    /// the caller's to see, so it is answered as not found.
    pub open spec fn spec_cancel_error(self, caller: Option<u64>, order_id: u64) -> Option<Error> {
        if caller is None {
            Some(Error::AuthenticationRequired)
        } else if !has_order(self.book.orders@, order_id) || order_at(
            self.book.orders@,
            order_id,
        ).seller != caller.unwrap() {
            Some(Error::NotFound(EntityKind::Order))
        } else if order_at(self.book.orders@, order_id).status != OrderStatus::Active {
            Some(
                Error::InvalidState(
                    EntityState::Order(OrderStatus::Active),
                    EntityState::Order(order_at(self.book.orders@, order_id).status),
                ),
            )
        } else {
            None
        }
    }

    /// Withdraws a still-active order. Only the seller who placed the
    /// order may cancel it, and only while it is `Active`.
    pub fn cancel_order(&mut self, caller: Option<u64>, order_id: u64) -> (r: Result<
        TokenOrder,
        Error,
    >)
        requires
            old(self).wf(),
        ensures
            final(self).wf(),
            final(self).registry.properties@ == old(self).registry.properties@,
            final(self).ledger.records@ == old(self).ledger.records@,
            final(self).portfolios.items@ == old(self).portfolios.items@,
            final(self).market.snapshots@ == old(self).market.snapshots@,
            final(self).seq.counter() == old(self).seq.counter(),
            terminal_orders_keep(old(self).book.orders@, final(self).book.orders@),
            r is Err ==> final(self).book.orders@ == old(self).book.orders@,
            match old(self).spec_cancel_error(caller, order_id) {
                Some(e) => r == Err::<TokenOrder, Error>(e),
                None => {
                    let o = order_at(old(self).book.orders@, order_id);
                    let cancelled = TokenOrder { status: OrderStatus::Cancelled, ..o };
                    &&& r == Ok::<TokenOrder, Error>(cancelled)
                    &&& final(self).book.orders@ == old(self).book.orders@.update(
                        order_index(old(self).book.orders@, order_id),
                        cancelled,
                    )
                },
            },
    {
        let who = match is_authenticated(caller) {
            Ok(c) => c,
            Err(e) => {
                return Err(e);
            },
        };
        let idx = match self.book.find_order(order_id) {
            Some(i) => i,
            None => {
                return Err(Error::NotFound(EntityKind::Order));
            },
        };
        let o = self.book.orders[idx];
        if o.seller != who {
            return Err(Error::NotFound(EntityKind::Order));
        }
        if !(matches!(o.status, OrderStatus::Active)) {
            return Err(
                Error::InvalidState(
                    EntityState::Order(OrderStatus::Active),
                    EntityState::Order(o.status),
                ),
            );
        }
        let cancelled = TokenOrder { status: OrderStatus::Cancelled, ..o };
        let ghost b0 = self.book.orders@;
        self.book.set_at(idx, cancelled);
        proof {
            let b1 = self.book.orders@;
            assert forall|i: int, j: int| 0 <= i < j < b1.len() implies #[trigger] b1[i].id
                != #[trigger] b1[j].id by {
                assert(b0[i].id != b0[j].id);
            }
        }
        Ok(cancelled)
    }

    /// The party the tokens flow to when the order is executed: a buy
    /// order was placed by the acquirer, a sell order is taken by one.
    pub open spec fn spec_recipient(o: TokenOrder, caller: u64) -> u64 {
        if o.order_type == OrderType::Buy {
            o.seller
        } else {
            caller
        }
    }

    /// The party the tokens flow from.
    pub open spec fn spec_supplier(o: TokenOrder, caller: u64) -> u64 {
        if o.order_type == OrderType::Buy {
            caller
        } else {
            o.seller
        }
    }

    /// The exact error `execute_order` answers with, `None` when the
    /// trade settles. An order already stored as `Expired`, or still
    /// stored `Active` past its expiry instant, always answers `Expired`;
    /// `Filled` and `Cancelled` answer `InvalidState`.
    pub open spec fn spec_execute_error(
        self,
        caller: Option<u64>,
        kyc: Option<KycStatus>,
        now: u64,
        order_id: u64,
    ) -> Option<Error> {
        if gate_error(caller, kyc) is Some {
            gate_error(caller, kyc)
        } else if !has_order(self.book.orders@, order_id) {
            Some(Error::NotFound(EntityKind::Order))
        } else {
            let o = order_at(self.book.orders@, order_id);
            let rec = Self::spec_recipient(o, caller.unwrap());
            if o.status == OrderStatus::Filled || o.status == OrderStatus::Cancelled {
                Some(
                    Error::InvalidState(
                        EntityState::Order(OrderStatus::Active),
                        EntityState::Order(o.status),
                    ),
                )
            } else if o.status == OrderStatus::Expired || o.expires_at < now {
                Some(Error::Expired)
            } else if o.order_type == OrderType::Buy && spec_balance(
                self.ledger.records@,
                caller.unwrap(),
                o.property_id,
            ) < o.token_amount {
                Some(Error::InsufficientBalance)
            } else if spec_balance(self.ledger.records@, rec, o.property_id) + o.token_amount
                > u64::MAX as int {
                Some(Error::ArithmeticOverflow)
            } else if spec_holding_amount(self.portfolios.items@, rec, o.property_id)
                + o.token_amount > u64::MAX as int {
                Some(Error::ArithmeticOverflow)
            } else if spec_volume(self.market.snapshots@, o.property_id) + o.token_amount
                > u64::MAX as int {
                Some(Error::ArithmeticOverflow)
            } else if self.seq.counter() == u64::MAX as int {
                Some(Error::ArithmeticOverflow)
            } else {
                None
            }
        }
    }

    /// Is the stored order still `Active` but past its expiry instant, so
    /// that this call materializes the `Expired` status?
    pub open spec fn spec_expires_now(self, caller: Option<u64>, kyc: Option<KycStatus>, now: u64, order_id: u64) -> bool {
        &&& gate_error(caller, kyc) is None
        &&& has_order(self.book.orders@, order_id)
        &&& order_at(self.book.orders@, order_id).status == OrderStatus::Active
        &&& order_at(self.book.orders@, order_id).expires_at < now
    }

    /// The grant a settlement appends: the recipient is credited the
    /// order's amount, the paid amount recorded as the order's total.
    pub open spec fn spec_settlement_grant(self, o: TokenOrder, rec: u64, now: u64) -> Investment {
        Investment {
            id: (self.seq.counter() + 1) as u64,
            investor: rec,
            property_id: o.property_id,
            token_amount: o.token_amount,
            investment_amount: o.total_price,
            timestamp: now,
            status: InvestmentStatus::Confirmed,
        }
    }

    /// Executes one resting order against the caller as counter-party:
    /// the ledger is credited, the order closed, and both derived views
    /// updated. The stored `buyer` is the acquiring party: the caller for
    /// a sell order; for a buy order its placer (the `seller` field), the
    /// caller being the token supplier there. Every check precedes the
    /// first write, so a refused call mutates nothing — except the lazy
    /// expiry, which rewrites only the stored status to `Expired`.
    pub fn execute_order(
        &mut self,
        caller: Option<u64>,
        kyc: Option<KycStatus>,
        now: u64,
        order_id: u64,
    ) -> (r: Result<TokenOrder, Error>)
        requires
            old(self).wf(),
        ensures
            final(self).wf(),
            final(self).registry.properties@ == old(self).registry.properties@,
            terminal_orders_keep(old(self).book.orders@, final(self).book.orders@),
            match old(self).spec_execute_error(caller, kyc, now, order_id) {
                Some(e) => {
                    &&& r == Err::<TokenOrder, Error>(e)
                    &&& final(self).ledger.records@ == old(self).ledger.records@
                    &&& final(self).portfolios.items@ == old(self).portfolios.items@
                    &&& final(self).market.snapshots@ == old(self).market.snapshots@
                    &&& final(self).seq.counter() == old(self).seq.counter()
                    &&& if old(self).spec_expires_now(caller, kyc, now, order_id) {
                        final(self).book.orders@ == old(self).book.orders@.update(
                            order_index(old(self).book.orders@, order_id),
                            TokenOrder {
                                status: OrderStatus::Expired,
                                ..order_at(old(self).book.orders@, order_id)
                            },
                        )
                    } else {
                        final(self).book.orders@ == old(self).book.orders@
                    }
                },
                None => {
                    let o = order_at(old(self).book.orders@, order_id);
                    let who = caller.unwrap();
                    let rec = Self::spec_recipient(o, who);
                    let sup = Self::spec_supplier(o, who);
                    let filled = TokenOrder { status: OrderStatus::Filled, buyer: Some(rec), ..o };
                    let grant = old(self).spec_settlement_grant(o, rec, now);
                    &&& r == Ok::<TokenOrder, Error>(filled)
                    &&& final(self).book.orders@ == old(self).book.orders@.update(
                        order_index(old(self).book.orders@, order_id),
                        filled,
                    )
                    &&& final(self).ledger.records@ == old(self).ledger.records@.push(grant)
                    &&& final(self).seq.counter() == old(self).seq.counter() + 1
                    &&& final(self).market.snapshots@ == spec_record_trade(
                        old(self).market.snapshots@,
                        o.property_id,
                        o.price_per_token,
                        o.token_amount,
                        now,
                    )
                    &&& spec_balance(final(self).ledger.records@, rec, o.property_id)
                        == spec_balance(old(self).ledger.records@, rec, o.property_id)
                        + o.token_amount
                    &&& forall|h: u64, a: u64|
                        !(h == rec && a == o.property_id) ==> #[trigger] spec_balance(
                            final(self).ledger.records@,
                            h,
                            a,
                        ) == spec_balance(old(self).ledger.records@, h, a)
                    &&& spec_holding_amount(final(self).portfolios.items@, rec, o.property_id)
                        == (if rec == sup {
                        sat_sub(
                            spec_holding_amount(old(self).portfolios.items@, rec, o.property_id),
                            o.token_amount as int,
                        )
                    } else {
                        spec_holding_amount(old(self).portfolios.items@, rec, o.property_id)
                    }) + o.token_amount
                    &&& rec != sup ==> spec_holding_amount(
                        final(self).portfolios.items@,
                        sup,
                        o.property_id,
                    ) == sat_sub(
                        spec_holding_amount(old(self).portfolios.items@, sup, o.property_id),
                        o.token_amount as int,
                    )
                    &&& forall|x: u64, y: u64|
                        !((x == rec || x == sup) && y == o.property_id)
                            ==> #[trigger] spec_holding_amount(final(self).portfolios.items@, x, y)
                            == spec_holding_amount(old(self).portfolios.items@, x, y)
                    &&& has_portfolio(final(self).portfolios.items@, rec)
                    &&& forall|x: u64|
                        x != rec ==> #[trigger] has_portfolio(final(self).portfolios.items@, x)
                            == has_portfolio(old(self).portfolios.items@, x)
                    &&& forall|x: u64|
                        x != rec && x != sup && has_portfolio(old(self).portfolios.items@, x)
                            ==> #[trigger] portfolio_at(final(self).portfolios.items@, x)
                            == portfolio_at(old(self).portfolios.items@, x)
                    &&& has_portfolio(old(self).portfolios.items@, rec) ==> same_aggregates(
                        portfolio_at(old(self).portfolios.items@, rec),
                        portfolio_at(final(self).portfolios.items@, rec),
                    )
                    &&& !has_portfolio(old(self).portfolios.items@, rec) ==> portfolio_at(
                        final(self).portfolios.items@,
                        rec,
                    ).owner == rec && portfolio_at(final(self).portfolios.items@, rec).total_value
                        == 0 && portfolio_at(final(self).portfolios.items@, rec).total_tokens == 0
                        && portfolio_at(
                        final(self).portfolios.items@,
                        rec,
                    ).total_dividends_received == 0
                    &&& rec != sup && has_portfolio(old(self).portfolios.items@, sup)
                        ==> same_aggregates(
                        portfolio_at(old(self).portfolios.items@, sup),
                        portfolio_at(final(self).portfolios.items@, sup),
                    )
                    &&& has_line(
                        portfolio_at(final(self).portfolios.items@, rec).properties@,
                        o.property_id,
                    )
                    &&& !(has_portfolio(old(self).portfolios.items@, rec) && has_line(
                        portfolio_at(old(self).portfolios.items@, rec).properties@,
                        o.property_id,
                    )) ==> line_at(
                        portfolio_at(final(self).portfolios.items@, rec).properties@,
                        o.property_id,
                    ) == spec_new_holding(o.property_id, o.token_amount, now)
                    &&& has_portfolio(old(self).portfolios.items@, rec) && has_line(
                        portfolio_at(old(self).portfolios.items@, rec).properties@,
                        o.property_id,
                    ) ==> line_at(
                        portfolio_at(final(self).portfolios.items@, rec).properties@,
                        o.property_id,
                    ) == (PortfolioProperty {
                        token_amount: ((if rec == sup {
                            sat_sub(
                                spec_holding_amount(
                                    old(self).portfolios.items@,
                                    rec,
                                    o.property_id,
                                ),
                                o.token_amount as int,
                            )
                        } else {
                            spec_holding_amount(old(self).portfolios.items@, rec, o.property_id)
                        }) + o.token_amount) as u64,
                        ..line_at(
                            portfolio_at(old(self).portfolios.items@, rec).properties@,
                            o.property_id,
                        )
                    })
                    &&& forall|y: u64|
                        y != o.property_id && has_portfolio(old(self).portfolios.items@, rec)
                            && has_line(
                            portfolio_at(old(self).portfolios.items@, rec).properties@,
                            y,
                        ) ==> #[trigger] line_at(
                            portfolio_at(final(self).portfolios.items@, rec).properties@,
                            y,
                        ) == line_at(portfolio_at(old(self).portfolios.items@, rec).properties@, y)
                    &&& forall|y: u64|
                        rec != sup && y != o.property_id && has_portfolio(
                            old(self).portfolios.items@,
                            sup,
                        ) && has_line(
                            portfolio_at(old(self).portfolios.items@, sup).properties@,
                            y,
                        ) ==> #[trigger] line_at(
                            portfolio_at(final(self).portfolios.items@, sup).properties@,
                            y,
                        ) == line_at(portfolio_at(old(self).portfolios.items@, sup).properties@, y)
                },
            },
    {
        let who = match is_authenticated(caller) {
            Ok(c) => c,
            Err(e) => {
                return Err(e);
            },
        };
        match validate_kyc(kyc) {
            Ok(()) => (),
            Err(e) => {
                return Err(e);
            },
        };
        let idx = match self.book.find_order(order_id) {
            Some(i) => i,
            None => {
                return Err(Error::NotFound(EntityKind::Order));
            },
        };
        let o = self.book.orders[idx];
        match o.status {
            OrderStatus::Filled | OrderStatus::Cancelled => {
                return Err(
                    Error::InvalidState(
                        EntityState::Order(OrderStatus::Active),
                        EntityState::Order(o.status),
                    ),
                );
            },
            OrderStatus::Expired => {
                return Err(Error::Expired);
            },
            OrderStatus::Active => (),
        };
        if o.expires_at < now {
            let expired = TokenOrder { status: OrderStatus::Expired, ..o };
            let ghost b0 = self.book.orders@;
            self.book.set_at(idx, expired);
            proof {
                let b1 = self.book.orders@;
                assert forall|i: int, j: int| 0 <= i < j < b1.len() implies #[trigger] b1[i].id
                    != #[trigger] b1[j].id by {
                    assert(b0[i].id != b0[j].id);
                }
            }
            return Err(Error::Expired);
        }
        let recipient: u64 = if matches!(o.order_type, OrderType::Buy) {
            o.seller
        } else {
            who
        };
        let supplier: u64 = if matches!(o.order_type, OrderType::Buy) {
            who
        } else {
            o.seller
        };
        if matches!(o.order_type, OrderType::Buy) {
            let caller_tokens = self.ledger.balance_of(who, o.property_id);
            if caller_tokens < o.token_amount {
                return Err(Error::InsufficientBalance);
            }
        }
        let rec_balance = self.ledger.balance_of(recipient, o.property_id);
        if o.token_amount > u64::MAX - rec_balance {
            return Err(Error::ArithmeticOverflow);
        }
        let rec_holding = self.portfolios.holding_of(recipient, o.property_id);
        if o.token_amount > u64::MAX - rec_holding {
            return Err(Error::ArithmeticOverflow);
        }
        let volume: u64 = match self.market.snapshot_of(o.property_id) {
            Some(m) => m.trading_volume_24h,
            None => 0,
        };
        if o.token_amount > u64::MAX - volume {
            return Err(Error::ArithmeticOverflow);
        }
        if self.seq.current() == u64::MAX {
            return Err(Error::ArithmeticOverflow);
        }
        // Every check passed: settle. The four writes below stand for one
        // atomic unit under the run-to-completion call model.
        let investment_id = self.seq.get_next_id();
        let grant = Investment {
            id: investment_id,
            investor: recipient,
            property_id: o.property_id,
            token_amount: o.token_amount,
            investment_amount: o.total_price,
            timestamp: now,
            status: InvestmentStatus::Confirmed,
        };
        let ghost r0 = self.ledger.records@;
        self.ledger.append(grant);
        proof {
            assert forall|h: u64, a: u64| #[trigger] spec_balance(self.ledger.records@, h, a)
                <= u64::MAX as int by {
                lemma_balance_push(r0, grant, h, a);
            }
            lemma_balance_push(r0, grant, recipient, o.property_id);
            assert forall|h: u64, a: u64| !(h == recipient && a == o.property_id)
                implies #[trigger] spec_balance(self.ledger.records@, h, a) == spec_balance(
                r0,
                h,
                a,
            ) by {
                lemma_balance_push(r0, grant, h, a);
            }
        }
        let ghost p0 = self.portfolios.items@;
        self.portfolios.debit(supplier, o.property_id, o.token_amount);
        let ghost p1 = self.portfolios.items@;
        self.portfolios.credit(recipient, o.property_id, o.token_amount, now);
        proof {
            let p2 = self.portfolios.items@;
            let pid = o.property_id;
            let amt = o.token_amount;
            assert(p0 == old(self).portfolios.items@);
            assert forall|x: u64, y: u64| !((x == recipient || x == supplier) && y
                == o.property_id) implies #[trigger] spec_holding_amount(p2, x, y)
                == spec_holding_amount(p0, x, y) by {
                assert(spec_holding_amount(p1, x, y) == spec_holding_amount(p0, x, y));
            }
            if recipient != supplier {
                assert(spec_holding_amount(p1, recipient, o.property_id) == spec_holding_amount(
                    p0,
                    recipient,
                    o.property_id,
                ));
                assert(spec_holding_amount(p2, supplier, o.property_id) == spec_holding_amount(
                    p1,
                    supplier,
                    o.property_id,
                ));
            }
            // the portfolio store, value by value, across the two writes
            assert forall|x: u64| x != recipient implies #[trigger] has_portfolio(
                self.portfolios.items@,
                x,
            ) == has_portfolio(old(self).portfolios.items@, x) by {
                if x != supplier {
                    assert(has_portfolio(p1, x) == has_portfolio(p0, x));
                } else {
                    if has_portfolio(p0, x) {
                        let w = portfolio_index(p0, x);
                        assert(0 <= w < p0.len() && p0[w].owner == x);
                        assert(p1[w].owner == x);
                        assert(has_portfolio(p1, x));
                    }
                    if has_portfolio(p1, x) {
                        let w = portfolio_index(p1, x);
                        assert(0 <= w < p1.len() && p1[w].owner == x);
                        assert(p0[w].owner == x);
                        assert(has_portfolio(p0, x));
                    }
                }
                assert(has_portfolio(p2, x) == has_portfolio(p1, x));
            }
            assert forall|x: u64| x != recipient && x != supplier && has_portfolio(
                old(self).portfolios.items@,
                x,
            ) implies #[trigger] portfolio_at(self.portfolios.items@, x) == portfolio_at(
                old(self).portfolios.items@,
                x,
            ) by {
                assert(has_portfolio(p1, x) == has_portfolio(p0, x));
                assert(portfolio_at(p1, x) == portfolio_at(p0, x));
                assert(portfolio_at(p2, x) == portfolio_at(p1, x));
            }
            // how the touched portfolios relate to the state before
            if has_portfolio(p0, recipient) {
                if recipient != supplier {
                    assert(has_portfolio(p1, recipient) == has_portfolio(p0, recipient));
                    assert(portfolio_at(p1, recipient) == portfolio_at(p0, recipient));
                }
                assert(has_portfolio(p1, recipient));
                assert(same_aggregates(portfolio_at(p0, recipient), portfolio_at(p1, recipient)));
                assert(same_aggregates(portfolio_at(p1, recipient), portfolio_at(p2, recipient)));
            } else {
                if recipient != supplier {
                    assert(has_portfolio(p1, recipient) == has_portfolio(p0, recipient));
                }
                assert(!has_portfolio(p1, recipient));
                assert(portfolio_at(p2, recipient).total_value == 0);
                assert(portfolio_at(p2, recipient).total_tokens == 0);
                assert(portfolio_at(p2, recipient).total_dividends_received == 0);
                assert(has_portfolio(p2, recipient));
                assert(portfolio_at(p2, recipient).owner == recipient);
            }
            if recipient != supplier && has_portfolio(p0, supplier) {
                assert(same_aggregates(portfolio_at(p0, supplier), portfolio_at(p1, supplier)));
                assert(has_portfolio(p1, supplier));
                assert(portfolio_at(p2, supplier) == portfolio_at(p1, supplier));
            }
            // the recipient's line for the property, field by field
            if has_portfolio(p0, recipient) && has_line(
                portfolio_at(p0, recipient).properties@,
                pid,
            ) {
                if recipient != supplier {
                    assert(portfolio_at(p1, recipient) == portfolio_at(p0, recipient));
                } else {
                    assert(has_line(portfolio_at(p1, recipient).properties@, pid));
                    assert(line_at(portfolio_at(p1, recipient).properties@, pid)
                        == (PortfolioProperty {
                        token_amount: sat_sub(
                            line_at(portfolio_at(p0, recipient).properties@, pid).token_amount
                                as int,
                            amt as int,
                        ) as u64,
                        ..line_at(portfolio_at(p0, recipient).properties@, pid)
                    }));
                }
                assert(line_at(portfolio_at(p2, recipient).properties@, pid)
                    == (PortfolioProperty {
                    token_amount: (line_at(
                        portfolio_at(p1, recipient).properties@,
                        pid,
                    ).token_amount + amt) as u64,
                    ..line_at(portfolio_at(p1, recipient).properties@, pid)
                }));
            } else {
                if recipient == supplier {
                    assert(p1 == p0);
                } else {
                    assert(has_portfolio(p1, recipient) == has_portfolio(p0, recipient));
                    if has_portfolio(p0, recipient) {
                        assert(portfolio_at(p1, recipient) == portfolio_at(p0, recipient));
                    }
                }
                assert(line_at(portfolio_at(p2, recipient).properties@, pid) == spec_new_holding(
                    pid,
                    amt,
                    now,
                ));
            }
            // other lines of the touched portfolios keep their values
            assert forall|y: u64| y != pid && has_portfolio(old(self).portfolios.items@, recipient)
                && has_line(
                portfolio_at(old(self).portfolios.items@, recipient).properties@,
                y,
            ) implies #[trigger] line_at(
                portfolio_at(self.portfolios.items@, recipient).properties@,
                y,
            ) == line_at(
                portfolio_at(old(self).portfolios.items@, recipient).properties@,
                y,
            ) by {
                if recipient != supplier {
                    assert(portfolio_at(p1, recipient) == portfolio_at(p0, recipient));
                } else {
                    assert(has_line(portfolio_at(p1, recipient).properties@, y) == has_line(
                        portfolio_at(p0, recipient).properties@,
                        y,
                    ));
                    assert(line_at(portfolio_at(p1, recipient).properties@, y) == line_at(
                        portfolio_at(p0, recipient).properties@,
                        y,
                    ));
                }
                assert(has_portfolio(p1, recipient));
                assert(has_line(portfolio_at(p1, recipient).properties@, y));
                assert(line_at(portfolio_at(p2, recipient).properties@, y) == line_at(
                    portfolio_at(p1, recipient).properties@,
                    y,
                ));
            }
            assert forall|y: u64| recipient != supplier && y != pid && has_portfolio(
                old(self).portfolios.items@,
                supplier,
            ) && has_line(
                portfolio_at(old(self).portfolios.items@, supplier).properties@,
                y,
            ) implies #[trigger] line_at(
                portfolio_at(self.portfolios.items@, supplier).properties@,
                y,
            ) == line_at(
                portfolio_at(old(self).portfolios.items@, supplier).properties@,
                y,
            ) by {
                assert(has_line(portfolio_at(p1, supplier).properties@, y) == has_line(
                    portfolio_at(p0, supplier).properties@,
                    y,
                ));
                assert(line_at(portfolio_at(p1, supplier).properties@, y) == line_at(
                    portfolio_at(p0, supplier).properties@,
                    y,
                ));
                assert(has_portfolio(p1, supplier));
                assert(portfolio_at(p2, supplier) == portfolio_at(p1, supplier));
            }
        }
        let filled = TokenOrder { status: OrderStatus::Filled, buyer: Some(recipient), ..o };
        let ghost b0 = self.book.orders@;
        self.book.set_at(idx, filled);
        proof {
            let b1 = self.book.orders@;
            assert forall|i: int, j: int| 0 <= i < j < b1.len() implies #[trigger] b1[i].id
                != #[trigger] b1[j].id by {
                assert(b0[i].id != b0[j].id);
            }
        }
        self.market.record_trade(o.property_id, o.price_per_token, o.token_amount, now);
        Ok(filled)
    }

    /// Law: executing an order whose expiry instant has passed always
    /// fails with `Expired`, and `execute_order`'s contract then leaves
    /// the stored status `Expired` — at once when it was still `Active`
    /// (the lazy materialization), with no further change when it was
    /// already stored `Expired`, so a repeated call fails the same way.
    /// An order that reached `Filled` or `Cancelled` before expiring is
    /// answered as `InvalidState` instead, so those inputs stand outside
    /// this law.
    pub proof fn lemma_expired_order_always_expired(
        self,
        caller: Option<u64>,
        kyc: Option<KycStatus>,
        now: u64,
        order_id: u64,
    )
        requires
            self.wf(),
            gate_error(caller, kyc) is None,
            has_order(self.book.orders@, order_id),
            order_at(self.book.orders@, order_id).expires_at < now,
            order_at(self.book.orders@, order_id).status == OrderStatus::Active || order_at(
                self.book.orders@,
                order_id,
            ).status == OrderStatus::Expired,
        ensures
            self.spec_execute_error(caller, kyc, now, order_id) == Some(Error::Expired),
            self.spec_expires_now(caller, kyc, now, order_id) <==> order_at(
                self.book.orders@,
                order_id,
            ).status == OrderStatus::Active,
    {
    }

    /// Law: executing an order that reached `Filled` or `Cancelled`
    /// always fails with `InvalidState`, and `execute_order`'s contract
    /// then leaves every store untouched.
    pub proof fn lemma_closed_order_invalid_state(
        self,
        caller: Option<u64>,
        kyc: Option<KycStatus>,
        now: u64,
        order_id: u64,
    )
        requires
            self.wf(),
            gate_error(caller, kyc) is None,
            has_order(self.book.orders@, order_id),
            order_at(self.book.orders@, order_id).status == OrderStatus::Filled || order_at(
                self.book.orders@,
                order_id,
            ).status == OrderStatus::Cancelled,
        ensures
            self.spec_execute_error(caller, kyc, now, order_id) == Some(
                Error::InvalidState(
                    EntityState::Order(OrderStatus::Active),
                    EntityState::Order(order_at(self.book.orders@, order_id).status),
                ),
            ),
            !self.spec_expires_now(caller, kyc, now, order_id),
    {
    }

    /// Law: a sell order over more tokens than the seller's balance is
    /// always refused with `InsufficientBalance`, and `create_token_order`'s
    /// contract then leaves the order book without a new order.
    pub proof fn lemma_oversized_sell_refused(
        self,
        caller: Option<u64>,
        kyc: Option<KycStatus>,
        now: u64,
        p: CreateOrderPayload,
    )
        requires
            self.wf(),
            gate_error(caller, kyc) is None,
            has_property(self.registry.properties@, p.property_id),
            p.order_type == OrderType::Sell,
            spec_balance(self.ledger.records@, caller.unwrap(), p.property_id) < p.token_amount,
        ensures
            self.spec_place_error(caller, kyc, now, p) == Some(Error::InsufficientBalance),
    {
    }
}

} // verus!
