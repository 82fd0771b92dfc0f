//! The order book: orders keyed by identifier, looked up, appended and
//! overwritten in place. Identifier uniqueness is the book's invariant;
//! the lifecycle rules live in the engine.

use vstd::prelude::*;

use crate::seqtools::{lemma_filter_one_step, lemma_take_all};
use crate::types::{OrderStatus, TokenOrder};

verus! {

/// No two orders share an identifier.
pub open spec fn order_ids_unique(s: Seq<TokenOrder>) -> bool {
    forall|i: int, j: int| 0 <= i < j < s.len() ==> #[trigger] s[i].id != #[trigger] s[j].id
}

/// Is some order stored under this identifier?
pub open spec fn has_order(s: Seq<TokenOrder>, id: u64) -> bool {
    exists|i: int| 0 <= i < s.len() && s[i].id == id
}

/// The position of the order stored under the identifier.
pub open spec fn order_index(s: Seq<TokenOrder>, id: u64) -> int {
    choose|i: int| 0 <= i < s.len() && s[i].id == id
}

/// The order stored under the identifier.
pub open spec fn order_at(s: Seq<TokenOrder>, id: u64) -> TokenOrder {
    s[order_index(s, id)]
}

/// Stores the orders; owns their lifecycle.
pub struct OrderBook {
    pub orders: Vec<TokenOrder>,
}

impl OrderBook {
    pub fn new() -> (b: Self)
        ensures
            b.orders@ =~= Seq::<TokenOrder>::empty(),
    {
        OrderBook { orders: Vec::new() }
    }

    /// The position of the order with this identifier, if it is stored.
    pub fn find_order(&self, id: u64) -> (r: Option<usize>)
        requires
            order_ids_unique(self.orders@),
        ensures
            match r {
                Some(i) => i < self.orders@.len() && self.orders@[i as int].id == id && i as int
                    == order_index(self.orders@, id),
                None => !has_order(self.orders@, id),
            },
    {
        let n: usize = self.orders.len();
        let mut i: usize = 0;
        while i < n
            invariant
                0 <= i <= n,
                n == self.orders@.len(),
                order_ids_unique(self.orders@),
                forall|j: int| 0 <= j < i ==> self.orders@[j].id != id,
            decreases n - i,
        {
            if self.orders[i].id == id {
                proof {
                    let w = order_index(self.orders@, id);
                    assert(0 <= w < self.orders@.len() && self.orders@[w].id == id);
                    if w != i as int {
                        let a = if w < i as int { w } else { i as int };
                        let b = if w < i as int { i as int } else { w };
                        assert(self.orders@[a].id != self.orders@[b].id);
                        assert(false);
                    }
                }
                return Some(i);
            }
            i = i + 1;
        }
        None
    }

    /// Appends a new order.
    pub fn push_order(&mut self, o: TokenOrder)
        ensures
            final(self).orders@ == old(self).orders@.push(o),
    {
        self.orders.push(o);
    }

    /// Overwrites the order at a position, as storing under its key again.
    pub fn set_at(&mut self, i: usize, o: TokenOrder)
        requires
            i < old(self).orders@.len(),
        ensures
            final(self).orders@ == old(self).orders@.update(i as int, o),
    {
        self.orders.remove(i);
        self.orders.insert(i, o);
        proof {
            assert(self.orders@ =~= old(self).orders@.update(i as int, o));
        }
    }

    /// The still-open offers for one property: stored as `Active` and not
    /// yet past their expiry instant. An order whose expiry has passed but
    /// whose stored status was not materialized yet is filtered out here,
    /// never mutated.
    pub fn active_orders(&self, property_id: u64, now: u64) -> (out: Vec<TokenOrder>)
        ensures
            out@ == self.orders@.filter(
                |o: TokenOrder|
                    o.property_id == property_id && o.status == OrderStatus::Active
                        && o.expires_at > now,
            ),
    {
        let ghost keep = |o: TokenOrder|
            o.property_id == property_id && o.status == OrderStatus::Active && o.expires_at > now;
        let n: usize = self.orders.len();
        let mut out: Vec<TokenOrder> = Vec::new();
        let mut i: usize = 0;
        proof {
            reveal(Seq::filter);
        }
        while i < n
            invariant
                0 <= i <= n,
                n == self.orders@.len(),
                out@ == self.orders@.take(i as int).filter(keep),
                keep == (|o: TokenOrder|
                    o.property_id == property_id && o.status == OrderStatus::Active
                        && o.expires_at > now),
            decreases n - i,
        {
            let o = self.orders[i];
            proof {
                lemma_filter_one_step(self.orders@, keep, i as int);
            }
            if o.property_id == property_id && (matches!(o.status, OrderStatus::Active))
                && o.expires_at > now {
                out.push(o);
            }
            i = i + 1;
        }
        proof {
            lemma_take_all(self.orders@);
        }
        out
    }

    /// Every order the holder stands in, as seller or as buyer.
    pub fn orders_of(&self, user: u64) -> (out: Vec<TokenOrder>)
        ensures
            out@ == self.orders@.filter(
                |o: TokenOrder| o.seller == user || o.buyer == Some(user),
            ),
    {
        let ghost keep = |o: TokenOrder| o.seller == user || o.buyer == Some(user);
        let n: usize = self.orders.len();
        let mut out: Vec<TokenOrder> = Vec::new();
        let mut i: usize = 0;
        proof {
            reveal(Seq::filter);
        }
        while i < n
            invariant
                0 <= i <= n,
                n == self.orders@.len(),
                out@ == self.orders@.take(i as int).filter(keep),
                keep == (|o: TokenOrder| o.seller == user || o.buyer == Some(user)),
            decreases n - i,
        {
            let o = self.orders[i];
            proof {
                lemma_filter_one_step(self.orders@, keep, i as int);
            }
            let is_buyer: bool = match o.buyer {
                Some(b) => b == user,
                None => false,
            };
            if o.seller == user || is_buyer {
                out.push(o);
            }
            i = i + 1;
        }
        proof {
            lemma_take_all(self.orders@);
        }
        out
    }
}

} // verus!
