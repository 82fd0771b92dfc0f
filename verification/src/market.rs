//! The market data tracker: one rolling snapshot per property, created
//! lazily on the first executed trade and overwritten on each later one.
//! The volume accumulator only ever grows.

use vstd::prelude::*;

use crate::types::MarketData;

verus! {

/// No two snapshots speak of the same property.
pub open spec fn snapshot_ids_unique(s: Seq<MarketData>) -> bool {
    forall|i: int, j: int| 0 <= i < j < s.len() ==> #[trigger] s[i].property_id != #[trigger] s[j].property_id
}

/// Is a snapshot stored for this property?
pub open spec fn has_snapshot(s: Seq<MarketData>, property_id: u64) -> bool {
    exists|i: int| 0 <= i < s.len() && s[i].property_id == property_id
}

/// The position of the property's snapshot.
pub open spec fn snapshot_index(s: Seq<MarketData>, property_id: u64) -> int {
    choose|i: int| 0 <= i < s.len() && s[i].property_id == property_id
}

/// The property's snapshot.
pub open spec fn snapshot_at(s: Seq<MarketData>, property_id: u64) -> MarketData {
    s[snapshot_index(s, property_id)]
}

/// The accumulated trade volume of the property; zero before any trade.
pub open spec fn spec_volume(s: Seq<MarketData>, property_id: u64) -> int {
    if has_snapshot(s, property_id) {
        snapshot_at(s, property_id).trading_volume_24h as int
    } else {
        0
    }
}

/// The store after one trade of `volume` tokens at `price` is recorded:
/// the price is overwritten, the volume added, the instant remembered; a
/// missing snapshot is created first with zeroed accumulators.
pub open spec fn spec_record_trade(
    s: Seq<MarketData>,
    property_id: u64,
    price: u64,
    volume: u64,
    now: u64,
) -> Seq<MarketData> {
    if has_snapshot(s, property_id) {
        let i = snapshot_index(s, property_id);
        let m = s[i];
        s.update(
            i,
            MarketData {
                current_price: price,
                trading_volume_24h: (m.trading_volume_24h + volume) as u64,
                last_updated: now,
                ..m
            },
        )
    } else {
        s.push(
            MarketData {
                property_id,
                current_price: price,
                trading_volume_24h: volume,
                market_cap: 0,
                last_updated: now,
            },
        )
    }
}

/// Stores the per-property snapshots.
pub struct MarketTracker {
    pub snapshots: Vec<MarketData>,
}

impl MarketTracker {
    pub fn new() -> (t: Self)
        ensures
            t.snapshots@ =~= Seq::<MarketData>::empty(),
    {
        MarketTracker { snapshots: Vec::new() }
    }

    /// The position of the property's snapshot, if one is stored.
    pub fn find_snapshot(&self, property_id: u64) -> (r: Option<usize>)
        requires
            snapshot_ids_unique(self.snapshots@),
        ensures
            match r {
                Some(i) => i < self.snapshots@.len() && self.snapshots@[i as int].property_id
                    == property_id && i as int == snapshot_index(self.snapshots@, property_id),
                None => !has_snapshot(self.snapshots@, property_id),
            },
    {
        let n: usize = self.snapshots.len();
        let mut i: usize = 0;
        while i < n
            invariant
                0 <= i <= n,
                n == self.snapshots@.len(),
                snapshot_ids_unique(self.snapshots@),
                forall|j: int| 0 <= j < i ==> self.snapshots@[j].property_id != property_id,
            decreases n - i,
        {
            if self.snapshots[i].property_id == property_id {
                proof {
                    let w = snapshot_index(self.snapshots@, property_id);
                    assert(0 <= w < self.snapshots@.len() && self.snapshots@[w].property_id
                        == property_id);
                    if w != i as int {
                        let a = if w < i as int { w } else { i as int };
                        let b = if w < i as int { i as int } else { w };
                        assert(self.snapshots@[a].property_id != self.snapshots@[b].property_id);
                        assert(false);
                    }
                }
                return Some(i);
            }
            i = i + 1;
        }
        None
    }

    /// The property's snapshot, if any trade was recorded for it.
    pub fn snapshot_of(&self, property_id: u64) -> (r: Option<MarketData>)
        requires
            snapshot_ids_unique(self.snapshots@),
        ensures
            r == if has_snapshot(self.snapshots@, property_id) {
                Some(snapshot_at(self.snapshots@, property_id))
            } else {
                None::<MarketData>
            },
    {
        match self.find_snapshot(property_id) {
            Some(i) => Some(self.snapshots[i]),
            None => None,
        }
    }

    /// Records one executed trade.
    pub fn record_trade(&mut self, property_id: u64, price: u64, volume: u64, now: u64)
        requires
            snapshot_ids_unique(old(self).snapshots@),
            spec_volume(old(self).snapshots@, property_id) + volume <= u64::MAX as int,
        ensures
            final(self).snapshots@ == spec_record_trade(
                old(self).snapshots@,
                property_id,
                price,
                volume,
                now,
            ),
            snapshot_ids_unique(final(self).snapshots@),
    {
        match self.find_snapshot(property_id) {
            Some(i) => {
                let m = self.snapshots[i];
                let updated = MarketData {
                    current_price: price,
                    trading_volume_24h: m.trading_volume_24h + volume,
                    last_updated: now,
                    ..m
                };
                self.snapshots.remove(i);
                self.snapshots.insert(i, updated);
                proof {
                    assert(self.snapshots@ =~= old(self).snapshots@.update(
                        i as int,
                        updated,
                    ));
                }
            },
            None => {
                self.snapshots.push(
                    MarketData {
                        property_id,
                        current_price: price,
                        trading_volume_24h: volume,
                        market_cap: 0,
                        last_updated: now,
                    },
                );
            },
        }
    }
}

} // verus!
