//! The asset registry read model the engine works against: listed
//! properties keyed by identifier, with the supply totals and the unit
//! price the engine validates orders and purchases against.

use vstd::prelude::*;

use crate::seqtools::lemma_take_all;
use crate::types::Property;

verus! {

/// No two listings share an identifier.
pub open spec fn property_ids_unique(s: Seq<Property>) -> bool {
    forall|i: int, j: int| 0 <= i < j < s.len() ==> #[trigger] s[i].id != #[trigger] s[j].id
}

/// Is a property listed under this identifier?
pub open spec fn has_property(s: Seq<Property>, id: u64) -> bool {
    exists|i: int| 0 <= i < s.len() && s[i].id == id
}

/// The position of the listing with the identifier.
pub open spec fn property_index(s: Seq<Property>, id: u64) -> int {
    choose|i: int| 0 <= i < s.len() && s[i].id == id
}

/// The listing stored under the identifier.
pub open spec fn property_at(s: Seq<Property>, id: u64) -> Property {
    s[property_index(s, id)]
}

/// Stores the listings.
pub struct PropertyRegistry {
    pub properties: Vec<Property>,
}

impl PropertyRegistry {
    pub fn new() -> (r: Self)
        ensures
            r.properties@ =~= Seq::<Property>::empty(),
    {
        PropertyRegistry { properties: Vec::new() }
    }

    /// The listing under the identifier, if there is one.
    pub fn get_property(&self, id: u64) -> (r: Option<Property>)
        requires
            property_ids_unique(self.properties@),
        ensures
            r == if has_property(self.properties@, id) {
                Some(property_at(self.properties@, id))
            } else {
                None::<Property>
            },
    {
        let n: usize = self.properties.len();
        let mut i: usize = 0;
        while i < n
            invariant
                0 <= i <= n,
                n == self.properties@.len(),
                property_ids_unique(self.properties@),
                forall|j: int| 0 <= j < i ==> self.properties@[j].id != id,
            decreases n - i,
        {
            if self.properties[i].id == id {
                proof {
                    let w = property_index(self.properties@, id);
                    assert(0 <= w < self.properties@.len() && self.properties@[w].id == id);
                    if w != i as int {
                        let a = if w < i as int {
                            w
                        } else {
                            i as int
                        };
                        let b = if w < i as int {
                            i as int
                        } else {
                            w
                        };
                        assert(self.properties@[a].id != self.properties@[b].id);
                        assert(false);
                    }
                }
                return Some(self.properties[i]);
            }
            i = i + 1;
        }
        None
    }

    /// Lists a new property.
    pub fn push_property(&mut self, p: Property)
        ensures
            final(self).properties@ == old(self).properties@.push(p),
    {
        self.properties.push(p);
    }

    /// Every listing, in registry order.
    pub fn all_properties(&self) -> (out: Vec<Property>)
        ensures
            out@ == self.properties@,
    {
        let n: usize = self.properties.len();
        let mut out: Vec<Property> = Vec::new();
        let mut i: usize = 0;
        while i < n
            invariant
                0 <= i <= n,
                n == self.properties@.len(),
                out@ == self.properties@.take(i as int),
            decreases n - i,
        {
            let p = self.properties[i];
            proof {
                assert(self.properties@.take(i as int + 1) =~= self.properties@.take(
                    i as int,
                ).push(p));
            }
            out.push(p);
            i = i + 1;
        }
        proof {
            lemma_take_all(self.properties@);
        }
        out
    }
}

} // verus!
