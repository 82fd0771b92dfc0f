//! The portfolio projector: one aggregated view per holder, updated
//! incrementally after each trade. A trade debits the sending holder's
//! line for the property (floored at zero, never failing) and credits the
//! receiving holder's line, creating the portfolio or the line lazily.

use vstd::prelude::*;

use crate::types::{Portfolio, PortfolioProperty};

verus! {

/// No two portfolios share an owner.
pub open spec fn owners_unique(s: Seq<Portfolio>) -> bool {
    forall|i: int, j: int|
        0 <= i < j < s.len() ==> #[trigger] s[i].owner != #[trigger] s[j].owner
}

/// Is a portfolio stored for this owner?
pub open spec fn has_portfolio(s: Seq<Portfolio>, owner: u64) -> bool {
    exists|i: int| 0 <= i < s.len() && s[i].owner == owner
}

/// The position of the owner's portfolio.
pub open spec fn portfolio_index(s: Seq<Portfolio>, owner: u64) -> int {
    choose|i: int| 0 <= i < s.len() && s[i].owner == owner
}

/// The owner's portfolio.
pub open spec fn portfolio_at(s: Seq<Portfolio>, owner: u64) -> Portfolio {
    s[portfolio_index(s, owner)]
}

/// No two lines of one portfolio speak of the same property.
pub open spec fn line_ids_unique(ls: Seq<PortfolioProperty>) -> bool {
    forall|i: int, j: int|
        0 <= i < j < ls.len() ==> #[trigger] ls[i].property_id != #[trigger] ls[j].property_id
}

/// Does the portfolio carry a line for this property?
pub open spec fn has_line(ls: Seq<PortfolioProperty>, property_id: u64) -> bool {
    exists|i: int| 0 <= i < ls.len() && ls[i].property_id == property_id
}

/// The position of the property's line.
pub open spec fn line_index(ls: Seq<PortfolioProperty>, property_id: u64) -> int {
    choose|i: int| 0 <= i < ls.len() && ls[i].property_id == property_id
}

/// The property's line.
pub open spec fn line_at(ls: Seq<PortfolioProperty>, property_id: u64) -> PortfolioProperty {
    ls[line_index(ls, property_id)]
}

/// Owners unique, and every portfolio's lines unique per property.
pub open spec fn wf_portfolios(s: Seq<Portfolio>) -> bool {
    owners_unique(s) && (forall|i: int|
        0 <= i < s.len() ==> line_ids_unique(#[trigger] s[i].properties@))
}

/// The tokens the holder's line carries for the property; zero when no
/// portfolio or no line exists.
pub open spec fn spec_holding_amount(s: Seq<Portfolio>, owner: u64, property_id: u64) -> int {
    if has_portfolio(s, owner) && has_line(portfolio_at(s, owner).properties@, property_id) {
        line_at(portfolio_at(s, owner).properties@, property_id).token_amount as int
    } else {
        0
    }
}

/// Subtraction floored at zero.
pub open spec fn sat_sub(a: int, b: int) -> int {
    if a >= b {
        a - b
    } else {
        0
    }
}

/// A fresh line, aggregates zeroed until separately recomputed.
pub open spec fn spec_new_holding(property_id: u64, amount: u64, now: u64) -> PortfolioProperty {
    PortfolioProperty {
        property_id,
        token_amount: amount,
        initial_investment: 0,
        current_value: 0,
        dividends_received: 0,
        purchase_date: now,
    }
}

/// Do two portfolios agree on their owner and every aggregate field?
pub open spec fn same_aggregates(p: Portfolio, q: Portfolio) -> bool {
    q.owner == p.owner && q.total_value == p.total_value && q.total_tokens == p.total_tokens
        && q.total_dividends_received == p.total_dividends_received
}

/// Is `q` the portfolio `p` with its lines replaced by `ls` and every
/// other field kept?
pub open spec fn with_lines(p: Portfolio, q: Portfolio, ls: Seq<PortfolioProperty>) -> bool {
    same_aggregates(p, q) && q.properties@ == ls
}

/// A position holding the owner is the position the lookup answers with.
pub proof fn lemma_portfolio_lookup(s: Seq<Portfolio>, owner: u64, i: int)
    requires
        owners_unique(s),
        0 <= i < s.len(),
        s[i].owner == owner,
    ensures
        has_portfolio(s, owner),
        portfolio_index(s, owner) == i,
        portfolio_at(s, owner) == s[i],
{
    assert(has_portfolio(s, owner));
    let w = portfolio_index(s, owner);
    assert(0 <= w < s.len() && s[w].owner == owner);
    if w != i {
        let a = if w < i {
            w
        } else {
            i
        };
        let b = if w < i {
            i
        } else {
            w
        };
        assert(s[a].owner != s[b].owner);
        assert(false);
    }
}

/// A position holding the property is the position the lookup answers with.
pub proof fn lemma_line_lookup(ls: Seq<PortfolioProperty>, property_id: u64, j: int)
    requires
        line_ids_unique(ls),
        0 <= j < ls.len(),
        ls[j].property_id == property_id,
    ensures
        has_line(ls, property_id),
        line_index(ls, property_id) == j,
        line_at(ls, property_id) == ls[j],
{
    assert(has_line(ls, property_id));
    let w = line_index(ls, property_id);
    assert(0 <= w < ls.len() && ls[w].property_id == property_id);
    if w != j {
        let a = if w < j {
            w
        } else {
            j
        };
        let b = if w < j {
            j
        } else {
            w
        };
        assert(ls[a].property_id != ls[b].property_id);
        assert(false);
    }
}

/// Rewriting one portfolio without changing its owner leaves every other
/// owner's lookup as it was.
pub proof fn lemma_other_owners_keep(s: Seq<Portfolio>, t: Seq<Portfolio>, i: int, x: u64)
    requires
        owners_unique(s),
        owners_unique(t),
        s.len() == t.len(),
        0 <= i < s.len(),
        forall|k: int| 0 <= k < s.len() && k != i ==> t[k] == s[k],
        t[i].owner == s[i].owner,
        x != s[i].owner,
    ensures
        has_portfolio(t, x) == has_portfolio(s, x),
        has_portfolio(s, x) ==> portfolio_at(t, x) == portfolio_at(s, x),
{
    if has_portfolio(s, x) {
        let w = portfolio_index(s, x);
        assert(0 <= w < s.len() && s[w].owner == x);
        assert(w != i);
        assert(t[w].owner == x);
        lemma_portfolio_lookup(t, x, w);
    }
    if has_portfolio(t, x) {
        let w = portfolio_index(t, x);
        assert(0 <= w < t.len() && t[w].owner == x);
        assert(w != i);
        assert(s[w].owner == x);
        lemma_portfolio_lookup(s, x, w);
    }
}

/// Appending a portfolio for a new owner leaves every other owner's
/// lookup as it was.
pub proof fn lemma_push_owner_keeps(s: Seq<Portfolio>, p: Portfolio, x: u64)
    requires
        owners_unique(s),
        x != p.owner,
    ensures
        has_portfolio(s.push(p), x) == has_portfolio(s, x),
        has_portfolio(s, x) ==> portfolio_at(s.push(p), x) == portfolio_at(s, x),
{
    let t = s.push(p);
    if has_portfolio(s, x) {
        let w = portfolio_index(s, x);
        assert(0 <= w < s.len() && s[w].owner == x);
        assert(t[w].owner == x);
        if owners_unique(t) {
            lemma_portfolio_lookup(t, x, w);
        } else {
            let w2 = portfolio_index(t, x);
            assert(0 <= w2 < t.len() && t[w2].owner == x);
            assert(w2 != s.len() as int);
            assert(has_portfolio(t, x));
        }
    }
    if has_portfolio(t, x) {
        let w = portfolio_index(t, x);
        assert(0 <= w < t.len() && t[w].owner == x);
        assert(w != s.len() as int);
        assert(s[w].owner == x);
        assert(has_portfolio(s, x));
    }
}

/// Rewriting one line without changing its property leaves every other
/// property's lookup as it was.
pub proof fn lemma_other_lines_keep(
    ls: Seq<PortfolioProperty>,
    ms: Seq<PortfolioProperty>,
    j: int,
    y: u64,
)
    requires
        line_ids_unique(ls),
        line_ids_unique(ms),
        ls.len() == ms.len(),
        0 <= j < ls.len(),
        forall|k: int| 0 <= k < ls.len() && k != j ==> ms[k] == ls[k],
        ms[j].property_id == ls[j].property_id,
        y != ls[j].property_id,
    ensures
        has_line(ms, y) == has_line(ls, y),
        has_line(ls, y) ==> line_at(ms, y) == line_at(ls, y),
{
    if has_line(ls, y) {
        let w = line_index(ls, y);
        assert(0 <= w < ls.len() && ls[w].property_id == y);
        assert(w != j);
        assert(ms[w].property_id == y);
        lemma_line_lookup(ms, y, w);
    }
    if has_line(ms, y) {
        let w = line_index(ms, y);
        assert(0 <= w < ms.len() && ms[w].property_id == y);
        assert(w != j);
        assert(ls[w].property_id == y);
        lemma_line_lookup(ls, y, w);
    }
}

/// A line for a property not yet carried can be appended without
/// breaking uniqueness.
pub proof fn lemma_push_line_unique(ls: Seq<PortfolioProperty>, h: PortfolioProperty)
    requires
        line_ids_unique(ls),
        !has_line(ls, h.property_id),
    ensures
        line_ids_unique(ls.push(h)),
{
    let ms = ls.push(h);
    assert forall|i: int, j: int| 0 <= i < j < ms.len() implies #[trigger] ms[i].property_id
        != #[trigger] ms[j].property_id by {
        if j == ls.len() as int {
            assert(ms[i] == ls[i]);
            if ms[i].property_id == h.property_id {
                assert(has_line(ls, h.property_id));
            }
        }
    }
}

/// Appending a line for a new property leaves every other property's
/// lookup as it was.
pub proof fn lemma_push_line_keeps(ls: Seq<PortfolioProperty>, h: PortfolioProperty, y: u64)
    requires
        line_ids_unique(ls),
        y != h.property_id,
        !has_line(ls, h.property_id),
    ensures
        line_ids_unique(ls.push(h)),
        has_line(ls.push(h), y) == has_line(ls, y),
        has_line(ls, y) ==> line_at(ls.push(h), y) == line_at(ls, y),
{
    let ms = ls.push(h);
    lemma_push_line_unique(ls, h);
    if has_line(ls, y) {
        let w = line_index(ls, y);
        assert(0 <= w < ls.len() && ls[w].property_id == y);
        assert(ms[w].property_id == y);
        lemma_line_lookup(ms, y, w);
    }
    if has_line(ms, y) {
        let w = line_index(ms, y);
        assert(0 <= w < ms.len() && ms[w].property_id == y);
        assert(w != ls.len() as int);
        assert(ls[w].property_id == y);
        assert(has_line(ls, y));
    }
}

/// The position of the property's line, if the portfolio carries one.
fn find_line(ls: &Vec<PortfolioProperty>, property_id: u64) -> (r: Option<usize>)
    requires
        line_ids_unique(ls@),
    ensures
        match r {
            Some(j) => j < ls@.len() && ls@[j as int].property_id == property_id && j as int
                == line_index(ls@, property_id),
            None => !has_line(ls@, property_id),
        },
{
    let n: usize = ls.len();
    let mut i: usize = 0;
    while i < n
        invariant
            0 <= i <= n,
            n == ls@.len(),
            line_ids_unique(ls@),
            forall|j: int| 0 <= j < i ==> ls@[j].property_id != property_id,
        decreases n - i,
    {
        if ls[i].property_id == property_id {
            proof {
                lemma_line_lookup(ls@, property_id, i as int);
            }
            return Some(i);
        }
        i = i + 1;
    }
    None
}

/// Stores the per-holder portfolios.
pub struct PortfolioStore {
    pub items: Vec<Portfolio>,
}

impl PortfolioStore {
    pub fn new() -> (s: Self)
        ensures
            s.items@ =~= Seq::<Portfolio>::empty(),
            wf_portfolios(s.items@),
    {
        PortfolioStore { items: Vec::new() }
    }

    /// The position of the owner's portfolio, if one is stored.
    fn find_owner(&self, owner: u64) -> (r: Option<usize>)
        requires
            owners_unique(self.items@),
        ensures
            match r {
                Some(i) => i < self.items@.len() && self.items@[i as int].owner == owner && i as int
                    == portfolio_index(self.items@, owner),
                None => !has_portfolio(self.items@, owner),
            },
    {
        let n: usize = self.items.len();
        let mut i: usize = 0;
        while i < n
            invariant
                0 <= i <= n,
                n == self.items@.len(),
                owners_unique(self.items@),
                forall|j: int| 0 <= j < i ==> self.items@[j].owner != owner,
            decreases n - i,
        {
            if self.items[i].owner == owner {
                proof {
                    lemma_portfolio_lookup(self.items@, owner, i as int);
                }
                return Some(i);
            }
            i = i + 1;
        }
        None
    }

    /// The owner's current snapshot, if one exists.
    pub fn get_portfolio(&self, owner: u64) -> (r: Option<&Portfolio>)
        requires
            owners_unique(self.items@),
        ensures
            match r {
                Some(p) => has_portfolio(self.items@, owner) && *p == portfolio_at(
                    self.items@,
                    owner,
                ),
                None => !has_portfolio(self.items@, owner),
            },
    {
        match self.find_owner(owner) {
            Some(i) => Some(&self.items[i]),
            None => None,
        }
    }

    /// The tokens the owner's line carries for the property.
    pub fn holding_of(&self, owner: u64, property_id: u64) -> (r: u64)
        requires
            wf_portfolios(self.items@),
        ensures
            r as int == spec_holding_amount(self.items@, owner, property_id),
    {
        match self.find_owner(owner) {
            Some(i) => {
                match find_line(&self.items[i].properties, property_id) {
                    Some(j) => self.items[i].properties[j].token_amount,
                    None => 0,
                }
            },
            None => 0,
        }
    }

    /// Debits the sender's line for the property, floored at zero. A
    /// missing portfolio or line absorbs the debit silently.
    pub fn debit(&mut self, from: u64, property_id: u64, amount: u64)
        requires
            wf_portfolios(old(self).items@),
        ensures
            wf_portfolios(final(self).items@),
            final(self).items@.len() == old(self).items@.len(),
            forall|k: int|
                0 <= k < old(self).items@.len() ==> final(self).items@[k].owner == old(
                    self,
                ).items@[k].owner,
            spec_holding_amount(final(self).items@, from, property_id) == sat_sub(
                spec_holding_amount(old(self).items@, from, property_id),
                amount as int,
            ),
            forall|x: u64, y: u64|
                !(x == from && y == property_id) ==> #[trigger] spec_holding_amount(
                    final(self).items@,
                    x,
                    y,
                ) == spec_holding_amount(old(self).items@, x, y),
            has_portfolio(old(self).items@, from) && has_line(
                portfolio_at(old(self).items@, from).properties@,
                property_id,
            ) ==> has_portfolio(final(self).items@, from) && has_line(
                portfolio_at(final(self).items@, from).properties@,
                property_id,
            ) && line_at(portfolio_at(final(self).items@, from).properties@, property_id)
                == (PortfolioProperty {
                token_amount: sat_sub(
                    line_at(
                        portfolio_at(old(self).items@, from).properties@,
                        property_id,
                    ).token_amount as int,
                    amount as int,
                ) as u64,
                ..line_at(portfolio_at(old(self).items@, from).properties@, property_id)
            }),
            if has_portfolio(old(self).items@, from) && has_line(
                portfolio_at(old(self).items@, from).properties@,
                property_id,
            ) {
                let i = portfolio_index(old(self).items@, from);
                let p = old(self).items@[i];
                let j = line_index(p.properties@, property_id);
                (forall|k: int|
                    0 <= k < old(self).items@.len() && k != i ==> final(self).items@[k]
                        == old(self).items@[k]) && with_lines(
                    p,
                    final(self).items@[i],
                    p.properties@.update(
                        j,
                        (PortfolioProperty {
                            token_amount: sat_sub(
                                p.properties@[j].token_amount as int,
                                amount as int,
                            ) as u64,
                            ..p.properties@[j]
                        }),
                    ),
                )
            } else {
                final(self).items@ == old(self).items@
            },
            forall|x: u64|
                x != from ==> #[trigger] has_portfolio(final(self).items@, x) == has_portfolio(
                    old(self).items@,
                    x,
                ),
            forall|x: u64|
                x != from && has_portfolio(old(self).items@, x) ==> #[trigger] portfolio_at(
                    final(self).items@,
                    x,
                ) == portfolio_at(old(self).items@, x),
            has_portfolio(old(self).items@, from) ==> has_portfolio(final(self).items@, from)
                && same_aggregates(
                portfolio_at(old(self).items@, from),
                portfolio_at(final(self).items@, from),
            ),
            forall|y: u64|
                y != property_id && has_portfolio(old(self).items@, from)
                    ==> #[trigger] has_line(portfolio_at(final(self).items@, from).properties@, y)
                    == has_line(portfolio_at(old(self).items@, from).properties@, y),
            forall|y: u64|
                y != property_id && has_portfolio(old(self).items@, from) && has_line(
                    portfolio_at(old(self).items@, from).properties@,
                    y,
                ) ==> #[trigger] line_at(portfolio_at(final(self).items@, from).properties@, y)
                    == line_at(portfolio_at(old(self).items@, from).properties@, y),
    {
        let ghost s0 = self.items@;
        match self.find_owner(from) {
            None => {
                proof {
                    assert(self.items@ =~= s0);
                    assert(self.items@ == old(self).items@);
                }
            },
            Some(i) => {
                let mut p = self.items.remove(i);
                match find_line(&p.properties, property_id) {
                    None => {
                        self.items.insert(i, p);
                        proof {
                            assert(self.items@ =~= s0);
                            assert(self.items@ == old(self).items@);
                        }
                    },
                    Some(j) => {
                        let h = p.properties[j];
                        let new_amount: u64 = if h.token_amount >= amount {
                            h.token_amount - amount
                        } else {
                            0
                        };
                        let updated = PortfolioProperty { token_amount: new_amount, ..h };
                        let ghost ls0 = p.properties@;
                        p.properties.remove(j);
                        p.properties.insert(j, updated);
                        proof {
                            assert(p.properties@ =~= ls0.update(j as int, updated));
                        }
                        let ghost p1 = p;
                        self.items.insert(i, p);
                        proof {
                            let s1 = self.items@;
                            assert(s1 =~= s0.update(i as int, p1));
                            assert(owners_unique(s1));
                            assert forall|k: int| 0 <= k < s1.len() implies line_ids_unique(
                                #[trigger] s1[k].properties@,
                            ) by {
                                if k != i as int {
                                    assert(s1[k] == s0[k]);
                                }
                            }
                            lemma_portfolio_lookup(s0, from, i as int);
                            lemma_portfolio_lookup(s1, from, i as int);
                            lemma_line_lookup(ls0, property_id, j as int);
                            lemma_line_lookup(p1.properties@, property_id, j as int);
                            assert forall|x: u64, y: u64| !(x == from && y == property_id)
                                implies #[trigger] spec_holding_amount(s1, x, y)
                                == spec_holding_amount(s0, x, y) by {
                                if x == from {
                                    lemma_other_lines_keep(
                                        ls0,
                                        p1.properties@,
                                        j as int,
                                        y,
                                    );
                                } else {
                                    lemma_other_owners_keep(s0, s1, i as int, x);
                                }
                            }
                            assert forall|x: u64| x != from implies #[trigger] has_portfolio(
                                self.items@,
                                x,
                            ) == has_portfolio(old(self).items@, x) by {
                                lemma_other_owners_keep(s0, s1, i as int, x);
                            }
                            assert forall|x: u64| x != from && has_portfolio(
                                old(self).items@,
                                x,
                            ) implies #[trigger] portfolio_at(self.items@, x) == portfolio_at(
                                old(self).items@,
                                x,
                            ) by {
                                lemma_other_owners_keep(s0, s1, i as int, x);
                            }
                            assert forall|y: u64| y != property_id && has_portfolio(
                                old(self).items@,
                                from,
                            ) implies #[trigger] has_line(
                                portfolio_at(self.items@, from).properties@,
                                y,
                            ) == has_line(portfolio_at(old(self).items@, from).properties@, y) by {
                                lemma_other_lines_keep(ls0, p1.properties@, j as int, y);
                                assert(portfolio_at(self.items@, from) == p1);
                                assert(portfolio_at(old(self).items@, from).properties@ == ls0);
                            }
                            assert forall|y: u64| y != property_id && has_portfolio(
                                old(self).items@,
                                from,
                            ) && has_line(
                                portfolio_at(old(self).items@, from).properties@,
                                y,
                            ) implies #[trigger] line_at(
                                portfolio_at(self.items@, from).properties@,
                                y,
                            ) == line_at(portfolio_at(old(self).items@, from).properties@, y) by {
                                lemma_other_lines_keep(ls0, p1.properties@, j as int, y);
                                assert(portfolio_at(self.items@, from) == p1);
                                assert(portfolio_at(old(self).items@, from).properties@ == ls0);
                            }
                        }
                    },
                }
            },
        }
    }

    /// Credits the receiver's line for the property, creating the
    /// portfolio (with zeroed aggregates) or the line lazily.
    pub fn credit(&mut self, to: u64, property_id: u64, amount: u64, now: u64)
        requires
            wf_portfolios(old(self).items@),
            spec_holding_amount(old(self).items@, to, property_id) + amount <= u64::MAX as int,
        ensures
            wf_portfolios(final(self).items@),
            has_portfolio(final(self).items@, to),
            spec_holding_amount(final(self).items@, to, property_id) == spec_holding_amount(
                old(self).items@,
                to,
                property_id,
            ) + amount,
            forall|x: u64, y: u64|
                !(x == to && y == property_id) ==> #[trigger] spec_holding_amount(
                    final(self).items@,
                    x,
                    y,
                ) == spec_holding_amount(old(self).items@, x, y),
            forall|x: u64|
                x != to ==> #[trigger] has_portfolio(final(self).items@, x) == has_portfolio(
                    old(self).items@,
                    x,
                ),
            has_portfolio(old(self).items@, to) ==> final(self).items@.len() == old(
                self,
            ).items@.len(),
            !has_portfolio(old(self).items@, to) ==> final(self).items@.len() == old(
                self,
            ).items@.len() + 1 && portfolio_at(final(self).items@, to).total_value == 0
                && portfolio_at(final(self).items@, to).total_tokens == 0 && portfolio_at(
                final(self).items@,
                to,
            ).total_dividends_received == 0,
            has_line(portfolio_at(final(self).items@, to).properties@, property_id),
            !(has_portfolio(old(self).items@, to) && has_line(
                portfolio_at(old(self).items@, to).properties@,
                property_id,
            )) ==> line_at(portfolio_at(final(self).items@, to).properties@, property_id)
                == spec_new_holding(property_id, amount, now),
            has_portfolio(old(self).items@, to) && has_line(
                portfolio_at(old(self).items@, to).properties@,
                property_id,
            ) ==> line_at(portfolio_at(final(self).items@, to).properties@, property_id)
                == (PortfolioProperty {
                token_amount: (line_at(
                    portfolio_at(old(self).items@, to).properties@,
                    property_id,
                ).token_amount + amount) as u64,
                ..line_at(portfolio_at(old(self).items@, to).properties@, property_id)
            }),
            if has_portfolio(old(self).items@, to) {
                let i = portfolio_index(old(self).items@, to);
                let p = old(self).items@[i];
                (forall|k: int|
                    0 <= k < old(self).items@.len() && k != i ==> final(self).items@[k]
                        == old(self).items@[k]) && (if has_line(p.properties@, property_id) {
                    let j = line_index(p.properties@, property_id);
                    with_lines(
                        p,
                        final(self).items@[i],
                        p.properties@.update(
                            j,
                            (PortfolioProperty {
                                token_amount: (p.properties@[j].token_amount + amount) as u64,
                                ..p.properties@[j]
                            }),
                        ),
                    )
                } else {
                    with_lines(
                        p,
                        final(self).items@[i],
                        p.properties@.push(spec_new_holding(property_id, amount, now)),
                    )
                })
            } else {
                (forall|k: int|
                    0 <= k < old(self).items@.len() ==> final(self).items@[k]
                        == old(self).items@[k]) && final(self).items@.last().owner == to
                    && final(self).items@.last().properties@ == seq![
                    spec_new_holding(property_id, amount, now),
                ]
            },
            forall|x: u64|
                x != to && has_portfolio(old(self).items@, x) ==> #[trigger] portfolio_at(
                    final(self).items@,
                    x,
                ) == portfolio_at(old(self).items@, x),
            has_portfolio(old(self).items@, to) ==> same_aggregates(
                portfolio_at(old(self).items@, to),
                portfolio_at(final(self).items@, to),
            ),
            forall|y: u64|
                y != property_id && has_portfolio(old(self).items@, to) ==> #[trigger] has_line(
                    portfolio_at(final(self).items@, to).properties@,
                    y,
                ) == has_line(portfolio_at(old(self).items@, to).properties@, y),
            forall|y: u64|
                y != property_id && has_portfolio(old(self).items@, to) && has_line(
                    portfolio_at(old(self).items@, to).properties@,
                    y,
                ) ==> #[trigger] line_at(portfolio_at(final(self).items@, to).properties@, y)
                    == line_at(portfolio_at(old(self).items@, to).properties@, y),
    {
        let ghost s0 = self.items@;
        match self.find_owner(to) {
            None => {
                let mut lines: Vec<PortfolioProperty> = Vec::new();
                lines.push(
                    PortfolioProperty {
                        property_id,
                        token_amount: amount,
                        initial_investment: 0,
                        current_value: 0,
                        dividends_received: 0,
                        purchase_date: now,
                    },
                );
                let p = Portfolio {
                    owner: to,
                    total_value: 0,
                    total_tokens: 0,
                    properties: lines,
                    total_dividends_received: 0,
                };
                self.items.push(p);
                proof {
                    let s1 = self.items@;
                    let p1 = s1[s0.len() as int];
                    assert(s1 =~= s0.push(p1));
                    assert forall|i: int, j: int| 0 <= i < j < s1.len() implies #[trigger] s1[i].owner
                        != #[trigger] s1[j].owner by {
                        if j == s0.len() as int {
                            if s1[i].owner == to {
                                assert(has_portfolio(s0, to));
                            }
                        }
                    }
                    assert forall|k: int| 0 <= k < s1.len() implies line_ids_unique(
                        #[trigger] s1[k].properties@,
                    ) by {
                        if k != s0.len() as int {
                            assert(s1[k] == s0[k]);
                        }
                    }
                    lemma_portfolio_lookup(s1, to, s0.len() as int);
                    lemma_line_lookup(p1.properties@, property_id, 0);
                    assert forall|x: u64, y: u64| !(x == to && y == property_id)
                        implies #[trigger] spec_holding_amount(s1, x, y) == spec_holding_amount(
                        s0,
                        x,
                        y,
                    ) by {
                        if x == to {
                            assert(!has_portfolio(s0, to));
                            if has_line(p1.properties@, y) {
                                let w = line_index(p1.properties@, y);
                                assert(0 <= w < p1.properties@.len());
                                assert(w == 0);
                                assert(p1.properties@[w].property_id == property_id);
                            }
                        } else {
                            lemma_push_owner_keeps(s0, p1, x);
                        }
                    }
                    assert forall|x: u64| x != to implies #[trigger] has_portfolio(s1, x)
                        == has_portfolio(s0, x) by {
                        lemma_push_owner_keeps(s0, p1, x);
                    }
                    assert forall|x: u64| x != to && has_portfolio(old(self).items@, x)
                        implies #[trigger] portfolio_at(self.items@, x) == portfolio_at(
                        old(self).items@,
                        x,
                    ) by {
                        lemma_push_owner_keeps(s0, p1, x);
                    }
                    assert(p1.properties@ =~= seq![spec_new_holding(property_id, amount, now)]);
                    assert(line_at(portfolio_at(self.items@, to).properties@, property_id)
                        == spec_new_holding(property_id, amount, now));
                }
            },
            Some(i) => {
                let mut p = self.items.remove(i);
                let ghost ls0 = p.properties@;
                proof {
                    lemma_portfolio_lookup(s0, to, i as int);
                }
                match find_line(&p.properties, property_id) {
                    Some(j) => {
                        let h = p.properties[j];
                        proof {
                            lemma_line_lookup(ls0, property_id, j as int);
                        }
                        let updated = PortfolioProperty {
                            token_amount: h.token_amount + amount,
                            ..h
                        };
                        p.properties.remove(j);
                        p.properties.insert(j, updated);
                        proof {
                            assert(p.properties@ =~= ls0.update(j as int, updated));
                        }
                        let ghost p1 = p;
                        self.items.insert(i, p);
                        proof {
                            let s1 = self.items@;
                            assert(s1 =~= s0.update(i as int, p1));
                            assert(owners_unique(s1));
                            assert forall|k: int| 0 <= k < s1.len() implies line_ids_unique(
                                #[trigger] s1[k].properties@,
                            ) by {
                                if k != i as int {
                                    assert(s1[k] == s0[k]);
                                }
                            }
                            lemma_portfolio_lookup(s1, to, i as int);
                            lemma_line_lookup(p1.properties@, property_id, j as int);
                            assert forall|x: u64, y: u64| !(x == to && y == property_id)
                                implies #[trigger] spec_holding_amount(s1, x, y)
                                == spec_holding_amount(s0, x, y) by {
                                if x == to {
                                    lemma_other_lines_keep(ls0, p1.properties@, j as int, y);
                                } else {
                                    lemma_other_owners_keep(s0, s1, i as int, x);
                                }
                            }
                            assert forall|x: u64| x != to implies #[trigger] has_portfolio(s1, x)
                                == has_portfolio(s0, x) by {
                                lemma_other_owners_keep(s0, s1, i as int, x);
                            }
                            assert forall|x: u64| x != to && has_portfolio(old(self).items@, x)
                                implies #[trigger] portfolio_at(self.items@, x) == portfolio_at(
                                old(self).items@,
                                x,
                            ) by {
                                lemma_other_owners_keep(s0, s1, i as int, x);
                            }
                            assert forall|y: u64| y != property_id && has_portfolio(
                                old(self).items@,
                                to,
                            ) implies #[trigger] has_line(
                                portfolio_at(self.items@, to).properties@,
                                y,
                            ) == has_line(portfolio_at(old(self).items@, to).properties@, y) by {
                                lemma_other_lines_keep(ls0, p1.properties@, j as int, y);
                                assert(portfolio_at(self.items@, to) == p1);
                                assert(portfolio_at(old(self).items@, to).properties@ == ls0);
                            }
                            assert forall|y: u64| y != property_id && has_portfolio(
                                old(self).items@,
                                to,
                            ) && has_line(
                                portfolio_at(old(self).items@, to).properties@,
                                y,
                            ) implies #[trigger] line_at(
                                portfolio_at(self.items@, to).properties@,
                                y,
                            ) == line_at(portfolio_at(old(self).items@, to).properties@, y) by {
                                lemma_other_lines_keep(ls0, p1.properties@, j as int, y);
                                assert(portfolio_at(self.items@, to) == p1);
                                assert(portfolio_at(old(self).items@, to).properties@ == ls0);
                            }
                        }
                    },
                    None => {
                        let fresh = PortfolioProperty {
                            property_id,
                            token_amount: amount,
                            initial_investment: 0,
                            current_value: 0,
                            dividends_received: 0,
                            purchase_date: now,
                        };
                        p.properties.push(fresh);
                        let ghost p1 = p;
                        self.items.insert(i, p);
                        proof {
                            let s1 = self.items@;
                            assert(s1 =~= s0.update(i as int, p1));
                            assert(owners_unique(s1));
                            lemma_push_line_unique(ls0, fresh);
                            assert forall|k: int| 0 <= k < s1.len() implies line_ids_unique(
                                #[trigger] s1[k].properties@,
                            ) by {
                                if k != i as int {
                                    assert(s1[k] == s0[k]);
                                } else {
                                    assert(s1[k].properties@ == ls0.push(fresh));
                                }
                            }
                            lemma_portfolio_lookup(s1, to, i as int);
                            lemma_line_lookup(
                                p1.properties@,
                                property_id,
                                ls0.len() as int,
                            );
                            assert forall|x: u64, y: u64| !(x == to && y == property_id)
                                implies #[trigger] spec_holding_amount(s1, x, y)
                                == spec_holding_amount(s0, x, y) by {
                                if x == to {
                                    lemma_push_line_keeps(ls0, fresh, y);
                                } else {
                                    lemma_other_owners_keep(s0, s1, i as int, x);
                                }
                            }
                            assert forall|x: u64| x != to implies #[trigger] has_portfolio(s1, x)
                                == has_portfolio(s0, x) by {
                                lemma_other_owners_keep(s0, s1, i as int, x);
                            }
                            assert forall|x: u64| x != to && has_portfolio(old(self).items@, x)
                                implies #[trigger] portfolio_at(self.items@, x) == portfolio_at(
                                old(self).items@,
                                x,
                            ) by {
                                lemma_other_owners_keep(s0, s1, i as int, x);
                            }
                            assert forall|y: u64| y != property_id && has_portfolio(
                                old(self).items@,
                                to,
                            ) implies #[trigger] has_line(
                                portfolio_at(self.items@, to).properties@,
                                y,
                            ) == has_line(portfolio_at(old(self).items@, to).properties@, y) by {
                                lemma_push_line_keeps(ls0, fresh, y);
                                assert(portfolio_at(self.items@, to) == p1);
                                assert(portfolio_at(old(self).items@, to).properties@ == ls0);
                            }
                            assert forall|y: u64| y != property_id && has_portfolio(
                                old(self).items@,
                                to,
                            ) && has_line(
                                portfolio_at(old(self).items@, to).properties@,
                                y,
                            ) implies #[trigger] line_at(
                                portfolio_at(self.items@, to).properties@,
                                y,
                            ) == line_at(portfolio_at(old(self).items@, to).properties@, y) by {
                                lemma_push_line_keeps(ls0, fresh, y);
                                assert(portfolio_at(self.items@, to) == p1);
                                assert(portfolio_at(old(self).items@, to).properties@ == ls0);
                            }
                        }
                    },
                }
            },
        }
    }
}

} // verus!
