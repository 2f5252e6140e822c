//! Households: what they hold, what they need, and how one tick changes them.

use crate::amount::{copy_vec, none_negative, zero_vec, zeros, Amount};
use crate::data::compiled::{NeedDef, Structure};
use crate::data::ids::{GoodId, HouseholdTypeId, NeedId, StockId};
use crate::simulation::consumption::{
    clear_log, copy_log, empty_log, log_to_vec, push_log, ConsumptionLog,
};
use crate::simulation::order::{
    below, lemma_stable_order, precedes, stable_order, stable_order_of,
};
use vstd::prelude::*;

verus! {

/// Utility gained when a need that is due is met, in millionths.
pub const FULFILLED_GAIN_MICROS: i64 = 1_000_000;

/// Utility lost when a need that is due is not met, in millionths.
pub const UNMET_PENALTY_MICROS: i64 = 500_000;

/// Handle of a household: its index in the population.
#[derive(Debug, Copy, Clone, Eq, PartialEq, Hash, Structural)]
pub struct HouseholdId(pub u32);

/// What is held after `change` is added to a holding of `held`: the sum, but
/// never less than nothing.
pub open spec fn stocked(held: Amount, change: Amount) -> Amount {
    held.saturating_add(change).at_least(Amount::zero())
}

/// The quantity held of each good, by good id.
#[derive(Debug)]
pub struct Inventory {
    pub qty: Vec<Amount>,
}

impl Clone for Inventory {
    /// An inventory that holds the same quantities.
    fn clone(&self) -> (copy: Inventory)
        ensures
            copy.qty@ == self.qty@,
    {
        Inventory { qty: copy_vec(&self.qty) }
    }
}

impl Inventory {
    /// An inventory with a slot for each of `goods_len` goods, all empty.
    pub fn new(goods_len: usize) -> (inventory: Inventory)
        ensures
            inventory.qty@ == zeros(goods_len as nat),
    {
        Inventory { qty: zero_vec(goods_len) }
    }

    /// The quantity held of `g`.
    pub fn get(&self, g: GoodId) -> (held: Amount)
        requires
            (g.0 as int) < self.qty@.len(),
        ensures
            held == self.qty@[g.0 as int],
    {
        self.qty[g.0 as usize]
    }

    /// Adds `amount`, which may be negative, to the holding of `g`; a holding
    /// that would fall below nothing becomes nothing.
    pub fn add(&mut self, g: GoodId, amount: Amount)
        requires
            (g.0 as int) < old(self).qty@.len(),
        ensures
            final(self).qty@ == old(self).qty@.update(
                g.0 as int,
                stocked(old(self).qty@[g.0 as int], amount),
            ),
    {
        let held = self.qty[g.0 as usize];
        let next = held.saturating_add(amount).at_least(Amount::zero());
        self.qty.set(g.0 as usize, next);
    }
}

/// The quantity held of each stock, by stock id.
#[derive(Debug)]
pub struct Portfolio {
    pub qty: Vec<Amount>,
}

impl Clone for Portfolio {
    /// A portfolio that holds the same quantities.
    fn clone(&self) -> (copy: Portfolio)
        ensures
            copy.qty@ == self.qty@,
    {
        Portfolio { qty: copy_vec(&self.qty) }
    }
}

impl Portfolio {
    /// A portfolio with a slot for each of `stocks_len` stocks, all empty.
    pub fn new(stocks_len: usize) -> (portfolio: Portfolio)
        ensures
            portfolio.qty@ == zeros(stocks_len as nat),
    {
        Portfolio { qty: zero_vec(stocks_len) }
    }

    /// The quantity held of `s`.
    pub fn get(&self, s: StockId) -> (held: Amount)
        requires
            (s.0 as int) < self.qty@.len(),
        ensures
            held == self.qty@[s.0 as int],
    {
        self.qty[s.0 as usize]
    }

    /// Adds `amount`, which may be negative, to the holding of `s`; a holding
    /// that would fall below nothing becomes nothing.
    pub fn add(&mut self, s: StockId, amount: Amount)
        requires
            (s.0 as int) < old(self).qty@.len(),
        ensures
            final(self).qty@ == old(self).qty@.update(
                s.0 as int,
                stocked(old(self).qty@[s.0 as int], amount),
            ),
    {
        let held = self.qty[s.0 as usize];
        let next = held.saturating_add(amount).at_least(Amount::zero());
        self.qty.set(s.0 as usize, next);
    }

    /// Empties every slot.
    pub fn clear_all(&mut self)
        ensures
            final(self).qty@ == zeros(old(self).qty@.len()),
    {
        let n = self.qty.len();
        let mut i: usize = 0;
        while i < n
            invariant
                i <= n,
                self.qty@.len() == n,
                forall|k: int| 0 <= k < i ==> self.qty@[k] == Amount::zero(),
            decreases n - i,
        {
            self.qty.set(i, Amount::zero());
            i = i + 1;
        }
        assert(self.qty@ =~= zeros(n as nat));
    }
}

/// The timer of one need of one household.
#[derive(Debug, Clone, Copy, PartialEq, Eq, Structural)]
pub struct NeedState {
    pub need: NeedId,
    /// Ticks that remain until the need is looked at again.
    pub next_due_in: u64,
    /// Whether the need was met when it was last due.
    pub fulfilled_last: bool,
}

/// An economic agent.
#[derive(Debug)]
pub struct Household {
    pub id: HouseholdId,
    pub kind: HouseholdTypeId,
    pub cash: Amount,
    pub inventory: Inventory,
    pub portfolio: Portfolio,
    pub needs: Vec<NeedState>,
    pub utility: Amount,
    /// What was consumed during the last tick, for observers only.
    pub last_consumed: ConsumptionLog,
}

/// A household as a value: each collection as the sequence it holds.
pub struct HouseholdView {
    pub id: HouseholdId,
    pub kind: HouseholdTypeId,
    pub cash: Amount,
    pub inventory: Seq<Amount>,
    pub portfolio: Seq<Amount>,
    pub needs: Seq<NeedState>,
    pub utility: Amount,
    pub last_consumed: Seq<(u32, i64)>,
}

impl Clone for Household {
    /// A household that is the same as a value.
    fn clone(&self) -> (copy: Household)
        ensures
            copy@ == self@,
    {
        let mut needs: Vec<NeedState> = Vec::new();
        let mut i: usize = 0;
        while i < self.needs.len()
            invariant
                i <= self.needs@.len(),
                needs@ == self.needs@.subrange(0, i as int),
            decreases self.needs@.len() - i,
        {
            needs.push(self.needs[i]);
            assert(needs@ =~= self.needs@.subrange(0, i + 1));
            i = i + 1;
        }
        assert(self.needs@.subrange(0, i as int) =~= self.needs@);
        Household {
            id: self.id,
            kind: self.kind,
            cash: self.cash,
            inventory: self.inventory.clone(),
            portfolio: self.portfolio.clone(),
            needs,
            utility: self.utility,
            last_consumed: copy_log(&self.last_consumed),
        }
    }
}

impl View for Household {
    type V = HouseholdView;

    open spec fn view(&self) -> HouseholdView {
        HouseholdView {
            id: self.id,
            kind: self.kind,
            cash: self.cash,
            inventory: self.inventory.qty@,
            portfolio: self.portfolio.qty@,
            needs: self.needs@,
            utility: self.utility,
            last_consumed: self.last_consumed@,
        }
    }
}

/// The place of a need among the needs of one household: lower priority
/// values first, and among equal priorities the lower need id.
pub open spec fn need_rank(priority: i32, need: NeedId) -> u64 {
    ((priority + 0x8000_0000) * 0x1_0000_0000 + need.0) as u64
}

/// The rank of each of a household's needs, by position.
pub open spec fn evaluation_keys(needs: Seq<NeedState>, defs: Seq<NeedDef>) -> Seq<u64> {
    Seq::new(
        needs.len(),
        |i: int| need_rank(defs[needs[i].need.0 as int].priority, needs[i].need),
    )
}

/// The positions of a household's needs in the order in which one tick looks
/// at them.
pub open spec fn evaluation_order(needs: Seq<NeedState>, defs: Seq<NeedDef>) -> Seq<usize> {
    stable_order(evaluation_keys(needs, defs))
}

/// What holding `held` becomes after one tick of decay at `rate`.
pub open spec fn decayed(held: Amount, rate: Amount) -> Amount {
    if held.micros <= 0 || rate.micros <= 0 {
        held
    } else {
        stocked(held, held.saturating_mul(rate).saturating_neg())
    }
}

impl HouseholdView {
    /// The household has a slot for every good and stock of `s`, is of an
    /// archetype of `s`, tracks needs of `s`, and holds nothing negative.
    pub open spec fn fits(self, s: Structure) -> bool {
        &&& self.inventory.len() == s.goods@.len()
        &&& self.portfolio.len() == s.stocks@.len()
        &&& self.kind.0 < s.household_types@.len()
        &&& forall|i: int|
            0 <= i < self.needs.len() ==> (#[trigger] self.needs[i]).need.0 < s.needs@.len()
        &&& none_negative(self.inventory)
        &&& none_negative(self.portfolio)
    }

    /// The household after `income` has been paid to it.
    pub open spec fn paid(self, income: Amount) -> HouseholdView {
        HouseholdView { cash: self.cash.saturating_add(income), ..self }
    }

    /// The household after each of its holdings has decayed for one tick.
    pub open spec fn spoiled(self, s: Structure) -> HouseholdView {
        HouseholdView {
            inventory: Seq::new(
                self.inventory.len(),
                |i: int| decayed(self.inventory[i], s.goods@[i].decay_rate),
            ),
            ..self
        }
    }

    /// The household after it has looked at the need at position `i`: a need
    /// that is not yet due moves one tick closer; a need that is due is met
    /// from the inventory if that holds enough, and missed otherwise, and is
    /// armed again either way.
    pub open spec fn evaluated(self, defs: Seq<NeedDef>, i: int) -> HouseholdView {
        let state = self.needs[i];
        if state.next_due_in > 0 {
            HouseholdView {
                needs: self.needs.update(
                    i,
                    NeedState { next_due_in: (state.next_due_in - 1) as u64, ..state },
                ),
                ..self
            }
        } else {
            let def = defs[state.need.0 as int];
            let have = self.inventory[def.good.0 as int];
            if have.micros >= def.amount.micros {
                HouseholdView {
                    inventory: self.inventory.update(
                        def.good.0 as int,
                        stocked(have, def.amount.saturating_neg()),
                    ),
                    utility: self.utility.saturating_add(
                        Amount { micros: FULFILLED_GAIN_MICROS },
                    ),
                    needs: self.needs.update(
                        i,
                        NeedState {
                            need: state.need,
                            next_due_in: def.interval_ticks,
                            fulfilled_last: true,
                        },
                    ),
                    last_consumed: self.last_consumed.push((def.good.0, def.amount.micros)),
                    ..self
                }
            } else {
                HouseholdView {
                    utility: self.utility.saturating_sub(Amount { micros: UNMET_PENALTY_MICROS }),
                    needs: self.needs.update(
                        i,
                        NeedState {
                            need: state.need,
                            next_due_in: def.interval_ticks,
                            fulfilled_last: false,
                        },
                    ),
                    ..self
                }
            }
        }
    }

    /// The household after it has looked at the needs at the first `k`
    /// positions of `order`, one after the other.
    pub open spec fn evaluated_through(
        self,
        defs: Seq<NeedDef>,
        order: Seq<usize>,
        k: nat,
    ) -> HouseholdView
        decreases k,
    {
        if k == 0 {
            self
        } else {
            self.evaluated_through(defs, order, (k - 1) as nat).evaluated(
                defs,
                order[k - 1] as int,
            )
        }
    }

    /// The household after one tick's look at its needs: the log of what it
    /// consumed starts empty, and every need is looked at once, in the
    /// household's evaluation order.
    pub open spec fn needs_stepped(self, defs: Seq<NeedDef>) -> HouseholdView {
        HouseholdView { last_consumed: Seq::empty(), ..self }.evaluated_through(
            defs,
            evaluation_order(self.needs, defs),
            self.needs.len(),
        )
    }
}

/// Computes the rank of a need.
fn rank_of(priority: i32, need: NeedId) -> (rank: u64)
    ensures
        rank == need_rank(priority, need),
{
    let high: u64 = (priority as i64 + 0x8000_0000) as u64;
    high * 0x1_0000_0000 + need.0 as u64
}

/// Ranks compare as the pair of priority and need id does.
pub proof fn lemma_need_rank_orders(p: i32, n: NeedId, q: i32, m: NeedId)
    ensures
        need_rank(p, n) < need_rank(q, m) <==> p < q || (p == q && n.0 < m.0),
        need_rank(p, n) == need_rank(q, m) <==> p == q && n.0 == m.0,
{
}

/// Within one tick a household looks at its needs by ascending priority
/// value, and at needs of equal priority by ascending need id: of two
/// positions in the evaluation order, the earlier one holds the need with the
/// lower priority value or, at equal priorities, the need whose id is not
/// greater.
pub proof fn lemma_needs_evaluated_by_priority_then_id(
    needs: Seq<NeedState>,
    defs: Seq<NeedDef>,
    a: int,
    b: int,
)
    requires
        needs.len() <= usize::MAX,
        0 <= a < b < needs.len(),
    ensures
        evaluation_order(needs, defs).len() == needs.len(),
        (evaluation_order(needs, defs)[a] as int) < needs.len(),
        (evaluation_order(needs, defs)[b] as int) < needs.len(),
        evaluation_order(needs, defs)[a] != evaluation_order(needs, defs)[b],
        ({
            let first = needs[evaluation_order(needs, defs)[a] as int].need;
            let second = needs[evaluation_order(needs, defs)[b] as int].need;
            defs[first.0 as int].priority < defs[second.0 as int].priority || (defs[first.0 as int].priority
                == defs[second.0 as int].priority && first.0 <= second.0)
        }),
{
    let keys = evaluation_keys(needs, defs);
    lemma_stable_order(keys);
    let order = evaluation_order(needs, defs);
    let first = needs[order[a] as int].need;
    let second = needs[order[b] as int].need;
    assert(precedes(keys, order[a], order[b]));
    lemma_need_rank_orders(
        defs[first.0 as int].priority,
        first,
        defs[second.0 as int].priority,
        second,
    );
}

proof fn lemma_evaluated_fits(h: HouseholdView, s: Structure, i: int)
    requires
        s.wf(),
        h.fits(s),
        0 <= i < h.needs.len(),
    ensures
        h.evaluated(s.needs@, i).fits(s),
        h.evaluated(s.needs@, i).needs.len() == h.needs.len(),
        forall|j: int|
            0 <= j < h.needs.len() ==> (#[trigger] h.evaluated(s.needs@, i).needs[j]).need
                == h.needs[j].need,
{
    let state = h.needs[i];
    assert(s.need_wf(state.need.0 as int));
}

/// One look at a need never touches any other need's timer, and steps the
/// need's own timer as its state says: a timer that has not run down runs one
/// tick further down, and a timer that has run down is set to the need's
/// interval, whether the need was met or missed.
pub proof fn lemma_evaluated_steps_one_timer(h: HouseholdView, defs: Seq<NeedDef>, i: int)
    requires
        0 <= i < h.needs.len(),
    ensures
        h.evaluated(defs, i).needs.len() == h.needs.len(),
        forall|j: int|
            0 <= j < h.needs.len() && j != i ==> h.evaluated(defs, i).needs[j] == h.needs[j],
        h.evaluated(defs, i).needs[i].need == h.needs[i].need,
        h.needs[i].next_due_in > 0 ==> h.evaluated(defs, i).needs[i].next_due_in
            == h.needs[i].next_due_in - 1 && h.evaluated(defs, i).needs[i].fulfilled_last
            == h.needs[i].fulfilled_last,
        h.needs[i].next_due_in == 0 ==> h.evaluated(defs, i).needs[i].next_due_in
            == defs[h.needs[i].need.0 as int].interval_ticks,
{
}

proof fn lemma_evaluated_through_timers(
    h: HouseholdView,
    defs: Seq<NeedDef>,
    order: Seq<usize>,
    k: nat,
)
    requires
        k <= order.len(),
        below(order, h.needs.len() as int),
        forall|a: int, b: int|
            0 <= a < b < order.len() ==> #[trigger] order[a] != #[trigger] order[b],
    ensures
        h.evaluated_through(defs, order, k).needs.len() == h.needs.len(),
        forall|a: int|
            0 <= a < k ==> {
                let i = #[trigger] order[a] as int;
                let before = h.needs[i];
                let after = h.evaluated_through(defs, order, k).needs[i];
                &&& after.need == before.need
                &&& before.next_due_in > 0 ==> after.next_due_in == before.next_due_in - 1
                    && after.fulfilled_last == before.fulfilled_last
                &&& before.next_due_in == 0 ==> after.next_due_in
                    == defs[before.need.0 as int].interval_ticks
            },
        forall|a: int|
            k <= a < order.len() ==> h.evaluated_through(defs, order, k).needs[#[trigger] order[a] as int]
                == h.needs[order[a] as int],
    decreases k,
{
    if k > 0 {
        let m = (k - 1) as nat;
        lemma_evaluated_through_timers(h, defs, order, m);
        let mid = h.evaluated_through(defs, order, m);
        let i = order[k - 1] as int;
        lemma_evaluated_steps_one_timer(mid, defs, i);
        assert(mid.needs[order[k - 1] as int] == h.needs[i]);
        let out = h.evaluated_through(defs, order, k);
        assert forall|a: int| 0 <= a < k implies {
            let j = #[trigger] order[a] as int;
            let before = h.needs[j];
            let after = out.needs[j];
            &&& after.need == before.need
            &&& before.next_due_in > 0 ==> after.next_due_in == before.next_due_in - 1
                && after.fulfilled_last == before.fulfilled_last
            &&& before.next_due_in == 0 ==> after.next_due_in
                == defs[before.need.0 as int].interval_ticks
        } by {
            if a < k - 1 {
                assert(order[a] != order[k - 1]);
            }
        }
        assert forall|a: int| k <= a < order.len() implies out.needs[#[trigger] order[a] as int]
            == h.needs[order[a] as int] by {
            assert(order[k - 1] != order[a]);
        }
    }
}

/// Looking at needs changes neither who the household is nor its cash nor its
/// stocks.
pub proof fn lemma_needs_stepped_keeps_identity(h: HouseholdView, defs: Seq<NeedDef>)
    ensures
        h.needs_stepped(defs).id == h.id,
        h.needs_stepped(defs).kind == h.kind,
        h.needs_stepped(defs).cash == h.cash,
        h.needs_stepped(defs).portfolio == h.portfolio,
{
    let start = HouseholdView { last_consumed: Seq::empty(), ..h };
    lemma_evaluated_through_keeps_identity(
        start,
        defs,
        evaluation_order(h.needs, defs),
        h.needs.len(),
    );
}

proof fn lemma_evaluated_through_keeps_identity(
    h: HouseholdView,
    defs: Seq<NeedDef>,
    order: Seq<usize>,
    k: nat,
)
    ensures
        h.evaluated_through(defs, order, k).id == h.id,
        h.evaluated_through(defs, order, k).kind == h.kind,
        h.evaluated_through(defs, order, k).cash == h.cash,
        h.evaluated_through(defs, order, k).portfolio == h.portfolio,
    decreases k,
{
    if k > 0 {
        lemma_evaluated_through_keeps_identity(h, defs, order, (k - 1) as nat);
    }
}

/// One tick looks at every need of a household exactly once: afterwards, a
/// timer that had not run down has run one tick further down and still says
/// whether the need was met when last due, and a timer that had run down is
/// set to its need's interval, whether the need was met or missed.
pub proof fn lemma_every_need_stepped_once(h: HouseholdView, defs: Seq<NeedDef>, i: int)
    requires
        h.needs.len() <= usize::MAX,
        0 <= i < h.needs.len(),
    ensures
        h.needs_stepped(defs).needs.len() == h.needs.len(),
        h.needs_stepped(defs).needs[i].need == h.needs[i].need,
        h.needs[i].next_due_in > 0 ==> h.needs_stepped(defs).needs[i].next_due_in
            == h.needs[i].next_due_in - 1 && h.needs_stepped(defs).needs[i].fulfilled_last
            == h.needs[i].fulfilled_last,
        h.needs[i].next_due_in == 0 ==> h.needs_stepped(defs).needs[i].next_due_in
            == defs[h.needs[i].need.0 as int].interval_ticks,
{
    let keys = evaluation_keys(h.needs, defs);
    let order = evaluation_order(h.needs, defs);
    lemma_stable_order(keys);
    let start = HouseholdView { last_consumed: Seq::empty(), ..h };
    lemma_evaluated_through_timers(start, defs, order, h.needs.len());
    assert(order.contains(i as usize));
    let a = choose|a: int| 0 <= a < order.len() && order[a] == i as usize;
    assert(order[a] as int == i);
}

impl Household {
    /// A household with the given holdings and timers, no utility yet and an
    /// empty consumption log.
    pub fn new(
        id: HouseholdId,
        kind: HouseholdTypeId,
        cash: Amount,
        inventory: Inventory,
        portfolio: Portfolio,
        needs: Vec<NeedState>,
    ) -> (household: Household)
        ensures
            household@ == (HouseholdView {
                id,
                kind,
                cash,
                inventory: inventory.qty@,
                portfolio: portfolio.qty@,
                needs: needs@,
                utility: Amount::zero(),
                last_consumed: Seq::empty(),
            }),
    {
        Household {
            id,
            kind,
            cash,
            inventory,
            portfolio,
            needs,
            utility: Amount::zero(),
            last_consumed: empty_log(),
        }
    }

    /// Pays one tick's income.
    pub fn apply_income(&mut self, income_per_tick: Amount)
        ensures
            final(self)@ == old(self)@.paid(income_per_tick),
    {
        self.cash = self.cash.saturating_add(income_per_tick);
    }

    /// Lets every holding decay for one tick at the rate of its good.
    pub fn apply_decay(&mut self, s: &Structure)
        requires
            s.wf(),
            old(self)@.fits(*s),
        ensures
            final(self)@ == old(self)@.spoiled(*s),
            final(self)@.fits(*s),
    {
        let n = s.goods.len();
        let mut i: usize = 0;
        while i < n
            invariant
                s.wf(),
                n == s.goods@.len(),
                i <= n,
                self.inventory.qty@.len() == n,
                self@ == (HouseholdView { inventory: self.inventory.qty@, ..old(self)@ }),
                forall|k: int|
                    0 <= k < i ==> self.inventory.qty@[k] == decayed(
                        old(self).inventory.qty@[k],
                        s.goods@[k].decay_rate,
                    ),
                forall|k: int| i <= k < n ==> self.inventory.qty@[k] == old(self).inventory.qty@[k],
            decreases n - i,
        {
            let gd = &s.goods[i];
            assert(s.good_wf(i as int));
            let q = self.inventory.get(gd.id);
            if !(q.micros <= 0 || gd.decay_rate.micros <= 0) {
                let lost = q.saturating_mul(gd.decay_rate);
                self.inventory.add(gd.id, lost.saturating_neg());
            }
            i = i + 1;
        }
        assert(self@.inventory =~= old(self)@.spoiled(*s).inventory);
    }

    /// Looks at every need once, in the household's evaluation order, after
    /// emptying the consumption log.
    pub fn step_needs(&mut self, s: &Structure)
        requires
            s.wf(),
            old(self)@.fits(*s),
        ensures
            final(self)@ == old(self)@.needs_stepped(s.needs@),
            final(self)@.fits(*s),
    {
        clear_log(&mut self.last_consumed);
        let ghost start = self@;
        assert(start.needs == old(self)@.needs);
        assert(start.fits(*s));
        let n = self.needs.len();
        let mut keys: Vec<u64> = Vec::new();
        let mut j: usize = 0;
        while j < n
            invariant
                j <= n,
                n == self.needs@.len(),
                self@ == start,
                start.fits(*s),
                keys@.len() == j,
                forall|k: int|
                    0 <= k < j ==> keys@[k] == evaluation_keys(start.needs, s.needs@)[k],
            decreases n - j,
        {
            let state = self.needs[j];
            assert(start.needs[j as int] == state);
            let def = &s.needs[state.need.0 as usize];
            keys.push(rank_of(def.priority, state.need));
            j = j + 1;
        }
        assert(keys@ =~= evaluation_keys(start.needs, s.needs@));
        let order = stable_order_of(&keys);
        proof {
            lemma_stable_order(keys@);
        }
        let mut k: usize = 0;
        while k < n
            invariant
                s.wf(),
                k <= n,
                n == start.needs.len(),
                order@.len() == n,
                order@ == evaluation_order(start.needs, s.needs@),
                below(order@, n as int),
                self@.fits(*s),
                self@.needs.len() == n,
                self@ == start.evaluated_through(s.needs@, order@, k as nat),
            decreases n - k,
        {
            let i = order[k];
            let ghost before = self@;
            proof {
                lemma_evaluated_fits(before, *s, i as int);
            }
            let state = self.needs[i];
            if state.next_due_in > 0 {
                self.needs.set(
                    i,
                    NeedState {
                        need: state.need,
                        next_due_in: state.next_due_in - 1,
                        fulfilled_last: state.fulfilled_last,
                    },
                );
            } else {
                let def = &s.needs[state.need.0 as usize];
                assert(s.need_wf(state.need.0 as int));
                let have = self.inventory.get(def.good);
                if have.micros >= def.amount.micros {
                    self.inventory.add(def.good, def.amount.saturating_neg());
                    self.utility = self.utility.saturating_add(
                        Amount::from_micros(FULFILLED_GAIN_MICROS),
                    );
                    self.needs.set(
                        i,
                        NeedState {
                            need: state.need,
                            next_due_in: def.interval_ticks,
                            fulfilled_last: true,
                        },
                    );
                    push_log(&mut self.last_consumed, def.good.0, def.amount.micros);
                } else {
                    self.utility = self.utility.saturating_sub(
                        Amount::from_micros(UNMET_PENALTY_MICROS),
                    );
                    self.needs.set(
                        i,
                        NeedState {
                            need: state.need,
                            next_due_in: def.interval_ticks,
                            fulfilled_last: false,
                        },
                    );
                }
            }
            assert(self@ == before.evaluated(s.needs@, i as int));
            k = k + 1;
        }
    }

    /// What the household consumed during the last tick, oldest first.
    pub fn consumed(&self) -> (list: Vec<(GoodId, Amount)>)
        ensures
            list@.len() == self@.last_consumed.len(),
            forall|i: int|
                0 <= i < list@.len() ==> (#[trigger] list@[i]).0.0 == self@.last_consumed[i].0
                    && list@[i].1.micros == self@.last_consumed[i].1,
    {
        let raw = log_to_vec(&self.last_consumed);
        let mut list: Vec<(GoodId, Amount)> = Vec::new();
        let mut i: usize = 0;
        while i < raw.len()
            invariant
                i <= raw@.len(),
                list@.len() == i,
                forall|k: int|
                    0 <= k < i ==> (#[trigger] list@[k]).0.0 == raw@[k].0 && list@[k].1.micros
                        == raw@[k].1,
            decreases raw@.len() - i,
        {
            let entry = raw[i];
            list.push((GoodId(entry.0), Amount::from_micros(entry.1)));
            i = i + 1;
        }
        list
    }
}

} // verus!
