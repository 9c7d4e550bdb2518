//! Orders, trades, and what one round of fills does to them.
//!
//! Prices, quantities, fill amounts and timestamps are kept by the caller,
//! keyed by the order id; the library tracks each order's identity, side and
//! lifecycle status.

use vstd::prelude::*;

verus! {

/// Direction of an order, position or trade.
#[derive(Clone, Copy, Debug, PartialEq, Eq, Structural)]
pub enum Side {
    Long,
    Short,
}

/// Lifecycle status of an order.
#[derive(Clone, Copy, Debug, PartialEq, Eq, Structural)]
pub enum OrderStatus {
    Pending,
    PartiallyFilled,
    Filled,
    Cancelled,
}

/// An order as the library tracks it.
#[derive(Clone, Debug)]
pub struct Order {
    pub id: u64,
    pub symbol: String,
    pub side: Side,
    pub status: OrderStatus,
}

/// A completed order in the trade log, found again by its order id.
#[derive(Clone, Debug)]
pub struct Trade {
    pub order_id: u64,
    pub symbol: String,
    pub side: Side,
}

/// What one tick of the fill simulation did to one open order.
#[derive(Clone, Copy, Debug, PartialEq, Eq, Structural)]
pub enum FillOutcome {
    /// The order did not trade this tick.
    Unfilled,
    /// Part of the remaining quantity traded; some is still open.
    Partial,
    /// The order traded in full.
    Complete,
}

/// An order that can still trade.
pub open spec fn is_active(s: OrderStatus) -> bool {
    s == OrderStatus::Pending || s == OrderStatus::PartiallyFilled
}

/// The status an order has after one fill outcome. Filled and cancelled
/// orders are left as they are.
pub open spec fn status_after(s: OrderStatus, f: FillOutcome) -> OrderStatus {
    if !is_active(s) {
        s
    } else {
        match f {
            FillOutcome::Unfilled => s,
            FillOutcome::Partial => OrderStatus::PartiallyFilled,
            FillOutcome::Complete => OrderStatus::Filled,
        }
    }
}

/// The order after one fill outcome.
pub open spec fn filled_order(o: Order, f: FillOutcome) -> Order {
    Order { status: status_after(o.status, f), ..o }
}

/// Whether this outcome completes this order.
pub open spec fn completes(o: Order, f: FillOutcome) -> bool {
    is_active(o.status) && f == FillOutcome::Complete
}

/// The orders among the first `n` that a round of fills completes, in order.
pub open spec fn completed(orders: Seq<Order>, outcomes: Seq<FillOutcome>, n: nat) -> Seq<Order>
    decreases n,
{
    if n == 0 {
        Seq::empty()
    } else {
        let prev = completed(orders, outcomes, (n - 1) as nat);
        if completes(orders[n - 1], outcomes[n - 1]) {
            prev.push(orders[n - 1])
        } else {
            prev
        }
    }
}

/// The orders among the first `n` that are still open after a round of
/// fills, with their new status, in order.
pub open spec fn still_open(orders: Seq<Order>, outcomes: Seq<FillOutcome>, n: nat) -> Seq<Order>
    decreases n,
{
    if n == 0 {
        Seq::empty()
    } else {
        let prev = still_open(orders, outcomes, (n - 1) as nat);
        let o = filled_order(orders[n - 1], outcomes[n - 1]);
        if o.status == OrderStatus::Filled {
            prev
        } else {
            prev.push(o)
        }
    }
}

/// The trade-log entry of a completed order.
pub open spec fn trade_of(o: Order) -> Trade {
    Trade { order_id: o.id, symbol: o.symbol, side: o.side }
}

/// The trade log after the completed orders `done` are entered one after
/// the other at its front, so that the last one ends up first.
pub open spec fn log_after(done: Seq<Order>, log: Seq<Trade>) -> Seq<Trade>
    decreases done.len(),
{
    if done.len() == 0 {
        log
    } else {
        seq![trade_of(done.last())] + log_after(done.drop_last(), log)
    }
}

/// Order ids increase strictly along the sequence.
pub open spec fn ids_increasing(orders: Seq<Order>) -> bool {
    forall|i: int, j: int| 0 <= i < j < orders.len() ==> #[trigger] orders[i].id < #[trigger] orders[j].id
}

/// Open orders, trade log and id counter agree: open orders are active,
/// every id was handed out before `next_id`, and no id occurs twice across
/// the open orders and the trade log.
pub open spec fn ledger_wf(open: Seq<Order>, log: Seq<Trade>, next_id: u64) -> bool {
    &&& ids_increasing(open)
    &&& forall|i: int| 0 <= i < open.len() ==> is_active(#[trigger] open[i].status)
    &&& forall|i: int| 0 <= i < open.len() ==> #[trigger] open[i].id < next_id
    &&& forall|i: int| 0 <= i < log.len() ==> #[trigger] log[i].order_id < next_id
    &&& forall|i: int, j: int|
        0 <= i < log.len() && 0 <= j < log.len() && i != j ==> #[trigger] log[i].order_id
            != #[trigger] log[j].order_id
    &&& forall|i: int, j: int|
        0 <= i < log.len() && 0 <= j < open.len() ==> #[trigger] log[i].order_id
            != #[trigger] open[j].id
}

/// `x` is one of the first `n` orders, and the outcome there completes it.
pub open spec fn completed_from(x: Order, orders: Seq<Order>, outcomes: Seq<FillOutcome>, n: nat) -> bool {
    exists|p: int| 0 <= p < n && completes(orders[p], outcomes[p]) && x == orders[p]
}

/// `x` is one of the first `n` orders after its fill, and not completed.
pub open spec fn open_from(x: Order, orders: Seq<Order>, outcomes: Seq<FillOutcome>, n: nat) -> bool {
    exists|p: int|
        0 <= p < n && x == filled_order(orders[p], outcomes[p]) && status_after(
            orders[p].status,
            outcomes[p],
        ) != OrderStatus::Filled
}

proof fn lemma_completed_len(orders: Seq<Order>, outcomes: Seq<FillOutcome>, n: nat)
    ensures
        completed(orders, outcomes, n).len() <= n,
    decreases n,
{
    if n > 0 {
        lemma_completed_len(orders, outcomes, (n - 1) as nat);
    }
}

/// Each completed order is one of the first `n` orders, at increasing
/// positions, and the outcome there completes it.
proof fn lemma_completed_origin(orders: Seq<Order>, outcomes: Seq<FillOutcome>, n: nat)
    requires
        n <= orders.len(),
        n <= outcomes.len(),
    ensures
        forall|k: int|
            0 <= k < completed(orders, outcomes, n).len() ==> completed_from(
                #[trigger] completed(orders, outcomes, n)[k],
                orders,
                outcomes,
                n,
            ),
    decreases n,
{
    if n > 0 {
        lemma_completed_origin(orders, outcomes, (n - 1) as nat);
        let prev = completed(orders, outcomes, (n - 1) as nat);
        let cur = completed(orders, outcomes, n);
        assert forall|k: int| 0 <= k < cur.len() implies completed_from(
            #[trigger] cur[k],
            orders,
            outcomes,
            n,
        ) by {
            if k < prev.len() {
                assert(cur[k] == prev[k]);
                assert(completed_from(prev[k], orders, outcomes, (n - 1) as nat));
                let p = choose|p: int|
                    0 <= p < n - 1 && completes(orders[p], outcomes[p]) && prev[k] == orders[p];
                assert(cur[k] == orders[p]);
            } else {
                assert(cur[k] == orders[n - 1]);
            }
        }
    }
}

/// Completed ids increase strictly when the order ids do.
proof fn lemma_completed_ids(orders: Seq<Order>, outcomes: Seq<FillOutcome>, n: nat)
    requires
        n <= orders.len(),
        n <= outcomes.len(),
        ids_increasing(orders),
    ensures
        ids_increasing(completed(orders, outcomes, n)),
        forall|k: int|
            0 <= k < completed(orders, outcomes, n).len() ==> completed_from(
                #[trigger] completed(orders, outcomes, n)[k],
                orders,
                outcomes,
                n,
            ),
    decreases n,
{
    lemma_completed_origin(orders, outcomes, n);
    if n > 0 {
        lemma_completed_ids(orders, outcomes, (n - 1) as nat);
        let prev = completed(orders, outcomes, (n - 1) as nat);
        assert forall|i: int, j: int|
            0 <= i < j < completed(orders, outcomes, n).len() implies #[trigger] completed(
            orders,
            outcomes,
            n,
        )[i].id < #[trigger] completed(orders, outcomes, n)[j].id by {
            let cur = completed(orders, outcomes, n);
            if j < prev.len() {
                assert(cur[i] == prev[i] && cur[j] == prev[j]);
            } else {
                assert(cur[i] == prev[i]);
                assert(completed_from(prev[i], orders, outcomes, (n - 1) as nat));
                let p = choose|p: int|
                    0 <= p < n - 1 && completes(orders[p], outcomes[p]) && prev[i] == orders[p];
                assert(cur[j] == orders[n - 1]);
            }
        }
    }
}

/// Each order still open is one of the first `n` orders, after its fill,
/// at increasing positions, and not completed.
proof fn lemma_still_open_origin(orders: Seq<Order>, outcomes: Seq<FillOutcome>, n: nat)
    requires
        n <= orders.len(),
        n <= outcomes.len(),
        ids_increasing(orders),
    ensures
        ids_increasing(still_open(orders, outcomes, n)),
        forall|k: int|
            0 <= k < still_open(orders, outcomes, n).len() ==> open_from(
                #[trigger] still_open(orders, outcomes, n)[k],
                orders,
                outcomes,
                n,
            ),
    decreases n,
{
    if n > 0 {
        lemma_still_open_origin(orders, outcomes, (n - 1) as nat);
        let prev = still_open(orders, outcomes, (n - 1) as nat);
        let cur = still_open(orders, outcomes, n);
        assert forall|k: int| 0 <= k < cur.len() implies open_from(
            #[trigger] cur[k],
            orders,
            outcomes,
            n,
        ) by {
            if k < prev.len() {
                assert(cur[k] == prev[k]);
                assert(open_from(prev[k], orders, outcomes, (n - 1) as nat));
                let p = choose|p: int|
                    0 <= p < n - 1 && prev[k] == filled_order(orders[p], outcomes[p])
                        && status_after(orders[p].status, outcomes[p]) != OrderStatus::Filled;
                assert(cur[k] == filled_order(orders[p], outcomes[p]));
            } else {
                assert(cur[k] == filled_order(orders[n - 1], outcomes[n - 1]));
            }
        }
        assert forall|i: int, j: int| 0 <= i < j < cur.len() implies #[trigger] cur[i].id
            < #[trigger] cur[j].id by {
            if j < prev.len() {
                assert(cur[i] == prev[i] && cur[j] == prev[j]);
            } else {
                assert(cur[i] == prev[i]);
                assert(open_from(prev[i], orders, outcomes, (n - 1) as nat));
                let p = choose|p: int|
                    0 <= p < n - 1 && prev[i] == filled_order(orders[p], outcomes[p])
                        && status_after(orders[p].status, outcomes[p]) != OrderStatus::Filled;
                assert(cur[j] == filled_order(orders[n - 1], outcomes[n - 1]));
            }
        }
    }
}

/// Applies the outcomes to the statuses of the orders, in place, and returns
/// the ids of the orders that the outcomes complete, in order.
fn mark_fills(orders: &mut Vec<Order>, outcomes: &Vec<FillOutcome>) -> (filled: Vec<u64>)
    requires
        old(orders).len() == outcomes.len(),
    ensures
        final(orders)@.len() == old(orders)@.len(),
        forall|i: int|
            0 <= i < old(orders)@.len() ==> #[trigger] final(orders)@[i] == filled_order(
                old(orders)@[i],
                outcomes@[i],
            ),
        filled@ == completed(old(orders)@, outcomes@, old(orders)@.len() as nat).map_values(
            |o: Order| o.id,
        ),
{
    let ghost start = orders@;
    let n = orders.len();
    let mut filled: Vec<u64> = Vec::new();
    let mut i: usize = 0;
    while i < n
        invariant
            n == start.len(),
            n == outcomes@.len(),
            orders@.len() == n,
            i <= n,
            forall|j: int| 0 <= j < i ==> #[trigger] orders@[j] == filled_order(start[j], outcomes@[j]),
            forall|j: int| i <= j < n ==> #[trigger] orders@[j] == start[j],
            filled@ == completed(start, outcomes@, i as nat).map_values(|o: Order| o.id),
        decreases n - i,
    {
        let status = orders[i].status;
        let active = match status {
            OrderStatus::Filled => false,
            OrderStatus::Cancelled => false,
            _ => true,
        };
        if active {
            let new_status = match outcomes[i] {
                FillOutcome::Unfilled => status,
                FillOutcome::Partial => OrderStatus::PartiallyFilled,
                FillOutcome::Complete => OrderStatus::Filled,
            };
            let updated = Order {
                id: orders[i].id,
                symbol: orders[i].symbol.clone(),
                side: orders[i].side,
                status: new_status,
            };
            if new_status == OrderStatus::Filled {
                filled.push(orders[i].id);
            }
            orders.set(i, updated);
        }
        proof {
            let prev = completed(start, outcomes@, i as nat);
            assert(completed(start, outcomes@, (i + 1) as nat) == if completes(start[i as int], outcomes@[i as int]) {
                prev.push(start[i as int])
            } else {
                prev
            });
            assert(filled@ =~= completed(start, outcomes@, (i + 1) as nat).map_values(|o: Order| o.id));
        }
        i = i + 1;
    }
    filled
}

/// Position of the first order with the given id.
fn find_order(orders: &Vec<Order>, id: u64) -> (r: Option<usize>)
    ensures
        match r {
            Some(p) => p < orders@.len() && orders@[p as int].id == id && forall|q: int|
                0 <= q < p ==> #[trigger] orders@[q].id != id,
            None => forall|q: int| 0 <= q < orders@.len() ==> #[trigger] orders@[q].id != id,
        },
{
    let mut p: usize = 0;
    while p < orders.len()
        invariant
            p <= orders@.len(),
            forall|q: int| 0 <= q < p ==> #[trigger] orders@[q].id != id,
        decreases orders@.len() - p,
    {
        if orders[p].id == id {
            return Some(p);
        }
        p = p + 1;
    }
    None
}

/// Keeps the orders whose status differs from `status`, in order.
fn drop_with_status(orders: Vec<Order>, status: OrderStatus) -> (kept: Vec<Order>)
    ensures
        kept@ == orders@.filter(|o: Order| o.status != status),
{
    let mut kept: Vec<Order> = Vec::new();
    let mut i: usize = 0;
    let n = orders.len();
    while i < n
        invariant
            n == orders@.len(),
            i <= n,
            kept@ == orders@.take(i as int).filter(|o: Order| o.status != status),
        decreases n - i,
    {
        proof {
            reveal_with_fuel(Seq::filter, 1);
            assert(orders@.take(i + 1).drop_last() =~= orders@.take(i as int));
        }
        if orders[i].status != status {
            kept.push(orders[i].clone_order());
        }
        i = i + 1;
    }
    assert(orders@.take(n as int) =~= orders@);
    kept
}


/// The kept orders after the round of fills are `still_open`.
proof fn lemma_filter_still_open(
    marked: Seq<Order>,
    orders: Seq<Order>,
    outcomes: Seq<FillOutcome>,
    k: nat,
)
    requires
        k <= marked.len(),
        marked.len() <= orders.len(),
        marked.len() <= outcomes.len(),
        forall|i: int| 0 <= i < marked.len() ==> #[trigger] marked[i] == filled_order(orders[i], outcomes[i]),
    ensures
        marked.take(k as int).filter(|o: Order| o.status != OrderStatus::Filled) == still_open(
            orders,
            outcomes,
            k,
        ),
    decreases k,
{
    reveal_with_fuel(Seq::filter, 1);
    if k > 0 {
        lemma_filter_still_open(marked, orders, outcomes, (k - 1) as nat);
        assert(marked.take(k as int).drop_last() =~= marked.take(k - 1));
        assert(marked.take(k as int).last() == marked[k - 1]);
    } else {
        assert(marked.take(0) =~= Seq::<Order>::empty());
    }
}

/// Where each entry of `log_after` comes from: the completed orders' trades,
/// the last completed first, then the earlier log unchanged.
pub proof fn lemma_log_after(done: Seq<Order>, log: Seq<Trade>)
    ensures
        log_after(done, log).len() == done.len() + log.len(),
        forall|i: int|
            0 <= i < done.len() ==> #[trigger] log_after(done, log)[i] == trade_of(
                done[done.len() - 1 - i],
            ),
        forall|j: int|
            0 <= j < log.len() ==> #[trigger] log_after(done, log)[done.len() + j] == log[j],
        log_after(done, log).subrange(done.len() as int, log_after(done, log).len() as int) == log,
    decreases done.len(),
{
    if done.len() > 0 {
        lemma_log_after(done.drop_last(), log);
        let rest = log_after(done.drop_last(), log);
        assert forall|i: int| 0 <= i < done.len() implies #[trigger] log_after(done, log)[i]
            == trade_of(done[done.len() - 1 - i]) by {
            if i > 0 {
                assert(log_after(done, log)[i] == rest[i - 1]);
            }
        }
        assert forall|j: int| 0 <= j < log.len() implies #[trigger] log_after(done, log)[done.len()
            + j] == log[j] by {
            assert(log_after(done, log)[done.len() + j] == rest[done.len() - 1 + j]);
        }
    }
    let whole = log_after(done, log);
    assert forall|j: int| 0 <= j < log.len() implies #[trigger] whole.subrange(
        done.len() as int,
        whole.len() as int,
    )[j] == log[j] by {
        assert(whole[done.len() + j] == log[j]);
    }
    assert(whole.subrange(done.len() as int, whole.len() as int) =~= log);
}

/// `x` matches, by id, symbol and side, some entry of `orders`.
pub open spec fn listed(x: Order, orders: Seq<Order>) -> bool {
    exists|p: int|
        0 <= p < orders.len() && orders[p].id == x.id && orders[p].symbol == x.symbol
            && orders[p].side == x.side
}

/// Enters, for each id in `filled` in turn, the trade of the order with that
/// id at the front of the log.
fn record_trades(
    orders: &Vec<Order>,
    filled: &Vec<u64>,
    log: &mut Vec<Trade>,
    Ghost(done): Ghost<Seq<Order>>,
)
    requires
        filled@ == done.map_values(|o: Order| o.id),
        ids_increasing(orders@),
        forall|k: int| 0 <= k < done.len() ==> listed(#[trigger] done[k], orders@),
    ensures
        final(log)@ == log_after(done, old(log)@),
{
    let ghost start = log@;
    let m = filled.len();
    let mut k: usize = 0;
    assert(done.take(0) =~= Seq::<Order>::empty());
    while k < m
        invariant
            m == filled@.len(),
            m == done.len(),
            k <= m,
            filled@ == done.map_values(|o: Order| o.id),
            ids_increasing(orders@),
            forall|k: int| 0 <= k < done.len() ==> listed(#[trigger] done[k], orders@),
            log@ == log_after(done.take(k as int), start),
        decreases m - k,
    {
        let id = filled[k];
        let ghost target = done[k as int];
        assert(listed(target, orders@));
        let ghost p0 = choose|p: int|
            0 <= p < orders@.len() && orders@[p].id == target.id && orders@[p].symbol
                == target.symbol && orders@[p].side == target.side;
        match find_order(orders, id) {
            Some(p) => {
                assert(p as int == p0) by {
                    if (p as int) < p0 {
                        assert(orders@[p as int].id < orders@[p0].id);
                    } else if (p as int) > p0 {
                        assert(orders@[p0].id != id);
                    }
                }
                let t = Trade { order_id: id, symbol: orders[p].symbol.clone(), side: orders[p].side };
                assert(t == trade_of(target));
                log.insert(0, t);
                proof {
                    let d1 = done.take(k + 1);
                    assert(d1.drop_last() =~= done.take(k as int));
                    assert(d1.last() == target);
                    assert(log@ =~= seq![trade_of(target)] + log_after(done.take(k as int), start));
                }
            },
            None => {
                assert(orders@[p0].id != id);
                assert(false);
            },
        }
        k = k + 1;
    }
    assert(done.take(m as int) =~= done);
}

/// One round of fills on the ledger: applies each outcome to the open order
/// at the same position, enters the completed orders at the front of the
/// trade log (the last completed first), and drops them from the open
/// orders. Returns the ids of the completed orders, in order.
pub fn settle_fills(
    open: &mut Vec<Order>,
    log: &mut Vec<Trade>,
    outcomes: &Vec<FillOutcome>,
    next_id: u64,
) -> (filled: Vec<u64>)
    requires
        old(open)@.len() == outcomes@.len(),
        ledger_wf(old(open)@, old(log)@, next_id),
    ensures
        final(open)@ == still_open(old(open)@, outcomes@, old(open)@.len() as nat),
        final(log)@ == log_after(
            completed(old(open)@, outcomes@, old(open)@.len() as nat),
            old(log)@,
        ),
        filled@ == completed(old(open)@, outcomes@, old(open)@.len() as nat).map_values(
            |o: Order| o.id,
        ),
        ledger_wf(final(open)@, final(log)@, next_id),
{
    let ghost orders0 = open@;
    let ghost log0 = log@;
    let ghost n = orders0.len() as nat;
    let ghost done = completed(orders0, outcomes@, n);
    proof {
        lemma_completed_ids(orders0, outcomes@, n);
        lemma_still_open_origin(orders0, outcomes@, n);
        lemma_completed_len(orders0, outcomes@, n);
    }
    let filled = mark_fills(open, outcomes);
    assert(ids_increasing(open@)) by {
        assert forall|i: int, j: int| 0 <= i < j < open@.len() implies #[trigger] open@[i].id
            < #[trigger] open@[j].id by {
            assert(open@[i] == filled_order(orders0[i], outcomes@[i]));
            assert(open@[j] == filled_order(orders0[j], outcomes@[j]));
        }
    }
    assert forall|k: int| 0 <= k < done.len() implies listed(#[trigger] done[k], open@) by {
        assert(completed_from(done[k], orders0, outcomes@, n));
        let p = choose|p: int|
            0 <= p < n && completes(orders0[p], outcomes@[p]) && done[k] == orders0[p];
        assert(open@[p] == filled_order(orders0[p], outcomes@[p]));
    }
    record_trades(open, &filled, log, Ghost(done));
    let mut marked: Vec<Order> = Vec::new();
    std::mem::swap(&mut marked, open);
    proof {
        lemma_filter_still_open(marked@, orders0, outcomes@, n);
        assert(marked@.take(n as int) =~= marked@);
    }
    *open = drop_with_status(marked, OrderStatus::Filled);
    proof {
        let new_open = open@;
        let new_log = log@;
        lemma_log_after(done, log0);
        // every open order is active and below the counter
        assert forall|i: int| 0 <= i < new_open.len() implies is_active(
            #[trigger] new_open[i].status,
        ) && new_open[i].id < next_id by {
            assert(open_from(new_open[i], orders0, outcomes@, n));
            let p = choose|p: int|
                0 <= p < n && new_open[i] == filled_order(orders0[p], outcomes@[p]) && status_after(
                    orders0[p].status,
                    outcomes@[p],
                ) != OrderStatus::Filled;
            assert(is_active(orders0[p].status));
        }
        // the new trade entries name completed orders
        assert forall|i: int| 0 <= i < done.len() implies #[trigger] new_log[i].order_id
            == done[done.len() - 1 - i].id by {}
        assert forall|i: int| 0 <= i < new_log.len() implies #[trigger] new_log[i].order_id
            < next_id by {
            if i < done.len() {
                let k = done.len() - 1 - i;
                assert(completed_from(done[k], orders0, outcomes@, n));
            } else {
                assert(log_after(done, log0)[done.len() + (i - done.len())] == log0[i - done.len()]);
            }
        }
        assert forall|i: int, j: int|
            0 <= i < new_log.len() && 0 <= j < new_log.len() && i != j implies #[trigger] new_log[i].order_id
            != #[trigger] new_log[j].order_id by {
            if i < done.len() && j < done.len() {
                let a = done.len() - 1 - i;
                let b = done.len() - 1 - j;
                if a < b {
                    assert(done[a].id < done[b].id);
                } else {
                    assert(done[b].id < done[a].id);
                }
            } else if i < done.len() {
                let a = done.len() - 1 - i;
                assert(completed_from(done[a], orders0, outcomes@, n));
                let p = choose|p: int|
                    0 <= p < n && completes(orders0[p], outcomes@[p]) && done[a] == orders0[p];
                assert(log_after(done, log0)[done.len() + (j - done.len())] == log0[j - done.len()]);
                assert(log0[j - done.len()].order_id != orders0[p].id);
            } else if j < done.len() {
                let b = done.len() - 1 - j;
                assert(completed_from(done[b], orders0, outcomes@, n));
                let p = choose|p: int|
                    0 <= p < n && completes(orders0[p], outcomes@[p]) && done[b] == orders0[p];
                assert(log_after(done, log0)[done.len() + (i - done.len())] == log0[i - done.len()]);
                assert(log0[i - done.len()].order_id != orders0[p].id);
            } else {
                assert(log_after(done, log0)[done.len() + (i - done.len())] == log0[i - done.len()]);
                assert(log_after(done, log0)[done.len() + (j - done.len())] == log0[j - done.len()]);
            }
        }
        assert forall|i: int, j: int|
            0 <= i < new_log.len() && 0 <= j < new_open.len() implies #[trigger] new_log[i].order_id
            != #[trigger] new_open[j].id by {
            assert(open_from(new_open[j], orders0, outcomes@, n));
            let q = choose|q: int|
                0 <= q < n && new_open[j] == filled_order(orders0[q], outcomes@[q]) && status_after(
                    orders0[q].status,
                    outcomes@[q],
                ) != OrderStatus::Filled;
            if i < done.len() {
                let a = done.len() - 1 - i;
                assert(completed_from(done[a], orders0, outcomes@, n));
                let p = choose|p: int|
                    0 <= p < n && completes(orders0[p], outcomes@[p]) && done[a] == orders0[p];
                if p < q {
                    assert(orders0[p].id < orders0[q].id);
                } else if q < p {
                    assert(orders0[q].id < orders0[p].id);
                }
            } else {
                assert(log_after(done, log0)[done.len() + (i - done.len())] == log0[i - done.len()]);
            }
        }
    }
    filled
}

/// Dropping the one cancelled order from orders that were otherwise all
/// active removes it at its position.
proof fn lemma_filter_one_cancelled(marked: Seq<Order>, orders: Seq<Order>, idx: int, k: int)
    requires
        marked.len() == orders.len(),
        0 <= idx < orders.len(),
        0 <= k <= orders.len(),
        marked[idx].status == OrderStatus::Cancelled,
        forall|i: int| 0 <= i < orders.len() && i != idx ==> #[trigger] marked[i] == orders[i],
        forall|i: int| 0 <= i < orders.len() ==> is_active(#[trigger] orders[i].status),
    ensures
        marked.take(k).filter(|o: Order| o.status != OrderStatus::Cancelled) == if k <= idx {
            orders.take(k)
        } else {
            orders.take(k).remove(idx)
        },
    decreases k,
{
    reveal_with_fuel(Seq::filter, 1);
    if k > 0 {
        lemma_filter_one_cancelled(marked, orders, idx, k - 1);
        assert(marked.take(k).drop_last() =~= marked.take(k - 1));
        assert(marked.take(k).last() == marked[k - 1]);
        if k - 1 == idx {
            assert(orders.take(k).remove(idx) =~= orders.take(k - 1));
        } else if k - 1 < idx {
            assert(orders.take(k) =~= orders.take(k - 1).push(orders[k - 1]));
        } else {
            assert(orders.take(k).remove(idx) =~= orders.take(k - 1).remove(idx).push(
                orders[k - 1],
            ));
        }
    } else {
        assert(marked.take(0) =~= Seq::<Order>::empty());
        assert(orders.take(0) =~= Seq::<Order>::empty());
    }
}

/// Cancels the open order at position `idx`: marks it cancelled and drops
/// the cancelled orders, which removes exactly that one.
pub fn cancel_at(open: &mut Vec<Order>, log: &Vec<Trade>, next_id: u64, idx: usize)
    requires
        idx < old(open)@.len(),
        ledger_wf(old(open)@, log@, next_id),
    ensures
        final(open)@ == old(open)@.remove(idx as int),
        ledger_wf(final(open)@, log@, next_id),
{
    let ghost orders0 = open@;
    let cancelled = Order {
        id: open[idx].id,
        symbol: open[idx].symbol.clone(),
        side: open[idx].side,
        status: OrderStatus::Cancelled,
    };
    open.set(idx, cancelled);
    let mut marked: Vec<Order> = Vec::new();
    std::mem::swap(&mut marked, open);
    proof {
        lemma_filter_one_cancelled(marked@, orders0, idx as int, orders0.len() as int);
        assert(marked@.take(orders0.len() as int) =~= marked@);
        assert(orders0.take(orders0.len() as int) =~= orders0);
    }
    *open = drop_with_status(marked, OrderStatus::Cancelled);
    proof {
        let r = open@;
        assert forall|i: int| 0 <= i < r.len() implies #[trigger] r[i] == orders0[if i < idx {
            i
        } else {
            i + 1
        }] by {}
        assert forall|i: int, j: int| 0 <= i < j < r.len() implies #[trigger] r[i].id
            < #[trigger] r[j].id by {
            let a = if i < idx { i } else { i + 1 };
            let b = if j < idx { j } else { j + 1 };
            assert(r[i] == orders0[a] && r[j] == orders0[b]);
        }
        assert forall|i: int, j: int| 0 <= i < log@.len() && 0 <= j < r.len() implies #[trigger] log@[i].order_id
            != #[trigger] r[j].id by {
            let b = if j < idx { j } else { j + 1 };
            assert(r[j] == orders0[b]);
        }
    }
}

impl Order {
    /// A copy of the order with the same fields.
    pub fn clone_order(&self) -> (r: Order)
        ensures
            r == *self,
    {
        Order { id: self.id, symbol: self.symbol.clone(), side: self.side, status: self.status }
    }
}

} // verus!
