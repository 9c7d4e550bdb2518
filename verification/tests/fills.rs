use trading_tui::app::App;
use trading_tui::orders::{FillOutcome, OrderStatus, Side};

fn app_with_orders(n: usize) -> App {
    let mut app = App::new();
    for i in 0..n {
        let side = if i % 2 == 0 { Side::Long } else { Side::Short };
        app.start_order(side, true, "10".to_string(), "11".to_string());
        app.submit_order(true);
    }
    app
}

#[test]
fn fills_move_completed_orders_to_trade_log_newest_first() {
    let mut app = app_with_orders(4);
    let outcomes = vec![
        FillOutcome::Complete,
        FillOutcome::Partial,
        FillOutcome::Unfilled,
        FillOutcome::Complete,
    ];
    let filled = app.apply_fills(&outcomes);
    assert_eq!(filled, vec![1, 4]);
    let open: Vec<(u64, OrderStatus)> = app.open_orders.iter().map(|o| (o.id, o.status)).collect();
    assert_eq!(open, vec![(2, OrderStatus::PartiallyFilled), (3, OrderStatus::Pending)]);
    let log: Vec<(u64, Side)> = app.trade_log.iter().map(|t| (t.order_id, t.side)).collect();
    assert_eq!(log, vec![(4, Side::Short), (1, Side::Long)]);
    assert!(app.trade_log.iter().all(|t| t.symbol == "SPY"));
}

#[test]
fn later_fills_go_in_front_of_earlier_trades() {
    let mut app = app_with_orders(3);
    app.apply_fills(&vec![FillOutcome::Unfilled, FillOutcome::Complete, FillOutcome::Unfilled]);
    let filled = app.apply_fills(&vec![FillOutcome::Complete, FillOutcome::Complete]);
    assert_eq!(filled, vec![1, 3]);
    assert!(app.open_orders.is_empty());
    let log: Vec<u64> = app.trade_log.iter().map(|t| t.order_id).collect();
    assert_eq!(log, vec![3, 1, 2]);
}

#[test]
fn no_fills_changes_nothing() {
    let mut app = app_with_orders(2);
    let filled = app.apply_fills(&vec![FillOutcome::Unfilled, FillOutcome::Unfilled]);
    assert!(filled.is_empty());
    assert_eq!(app.open_orders.len(), 2);
    assert!(app.open_orders.iter().all(|o| o.status == OrderStatus::Pending));
    assert!(app.trade_log.is_empty());
    let mut empty = App::new();
    assert!(empty.apply_fills(&vec![]).is_empty());
}

#[test]
fn partial_fill_then_completion() {
    let mut app = app_with_orders(1);
    app.apply_fills(&vec![FillOutcome::Partial]);
    assert_eq!(app.open_orders[0].status, OrderStatus::PartiallyFilled);
    app.apply_fills(&vec![FillOutcome::Partial]);
    assert_eq!(app.open_orders[0].status, OrderStatus::PartiallyFilled);
    let filled = app.apply_fills(&vec![FillOutcome::Complete]);
    assert_eq!(filled, vec![1]);
    assert!(app.open_orders.is_empty());
    assert_eq!(app.trade_log.len(), 1);
}

#[test]
fn order_ids_never_reused_after_fill_or_cancel() {
    let mut app = app_with_orders(2);
    app.apply_fills(&vec![FillOutcome::Complete, FillOutcome::Unfilled]);
    app.tab_index = 4;
    app.cancel_selected_order();
    app.start_order(Side::Long, true, "1".to_string(), "2".to_string());
    assert_eq!(app.submit_order(true), Some(3));
    let open: Vec<u64> = app.open_orders.iter().map(|o| o.id).collect();
    assert_eq!(open, vec![3]);
    let log: Vec<u64> = app.trade_log.iter().map(|t| t.order_id).collect();
    assert_eq!(log, vec![1]);
}
