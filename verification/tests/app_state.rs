use trading_tui::app::{App, FetchStatus, InputMode, OrderField, TAB_COUNT};
use trading_tui::orders::{OrderStatus, Side};

fn place(app: &mut App, side: Side) -> u64 {
    app.start_order(side, true, "99.50".to_string(), "100.50".to_string());
    app.submit_order(true).expect("order placed")
}

#[test]
fn new_app_starts_on_spy_chart_loading() {
    let app = App::new();
    assert_eq!(app.tab_index, 0);
    assert_eq!(app.symbol, "SPY");
    assert!(app.open_orders.is_empty());
    assert!(app.trade_log.is_empty());
    assert_eq!(app.scroll_offset, 0);
    assert_eq!(app.tick_count, 0);
    assert_eq!(app.input_mode, InputMode::Normal);
    assert!(app.order_input.is_none());
    assert!(app.symbol_buf.is_empty());
    assert_eq!(app.next_order_id, 1);
    assert_eq!(app.fetch_status, FetchStatus::Loading);
}

#[test]
fn tabs_wrap_both_ways_and_reset_scroll() {
    let mut app = App::new();
    app.scroll_offset = 3;
    app.next_tab();
    assert_eq!(app.tab_index, 1);
    assert_eq!(app.scroll_offset, 0);
    app.prev_tab();
    app.prev_tab();
    assert_eq!(app.tab_index, 4);
    for _ in 0..TAB_COUNT {
        app.next_tab();
    }
    assert_eq!(app.tab_index, 4);
    app.next_tab();
    assert_eq!(app.tab_index, 0);
}

#[test]
fn scrolling_stops_at_top_and_resets() {
    let mut app = App::new();
    app.scroll_up();
    assert_eq!(app.scroll_offset, 0);
    app.scroll_down();
    app.scroll_down();
    assert_eq!(app.scroll_offset, 2);
    app.scroll_up();
    assert_eq!(app.scroll_offset, 1);
    app.reset_view();
    assert_eq!(app.scroll_offset, 0);
}

#[test]
fn symbol_field_accepts_letters_digits_dash_dot_uppercased() {
    let mut app = App::new();
    app.start_symbol_input();
    assert_eq!(app.input_mode, InputMode::SymbolInput);
    for c in "btc-usd! .1".chars() {
        app.symbol_char(c);
    }
    assert_eq!(app.symbol_buf, "BTC-USD.1");
    app.symbol_backspace();
    assert_eq!(app.symbol_buf, "BTC-USD.");
    let fetch = app.submit_symbol();
    assert_eq!(fetch.as_deref(), Some("BTC-USD."));
    assert_eq!(app.symbol, "BTC-USD.");
    assert_eq!(app.fetch_status, FetchStatus::Loading);
    assert_eq!(app.input_mode, InputMode::Normal);
    assert!(app.symbol_buf.is_empty());
}

#[test]
fn submitted_symbol_is_trimmed_and_uppercased() {
    let mut app = App::new();
    app.fetch_status = FetchStatus::Live;
    app.start_symbol_input();
    app.symbol_buf = "  nvda\t".to_string();
    let fetch = app.submit_symbol();
    assert_eq!(fetch.as_deref(), Some("NVDA"));
    assert_eq!(app.symbol, "NVDA");
    assert_eq!(app.fetch_status, FetchStatus::Loading);
}

#[test]
fn non_ascii_letters_are_uppercased_on_submit() {
    let mut app = App::new();
    app.start_symbol_input();
    app.symbol_char('é');
    assert_eq!(app.symbol_buf, "é");
    let fetch = app.submit_symbol();
    assert_eq!(fetch.as_deref(), Some("É"));
}

#[test]
fn blank_symbol_keeps_old_symbol() {
    let mut app = App::new();
    app.fetch_status = FetchStatus::Live;
    app.start_symbol_input();
    app.symbol_buf = "   ".to_string();
    assert_eq!(app.submit_symbol(), None);
    assert_eq!(app.symbol, "SPY");
    assert_eq!(app.fetch_status, FetchStatus::Live);
    assert_eq!(app.input_mode, InputMode::Normal);
}

#[test]
fn cancel_symbol_input_discards_text() {
    let mut app = App::new();
    app.start_symbol_input();
    app.symbol_char('a');
    app.cancel_symbol_input();
    assert!(app.symbol_buf.is_empty());
    assert_eq!(app.input_mode, InputMode::Normal);
    assert_eq!(app.symbol, "SPY");
}

#[test]
fn order_form_needs_a_quote() {
    let mut app = App::new();
    app.start_order(Side::Long, false, "1".to_string(), "2".to_string());
    assert!(app.order_input.is_none());
    assert_eq!(app.input_mode, InputMode::Normal);
}

#[test]
fn order_form_prefills_opposite_side_price() {
    let mut app = App::new();
    app.start_order(Side::Long, true, "99.50".to_string(), "100.50".to_string());
    let input = app.order_input.as_ref().unwrap();
    assert_eq!(input.price, "100.50");
    assert_eq!(input.qty, "1");
    assert_eq!(input.focus, OrderField::Price);
    assert_eq!(app.input_mode, InputMode::OrderEntry);
    app.cancel_order_entry();
    assert!(app.order_input.is_none());
    app.start_order(Side::Short, true, "99.50".to_string(), "100.50".to_string());
    assert_eq!(app.order_input.as_ref().unwrap().price, "99.50");
}

#[test]
fn order_fields_take_digits_and_one_point() {
    let mut app = App::new();
    app.start_order(Side::Long, true, "9".to_string(), "1".to_string());
    for c in "2.5.x9".chars() {
        app.handle_char(c);
    }
    assert_eq!(app.order_input.as_ref().unwrap().price, "12.59");
    app.toggle_order_field();
    assert_eq!(app.order_input.as_ref().unwrap().focus, OrderField::Qty);
    app.handle_backspace();
    app.handle_backspace();
    app.handle_char('0');
    app.handle_char('.');
    app.handle_char('5');
    let input = app.order_input.as_ref().unwrap();
    assert_eq!(input.qty, "0.5");
    assert_eq!(input.price, "12.59");
    app.toggle_order_field();
    assert_eq!(app.order_input.as_ref().unwrap().focus, OrderField::Price);
}

#[test]
fn typing_without_form_does_nothing() {
    let mut app = App::new();
    app.handle_char('5');
    app.handle_backspace();
    app.toggle_order_field();
    assert!(app.order_input.is_none());
}

#[test]
fn submitted_orders_get_increasing_ids() {
    let mut app = App::new();
    assert_eq!(place(&mut app, Side::Long), 1);
    assert_eq!(place(&mut app, Side::Short), 2);
    assert_eq!(app.next_order_id, 3);
    assert_eq!(app.open_orders.len(), 2);
    let o = &app.open_orders[1];
    assert_eq!(o.id, 2);
    assert_eq!(o.side, Side::Short);
    assert_eq!(o.symbol, "SPY");
    assert_eq!(o.status, OrderStatus::Pending);
    assert_eq!(app.input_mode, InputMode::Normal);
}

#[test]
fn rejected_order_form_places_nothing() {
    let mut app = App::new();
    app.start_order(Side::Long, true, "1".to_string(), "2".to_string());
    assert_eq!(app.submit_order(false), None);
    assert!(app.open_orders.is_empty());
    assert_eq!(app.next_order_id, 1);
    assert!(app.order_input.is_none());
    assert_eq!(app.input_mode, InputMode::Normal);
    assert_eq!(app.submit_order(true), None);
}

#[test]
fn cancel_only_on_orders_tab() {
    let mut app = App::new();
    place(&mut app, Side::Long);
    assert_eq!(app.cancel_selected_order(), None);
    assert_eq!(app.open_orders.len(), 1);
    app.tab_index = 4;
    app.open_orders.clear();
    assert_eq!(app.cancel_selected_order(), None);
}

#[test]
fn cancel_removes_selected_and_moves_selection_up() {
    let mut app = App::new();
    for _ in 0..3 {
        place(&mut app, Side::Long);
    }
    app.tab_index = 4;
    app.scroll_offset = 2;
    assert_eq!(app.cancel_selected_order(), Some(3));
    let ids: Vec<u64> = app.open_orders.iter().map(|o| o.id).collect();
    assert_eq!(ids, vec![1, 2]);
    assert_eq!(app.scroll_offset, 1);
    app.scroll_offset = 0;
    assert_eq!(app.cancel_selected_order(), Some(1));
    let ids: Vec<u64> = app.open_orders.iter().map(|o| o.id).collect();
    assert_eq!(ids, vec![2]);
    assert_eq!(app.scroll_offset, 0);
}

#[test]
fn cancel_with_selection_past_end_takes_last() {
    let mut app = App::new();
    for _ in 0..3 {
        place(&mut app, Side::Short);
    }
    app.tab_index = 4;
    app.scroll_offset = 10;
    assert_eq!(app.cancel_selected_order(), Some(3));
    let ids: Vec<u64> = app.open_orders.iter().map(|o| o.id).collect();
    assert_eq!(ids, vec![1, 2]);
    assert_eq!(app.scroll_offset, 9);
}

#[test]
fn tick_schedule_and_fetch_outcomes() {
    let mut app = App::new();
    let plan = app.on_tick(None);
    assert_eq!(app.tick_count, 1);
    assert!(!plan.fluctuate);
    assert!(!plan.refresh_book);
    assert!(plan.refetch.is_none());
    let plan = app.on_tick(Some(Err("HTTP error".to_string())));
    assert_eq!(app.fetch_status, FetchStatus::Error("HTTP error".to_string()));
    assert!(plan.fluctuate);
    app.on_tick(None);
    let plan = app.on_tick(Some(Ok(())));
    assert_eq!(app.tick_count, 4);
    assert_eq!(app.fetch_status, FetchStatus::Live);
    assert!(plan.fluctuate);
    assert!(plan.refresh_book);
    assert!(plan.refetch.is_none());
    app.tick_count = 1199;
    let plan = app.on_tick(None);
    assert_eq!(plan.refetch.as_deref(), Some("SPY"));
    assert!(plan.refresh_book);
}

#[test]
fn order_backspace_undoes_typed_char() {
    let mut app = App::new();
    app.start_order(Side::Short, true, "42.1".to_string(), "43".to_string());
    app.handle_char('7');
    assert_eq!(app.order_input.as_ref().unwrap().price, "42.17");
    app.handle_backspace();
    assert_eq!(app.order_input.as_ref().unwrap().price, "42.1");
    app.handle_char('.');
    assert_eq!(app.order_input.as_ref().unwrap().price, "42.1");
}

#[test]
fn symbol_backspace_undoes_typed_char() {
    let mut app = App::new();
    app.start_symbol_input();
    app.symbol_char('t');
    app.symbol_char('x');
    app.symbol_backspace();
    assert_eq!(app.symbol_buf, "T");
    app.symbol_backspace();
    app.symbol_backspace();
    assert_eq!(app.symbol_buf, "");
}

#[test]
fn symbol_char_given_alphanumeric_flag() {
    let mut app = App::new();
    app.type_symbol_char('!', true);
    app.type_symbol_char('q', false);
    app.type_symbol_char('-', false);
    assert_eq!(app.symbol_buf, "!-");
}

#[test]
fn full_id_counter_still_closes_rejected_form() {
    let mut app = App::new();
    app.next_order_id = u64::MAX;
    app.start_order(Side::Long, true, "1".to_string(), "2".to_string());
    assert_eq!(app.submit_order(false), None);
    assert!(app.order_input.is_none());
    assert_eq!(app.input_mode, InputMode::Normal);
    assert_eq!(app.submit_order(true), None);
    assert_eq!(app.next_order_id, u64::MAX);
}

#[test]
fn leading_space_is_trimmed_on_submit() {
    let mut app = App::new();
    app.start_symbol_input();
    app.symbol_buf = " a".to_string();
    assert_eq!(app.submit_symbol().as_deref(), Some("A"));
}
