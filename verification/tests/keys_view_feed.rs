use trading_tui::app::{FetchStatus, InputMode};
use trading_tui::feed::{
    chart_url, check_chart, require_candles, row_is_candle, ChartShape, FeedError, RowFields,
};
use trading_tui::keys::{command_for, Command, Key, KeyCode};
use trading_tui::orders::{OrderStatus, Side};
use trading_tui::text::{ascii_upper, contains_char, is_ascii_digit, is_whitespace, to_uppercase, trim};
use trading_tui::view::{
    body_view, decimal, field_with_cursor, fetch_status_label, fill_bar_text, open_orders_caption,
    order_form_title, order_side_label, order_status_label, orders_tab_title, position_side_label,
    positions_title, selected_row, tab_name, tab_titles, trade_log_offset, trade_log_title,
    trade_side_label, volume_bar_width, BodyView,
};

fn key(code: KeyCode) -> Key {
    Key { code, ctrl: false }
}

fn ctrl(c: char) -> Key {
    Key { code: KeyCode::Char(c), ctrl: true }
}

#[test]
fn normal_mode_controls() {
    let m = InputMode::Normal;
    assert_eq!(command_for(m, key(KeyCode::Char('q'))), Command::Quit);
    assert_eq!(command_for(m, ctrl('q')), Command::Quit);
    assert_eq!(command_for(m, ctrl('c')), Command::Quit);
    assert_eq!(command_for(m, key(KeyCode::Char('c'))), Command::Nothing);
    assert_eq!(command_for(m, key(KeyCode::Tab)), Command::NextTab);
    assert_eq!(command_for(m, key(KeyCode::BackTab)), Command::PrevTab);
    assert_eq!(command_for(m, key(KeyCode::Up)), Command::ScrollUp);
    assert_eq!(command_for(m, key(KeyCode::Char('k'))), Command::ScrollUp);
    assert_eq!(command_for(m, key(KeyCode::Down)), Command::ScrollDown);
    assert_eq!(command_for(m, key(KeyCode::Char('j'))), Command::ScrollDown);
    assert_eq!(command_for(m, key(KeyCode::Char('r'))), Command::ResetView);
    assert_eq!(command_for(m, key(KeyCode::Char('b'))), Command::StartOrder(Side::Long));
    assert_eq!(command_for(m, key(KeyCode::Char('s'))), Command::StartOrder(Side::Short));
    assert_eq!(command_for(m, key(KeyCode::Char('x'))), Command::CancelSelectedOrder);
    assert_eq!(command_for(m, key(KeyCode::Char('/'))), Command::StartSymbolInput);
    assert_eq!(command_for(m, key(KeyCode::Enter)), Command::Nothing);
    assert_eq!(command_for(m, key(KeyCode::Other)), Command::Nothing);
}

#[test]
fn form_controls_type_characters() {
    let o = InputMode::OrderEntry;
    assert_eq!(command_for(o, key(KeyCode::Esc)), Command::CancelOrderEntry);
    assert_eq!(command_for(o, key(KeyCode::Enter)), Command::SubmitOrder);
    assert_eq!(command_for(o, key(KeyCode::Tab)), Command::ToggleOrderField);
    assert_eq!(command_for(o, key(KeyCode::BackTab)), Command::ToggleOrderField);
    assert_eq!(command_for(o, key(KeyCode::Backspace)), Command::OrderBackspace);
    assert_eq!(command_for(o, key(KeyCode::Char('q'))), Command::OrderChar('q'));
    assert_eq!(command_for(o, ctrl('c')), Command::OrderChar('c'));
    assert_eq!(command_for(o, key(KeyCode::Up)), Command::Nothing);
    let s = InputMode::SymbolInput;
    assert_eq!(command_for(s, key(KeyCode::Esc)), Command::CancelSymbolInput);
    assert_eq!(command_for(s, key(KeyCode::Enter)), Command::SubmitSymbol);
    assert_eq!(command_for(s, key(KeyCode::Backspace)), Command::SymbolBackspace);
    assert_eq!(command_for(s, key(KeyCode::Char('q'))), Command::SymbolChar('q'));
    assert_eq!(command_for(s, key(KeyCode::Tab)), Command::Nothing);
}

#[test]
fn decimal_formatting() {
    assert_eq!(decimal(0), "0");
    assert_eq!(decimal(7), "7");
    assert_eq!(decimal(10), "10");
    assert_eq!(decimal(1200), "1200");
    assert_eq!(decimal(u64::MAX), u64::MAX.to_string());
}

#[test]
fn tab_bar_titles() {
    assert_eq!(tab_name(1), "Order Book");
    assert_eq!(
        tab_titles(0),
        vec!["Chart", "Order Book", "Positions", "Trade Log", "Orders"]
    );
    assert_eq!(tab_titles(12)[4], "Orders (12)");
    assert_eq!(tab_titles(12)[3], "Trade Log");
}

#[test]
fn labels() {
    assert_eq!(fetch_status_label(&FetchStatus::Loading), "● fetching…");
    assert_eq!(fetch_status_label(&FetchStatus::Live), "● live");
    assert_eq!(fetch_status_label(&FetchStatus::Error("x".to_string())), "● error");
    assert_eq!(order_side_label(Side::Long), "BUY");
    assert_eq!(order_side_label(Side::Short), "SELL");
    assert_eq!(trade_side_label(Side::Long), "BUY ");
    assert_eq!(position_side_label(Side::Short), "SHORT");
    assert_eq!(order_form_title(Side::Short), " SELL ORDER ");
    assert_eq!(order_status_label(OrderStatus::PartiallyFilled), "PARTIAL");
    assert_eq!(order_status_label(OrderStatus::Cancelled), "CANCELLED");
}

#[test]
fn captions_and_titles() {
    assert_eq!(open_orders_caption(0), "  no open orders");
    assert_eq!(open_orders_caption(1), "  1 open order");
    assert_eq!(open_orders_caption(3), "  3 open orders");
    assert_eq!(orders_tab_title(2), " Open Orders (2)  ↑↓ select   x = cancel ");
    assert_eq!(trade_log_title(3, 40), " Trade Log (3/40)  ↑↓ scroll  r reset ");
    assert_eq!(positions_title(0), " Open Positions  No positions. Use b/s to place orders.");
    assert_eq!(positions_title(2), " Open Positions  ");
}

#[test]
fn visible_rows_and_selection() {
    assert_eq!(trade_log_offset(5, 3, 10), 0);
    assert_eq!(trade_log_offset(5, 30, 10), 5);
    assert_eq!(trade_log_offset(25, 30, 10), 20);
    assert_eq!(selected_row(0, 3), 0);
    assert_eq!(selected_row(7, 3), 2);
}

#[test]
fn fields_bars_and_body() {
    assert_eq!(field_with_cursor(&"12.5".to_string(), true), "12.5│");
    assert_eq!(field_with_cursor(&"12.5".to_string(), false), "12.5");
    assert_eq!(fill_bar_text(3, 8), "[███░░░░░]");
    assert_eq!(fill_bar_text(0, 4), "[░░░░]");
    assert_eq!(fill_bar_text(9, 8), "[█████████]");
    assert_eq!(body_view(false, 2), BodyView::Waiting);
    assert_eq!(body_view(true, 0), BodyView::Chart);
    assert_eq!(body_view(true, 4), BodyView::Orders);
    assert_eq!(body_view(true, 7), BodyView::Blank);
    assert_eq!(body_view(false, 7), BodyView::Waiting);
    assert_eq!(volume_bar_width(40), 30);
    assert_eq!(volume_bar_width(5), 1);
    assert_eq!(volume_bar_width(11), 1);
}

#[test]
fn chart_request_and_checks() {
    assert_eq!(
        chart_url("AAPL"),
        "https://query1.finance.yahoo.com/v8/finance/chart/AAPL?interval=5m&range=5d&includePrePost=false"
    );
    let all = ChartShape {
        error: false,
        result: true,
        timestamps: true,
        open: true,
        high: true,
        low: true,
        close: true,
        volume: true,
    };
    assert_eq!(check_chart(&all), Ok(()));
    assert_eq!(check_chart(&ChartShape { error: true, result: false, ..all }), Err(FeedError::Reported));
    assert_eq!(check_chart(&ChartShape { result: false, timestamps: false, ..all }), Err(FeedError::EmptyResult));
    assert_eq!(check_chart(&ChartShape { timestamps: false, open: false, ..all }), Err(FeedError::MissingTimestamps));
    assert_eq!(check_chart(&ChartShape { open: false, ..all }), Err(FeedError::MissingOpen));
    assert_eq!(check_chart(&ChartShape { high: false, ..all }), Err(FeedError::MissingHigh));
    assert_eq!(check_chart(&ChartShape { low: false, ..all }), Err(FeedError::MissingLow));
    assert_eq!(check_chart(&ChartShape { close: false, ..all }), Err(FeedError::MissingClose));
    assert_eq!(check_chart(&ChartShape { volume: false, ..all }), Err(FeedError::MissingVolume));
    assert_eq!(require_candles(0), Err(FeedError::NoCandles));
    assert_eq!(require_candles(5), Ok(()));
    assert_eq!(FeedError::NoCandles.message(), "no candles returned");
    assert_eq!(FeedError::MissingVolume.message(), "missing volume");
    assert_eq!(FeedError::EmptyResult.message(), "empty result");
    let row = RowFields { timestamp: true, open: true, high: true, low: true, close: true };
    assert!(row_is_candle(&row));
    assert!(!row_is_candle(&RowFields { close: false, ..row }));
    assert!(!row_is_candle(&RowFields { timestamp: false, ..row }));
}

#[test]
fn text_helpers() {
    assert_eq!(ascii_upper('a'), 'A');
    assert_eq!(ascii_upper('z'), 'Z');
    assert_eq!(ascii_upper('é'), 'é');
    assert_eq!(ascii_upper('-'), '-');
    assert!(is_ascii_digit('0') && is_ascii_digit('9') && !is_ascii_digit('a'));
    assert!(contains_char("1.5", '.'));
    assert!(!contains_char("15", '.'));
    assert_eq!(trim("\t  a b \u{3000}"), "a b");
    assert_eq!(trim("   "), "");
    assert_eq!(trim(""), "");
    assert_eq!(trim(" a"), "a");
    assert_eq!(trim("\u{85}x\u{a0}"), "x");
    for c in ['\t', '\n', '\u{b}', '\u{c}', '\r', ' ', '\u{85}', '\u{a0}', '\u{1680}', '\u{2000}',
        '\u{200a}', '\u{2028}', '\u{2029}', '\u{202f}', '\u{205f}', '\u{3000}'] {
        assert!(is_whitespace(c) && c.is_whitespace());
    }
    for c in ['a', '\u{8}', '\u{e}', '\u{200b}', '\u{180e}', '\u{feff}', '\u{202a}'] {
        assert_eq!(is_whitespace(c), c.is_whitespace());
        assert!(!is_whitespace(c));
    }
    assert_eq!(to_uppercase(""), "");
    assert_eq!(to_uppercase("straße"), "STRASSE");
}
