//! What the views show: labels, titles, captions, bars and which rows are
//! visible. Drawing itself is left to the terminal front end.

use vstd::prelude::*;
use vstd::string::*;
use crate::app::{selected_index, FetchStatus, TAB_COUNT};
use crate::orders::{OrderStatus, Side};

verus! {

/// The character of the decimal digit `d` (`0 <= d < 10`).
pub open spec fn digit_char(d: nat) -> char {
    (('0' as u32) + d) as char
}

/// The decimal representation of `n`, without leading zeros.
pub open spec fn decimal_spec(n: nat) -> Seq<char>
    decreases n,
{
    if n < 10 {
        seq![digit_char(n)]
    } else {
        decimal_spec(n / 10).push(digit_char(n % 10))
    }
}

/// Appends the decimal representation of `n`.
pub fn push_decimal(s: &mut String, n: u64)
    ensures
        final(s)@ == old(s)@ + decimal_spec(n as nat),
    decreases n,
{
    if n >= 10 {
        push_decimal(s, n / 10);
    }
    let d: u8 = (n % 10) as u8;
    let c: char = (d + 48) as char;
    assert(c == digit_char((n % 10) as nat));
    s.push(c);
    proof {
        if n >= 10 {
            assert(decimal_spec(n as nat) == decimal_spec((n / 10) as nat).push(
                digit_char((n % 10) as nat),
            ));
        }
    }
    assert(s@ =~= old(s)@ + decimal_spec(n as nat));
}

/// The decimal representation of `n`.
pub fn decimal(n: u64) -> (r: String)
    ensures
        r@ == decimal_spec(n as nat),
{
    let mut s = String::new();
    push_decimal(&mut s, n);
    assert(s@ =~= decimal_spec(n as nat));
    s
}

/// The name of tab `i`.
pub open spec fn tab_name_spec(i: int) -> Seq<char> {
    if i == 0 {
        "Chart"@
    } else if i == 1 {
        "Order Book"@
    } else if i == 2 {
        "Positions"@
    } else if i == 3 {
        "Trade Log"@
    } else {
        "Orders"@
    }
}

/// The name of tab `i`.
pub fn tab_name(i: usize) -> (r: &'static str)
    requires
        i < TAB_COUNT,
    ensures
        r@ == tab_name_spec(i as int),
{
    if i == 0 {
        "Chart"
    } else if i == 1 {
        "Order Book"
    } else if i == 2 {
        "Positions"
    } else if i == 3 {
        "Trade Log"
    } else {
        "Orders"
    }
}

/// The title of tab `i`: its name, and for the Orders tab the number of
/// open orders in brackets when there are any.
pub open spec fn tab_title_spec(i: int, open_orders: nat) -> Seq<char> {
    if i == 4 && open_orders > 0 {
        tab_name_spec(i) + " ("@ + decimal_spec(open_orders) + ")"@
    } else {
        tab_name_spec(i)
    }
}

/// The titles of the tab bar, in order.
pub fn tab_titles(open_orders: usize) -> (titles: Vec<String>)
    ensures
        titles@.len() == TAB_COUNT,
        forall|i: int| 0 <= i < TAB_COUNT ==> #[trigger] titles@[i]@ == tab_title_spec(i, open_orders as nat),
{
    let mut titles: Vec<String> = Vec::new();
    let mut i: usize = 0;
    while i < TAB_COUNT
        invariant
            i <= TAB_COUNT,
            titles@.len() == i,
            forall|j: int| 0 <= j < i ==> #[trigger] titles@[j]@ == tab_title_spec(j, open_orders as nat),
        decreases TAB_COUNT - i,
    {
        let mut t = String::from_str(tab_name(i));
        if i == 4 && open_orders > 0 {
            t.append(" (");
            push_decimal(&mut t, open_orders as u64);
            t.append(")");
        }
        titles.push(t);
        i = i + 1;
    }
    titles
}

/// The label of the fetch status in the header.
pub fn fetch_status_label(status: &FetchStatus) -> (r: &'static str)
    ensures
        r@ == match status {
            FetchStatus::Loading => "● fetching…"@,
            FetchStatus::Live => "● live"@,
            FetchStatus::Error(_) => "● error"@,
        },
{
    match status {
        FetchStatus::Loading => "● fetching…",
        FetchStatus::Live => "● live",
        FetchStatus::Error(_) => "● error",
    }
}

/// The side of an order in the Orders tab.
pub fn order_side_label(side: Side) -> (r: &'static str)
    ensures
        r@ == if side == Side::Long { "BUY"@ } else { "SELL"@ },
{
    match side {
        Side::Long => "BUY",
        Side::Short => "SELL",
    }
}

/// The side of a trade in the Trade Log tab (both four characters wide).
pub fn trade_side_label(side: Side) -> (r: &'static str)
    ensures
        r@ == if side == Side::Long { "BUY "@ } else { "SELL"@ },
{
    match side {
        Side::Long => "BUY ",
        Side::Short => "SELL",
    }
}

/// The side of a position in the Positions tab.
pub fn position_side_label(side: Side) -> (r: &'static str)
    ensures
        r@ == if side == Side::Long { "LONG"@ } else { "SHORT"@ },
{
    match side {
        Side::Long => "LONG",
        Side::Short => "SHORT",
    }
}

/// The title of the order form.
pub fn order_form_title(side: Side) -> (r: &'static str)
    ensures
        r@ == if side == Side::Long { " BUY ORDER "@ } else { " SELL ORDER "@ },
{
    match side {
        Side::Long => " BUY ORDER ",
        Side::Short => " SELL ORDER ",
    }
}

/// The status of an order in the Orders tab.
pub fn order_status_label(status: OrderStatus) -> (r: &'static str)
    ensures
        r@ == match status {
            OrderStatus::Pending => "PENDING"@,
            OrderStatus::PartiallyFilled => "PARTIAL"@,
            OrderStatus::Filled => "FILLED"@,
            OrderStatus::Cancelled => "CANCELLED"@,
        },
{
    match status {
        OrderStatus::Pending => "PENDING",
        OrderStatus::PartiallyFilled => "PARTIAL",
        OrderStatus::Filled => "FILLED",
        OrderStatus::Cancelled => "CANCELLED",
    }
}

/// The number of open orders in the order bar.
pub open spec fn open_orders_caption_spec(n: nat) -> Seq<char> {
    if n == 0 {
        "  no open orders"@
    } else if n == 1 {
        "  "@ + decimal_spec(n) + " open order"@
    } else {
        "  "@ + decimal_spec(n) + " open orders"@
    }
}

/// The number of open orders in the order bar.
pub fn open_orders_caption(n: usize) -> (r: String)
    ensures
        r@ == open_orders_caption_spec(n as nat),
{
    if n == 0 {
        String::from_str("  no open orders")
    } else {
        let mut s = String::from_str("  ");
        push_decimal(&mut s, n as u64);
        if n == 1 {
            s.append(" open order");
        } else {
            s.append(" open orders");
        }
        s
    }
}

/// The title of the Orders tab.
pub fn orders_tab_title(n: usize) -> (r: String)
    ensures
        r@ == " Open Orders ("@ + decimal_spec(n as nat) + ")  ↑↓ select   x = cancel "@,
{
    let mut s = String::from_str(" Open Orders (");
    push_decimal(&mut s, n as u64);
    s.append(")  ↑↓ select   x = cancel ");
    s
}

/// The title of the Trade Log tab: the first visible entry and the number
/// of entries.
pub fn trade_log_title(offset: usize, len: usize) -> (r: String)
    ensures
        r@ == " Trade Log ("@ + decimal_spec(offset as nat) + "/"@ + decimal_spec(len as nat)
            + ")  ↑↓ scroll  r reset "@,
{
    let mut s = String::from_str(" Trade Log (");
    push_decimal(&mut s, offset as u64);
    s.append("/");
    push_decimal(&mut s, len as u64);
    s.append(")  ↑↓ scroll  r reset ");
    s
}

/// The title of the Positions table, with a hint when there are none.
pub fn positions_title(n: usize) -> (r: String)
    ensures
        n == 0 ==> r@ == " Open Positions  "@ + "No positions. Use b/s to place orders."@,
        n != 0 ==> r@ == " Open Positions  "@,
{
    let mut s = String::from_str(" Open Positions  ");
    if n == 0 {
        s.append("No positions. Use b/s to place orders.");
    }
    s
}

/// The first trade-log entry shown: the scroll offset, but no further than
/// where the last `visible` entries fill the view.
pub fn trade_log_offset(scroll: usize, len: usize, visible: usize) -> (off: usize)
    ensures
        off == if len > visible {
            if scroll < len - visible {
                scroll as int
            } else {
                len - visible
            }
        } else {
            0
        },
        off <= len,
{
    let last_start = len.saturating_sub(visible);
    if scroll < last_start {
        scroll
    } else {
        last_start
    }
}

/// The highlighted row of the Orders tab (the order that `x` cancels).
pub fn selected_row(scroll: usize, len: usize) -> (row: usize)
    requires
        len > 0,
    ensures
        row == selected_index(scroll as int, len as int),
        row < len,
{
    let last = len - 1;
    if scroll < last {
        scroll
    } else {
        last
    }
}

/// A form field as shown: its text, followed by a cursor when it has the
/// focus.
pub fn field_with_cursor(text: &String, active: bool) -> (r: String)
    ensures
        r@ == if active { text@ + "│"@ } else { text@ },
{
    let mut s = text.clone();
    if active {
        s.append("│");
    }
    s
}

/// `n` copies of `c`.
pub open spec fn repeat_spec(c: char, n: nat) -> Seq<char> {
    Seq::new(n, |i: int| c)
}

/// Appends `n` copies of `c`.
fn push_repeat(s: &mut String, c: char, n: usize)
    ensures
        final(s)@ == old(s)@ + repeat_spec(c, n as nat),
{
    let mut i: usize = 0;
    while i < n
        invariant
            i <= n,
            s@ == old(s)@ + repeat_spec(c, i as nat),
        decreases n - i,
    {
        s.push(c);
        i = i + 1;
        assert(s@ =~= old(s)@ + repeat_spec(c, i as nat));
    }
}

/// A fill-progress bar `width` cells wide with `filled` cells solid (all of
/// them when `filled` exceeds the width, the bar then growing with it).
pub fn fill_bar_text(filled: usize, width: usize) -> (r: String)
    ensures
        r@ == "["@ + repeat_spec('█', filled as nat) + repeat_spec(
            '░',
            if width > filled { (width - filled) as nat } else { 0 },
        ) + "]"@,
{
    let mut s = String::from_str("[");
    push_repeat(&mut s, '█', filled);
    push_repeat(&mut s, '░', width.saturating_sub(filled));
    s.append("]");
    s
}

/// What the body area shows.
#[derive(Clone, Copy, Debug, PartialEq, Eq, Structural)]
pub enum BodyView {
    /// No candles yet: a waiting message.
    Waiting,
    Chart,
    OrderBook,
    Positions,
    TradeLog,
    Orders,
    /// A tab index past the last tab: nothing is drawn.
    Blank,
}

/// What the body area shows: a waiting message until candles arrive, then
/// the selected tab (nothing for an index past the last tab).
pub fn body_view(has_candles: bool, tab_index: usize) -> (v: BodyView)
    ensures
        v == if !has_candles {
            BodyView::Waiting
        } else if tab_index == 0 {
            BodyView::Chart
        } else if tab_index == 1 {
            BodyView::OrderBook
        } else if tab_index == 2 {
            BodyView::Positions
        } else if tab_index == 3 {
            BodyView::TradeLog
        } else if tab_index == 4 {
            BodyView::Orders
        } else {
            BodyView::Blank
        },
{
    if !has_candles {
        BodyView::Waiting
    } else {
        match tab_index {
            0 => BodyView::Chart,
            1 => BodyView::OrderBook,
            2 => BodyView::Positions,
            3 => BodyView::TradeLog,
            4 => BodyView::Orders,
            _ => BodyView::Blank,
        }
    }
}

/// Width of the volume-profile bars: the panel width less its price label
/// and borders, at least one cell.
pub fn volume_bar_width(panel_width: u16) -> (w: usize)
    ensures
        w == if panel_width > 11 { panel_width - 10 } else { 1 },
{
    let w: usize = panel_width.saturating_sub(10) as usize;
    if w < 1 {
        1
    } else {
        w
    }
}

} // verus!
