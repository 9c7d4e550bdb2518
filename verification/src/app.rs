//! The dashboard's interaction state: tabs, scrolling, symbol entry, the
//! order form, the fetch status, and the open orders and trade log.
//!
//! Market prices are not held here. Where a decision needs them (whether a
//! quote is ready, whether an order form parses to a valid order, how an
//! order fills) the caller makes that decision and passes its result in.

use vstd::prelude::*;
use crate::orders::{
    cancel_at, completed, ledger_wf, log_after, settle_fills, still_open, FillOutcome, Order, OrderStatus,
    Side, Trade,
};
use crate::text::{
    contains_char, is_alphanumeric, is_ascii_digit, is_ascii_digit_spec, ascii_upper,
    ascii_upper_spec, to_uppercase, trim, trim_spec, unicode_alphanumeric, unicode_uppercase,
};

verus! {

/// Number of tabs: Chart, Order Book, Positions, Trade Log, Orders.
pub const TAB_COUNT: usize = 5;

/// Index of the Orders tab.
pub const ORDERS_TAB: usize = 4;

/// Every how many ticks the simulated order book is rebuilt (a tick is 250 ms).
pub const BOOK_REFRESH_TICKS: u64 = 4;

/// Every how many ticks market data is fetched again (about five minutes).
pub const REFETCH_TICKS: u64 = 1200;

/// What keystrokes currently edit.
#[derive(Clone, Copy, Debug, PartialEq, Eq, Structural)]
pub enum InputMode {
    Normal,
    OrderEntry,
    SymbolInput,
}

/// The field of the order form that has the focus.
#[derive(Clone, Copy, Debug, PartialEq, Eq, Structural)]
pub enum OrderField {
    Price,
    Qty,
}

/// The order form being filled in.
#[derive(Debug)]
pub struct OrderInput {
    pub side: Side,
    pub price: String,
    pub qty: String,
    pub focus: OrderField,
}

/// State of the market-data fetch.
#[derive(Clone, Debug, PartialEq)]
pub enum FetchStatus {
    Loading,
    Live,
    Error(String),
}

/// What the caller is to do after a tick.
#[derive(Debug)]
pub struct TickPlan {
    /// Market data may be nudged (when real data is present).
    pub fluctuate: bool,
    /// The simulated order book is due to be rebuilt.
    pub refresh_book: bool,
    /// Market data for this symbol is due to be fetched again.
    pub refetch: Option<String>,
}

/// The dashboard's interaction state.
pub struct App {
    pub tab_index: usize,
    pub symbol: String,
    pub open_orders: Vec<Order>,
    pub trade_log: Vec<Trade>,
    pub scroll_offset: usize,
    pub tick_count: u64,
    pub input_mode: InputMode,
    pub order_input: Option<OrderInput>,
    pub symbol_buf: String,
    pub next_order_id: u64,
    pub fetch_status: FetchStatus,
}

/// The tab after `i`, wrapping around.
pub open spec fn next_tab_index(i: int) -> int {
    (i + 1) % (TAB_COUNT as int)
}

/// The tab before `i`, wrapping around.
pub open spec fn prev_tab_index(i: int) -> int {
    (i + TAB_COUNT - 1) % (TAB_COUNT as int)
}

/// Characters that the symbol field accepts.
pub open spec fn symbol_char_ok(c: char) -> bool {
    unicode_alphanumeric(c) || c == '-' || c == '.'
}

/// The symbol field after typing `c`: accepted characters are appended,
/// ASCII letters upper-cased.
pub open spec fn symbol_typed(buf: Seq<char>, c: char) -> Seq<char> {
    if symbol_char_ok(c) {
        buf.push(ascii_upper_spec(c))
    } else {
        buf
    }
}

/// A text field after a backspace: its last character, if any, is gone.
pub open spec fn backspaced(text: Seq<char>) -> Seq<char> {
    if text.len() > 0 {
        text.drop_last()
    } else {
        text
    }
}

/// The scroll offset after scrolling up one line (it stops at the top).
pub open spec fn scrolled_up(offset: int) -> int {
    if offset > 0 {
        offset - 1
    } else {
        0
    }
}

/// The symbol that a submitted symbol buffer stands for.
pub open spec fn submitted_symbol(buf: Seq<char>) -> Seq<char> {
    unicode_uppercase(trim_spec(buf))
}

/// A numeric form field after typing `c`: digits are appended, and so is a
/// decimal point when the field holds none yet.
pub open spec fn typed_numeric(text: Seq<char>, c: char) -> Seq<char> {
    if is_ascii_digit_spec(c) || (c == '.' && !text.contains('.')) {
        text.push(c)
    } else {
        text
    }
}

/// The text of one field of the order form.
pub open spec fn field_text(input: OrderInput, f: OrderField) -> Seq<char> {
    match f {
        OrderField::Price => input.price@,
        OrderField::Qty => input.qty@,
    }
}

/// The other field of the order form.
pub open spec fn other_field(f: OrderField) -> OrderField {
    match f {
        OrderField::Price => OrderField::Qty,
        OrderField::Qty => OrderField::Price,
    }
}

/// The order form after an edit of its focused field that leaves the focused
/// field's text as `text`.
pub open spec fn edited(old_input: OrderInput, new_input: OrderInput, text: Seq<char>) -> bool {
    &&& new_input.side == old_input.side
    &&& new_input.focus == old_input.focus
    &&& field_text(new_input, old_input.focus) == text
    &&& field_text(new_input, other_field(old_input.focus)) == field_text(
        old_input,
        other_field(old_input.focus),
    )
}

/// The position in the open orders that the selection (the scroll offset)
/// points at.
pub open spec fn selected_index(scroll: int, len: int) -> int {
    if scroll < len - 1 {
        scroll
    } else {
        len - 1
    }
}

impl App {
    /// The state's invariant: the tab exists, order ids are handed out from
    /// a counter that starts at 1, the open orders and the trade log agree
    /// (see `ledger_wf`), and the order-entry mode always has a form.
    pub open spec fn wf(&self) -> bool {
        &&& self.tab_index < TAB_COUNT
        &&& self.next_order_id >= 1
        &&& ledger_wf(self.open_orders@, self.trade_log@, self.next_order_id)
        &&& (self.input_mode == InputMode::OrderEntry ==> self.order_input is Some)
    }

    /// The start-up state: the SPY symbol on the Chart tab, nothing typed,
    /// no orders, and market data still loading.
    pub fn new() -> (app: App)
        ensures
            app.wf(),
            app.tab_index == 0,
            app.symbol@ == "SPY"@,
            app.open_orders@.len() == 0,
            app.trade_log@.len() == 0,
            app.scroll_offset == 0,
            app.tick_count == 0,
            app.input_mode == InputMode::Normal,
            app.order_input is None,
            app.symbol_buf@.len() == 0,
            app.next_order_id == 1,
            app.fetch_status == FetchStatus::Loading,
    {
        App {
            tab_index: 0,
            symbol: String::from_str("SPY"),
            open_orders: Vec::new(),
            trade_log: Vec::new(),
            scroll_offset: 0,
            tick_count: 0,
            input_mode: InputMode::Normal,
            order_input: None,
            symbol_buf: String::new(),
            next_order_id: 1,
            fetch_status: FetchStatus::Loading,
        }
    }

    // ─── navigation ──────────────────────────────────────────────────────

    /// Moves to the next tab (wrapping) and resets the scroll position.
    pub fn next_tab(&mut self)
        requires
            old(self).wf(),
        ensures
            final(self).wf(),
            *final(self) == (App {
                tab_index: next_tab_index(old(self).tab_index as int) as usize,
                scroll_offset: 0,
                ..*old(self)
            }),
    {
        self.tab_index = (self.tab_index + 1) % TAB_COUNT;
        self.scroll_offset = 0;
    }

    /// Moves to the previous tab (wrapping) and resets the scroll position.
    pub fn prev_tab(&mut self)
        requires
            old(self).wf(),
        ensures
            final(self).wf(),
            *final(self) == (App {
                tab_index: prev_tab_index(old(self).tab_index as int) as usize,
                scroll_offset: 0,
                ..*old(self)
            }),
    {
        self.tab_index = (self.tab_index + TAB_COUNT - 1) % TAB_COUNT;
        self.scroll_offset = 0;
    }

    /// Scrolls up one line, stopping at the top.
    pub fn scroll_up(&mut self)
        requires
            old(self).wf(),
        ensures
            final(self).wf(),
            *final(self) == (App {
                scroll_offset: scrolled_up(old(self).scroll_offset as int) as usize,
                ..*old(self)
            }),
    {
        self.scroll_offset = self.scroll_offset.saturating_sub(1);
    }

    /// Scrolls down one line.
    pub fn scroll_down(&mut self)
        requires
            old(self).wf(),
            old(self).scroll_offset < usize::MAX,
        ensures
            final(self).wf(),
            *final(self) == (App { scroll_offset: (old(self).scroll_offset + 1) as usize, ..*old(self) }),
    {
        self.scroll_offset = self.scroll_offset + 1;
    }

    /// Scrolls back to the top.
    pub fn reset_view(&mut self)
        requires
            old(self).wf(),
        ensures
            final(self).wf(),
            *final(self) == (App { scroll_offset: 0, ..*old(self) }),
    {
        self.scroll_offset = 0;
    }

    // ─── symbol input ────────────────────────────────────────────────────

    /// Opens the symbol field, empty.
    pub fn start_symbol_input(&mut self)
        requires
            old(self).wf(),
        ensures
            final(self).wf(),
            final(self).symbol_buf@.len() == 0,
            *final(self) == (App {
                input_mode: InputMode::SymbolInput,
                symbol_buf: final(self).symbol_buf,
                ..*old(self)
            }),
    {
        self.symbol_buf.clear();
        self.input_mode = InputMode::SymbolInput;
    }

    /// Closes the symbol field, discarding what was typed.
    pub fn cancel_symbol_input(&mut self)
        requires
            old(self).wf(),
        ensures
            final(self).wf(),
            final(self).symbol_buf@.len() == 0,
            *final(self) == (App {
                input_mode: InputMode::Normal,
                symbol_buf: final(self).symbol_buf,
                ..*old(self)
            }),
    {
        self.symbol_buf.clear();
        self.input_mode = InputMode::Normal;
    }

    /// Submits the symbol field: the typed text, trimmed and upper-cased,
    /// becomes the symbol unless it is empty. Returns the symbol whose
    /// market data is to be fetched, if any.
    pub fn submit_symbol(&mut self) -> (fetch: Option<String>)
        requires
            old(self).wf(),
        ensures
            final(self).wf(),
            final(self).symbol_buf@.len() == 0,
            final(self).input_mode == InputMode::Normal,
            submitted_symbol(old(self).symbol_buf@).len() > 0 ==> {
                &&& final(self).symbol@ == submitted_symbol(old(self).symbol_buf@)
                &&& final(self).fetch_status == FetchStatus::Loading
                &&& fetch matches Some(s) && s@ == submitted_symbol(old(self).symbol_buf@)
            },
            submitted_symbol(old(self).symbol_buf@).len() == 0 ==> {
                &&& final(self).symbol == old(self).symbol
                &&& final(self).fetch_status == old(self).fetch_status
                &&& fetch is None
            },
            *final(self) == (App {
                symbol: final(self).symbol,
                fetch_status: final(self).fetch_status,
                symbol_buf: final(self).symbol_buf,
                input_mode: final(self).input_mode,
                ..*old(self)
            }),
    {
        let trimmed = trim(self.symbol_buf.as_str());
        let sym = to_uppercase(trimmed.as_str());
        self.commit_symbol(sym)
    }

    /// Closes the symbol field with `sym` as the submitted symbol: when `sym`
    /// is not empty it becomes the symbol and its data starts loading.
    /// Returns the symbol whose market data is to be fetched, if any.
    pub fn commit_symbol(&mut self, sym: String) -> (fetch: Option<String>)
        requires
            old(self).wf(),
        ensures
            final(self).wf(),
            final(self).symbol_buf@.len() == 0,
            final(self).input_mode == InputMode::Normal,
            sym@.len() > 0 ==> {
                &&& final(self).symbol == sym
                &&& final(self).fetch_status == FetchStatus::Loading
                &&& fetch == Some(sym)
            },
            sym@.len() == 0 ==> {
                &&& final(self).symbol == old(self).symbol
                &&& final(self).fetch_status == old(self).fetch_status
                &&& fetch is None
            },
            *final(self) == (App {
                symbol: final(self).symbol,
                fetch_status: final(self).fetch_status,
                symbol_buf: final(self).symbol_buf,
                input_mode: final(self).input_mode,
                ..*old(self)
            }),
    {
        let mut fetch: Option<String> = None;
        if !sym.as_str().is_empty() {
            self.symbol = sym.clone();
            self.fetch_status = FetchStatus::Loading;
            fetch = Some(sym);
        }
        self.symbol_buf.clear();
        self.input_mode = InputMode::Normal;
        fetch
    }

    /// Types one character into the symbol field: letters, digits, `-` and
    /// `.` are kept, ASCII letters upper-cased; anything else is ignored.
    pub fn symbol_char(&mut self, c: char)
        requires
            old(self).wf(),
        ensures
            final(self).wf(),
            final(self).symbol_buf@ == symbol_typed(old(self).symbol_buf@, c),
            *final(self) == (App { symbol_buf: final(self).symbol_buf, ..*old(self) }),
    {
        let alphanumeric = is_alphanumeric(c);
        self.type_symbol_char(c, alphanumeric);
    }

    /// Types `c` into the symbol field, given whether `c` is alphanumeric:
    /// alphanumeric characters, `-` and `.` are appended, ASCII letters
    /// upper-cased; anything else is ignored.
    pub fn type_symbol_char(&mut self, c: char, alphanumeric: bool)
        requires
            old(self).wf(),
        ensures
            final(self).wf(),
            final(self).symbol_buf@ == if alphanumeric || c == '-' || c == '.' {
                old(self).symbol_buf@.push(ascii_upper_spec(c))
            } else {
                old(self).symbol_buf@
            },
            *final(self) == (App { symbol_buf: final(self).symbol_buf, ..*old(self) }),
    {
        if alphanumeric || c == '-' || c == '.' {
            self.symbol_buf.push(ascii_upper(c));
        }
    }

    /// Deletes the last character of the symbol field, if any.
    pub fn symbol_backspace(&mut self)
        requires
            old(self).wf(),
        ensures
            final(self).wf(),
            final(self).symbol_buf@ == backspaced(old(self).symbol_buf@),
            *final(self) == (App { symbol_buf: final(self).symbol_buf, ..*old(self) }),
    {
        self.symbol_buf.pop();
    }

    // ─── order entry ─────────────────────────────────────────────────────

    /// Opens the order form for `side`, pre-filled with the price on the
    /// other side of the book (the ask for a buy, the bid for a sell) and a
    /// quantity of 1. Nothing happens while no quote is `ready`.
    pub fn start_order(&mut self, side: Side, ready: bool, bid_text: String, ask_text: String)
        requires
            old(self).wf(),
        ensures
            final(self).wf(),
            !ready ==> *final(self) == *old(self),
            ready ==> {
                &&& final(self).order_input matches Some(input) && {
                    &&& input.side == side
                    &&& input.price == (if side == Side::Long { ask_text } else { bid_text })
                    &&& input.qty@ == "1"@
                    &&& input.focus == OrderField::Price
                }
                &&& *final(self) == (App {
                    order_input: final(self).order_input,
                    input_mode: InputMode::OrderEntry,
                    ..*old(self)
                })
            },
    {
        if !ready {
            return;
        }
        let price = match side {
            Side::Long => ask_text,
            Side::Short => bid_text,
        };
        self.order_input = Some(
            OrderInput { side, price, qty: String::from_str("1"), focus: OrderField::Price },
        );
        self.input_mode = InputMode::OrderEntry;
    }

    /// Closes the order form without placing an order.
    pub fn cancel_order_entry(&mut self)
        requires
            old(self).wf(),
        ensures
            final(self).wf(),
            *final(self) == (App {
                order_input: None,
                input_mode: InputMode::Normal,
                ..*old(self)
            }),
    {
        self.order_input = None;
        self.input_mode = InputMode::Normal;
    }

    /// Closes the order form and, when a form was open and its fields make a
    /// valid order (`accepted`: positive price and quantity), places a
    /// pending order for the current symbol under the next order id, which
    /// it returns.
    pub fn submit_order(&mut self, accepted: bool) -> (placed: Option<u64>)
        requires
            old(self).wf(),
            (old(self).order_input is Some && accepted) ==> old(self).next_order_id < u64::MAX,
        ensures
            final(self).wf(),
            final(self).order_input is None,
            final(self).input_mode == InputMode::Normal,
            (old(self).order_input is Some && accepted) ==> {
                &&& placed == Some(old(self).next_order_id)
                &&& final(self).next_order_id == old(self).next_order_id + 1
                &&& final(self).open_orders@ == old(self).open_orders@.push(
                    Order {
                        id: old(self).next_order_id,
                        symbol: old(self).symbol,
                        side: old(self).order_input->0.side,
                        status: OrderStatus::Pending,
                    },
                )
            },
            !(old(self).order_input is Some && accepted) ==> {
                &&& placed is None
                &&& final(self).next_order_id == old(self).next_order_id
                &&& final(self).open_orders == old(self).open_orders
            },
            *final(self) == (App {
                order_input: None,
                input_mode: InputMode::Normal,
                open_orders: final(self).open_orders,
                next_order_id: final(self).next_order_id,
                ..*old(self)
            }),
    {
        let mut placed: Option<u64> = None;
        match self.order_input.take() {
            Some(input) => {
                if accepted {
                    let id = self.next_order_id;
                    self.open_orders.push(
                        Order {
                            id,
                            symbol: self.symbol.clone(),
                            side: input.side,
                            status: OrderStatus::Pending,
                        },
                    );
                    self.next_order_id = id + 1;
                    placed = Some(id);
                }
            },
            None => {},
        }
        self.input_mode = InputMode::Normal;
        placed
    }

    /// Types one character into the focused field of the order form: digits
    /// are appended, and so is a decimal point when the field has none yet.
    pub fn handle_char(&mut self, c: char)
        requires
            old(self).wf(),
        ensures
            final(self).wf(),
            old(self).order_input is None ==> *final(self) == *old(self),
            old(self).order_input matches Some(input) ==> {
                &&& final(self).order_input matches Some(new_input) && edited(
                    input,
                    new_input,
                    typed_numeric(field_text(input, input.focus), c),
                )
                &&& *final(self) == (App { order_input: final(self).order_input, ..*old(self) })
            },
    {
        if let Some(input) = &mut self.order_input {
            match input.focus {
                OrderField::Price => {
                    if is_ascii_digit(c) || (c == '.' && !contains_char(input.price.as_str(), '.')) {
                        input.price.push(c);
                    }
                },
                OrderField::Qty => {
                    if is_ascii_digit(c) || (c == '.' && !contains_char(input.qty.as_str(), '.')) {
                        input.qty.push(c);
                    }
                },
            }
        }
    }

    /// Deletes the last character of the focused field of the order form.
    pub fn handle_backspace(&mut self)
        requires
            old(self).wf(),
        ensures
            final(self).wf(),
            old(self).order_input is None ==> *final(self) == *old(self),
            old(self).order_input matches Some(input) ==> {
                &&& final(self).order_input matches Some(new_input) && edited(
                    input,
                    new_input,
                    backspaced(field_text(input, input.focus)),
                )
                &&& *final(self) == (App { order_input: final(self).order_input, ..*old(self) })
            },
    {
        if let Some(input) = &mut self.order_input {
            match input.focus {
                OrderField::Price => {
                    input.price.pop();
                },
                OrderField::Qty => {
                    input.qty.pop();
                },
            }
        }
    }

    /// Moves the focus of the order form to its other field.
    pub fn toggle_order_field(&mut self)
        requires
            old(self).wf(),
        ensures
            final(self).wf(),
            old(self).order_input is None ==> *final(self) == *old(self),
            old(self).order_input matches Some(input) ==> {
                &&& final(self).order_input == Some(
                    OrderInput { focus: other_field(input.focus), ..input },
                )
                &&& *final(self) == (App { order_input: final(self).order_input, ..*old(self) })
            },
    {
        if let Some(input) = &mut self.order_input {
            input.focus = match input.focus {
                OrderField::Price => OrderField::Qty,
                OrderField::Qty => OrderField::Price,
            };
        }
    }

    /// On the Orders tab, cancels the selected open order (the one the
    /// scroll offset points at, or the last one): it leaves the open orders,
    /// and the selection moves up when it would point past the end. Returns
    /// the id of the cancelled order.
    pub fn cancel_selected_order(&mut self) -> (cancelled: Option<u64>)
        requires
            old(self).wf(),
        ensures
            final(self).wf(),
            !(old(self).tab_index == ORDERS_TAB && old(self).open_orders@.len() > 0) ==> {
                &&& *final(self) == *old(self)
                &&& cancelled is None
            },
            (old(self).tab_index == ORDERS_TAB && old(self).open_orders@.len() > 0) ==> {
                let idx = selected_index(
                    old(self).scroll_offset as int,
                    old(self).open_orders@.len() as int,
                );
                let left = old(self).open_orders@.len() - 1;
                &&& final(self).open_orders@ == old(self).open_orders@.remove(idx)
                &&& cancelled == Some(old(self).open_orders@[idx].id)
                &&& final(self).scroll_offset == if old(self).scroll_offset > 0
                    && old(self).scroll_offset >= left {
                    (old(self).scroll_offset - 1) as usize
                } else {
                    old(self).scroll_offset
                }
                &&& *final(self) == (App {
                    open_orders: final(self).open_orders,
                    scroll_offset: final(self).scroll_offset,
                    ..*old(self)
                })
            },
    {
        if self.tab_index == ORDERS_TAB && !self.open_orders.is_empty() {
            let last = self.open_orders.len() - 1;
            let idx = if self.scroll_offset < last {
                self.scroll_offset
            } else {
                last
            };
            let id = self.open_orders[idx].id;
            cancel_at(&mut self.open_orders, &self.trade_log, self.next_order_id, idx);
            if self.scroll_offset > 0 && self.scroll_offset >= self.open_orders.len() {
                self.scroll_offset = self.scroll_offset - 1;
            }
            Some(id)
        } else {
            None
        }
    }

    // ─── ticks ───────────────────────────────────────────────────────────

    /// Advances the clock by one tick. `fetched` is the outcome of a market
    /// data fetch that finished since the last tick, if any: success makes
    /// the data live, failure records the error. Returns what is due now:
    /// nudging the market data once any fetch has finished, rebuilding the
    /// order book every fourth tick, and fetching again every 1200th tick.
    pub fn on_tick(&mut self, fetched: Option<Result<(), String>>) -> (plan: TickPlan)
        requires
            old(self).wf(),
            old(self).tick_count < u64::MAX,
        ensures
            final(self).wf(),
            final(self).tick_count == old(self).tick_count + 1,
            final(self).fetch_status == match fetched {
                None => old(self).fetch_status,
                Some(Ok(())) => FetchStatus::Live,
                Some(Err(e)) => FetchStatus::Error(e),
            },
            *final(self) == (App {
                tick_count: final(self).tick_count,
                fetch_status: final(self).fetch_status,
                ..*old(self)
            }),
            plan.fluctuate == !(final(self).fetch_status is Loading),
            plan.refresh_book == (final(self).tick_count % BOOK_REFRESH_TICKS == 0),
            plan.refetch == if final(self).tick_count % REFETCH_TICKS == 0 {
                Some(old(self).symbol)
            } else {
                None
            },
    {
        self.tick_count = self.tick_count + 1;
        match fetched {
            Some(Ok(())) => {
                self.fetch_status = FetchStatus::Live;
            },
            Some(Err(e)) => {
                self.fetch_status = FetchStatus::Error(e);
            },
            None => {},
        }
        let fluctuate = match &self.fetch_status {
            FetchStatus::Loading => false,
            FetchStatus::Live => true,
            FetchStatus::Error(_) => true,
        };
        let refresh_book = self.tick_count % BOOK_REFRESH_TICKS == 0;
        let refetch = if self.tick_count % REFETCH_TICKS == 0 {
            Some(self.symbol.clone())
        } else {
            None
        };
        TickPlan { fluctuate, refresh_book, refetch }
    }

    /// Applies one round of simulated fills: `outcomes[i]` is what happened
    /// to the open order at position `i`. Completed orders leave the open
    /// orders and enter the trade log at its front (the last completed
    /// first); partly filled ones stay open as partially filled. Returns the
    /// ids of the completed orders, in order.
    pub fn apply_fills(&mut self, outcomes: &Vec<FillOutcome>) -> (filled: Vec<u64>)
        requires
            old(self).wf(),
            outcomes@.len() == old(self).open_orders@.len(),
        ensures
            final(self).wf(),
            final(self).open_orders@ == still_open(
                old(self).open_orders@,
                outcomes@,
                old(self).open_orders@.len() as nat,
            ),
            final(self).trade_log@ == log_after(
                completed(old(self).open_orders@, outcomes@, old(self).open_orders@.len() as nat),
                old(self).trade_log@,
            ),
            filled@ == completed(
                old(self).open_orders@,
                outcomes@,
                old(self).open_orders@.len() as nat,
            ).map_values(|o: Order| o.id),
            *final(self) == (App {
                open_orders: final(self).open_orders,
                trade_log: final(self).trade_log,
                ..*old(self)
            }),
    {
        settle_fills(&mut self.open_orders, &mut self.trade_log, outcomes, self.next_order_id)
    }
}

} // verus!
