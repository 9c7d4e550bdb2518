//! Properties that hold across calls: undo pairs, cycles, and what a round
//! of fills and a cancellation keep.

use vstd::prelude::*;
use crate::app::{
    backspaced, next_tab_index, other_field, prev_tab_index, scrolled_up, selected_index,
    symbol_char_ok, symbol_typed, typed_numeric, InputMode, OrderField, TAB_COUNT,
};
use crate::keys::{command_spec, Command, Key, KeyCode};
use crate::orders::{
    completed, completes, filled_order, ids_increasing, is_active, lemma_log_after, log_after,
    still_open, trade_of, FillOutcome, Order, OrderStatus, Trade,
};
use crate::text::{
    ascii_upper_spec, is_ascii_digit_spec, trim_end_spec, trim_spec, trim_start_spec,
    unicode_alphanumeric, unicode_whitespace,
};
use crate::view::{decimal_spec, digit_char, open_orders_caption_spec, tab_title_spec};
use crate::orders::Side;

verus! {

/// Going to the previous tab undoes going to the next tab, and the other
/// way round.
pub proof fn law_prev_tab_undoes_next_tab(i: int)
    requires
        0 <= i < TAB_COUNT,
    ensures
        prev_tab_index(next_tab_index(i)) == i,
        next_tab_index(prev_tab_index(i)) == i,
{
}

/// Going to the next tab once per tab comes back to the same tab.
pub proof fn law_tabs_cycle(i: int)
    requires
        0 <= i < TAB_COUNT,
    ensures
        next_tab_index(next_tab_index(next_tab_index(next_tab_index(next_tab_index(i))))) == i,
{
}

/// Scrolling up undoes scrolling down.
pub proof fn law_scroll_up_undoes_scroll_down(offset: int)
    requires
        0 <= offset,
    ensures
        scrolled_up(offset + 1) == offset,
        scrolled_up(0) == 0,
{
}

/// Switching the order-form field twice comes back to the same field.
pub proof fn law_toggle_twice(f: OrderField)
    ensures
        other_field(other_field(f)) == f,
{
}

/// A backspace in the symbol field undoes typing an accepted character.
pub proof fn law_symbol_backspace_undoes_char(buf: Seq<char>, c: char)
    requires
        symbol_char_ok(c),
    ensures
        backspaced(symbol_typed(buf, c)) == buf,
{
    assert(symbol_typed(buf, c).drop_last() =~= buf);
}

/// In the order form, a backspace undoes typing a character, unless the
/// character was refused (then the field is unchanged anyway).
pub proof fn law_order_backspace_undoes_char(text: Seq<char>, c: char)
    ensures
        typed_numeric(text, c) == text || backspaced(typed_numeric(text, c)) == text,
{
    if typed_numeric(text, c) != text {
        assert(typed_numeric(text, c).drop_last() =~= text);
    }
}

/// The text holds at most one decimal point.
pub open spec fn at_most_one_point(text: Seq<char>) -> bool {
    forall|i: int, j: int|
        0 <= i < text.len() && 0 <= j < text.len() && #[trigger] text[i] == '.' && #[trigger] text[j]
            == '.' ==> i == j
}

/// Typing into an order-form field never makes a second decimal point.
pub proof fn law_one_decimal_point(text: Seq<char>, c: char)
    requires
        at_most_one_point(text),
    ensures
        at_most_one_point(typed_numeric(text, c)),
{
    let t = typed_numeric(text, c);
    if t != text {
        assert forall|i: int, j: int|
            0 <= i < t.len() && 0 <= j < t.len() && #[trigger] t[i] == '.' && #[trigger] t[j]
                == '.' implies i == j by {
            if i < text.len() && j < text.len() {
                assert(t[i] == text[i] && t[j] == text[j]);
            } else if i < text.len() {
                assert(t[i] == text[i]);
                assert(c == '.');
                assert(text.contains('.'));
            } else if j < text.len() {
                assert(t[j] == text[j]);
                assert(text.contains('.'));
            }
        }
    }
}

/// Only the normal mode quits, on `q` or `Ctrl+C`; in the order form and
/// the symbol field every character is typed instead.
pub proof fn law_quit_only_in_normal_mode(mode: InputMode, key: Key)
    ensures
        command_spec(mode, key) == Command::Quit <==> (mode == InputMode::Normal && (key.code
            == KeyCode::Char('q') || (key.code == KeyCode::Char('c') && key.ctrl))),
        mode == InputMode::OrderEntry && key.code is Char ==> command_spec(mode, key)
            == Command::OrderChar(key.code->Char_0),
        mode == InputMode::SymbolInput && key.code is Char ==> command_spec(mode, key)
            == Command::SymbolChar(key.code->Char_0),
{
}

proof fn lemma_counts(orders: Seq<Order>, outcomes: Seq<FillOutcome>, n: nat)
    requires
        n <= orders.len(),
        n <= outcomes.len(),
        forall|i: int| 0 <= i < n ==> #[trigger] orders[i].status != OrderStatus::Filled,
    ensures
        still_open(orders, outcomes, n).len() + completed(orders, outcomes, n).len() == n,
    decreases n,
{
    if n > 0 {
        lemma_counts(orders, outcomes, (n - 1) as nat);
        let o = orders[n - 1];
        let f = outcomes[n - 1];
        assert(filled_order(o, f).status == OrderStatus::Filled <==> completes(o, f));
    }
}

/// A round of fills loses no order: every open order that was not already
/// filled either stays open or is completed, and each completed order adds
/// one entry to the trade log, in front of the earlier entries, which are
/// kept; the newest completed order comes first.
pub proof fn law_fills_conserve_orders(
    orders: Seq<Order>,
    outcomes: Seq<FillOutcome>,
    log: Seq<Trade>,
)
    requires
        orders.len() == outcomes.len(),
        forall|i: int| 0 <= i < orders.len() ==> #[trigger] orders[i].status != OrderStatus::Filled,
    ensures
        ({
            let n = orders.len() as nat;
            let done = completed(orders, outcomes, n);
            let new_log = log_after(done, log);
            &&& still_open(orders, outcomes, n).len() + done.len() == orders.len()
            &&& new_log.len() == log.len() + done.len()
            &&& new_log.subrange(done.len() as int, new_log.len() as int) == log
            &&& done.len() > 0 ==> new_log[0] == trade_of(done.last())
        }),
{
    let n = orders.len() as nat;
    let done = completed(orders, outcomes, n);
    lemma_counts(orders, outcomes, n);
    lemma_log_after(done, log);
}

/// Cancelling the order at a position leaves no open order with its id, and
/// keeps the other open orders in their order.
pub proof fn law_cancel_removes_only_that_order(orders: Seq<Order>, idx: int)
    requires
        ids_increasing(orders),
        0 <= idx < orders.len(),
    ensures
        forall|j: int| 0 <= j < orders.len() - 1 ==> #[trigger] orders.remove(idx)[j].id
            != orders[idx].id,
        ids_increasing(orders.remove(idx)),
        orders.remove(idx).len() == orders.len() - 1,
{
    let r = orders.remove(idx);
    assert forall|j: int| 0 <= j < orders.len() - 1 implies #[trigger] r[j].id != orders[idx].id by {
        if j < idx {
            assert(r[j] == orders[j]);
        } else {
            assert(r[j] == orders[j + 1]);
        }
    }
    assert forall|i: int, j: int| 0 <= i < j < r.len() implies #[trigger] r[i].id
        < #[trigger] r[j].id by {
        let a = if i < idx { i } else { i + 1 };
        let b = if j < idx { j } else { j + 1 };
        assert(r[i] == orders[a] && r[j] == orders[b]);
    }
}


/// Next tab goes one step along the tab bar (Chart, Order Book, Positions,
/// Trade Log, Orders) and from the last tab back to the first; previous tab
/// goes one step back, and from the first tab to the last.
pub proof fn law_tab_steps(i: int)
    requires
        0 <= i < TAB_COUNT,
    ensures
        i + 1 < TAB_COUNT ==> next_tab_index(i) == i + 1,
        i == TAB_COUNT - 1 ==> next_tab_index(i) == 0,
        i > 0 ==> prev_tab_index(i) == i - 1,
        i == 0 ==> prev_tab_index(i) == TAB_COUNT - 1,
{
}

/// The selected order is the one the scroll offset points at, or the last
/// one when the offset is past the end; it is always an open order.
pub proof fn law_selection_points_at_scroll(scroll: int, len: int)
    requires
        0 <= scroll,
        0 < len,
    ensures
        scroll < len ==> selected_index(scroll, len) == scroll,
        scroll >= len ==> selected_index(scroll, len) == len - 1,
        0 <= selected_index(scroll, len) < len,
{
}

/// Typing into an order-form field: an ASCII digit is always appended,
/// whatever the field holds; a decimal point is appended exactly when the
/// field has none; any other character leaves the field as it is.
pub proof fn law_typing_digits_and_point(text: Seq<char>, c: char)
    ensures
        is_ascii_digit_spec(c) ==> typed_numeric(text, c) == text.push(c),
        c == '.' ==> (typed_numeric(text, c) == text.push(c) <==> !text.contains('.')),
        c == '.' && text.contains('.') ==> typed_numeric(text, c) == text,
        !is_ascii_digit_spec(c) && c != '.' ==> typed_numeric(text, c) == text,
{
    if c == '.' && text.contains('.') {
        assert(text.push(c).len() != text.len());
    }
}

/// In a round of fills, an order that does not trade keeps its status (a
/// partly filled order stays partly filled), one that trades in part is
/// partly filled, and one that trades in full is filled; every other field
/// of the order is kept.
pub proof fn law_fill_outcome_status(o: Order)
    requires
        is_active(o.status),
    ensures
        filled_order(o, FillOutcome::Unfilled) == o,
        filled_order(o, FillOutcome::Partial).status == OrderStatus::PartiallyFilled,
        filled_order(o, FillOutcome::Complete).status == OrderStatus::Filled,
        filled_order(o, FillOutcome::Partial).id == o.id,
        filled_order(o, FillOutcome::Partial).symbol == o.symbol,
        filled_order(o, FillOutcome::Partial).side == o.side,
{
}

/// A round of fills in which no order trades leaves the open orders exactly
/// as they were and completes none.
pub proof fn law_quiet_round_changes_nothing(orders: Seq<Order>, outcomes: Seq<FillOutcome>)
    requires
        orders.len() == outcomes.len(),
        forall|i: int| 0 <= i < orders.len() ==> is_active(#[trigger] orders[i].status),
        forall|i: int| 0 <= i < outcomes.len() ==> #[trigger] outcomes[i] == FillOutcome::Unfilled,
    ensures
        still_open(orders, outcomes, orders.len() as nat) == orders,
        completed(orders, outcomes, orders.len() as nat).len() == 0,
{
    lemma_quiet_prefix(orders, outcomes, orders.len() as nat);
    assert(orders.take(orders.len() as int) =~= orders);
}

proof fn lemma_quiet_prefix(orders: Seq<Order>, outcomes: Seq<FillOutcome>, n: nat)
    requires
        n <= orders.len(),
        orders.len() == outcomes.len(),
        forall|i: int| 0 <= i < orders.len() ==> is_active(#[trigger] orders[i].status),
        forall|i: int| 0 <= i < outcomes.len() ==> #[trigger] outcomes[i] == FillOutcome::Unfilled,
    ensures
        still_open(orders, outcomes, n) == orders.take(n as int),
        completed(orders, outcomes, n).len() == 0,
    decreases n,
{
    if n > 0 {
        lemma_quiet_prefix(orders, outcomes, (n - 1) as nat);
        assert(is_active(orders[n - 1].status));
        assert(outcomes[n - 1] == FillOutcome::Unfilled);
        assert(orders.take(n as int) =~= orders.take(n - 1).push(orders[n - 1]));
    } else {
        assert(orders.take(0) =~= Seq::<Order>::empty());
    }
}

/// The Orders tab shows the number of open orders in brackets whenever
/// there is at least one, and only then; the other tabs never show it.
pub proof fn law_orders_tab_shows_count(i: int, n: nat)
    requires
        0 <= i < TAB_COUNT,
    ensures
        i == 4 && n > 0 ==> tab_title_spec(i, n) == "Orders"@ + " ("@ + decimal_spec(n) + ")"@,
        i == 4 && n > 0 ==> tab_title_spec(i, n) != tab_title_spec(i, 0),
        i != 4 || n == 0 ==> tab_title_spec(i, n) == tab_title_spec(i, 0),
{
    if i == 4 && n > 0 {
        assert(tab_title_spec(i, n).len() > tab_title_spec(i, 0).len());
    }
}


/// The numeric value of a string of decimal digits.
pub open spec fn digits_value(s: Seq<char>) -> int
    decreases s.len(),
{
    if s.len() == 0 {
        0
    } else {
        digits_value(s.drop_last()) * 10 + (s.last() as u32 - '0' as u32)
    }
}

/// A decimal number as shown reads back as the same number: it is made of
/// digits only, has no leading zero unless it is `0`, and its value is `n`.
pub proof fn law_decimal_reads_back(n: nat)
    ensures
        digits_value(decimal_spec(n)) == n,
        decimal_spec(n).len() > 0,
        forall|i: int| 0 <= i < decimal_spec(n).len() ==> is_ascii_digit_spec(#[trigger] decimal_spec(n)[i]),
        n > 0 ==> decimal_spec(n)[0] != '0',
    decreases n,
{
    let d = digit_char(n % 10);
    assert(d as u32 == '0' as u32 + n % 10);
    if n >= 10 {
        law_decimal_reads_back(n / 10);
        let prev = decimal_spec(n / 10);
        let cur = decimal_spec(n);
        assert(cur == prev.push(d));
        assert(cur.drop_last() =~= prev);
        assert forall|i: int| 0 <= i < cur.len() implies is_ascii_digit_spec(#[trigger] cur[i]) by {
            if i < prev.len() {
                assert(cur[i] == prev[i]);
            }
        }
        assert(cur[0] == prev[0]);
        assert(cur.last() == d);
        assert(digits_value(cur) == digits_value(prev) * 10 + (d as u32 - '0' as u32));
        assert((n / 10) * 10 + n % 10 == n);
    } else {
        let cur = decimal_spec(n);
        assert(cur == seq![d]);
        assert(cur.drop_last() =~= Seq::<char>::empty());
        assert(cur.last() == d);
        assert(digits_value(cur) == digits_value(cur.drop_last()) * 10 + (d as u32 - '0' as u32));
        assert(digits_value(Seq::<char>::empty()) == 0);
    }
}

/// The order bar counts the open orders: "no open orders" for none,
/// otherwise the number and "open order", with a plural "s" for more than one.
pub proof fn law_open_orders_caption(n: nat)
    ensures
        n == 0 ==> open_orders_caption_spec(n) == "  no open orders"@,
        n == 1 ==> open_orders_caption_spec(n) == "  "@ + decimal_spec(n) + " open order"@,
        n > 1 ==> open_orders_caption_spec(n) == "  "@ + decimal_spec(n) + " open orders"@,
{
}

/// The symbol field keeps letters and digits (ASCII letters upper-cased),
/// `-` and `.`, and refuses every other character; an ASCII lower-case
/// letter becomes the matching upper-case letter.
pub proof fn law_symbol_field_accepts(buf: Seq<char>, c: char)
    ensures
        unicode_alphanumeric(c) ==> symbol_typed(buf, c) == buf.push(ascii_upper_spec(c)),
        c == '-' ==> symbol_typed(buf, c) == buf.push('-'),
        c == '.' ==> symbol_typed(buf, c) == buf.push('.'),
        !unicode_alphanumeric(c) && c != '-' && c != '.' ==> symbol_typed(buf, c) == buf,
        'a' <= c <= 'z' ==> 'A' <= ascii_upper_spec(c) <= 'Z' && ascii_upper_spec(c) as u32 + 32
            == c as u32,
        !('a' <= c <= 'z') ==> ascii_upper_spec(c) == c,
{
}

/// The controls: in normal mode Tab and Shift+Tab switch tabs, Up or `k`
/// and Down or `j` scroll, `r` resets the view, `b` and `s` open a buy and
/// a sell form, `x` cancels the selected order, `/` changes the symbol,
/// whatever modifier is held; in the forms Esc cancels, Enter confirms,
/// Backspace deletes, and Tab switches the order-form field.
pub proof fn law_controls(ctrl: bool)
    ensures
        ({
            let n = InputMode::Normal;
            let k = |code: KeyCode| Key { code, ctrl };
            &&& command_spec(n, k(KeyCode::Tab)) == Command::NextTab
            &&& command_spec(n, k(KeyCode::BackTab)) == Command::PrevTab
            &&& command_spec(n, k(KeyCode::Up)) == Command::ScrollUp
            &&& command_spec(n, k(KeyCode::Char('k'))) == Command::ScrollUp
            &&& command_spec(n, k(KeyCode::Down)) == Command::ScrollDown
            &&& command_spec(n, k(KeyCode::Char('j'))) == Command::ScrollDown
            &&& command_spec(n, k(KeyCode::Char('r'))) == Command::ResetView
            &&& command_spec(n, k(KeyCode::Char('b'))) == Command::StartOrder(Side::Long)
            &&& command_spec(n, k(KeyCode::Char('s'))) == Command::StartOrder(Side::Short)
            &&& command_spec(n, k(KeyCode::Char('x'))) == Command::CancelSelectedOrder
            &&& command_spec(n, k(KeyCode::Char('/'))) == Command::StartSymbolInput
            &&& command_spec(InputMode::OrderEntry, k(KeyCode::Esc)) == Command::CancelOrderEntry
            &&& command_spec(InputMode::OrderEntry, k(KeyCode::Enter)) == Command::SubmitOrder
            &&& command_spec(InputMode::OrderEntry, k(KeyCode::Tab)) == Command::ToggleOrderField
            &&& command_spec(InputMode::OrderEntry, k(KeyCode::BackTab))
                == Command::ToggleOrderField
            &&& command_spec(InputMode::OrderEntry, k(KeyCode::Backspace))
                == Command::OrderBackspace
            &&& command_spec(InputMode::SymbolInput, k(KeyCode::Esc)) == Command::CancelSymbolInput
            &&& command_spec(InputMode::SymbolInput, k(KeyCode::Enter)) == Command::SubmitSymbol
            &&& command_spec(InputMode::SymbolInput, k(KeyCode::Backspace))
                == Command::SymbolBackspace
        }),
{
}


proof fn lemma_trim_start_shape(s: Seq<char>)
    ensures
        exists|i: int|
            0 <= i <= s.len() && trim_start_spec(s) == s.subrange(i, s.len() as int) && (forall|k: int|
                0 <= k < i ==> unicode_whitespace(#[trigger] s[k])),
        trim_start_spec(s).len() > 0 ==> !unicode_whitespace(trim_start_spec(s)[0]),
    decreases s.len(),
{
    if s.len() > 0 && unicode_whitespace(s[0]) {
        let t = s.drop_first();
        lemma_trim_start_shape(t);
        let i = choose|i: int|
            0 <= i <= t.len() && trim_start_spec(t) == t.subrange(i, t.len() as int) && (forall|k: int|
                0 <= k < i ==> unicode_whitespace(#[trigger] t[k]));
        assert(t.subrange(i, t.len() as int) =~= s.subrange(i + 1, s.len() as int));
        assert forall|k: int| 0 <= k < i + 1 implies unicode_whitespace(#[trigger] s[k]) by {
            if k > 0 {
                assert(s[k] == t[k - 1]);
            }
        }
    } else {
        assert(s.subrange(0, s.len() as int) =~= s);
    }
}

proof fn lemma_trim_end_shape(s: Seq<char>)
    ensures
        exists|j: int|
            0 <= j <= s.len() && trim_end_spec(s) == s.subrange(0, j) && (forall|k: int|
                j <= k < s.len() ==> unicode_whitespace(#[trigger] s[k])),
        trim_end_spec(s).len() > 0 ==> !unicode_whitespace(trim_end_spec(s).last()),
    decreases s.len(),
{
    if s.len() > 0 && unicode_whitespace(s.last()) {
        let t = s.drop_last();
        lemma_trim_end_shape(t);
        let j = choose|j: int|
            0 <= j <= t.len() && trim_end_spec(t) == t.subrange(0, j) && (forall|k: int|
                j <= k < t.len() ==> unicode_whitespace(#[trigger] t[k]));
        assert(t.subrange(0, j) =~= s.subrange(0, j));
        assert forall|k: int| j <= k < s.len() implies unicode_whitespace(#[trigger] s[k]) by {
            if k < t.len() {
                assert(s[k] == t[k]);
            }
        }
    } else {
        assert(s.subrange(0, s.len() as int) =~= s);
    }
}

/// Trimming keeps a contiguous part of the text and removes only
/// whitespace around it: what is cut off on either side is all whitespace,
/// and what is kept neither starts nor ends with whitespace.
pub proof fn law_trim_removes_only_surrounding_whitespace(s: Seq<char>)
    ensures
        exists|i: int, j: int|
            0 <= i <= j <= s.len() && trim_spec(s) == s.subrange(i, j) && (forall|k: int|
                0 <= k < i ==> unicode_whitespace(#[trigger] s[k])) && (forall|k: int|
                j <= k < s.len() ==> unicode_whitespace(#[trigger] s[k])),
        trim_spec(s).len() > 0 ==> !unicode_whitespace(trim_spec(s)[0]) && !unicode_whitespace(
            trim_spec(s).last(),
        ),
{
    let a = trim_start_spec(s);
    lemma_trim_start_shape(s);
    lemma_trim_end_shape(a);
    let i = choose|i: int|
        0 <= i <= s.len() && a == s.subrange(i, s.len() as int) && (forall|k: int|
            0 <= k < i ==> unicode_whitespace(#[trigger] s[k]));
    let j = choose|j: int|
        0 <= j <= a.len() && trim_end_spec(a) == a.subrange(0, j) && (forall|k: int|
            j <= k < a.len() ==> unicode_whitespace(#[trigger] a[k]));
    assert(a.subrange(0, j) =~= s.subrange(i, i + j));
    assert forall|k: int| i + j <= k < s.len() implies unicode_whitespace(#[trigger] s[k]) by {
        assert(s[k] == a[k - i]);
    }
    if trim_spec(s).len() > 0 {
        assert(trim_spec(s)[0] == a[0]);
    }
    assert(trim_spec(s) == s.subrange(i, i + j));
}

} // verus!
