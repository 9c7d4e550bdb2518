# trading_tui

A terminal trading dashboard: live prices from Yahoo Finance, a simulated
order book, an order form with simulated fills, a trade log, and a volume
profile.

- `src/` is the verified library. `app` holds the interaction state and its
  invariant; `orders` the order lifecycle and what a round of fills does;
  `keys` the key bindings; `view` the text the screens show; `feed` the
  chart request and the checks on its response; `text` the character and
  string helpers; `laws` properties that span several calls.
- `app/` is the terminal program around it: the HTTP fetch, floating-point
  prices and volumes, the random simulation, and drawing with ratatui.
  Prices and amounts of orders and trades are kept there under the order id.
