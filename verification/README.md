# stock_trading

The backend of a simulated stock trading environment: a GraphQL API that
places buy and sell orders, shows the portfolio and the hourly price history
of a stock, and an order processor that books filled orders into the
holdings table.

- `src/` is the verified library:
  - `text.rs`: trimming and splitting of text, stated over `Seq<char>`;
  - `market.rs`: market-data addresses, HTTP success, reading the quote
    summary, and selecting the full hours of a price chart;
  - `trading.rs`: answering a placed order, and how a filled order changes
    a holding (with the laws that shares are conserved, that a purchase
    followed by an equal sale restores a holding, and that holdings stay
    positive).
- `app/` runs the two services (`api`, the default, and `process-orders`):
  HTTP, GraphQL, the database, the order queue, and the floating-point
  price arithmetic.
- `tests/` exercises the library on concrete values.
