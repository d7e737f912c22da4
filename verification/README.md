# autotrade

The verified core of an automated trading platform for the Indonesian Stock
Exchange, written in Verus.

- `src/` is the library, every function verified:
  - `decimal` — money values (`Dec`) with `rust_decimal` doing the arithmetic;
  - `domain` — signals, orders, rules, positions, portfolios, errors;
  - `autotrade` — the rule engine as a state machine and its laws;
  - `simulated` — a broker that fills every order at once;
  - `repository` — in-memory orders, trade rules and analyses;
  - `rule_request` — which request bodies make a trade rule;
  - `prompt`, `json` — what the AI analyst is asked and how its replies are read;
  - `market`, `stockbit`, `clock`, `text` — the decisions of the market-data
    and brokerage adapters;
  - `dto`, `presentation`, `config`, `web` — the HTTP answers, the settings and
    the web front end's routing and formatting.
- `app/` is the HTTP server around it (Axum, Reqwest, Tokio): requests,
  JSON (de)serialization and the use-case loops.
- `tests/` runs the library on concrete values.
