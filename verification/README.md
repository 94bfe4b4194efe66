# lending_pool

A share-based (LP-token) liquidity pool for Soroban, with its rules verified by Verus.

Providers deposit a token and get shares. A share is priced by the assets that the pool manages:
principal plus realised yield, less what was paid out. What the contract's address happens to hold
of the token sets no price; it only decides whether a redemption can be paid now. One contract
serves any number of tokens.

- `src/` is the library. A call works on an `Env`: the entries that it sees, and the list of
  requests (authorisations, writes, transfers, events, a code update) that it leaves for the
  ledger. The library reaches no ledger itself, and nothing in it is taken on trust.
  - `rules.rs` says when a call is refused, when it aborts, and what it leaves behind.
  - `liquidity.rs`, `admin.rs` and `queries.rs` are the calls; `checks.rs` tells whether one would
    abort.
  - `entries.rs` says which entry stands under which key.
  - `accounts.rs`, `steps.rs`, `laws.rs` and `storage.rs` state and prove what holds of all calls:
    that the accounts add up, that nobody can lower what a holding redeems to, that changes are
    authorised, that what is written is what is seen.
- `app/` is the contract: it loads the entries, lets the library decide, and has the ledger do
  what was asked for.
- `tests/` runs the library.
