# coinswap-maker

The decision logic of a coinswap maker, verified with Verus.

- `src/maker.rs`: the maker and its settings.
- `src/funding.rs`, `src/funding_laws.rs`: checking a taker's proof of funding.
- `src/signing.rs`, `src/signing_laws.rs`, `src/signing_cache_laws.rs`: examining and signing the
  sender's contract transactions.
- `src/swap_laws.rs`: what a proof of funding owes to the contracts signed before it.
- `src/connections.rs`, `src/idle.rs`: the connections of takers, and giving up those that fell
  silent.
- `src/contract_broadcast.rs`, `src/contract_broadcast_laws.rs`,
  `src/contract_broadcast_course.rs`: broadcasting the contracts of a dropped swap and claiming its
  coins by their timelocks.
- `src/keys.rs`, `src/transaction.rs`, `src/messages.rs`, `src/error.rs`: the data.

A piece of work that needs the node, the wallet or the contract scripts is a value that names its
next question or task and moves on with the answer. `app/` asks the questions, keeps the locks and
the threads, and reads the clock.
