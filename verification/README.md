# geyser_discovery

A service that follows Solana programs over a Yellowstone gRPC subscription,
discovers liquidity pools in their transactions and accounts, and adds the
pools it finds to the subscription.

- `src/` is the verified library (Verus): the configuration and its
  commitment level (`config`), log titles (`logger`), the subscription
  request, its merging of discovered pools, its size limit and its store
  (`subscription`), the batcher that rate-limits resubscriptions
  (`discovery`), the decisions of the streaming session (`session`), and the
  human-readable sizes printed in the logs (`human_size`).
- `app/` is the program around it: configuration file, gRPC connection,
  Tokio tasks and channels, logging.
- `tests/` runs the library on concrete values.
