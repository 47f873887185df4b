# pallet_donate

The logic of a small DAO pallet, verified with Verus.

Organisations are founded with a first donation; anyone joins one by
donating to it. Anyone may file a proposal for a payment out of an
organisation's treasury, and its members vote on it. The vote that passes a
proposal creates a recipe: a 60-second timer tied to a transfer of the
requested payment. An off-chain worker tracks the live recipes, fires those
whose timer ran out and submits the transfers as unsigned transactions.

- `src/types.rs`: records, calls, events and errors.
- `src/pallet.rs`: the storage (`Pallet`, viewed as `PalletView`) and the calls,
  each with an exact contract.
- `src/offchain.rs`: the off-chain worker's decisions and the validity of
  unsigned transactions.
- `src/laws.rs`: the consistency of the storage, kept by every call, and laws
  over runs of calls (proposals only advance, one payout per proposal).
- `src/account.rs`, `src/bounded.rs`, `src/encoding.rs`: the calls into
  `frame-support`, `sp-runtime` and `parity-scale-codec` (treasury accounts,
  bounded vectors, the encoding of provided tags).
- `src/ordered_keys.rs`: a map's keys in increasing order.
- `app/`: the runtime side: dispatch with currency transfers, the worker's
  round with local storage, lock, clock and submissions, codec encoding, and
  the pool validity as `sp-runtime` types.
