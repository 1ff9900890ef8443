# data_coalition

Verified bookkeeping of a data-coalition contract: DAOs created through the
contract, their data categories, staking of the native token with lock
times, board membership, and the delegation of data NFTs to a data
aggregator. Every function in `src/` is checked by Verus against a contract
stated over a mathematical model of the storage (`state::CoalitionModel`).

Layout:

- `src/amount.rs` – natural numbers of any size (token amounts) and their
  minimal big-endian encoding.
- `src/address.rs`, `src/storage.rs` – addresses, unordered sets and keyed
  stores with the semantics of the contract's storage mappers.
- `src/state.rs` – the storage and its model.
- `src/config.rs`, `src/dao.rs`, `src/aggregate.rs`, `src/category.rs`,
  `src/board.rs`, `src/stake.rs`, `src/coalition.rs` – the contract's
  modules; calls to other contracts and token transfers are returned as
  values (`types::ContractCall`, `types::Transfer`) for the runtime to perform.
- `src/laws.rs` – properties over sequences of calls: the storage invariant,
  permanence of user ids, and calls that undo each other.
- `app/` – conversions to and from MultiversX managed types and a runner
  that performs the returned calls on a chain.
