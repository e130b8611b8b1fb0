# magma_core

A concentrated-liquidity vault for the Neutron dex: depositors pool two tokens
and receive shares; the vault keeps them in three dex positions (full range,
base and limit) and rebalances them around the pair's price.

- `src/` is the verified core, written with Verus: share accounting,
  parameter and governance checks, the fee split, the rebalancing plan, the
  dex messages it builds, and the 256-bit and 27-decimal arithmetic it rests
  on. Every public function states what it returns in its contract; the
  proof functions state the vault's laws (no dilution on deposit, no
  withdrawal beyond its share, conservation of the balances, one public
  rebalance per block, ...).
- `tests/` runs the core on concrete values and whole flows.
- `app/` is the CosmWasm contract around the core: entry points, storage,
  the share token (cw20), the dex queries, and the floating-point price to
  tick conversion.
