# slot_cli

The verified core of the Slot command line tool for Cartridge: the parts of
its commands that parse options, compute, check data and decide what to print,
written in Verus with their contracts proved.

- `src/merkle_drops`: reward tables from holder snapshots (`process`), the
  holder index and sorted snapshot rows (`snapshot`), and the checks on claim
  data (`create`).
- `src/paymaster`: look-back periods and their start time (`utils`), budget
  and creation requests, the policy table, transaction options and table,
  and the Dune query.
- `src/deployments`: tiers, service names, configuration display and
  warnings, log following, account listings.
- `src/auth`, `src/teams`, `src/rpc`, `src/paymasters`: option types and the
  small formatting and decision steps of those commands.
- `src/text.rs`, `src/json.rs`: character-level text handling and JSON values.

`app/main.rs` is a command line around the library for `merkle-drops process`
and `merkle-drops snapshot` on Starknet: files, network calls and printing.
The other commands talk to the Cartridge API through client crates (`slot`,
`katana_cli`, `torii_cli`, `graphql_client`) that this build does not have,
so they have no command line here; their decisions and formatting are in
src/ all the same.
