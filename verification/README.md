# relay-panel

The core of a relay panel and its nodes, verified with Verus.

- `src/updater.rs`, `src/digest.rs`, `src/semver.rs`: the self-upgrade of a node.
- `src/shop.rs`: the list of plans, the purchase of one, a user's orders.
- `src/sql.rs`, `src/user_groups.rs`: the statements of the user group repository, for SQLite
  and PostgreSQL.
- `src/authorization.rs`: the device groups that a user may use.
- `src/group_update.rs`: the update of a user group in one transaction with the pause of the
  rules that its members are no longer authorized for.
- `src/link_update.rs`: the replacement of the device groups that a user group is linked to.
- `src/tables.rs`: what the statements read and change, row by row; the laws on rows are in
  `src/table_laws.rs` and `src/access_laws.rs`.
- `src/*_laws.rs`: what holds of these over whole runs.

What spans several steps of input and output is a state machine: `action` says what to do next
and `step` takes what came of it. `app/` performs the actions: it downloads, touches files, asks
the database and answers requests.
