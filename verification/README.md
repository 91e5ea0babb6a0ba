# technical_commercial_proposal

The rules of a service that runs price information requests (ЗЦИ) and the
technical-commercial proposals (ТКП) that organizations send in answer.

- `src/` is the library, verified with Verus: the checks of requests and
  proposals, the status transitions of every action, the merging of a saved
  request with the stored one, the grouping of records for the lookups, and
  the data handed back to the user. `src/laws.rs` states the properties that
  hold across operations.
- `app/` is the service around it: HTTP routes, the broker consumer, the
  periodic closing of acceptance, and the reads and writes of the database
  and the monolith. Each call converts the records to the library's plain
  values, lets the library decide, and writes back what it decided.
- `tests/` runs the library on concrete values.
