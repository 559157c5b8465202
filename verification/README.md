# donation_transparency

Queries over the Australian Electoral Commission's detailed receipts, kept in
a Postgres database: how much each party received in each financial year, and
what a donor gave to each party.

- `src/` is the verified library (Verus). It holds the row types, the sums of
  donation amounts, the per-year totals, the grouping of results by year or
  by party name, and the outcome of lookups by id, each with a contract.
- `app/` runs the database side with SeaORM: it connects, sends the queries,
  converts the rows to the library's types and hands them to the library.
- `tests/` exercises the library on concrete rows.
