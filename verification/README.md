# easy_occp

Management server for a handful of wallboxes (OCPP charge points): local
users, chips, employees, charging statistics, CSV export and a monthly PDF
report, with OCPP 1.5 (SOAP) and OCPP 2.0.1 entry points.

## Layout

- `src/` – the library, written in Verus and verified:
  - `ocpp/` – OCPP frames (parse and write), the registry of live
    connections, the SOAP endpoint's reading and answers, 2.0.1 routing;
  - `domain/` – data model and the statistics (quarter roll-up, queries);
  - `web/views/` – what the pages decide: form checks, transaction scopes,
    the CSV export, the monthly report's period, grouping and texts;
  - `db.rs`, `auth/` – passwords (Argon2), the first-start admin, login;
  - `text.rs`, `num.rs`, `order.rs` – character sequences, decimal
    numbers and string ordering, with their specifications.
- `tests/` – tests of the library on concrete values.
- `app/` – the server program: configuration file, SQLite access, HTTP
  routes, PDF drawing.

Calls into outside crates (serde_json, chrono, argon2, dashmap, std) go
through small trusted wrappers whose contracts are documented where they
are declared.
