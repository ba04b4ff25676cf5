# rdplatform

An R&D task and timesheet platform for a small team (project manager,
developers, testers): projects, tasks, hours booked on tasks, cost against
budget, estimate deviation, member load and overdue tasks, served as HTML
pages over a minimal HTTP/1.1 server with password login and cookie
sessions.

## Layout

- `src/` — the library, written in Verus and verified:
  - `model` — roles, members, projects, tasks, timesheets; amounts and hours
    are carried as IEEE 754 bit patterns (`FloatBits`).
  - `text` — trimming, splitting, decimal printing and parsing on characters.
  - `http` — URL decoding, form parsing, HTML escaping, responses, and
    request parsing from a request line, header lines and body bytes.
  - `sha`, `clock` — SHA-256 (the `sha2` crate) and the system clock.
  - `table` — a string-keyed table with distinct keys.
  - `auth` — salted password hashes, sessions with a lifetime, cookie tokens,
    and the login-failure lockout; all state is passed explicitly.
  - `store` — the in-memory data with its CRUD operations, the seed data,
    the statistics (as counts and as the terms of the sums), and dates.
  - `page` — the HTML pages, with exact specifications of their text.
  - `api` — routing by role, login and logout, the write actions, and
    `dispatch`, which answers a request.
- `app/` — the executable: TCP connections, the JSON data file (serde), and
  the binary64 arithmetic and formatting of hours and money.
- `tests/` — tests of the library.
