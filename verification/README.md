# zggsds

A time-tracking service: employees record their working hours per project,
department managers give the first approval, project owners the second, and
administrators and timekeepers manage departments, projects and accounts.

- `src/` is the library, verified with Verus: roles and permissions, the
  approval workflow of time entries, registration and its approval, the
  department tree, listing scopes and paging, the login throttle, bearer
  tokens, calendar dates, export labels and the error messages.
- `app/` is the HTTP service around it (axum, sea-orm on SQLite, the xlsx
  export, JSON logs of changes, and the checks on hours, which are floating
  point).
- `tests/` runs the library on concrete cases.
