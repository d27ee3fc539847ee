# dbx_web_auth

The sign-in of a small web server, as a Verus library: accounts, password
hashes, sessions and their cookies, the limit on failed logins, the management
of users, and the guard in front of the API.

- `src/` decides. Its functions take the state of the server, what a client
  sent, what the users table answered and the present time, and give back the
  reply or the next thing to do. Every function states what it returns and how
  the state changes; the public proof functions state what holds of several
  functions together.
- `app/` performs. It holds the `axum` handlers, the JSON bodies, the clock and
  the traits behind which the users table and the saved passwords live.
- `tests/` runs the library against a users table in memory.

| module | subject |
| --- | --- |
| `text`, `table` | texts on the level of characters; a table keyed by texts |
| `state`, `store` | what the server keeps; what goes to and comes from the users table |
| `request`, `reply` | what clients send; what they are answered |
| `password` | hashing and checking with `argon2` |
| `cookie`, `session` | the session cookie; opening, finding, refreshing and ending sessions |
| `account` | accounts of the host and of the users table; the right of an admin |
| `limit`, `login` | counting failed logins; signing in |
| `setup`, `check` | the first account; telling a client who it is |
| `change_password`, `users`, `listing` | passwords and accounts; the list of all accounts |
| `paths`, `guard` | which paths belong to the API; who gets through; signing out |

A request that needs the users table or a slow computation goes through several
functions: `login`, for instance, answers at once or asks for a lookup,
`login_loaded` takes the result, `verify_login` checks the password without
holding the state, and `finish_login` counts the failure or opens the session.

What is believed without proof stands in the functions marked `external_body`:
the calls into `argon2`, `uuid` and the header types of `axum`, and the two
lower-case functions of `str`.
