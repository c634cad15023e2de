# holosite

The core of a small blogging site (users, blog posts, threaded comments,
projects), verified with Verus.

- `src/` is the verified library: the layout of comment threads
  (`render`, with its laws in `render_laws` and `input_order`), what the storage queries select
  from the rows of a table (`queries`), how storage failures become the site's
  errors (`errors`), the credential check and the rows and changes the
  services write (`services`), the redirection targets (`locations`), and the
  decisions of the request handlers: login and registration (`access`),
  password and name changes (`password_change`, `name_change`) and the
  creation of a project (`project_creation`) as state machines, and the smaller checks of `handlers`. `storage_laws` states
  what reads give back after inserts, updates and deletes.
- `app/` is the web server around it (actix-web, diesel on SQLite, sessions
  in Redis, flash messages, pages). It performs the reads, writes and other
  effects the library's functions ask for and hands back what came of them.
  The rules on names and passwords and the hashing of passwords are supplied
  by the embedding program through `domain::PasswordScheme`.
- `tests/` runs the library on concrete values.
