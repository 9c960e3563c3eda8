# stacks_exchange

A GraphQL server for keeping the shared balances of squads, with Google
sign-in.

- `src/` is the library, verified with Verus: Google sign-in token checks,
  the certificate cache's state machine and the reading of the certificates'
  `Cache-Control` header (`googlesignin`), the ordering of
  certificates by key id (`keyorder`), database settings and records (`db`),
  the GraphQL objects, connections and mutation inputs (`graphql`), node
  identities (`uid`), and decimal and percent-encoded text (`text`).
- `app/` is the server around it: configuration loading, the PostgreSQL pool
  and queries, HTTPS fetches of Google's certificates, token decoding, and the
  actix-web / async-graphql plumbing.
- `tests/` exercises the library.

Configuration parameters are read from `conf/default.toml`, then from an
optional override file passed with `-c`, then from `DEF_`-prefixed
environment variables.
