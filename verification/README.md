# Argus

An OpenID Connect identity provider. People sign in once, with a password or with GitHub, and every
product trusts the same identity. Agents have machine identities of their own: owned by a person,
bounded in scope, revocable at once.

- `src/` is the library, verified with Verus: settings, the store, tokens, and one function for each
  endpoint (`routes` names them). A function whose name ends in `_at` or `_with` takes the time and the
  random tokens as arguments and has an exact contract; the function without the ending draws them.
- `src/laws.rs` and `src/guarantees.rs` state what holds of the store and across requests: a code and a
  refresh token work once, a revoked agent is out at once and stays out, forms need the CSRF token,
  redirect URIs are matched exactly, passwords and secrets are stored as Argon2id hashes, the bootstrap
  administrator is promoted once, keys stay unique.
- `app/` is the server around it: SQLite, the network, the settings file.
- `tests/` runs the library.

The store holds the tables in memory and a journal of the changes made to them. The server loads the
tables from SQLite and writes the journal back after each request.

```
GET  /.well-known/openid-configuration   discovery
GET  /jwks.json                          public signing keys
GET/POST /login, /register               interactive sessions
GET  /auth/github[/callback]             GitHub upstream login
GET/POST /authorize                      authorization + consent
POST /token                              authorization_code | refresh_token | client_credentials
GET  /userinfo                           human or agent profile from bearer token
POST /introspect                         RFC 7662, honors the agent kill switch instantly
POST /register-client                    dynamic registration of public clients
GET  /health
POST /api/agents                         register an agent (session required)
GET  /api/agents                         list own agents
POST /api/agents/{id}/status             revoke / re-activate (kill switch)
```
