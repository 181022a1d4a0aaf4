# reviews_api

The verified core of a small review service built on Rocket.

- `src/` — the library, verified with Verus:
  - `utils.rs`: the key of a user's stored refresh token (`refresh_token_<id>`),
    with the proof that distinct users get distinct keys;
  - `jwt.rs`: claims and tokens, reading the bearer token out of an
    `authorization` header, the strict and the optional claims guards
    (as steps around the token decoder), and the issuing of claims;
  - `catchers.rs`: the `404` and `401` answers;
  - `validation.rs`: rule violations, the `Validate` trait, the validated
    guards for bodies, request guards and forms, and the `400` catcher;
  - `routes/`: the request bodies and their rules, the echo routes, and the
    decisions of the login and renewal flows;
  - `outcome.rs`: what a guard concludes, and the HTTP statuses used.
- `app/` — the server: routes, Rocket guards and catchers, JSON and token
  encoding, environment variables and the key/value store. The login
  route, the review listing and the business listing query the service's
  generated database client, which these sources do not include: the login
  flow is driven in `app/login.rs` against a `UserStore` trait, and none of
  the three is mounted.
- `tests/` — tests of the library on concrete values.
