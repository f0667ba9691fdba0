# overslash_api

The decisions the Overslash API's request handlers make, written in Verus
and proved against their contracts: sessions and cookies, the
identity-provider login round trip, admission to corporate orgs, the connect
check in front of OAuth links, approvals and their replay, agent
enrollment, Stripe billing and webhooks, audit queries and the small codecs
these rest on. Each decision is a function from plain values to plain
values; the handlers' own sequencing of store reads and writes, network
calls and clean-up is not part of this crate and is not proved here.

- `src/` is the verified library. Each module states its rules as spec
  functions and proves the executable code against them; laws that relate
  several functions are public proof functions named `law_*`. Calls into
  outside crates (hex, HMAC-SHA256, SHA-256, subtle, base64, rand, url,
  urlencoding, uuid, argon2, time, serde_json's parser, http's header check) sit behind small
  trusted wrappers whose contracts are documented where they are declared.
- `tests/` runs the library on concrete values.
- `app/` is the HTTP plumbing around it: reading headers, sending the
  Stripe price lookup, rendering errors and listings, and serde copies of
  the request types.
