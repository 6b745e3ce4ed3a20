# next-plugin-gog

The GOG storefront plugin for Bottles: login, library listing and watching, and
install manifests out of GOG Galaxy's builds/depot API.

- `src/` is the library, verified with [Verus](https://github.com/verus-lang/verus):
  everything the plugin decides and computes. It makes no requests; what the
  network, the credential store and the clock say comes in as arguments. The one
  exception is a stored token that lacks the time of its last update: where such a
  token is read, `gog` fills in the current time.
  - `depot`: URLs of the depot API, the choice of a build and of a depot, chunk URLs.
  - `manifest`: install manifests with their sizes.
  - `install`: the steps from an install request to a manifest.
  - `watch`: the steps of watching a library.
  - `service`: login challenges, and the steps of a login.
  - `session`: tokens and linked accounts. `refresh`: the steps of a refresh.
  - `gamesdb`, `games`: catalog records and the games made of them.
  - `registry`: what follows from registering with core.
  - `error`: the statuses that calls fail with.
  - `text`, `template`, `urlencode`: decimal numbers, replacement, `{slot}`
    templates, percent-encoding.
- `app/` is the process around it: gRPC service, HTTP requests, JSON shapes,
  credential store, heartbeat.
- `tests/` runs the library.

What the proofs rest on without proof are the contracts of a few outside calls:
`flate2` (decompression), `serde_json` with `gog`'s token type, `chrono` (dates),
`uuid` (challenge ids) and `String::push`. Each is marked
`#[verifier::external_body]` or `assume_specification`, with what is claimed of it.
