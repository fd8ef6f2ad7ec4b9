# millipede_core

The core of a web crawler: requests and their keys, link filtering, retries, sessions, cookies,
proxies, politeness and autoscaling, statistics, sitemaps, and the decisions of the crawl engine.

- `src/` is the library. Every function states what it does in a contract, and Verus proves it.
  Public `proof fn` items state what holds across functions. Calls into other crates stand behind
  small functions marked `#[verifier::external_body]`; the comment above each says what is taken
  from that crate without proof.
- `app/` performs what the library decides: storage and transport traits, timers, channels, and the
  dispatch loop.
- `tests/` runs the library on concrete values.

Times, random numbers and environment variables are arguments of the library, so that its functions
are functions. Ratios and rates that need floating point are computed in `app/`.
