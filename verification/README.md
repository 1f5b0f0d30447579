# deadline_checker

Proof-of-capacity deadline checking for Burst-style chains, verified with Verus.

- `src/poc.rs`: scoop selection, generation signature chaining, nonce generation and
  best-deadline search, specified over the Shabal-256 digest named in `src/shabal.rs`.
- `src/plot.rs`: PoC1/PoC2 scoops of a nonce, plot file names, where to read a scoop
  in a plot file, deadline scaling.
- `src/verify.rs`: checking a block header against the previous one, checking a whole chain, and reporting
  runs of failed checks.
- `src/hexcodec.rs`, `src/decimal.rs`, `src/text.rs`: hexadecimal and decimal text.
- `src/network.rs`, `src/extract.rs`: wallet requests and wallet types.
- `app/`: the command line program (argument handling, HTTP, files, CSV, RPC).
