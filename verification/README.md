# batch_system

The core of a server that takes packets in, opens them, answers them and
sends the answers out, in batches. It is a Verus library: every function under
`src/` states what it does in `requires` and `ensures`, and Verus proves it.

## Layout

- `src/packets`: the wire format, parsing and sealing of packets, the pipeline
  stages, the packet service and its dispatcher.
- `src/crypto`, `src/acceleration`: ciphers, hashes and key derivation, alone
  and in batches, behind wrappers around the crates that compute them.
- `src/optimized`: buffer pools, the crypto processor, the work-stealing
  dispatcher and the factory that builds them.
- `src/io`: readers, writers and their buffers, as steps between events.
- `src/circuit_breaker`, `src/qos_manager`, `src/adaptive_batcher`,
  `src/load_aware_dispatcher`, `src/metrics_tracing`, `src/heartbeat`: breakers,
  quality of service, batch sizes, loads, metrics and health.
- `src/integration`: the system made of all these, its events, its commands and
  its control rules.
- `app/`: the runtime around it, with clocks, channels, streams and the models
  in floating point.

## Conventions

Times and durations are nanoseconds in a `u64`, unless a name says otherwise.
Peers are numbers. A share is a `Ratio` of two counters or a number of
thousandths. A value measured in floating point enters as a `Measure`, rounded
down and up to thousandths, so that a comparison with a bound in thousandths
comes out as it would for the value itself.

What the library asks of other crates stands in small wrappers marked
`external_body`. Each has a comment that says what is claimed of the call; these
claims are the only ones that are not proved.
