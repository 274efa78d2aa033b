# Statsig forward proxy

A proxy between Statsig SDKs and Statsig. It fetches config specs, their deltas
and id lists once, keeps them in memory and in Redis, and hands them on over HTTP
and as streams. Log events pass through it the other way, with repeated exposures
left out.

- `src/` is the library: parsing, stores, caches, polling, back-off, streaming and
  the choice of what to answer. It is written in Verus. Each function states in
  its contract what it returns and changes, and public proof functions named
  `law_...` state what holds of several functions together.
- `app/` is the program around it: arguments, sockets, timers, the Redis client
  and the metrics sinks. It performs what the library decides.
- `tests/` runs the library on concrete values.

Calls into other crates stand in the library behind small functions marked
`#[verifier::external_body]`. Their contracts are taken on trust, and the comment
above each says what is claimed of the outside function.

Time is passed into the library. Work that waits is written as steps: a function
takes the state and what has happened, and returns the next thing to do.
