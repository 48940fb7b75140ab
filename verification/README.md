# trustfall_errors

Error propagation for query adapters, verified with Verus.

An adapter maps a schema to data. Its resolvers take lazy sequences of query contexts and give lazy
sequences of outcomes, one for each context and in the same order, and every outcome may be an
error. Pipelines over an adapter do not deal with errors: they see plain items. The first error of
a run goes to a slot that all sequences of the run share, the adapter is not asked for more, and the
results of the run are the completed rows, then that one error, then nothing.

## Layout

- `src/` is the verified library.
  - `pull`: lazy sequences. Every pull borrows the state that the sequences of a run share. A
    sequence has a *log* of its pulls so far and a *behavior*, the logs that it may come to have; a
    sequence that is built on another states its behavior over that of the other, also behind a box.
  - `ir`, `adapter`, `basic_adapter`: values, contexts, and the traits that data providers implement.
  - `helpers`: resolvers of whole sequences out of functions of one vertex.
  - `error`, `error_tracking`, `surface`: the errors, their way into the slot, and their way out.
  - `bridge`: a synchronous adapter behind an asynchronous stream of contexts.
- `tests/` runs the library: queries over faulty adapters, and each module by itself.
- `app/` is ordinary Rust around the library: adapters over streams, concurrent resolution, `std`
  iterators, and errors that can be shown and serialized.
