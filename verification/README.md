# cedar_agent

Benchmark tooling around Cedar authorization: a deterministic generator of benchmark
datasets (users, documents, ABAC policies, request workloads) and the pieces of an
in-process benchmark that compares two Cedar evaluators.

- `src/` is the library, verified with Verus.
  - `lcg`: the 64-bit linear congruential generator and its draws.
  - `text`, `names`: decimal and zero-padded rendering, department/team/clearance/action names.
  - `params`: dataset sizes, with probabilities held as integer cutoffs over 2^53.
  - `entities`, `policies`, `requests`, `dataset`: the generator, each stated against a
    spec of what it draws, with the dataset's consistency and determinism proved.
  - `nesting`: the bound on how deeply a policy text may nest before Cedar's parser sees it.
  - `cedar`: the calls into `cedar-policy`, with the contracts they are trusted to meet.
  - `bench`: building policy sets, entities and requests from benchmark files, the parity
    check between evaluators, and the split of iterations among workers.
  - `service`: the authorizer cache, the stateless evaluation, and the next step of the
    cached request path.
- `app/` holds the programs: writing a dataset to disk and timing the evaluators.
- `tests/` runs the library on concrete values.
