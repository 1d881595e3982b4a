# tessera-core

Tessera reads a Kubernetes cluster and says what is broken on the path of a
request, from the ingress through services, workloads and pods to the nodes.
This crate is its core, written in Verus: the functions in `src/` carry
contracts, and the contracts are proved.

## Layout

- `collect` turns what the cluster's API returned into a `ClusterGraph`.
- `diagnose`, `extended` and `rules` find the issues in a graph.
- `active` plans a network test, goes through it step by step, and says what its
  results mean.
- `cloud` decides which AWS commands to run for the health of load balancers,
  and reads what they print.
- `policy`, `guard` and `audit` decide what may be done, and what is recorded.
- `kubeconfig`, `advice` and `shell_env` list contexts, explain errors and merge
  search paths.
- `quantity`, `decimal` and `reading` read and write resource quantities exactly
  as double-precision arithmetic does.
- `laws` states what holds of the library as a whole; other laws stand beside
  the functions they are about.
- `text`, `scan`, `split`, `numeral`, `order`, `pick`, `labels`, `lettercase`,
  `json` and `clock` are the ground the rest stands on.

`app/` is the ordinary Rust around the core: calls to the cluster and to the AWS
CLI, files, and the actions that the desktop shell offers.

## What is taken on trust

Three calls leave the verified code, each behind a wrapper that says what is
claimed of it: `str::to_lowercase` (`lettercase`), `serde_json::from_slice`
(`json`) and the system clock (`clock`).
