# Arrow Flight worker

A data-plane worker for a lakehouse: it takes Arrow record batches over Flight `DoPut` and stores
them as Parquet objects, and it serves those objects over `DoGet`. A coordinator plans uploads and
queries and hands out signed tickets; the worker verifies them and keeps to their limits.

## Layout

- `src/` is the library, written in Verus: the decisions of the worker and of its client tools, with
  contracts that are proved.
- `app/` is ordinary Rust around it: the Flight server, the object store, the metadata database,
  the metrics endpoint, logging, and the command line.
- `tests/` runs the library on concrete values.

## The library

| Modules | What they decide |
| --- | --- |
| `text`, `number`, `path`, `util`, `error`, `status`, `json`, `codec`, `clock` | text, numbers, object keys, errors, and the calls into outside crates |
| `env`, `config` | settings from the environment and the host, and their defaults |
| `capability`, `ticket`, `put_grant` | what a signed capability or a ticket lets a client read and write |
| `resource`, `admission`, `admission_flow`, `flight_service`, `server` | slots, memory, admission and its order, limits and snapshots |
| `put_flow`, `put_writer`, `sized_dataset`, `put_model` | a write from admission to its answer, in one file or split by size |
| `worker_status`, `metadata_store` | scheduling signals and database records |
| `metrics`, `metrics_page`, `logging` | the metrics page and its lines, correlation identifiers, log lines |
| `flight_uri`, `upload`, `query`, `profile`, `generate` | the client tools |

Proof functions named `law_..` state what holds across functions: that a release undoes what was
reserved, that an accepted capability carries the right code, is within its life and is for one
operation, that a granted write and each of its batches stay within its capability, that a dataset
is split without loss and its files are the parts of the split, that part writers stay within the
limit of the worker, that a stream is refused for the first of its reasons, that a read is counted
once, that every metric is typed once before its samples.

Calls into outside crates stand behind small functions marked `external_body`. Their doc comments
say which function is called and what is taken to hold of it. Floating point, I/O and waiting stay
in `app/`.
