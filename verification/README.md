# pumper_routes

The rules behind pumper's HTTP surface, verified with Verus.

- `src/` is the library: every decision a route makes, as functions from plain
  values to plain values with contracts. The laws that span several functions are
  the public proof functions named `law_…`.
- `app/` is the service around it: axum handlers, server-sent events, file and
  store I/O, and the floating-point arithmetic on dollar amounts.
- `tests/` runs the library on concrete values.

| module | what it decides |
| --- | --- |
| `error`, `paging`, `cursor` | refusals and what they disclose, pages and their cursors |
| `json`, `text`, `number`, `order`, `clock`, `ident` | the values everything else is made of |
| `jobs`, `executors`, `schedules`, `triggers`, `events` | the queue, who may run it, and what is announced |
| `datasets`, `filters`, `export`, `removal`, `derived`, `grants` | reads, exports and guarded deletes of records |
| `provenance`, `doctor`, `metrics`, `health` | where records come from and how the store and its sources fare |
| `ingress`, `principals`, `mesh`, `weather` | who may send, call and peer |
| `economics`, `provisioner`, `preview`, `search`, `listing` | advice, proposals, previews and listings |

Calls into other crates stand behind the items marked `external_body` or
`assume_specification`; their doc comments say what is taken on trust.
